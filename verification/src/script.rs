//! Scripts and their executors: the data model of the registry, and the
//! resolver that turns a script plus trailing arguments into a command line.

use vstd::prelude::*;
use vstd::string::StrSliceExecFns;
use vstd::string::StringExecFns;

use crate::node::child;
use crate::node::child_str;
use crate::node::Node;
use crate::parse::lower_of;
use crate::parse::seq_starts_with;
use crate::parse::str_starts_with;
use crate::parse::to_lower;

verus! {

/// How a script is run: the raw command itself, a delegation to a package
/// manager's run-script mechanism, or a custom delegator command.
#[derive(Debug, PartialEq, Eq, Hash)]
pub enum ScriptExecutor {
    Direct,
    Npm,
    Yarn,
    Pnpm,
    Composer,
    Custom(String),
}

/// The mathematical value of a `ScriptExecutor`: the custom payload as a
/// sequence of characters.
pub ghost enum ExecutorModel {
    Direct,
    Npm,
    Yarn,
    Pnpm,
    Composer,
    Custom(Seq<char>),
}

impl View for ScriptExecutor {
    type V = ExecutorModel;

    open spec fn view(&self) -> ExecutorModel {
        match self {
            ScriptExecutor::Direct => ExecutorModel::Direct,
            ScriptExecutor::Npm => ExecutorModel::Npm,
            ScriptExecutor::Yarn => ExecutorModel::Yarn,
            ScriptExecutor::Pnpm => ExecutorModel::Pnpm,
            ScriptExecutor::Composer => ExecutorModel::Composer,
            ScriptExecutor::Custom(cmd) => ExecutorModel::Custom(cmd@),
        }
    }
}

impl Clone for ScriptExecutor {
    fn clone(&self) -> (r: Self)
        ensures
            r == *self,
    {
        match self {
            ScriptExecutor::Direct => ScriptExecutor::Direct,
            ScriptExecutor::Npm => ScriptExecutor::Npm,
            ScriptExecutor::Yarn => ScriptExecutor::Yarn,
            ScriptExecutor::Pnpm => ScriptExecutor::Pnpm,
            ScriptExecutor::Composer => ScriptExecutor::Composer,
            ScriptExecutor::Custom(cmd) => ScriptExecutor::Custom(cmd.clone()),
        }
    }
}

/// The executor a name in an `executor` table stands for: the four package
/// managers, compared after case folding; anything else is unknown.
pub open spec fn executor_name(s: Seq<char>) -> Option<ExecutorModel> {
    let l = lower_of(s);
    if l == "composer"@ {
        Some(ExecutorModel::Composer)
    } else if l == "npm"@ {
        Some(ExecutorModel::Npm)
    } else if l == "yarn"@ {
        Some(ExecutorModel::Yarn)
    } else if l == "pnpm"@ {
        Some(ExecutorModel::Pnpm)
    } else {
        None
    }
}

/// The default executor a JS manifest's package-manager field declares: a
/// value starting with "pnpm" means Pnpm, one starting with "yarn" means
/// Yarn, and anything else (or no field at all) means Npm.
pub open spec fn inferred_default(pm: Option<Seq<char>>) -> ExecutorModel {
    match pm {
        None => ExecutorModel::Npm,
        Some(s) => if seq_starts_with(s, "pnpm"@) {
            ExecutorModel::Pnpm
        } else if seq_starts_with(s, "yarn"@) {
            ExecutorModel::Yarn
        } else {
            ExecutorModel::Npm
        },
    }
}

impl ScriptExecutor {
    /// Reads an executor name, case-insensitively; unknown names are
    /// reported back as an error.
    pub fn from_str(s: &str) -> (r: Result<ScriptExecutor, String>)
        ensures
            match r {
                Ok(e) => executor_name(s@) == Some(e@),
                Err(m) => executor_name(s@) is None && m@ == "Invalid Executor: "@ + s@,
            },
    {
        let l = to_lower(s);
        if l == "composer".to_owned() {
            Ok(ScriptExecutor::Composer)
        } else if l == "npm".to_owned() {
            Ok(ScriptExecutor::Npm)
        } else if l == "yarn".to_owned() {
            Ok(ScriptExecutor::Yarn)
        } else if l == "pnpm".to_owned() {
            Ok(ScriptExecutor::Pnpm)
        } else {
            let mut m = "Invalid Executor: ".to_owned();
            m.append(s);
            Err(m)
        }
    }

    /// The default executor inferred from a JS manifest's package-manager
    /// field.
    pub fn infer_default(package_manager: Option<&str>) -> (r: ScriptExecutor)
        ensures
            r@ == inferred_default(
                match package_manager {
                    Some(s) => Some(s@),
                    None => None,
                },
            ),
    {
        match package_manager {
            None => ScriptExecutor::Npm,
            Some(s) => {
                if str_starts_with(s, "pnpm") {
                    ScriptExecutor::Pnpm
                } else if str_starts_with(s, "yarn") {
                    ScriptExecutor::Yarn
                } else {
                    ScriptExecutor::Npm
                }
            },
        }
    }
}

/// A named script: its command template (empty when execution is deferred to
/// an external tool), an optional description, the directory it runs in, and
/// the executor that runs it.
#[derive(Debug, Clone)]
pub struct Script {
    pub name: String,
    pub cmd: String,
    pub description: Option<String>,
    cwd: String,
    executor: ScriptExecutor,
}

/// The mathematical value of a `Script`.
pub ghost struct ScriptModel {
    pub name: Seq<char>,
    pub cmd: Seq<char>,
    pub description: Option<Seq<char>>,
    pub cwd: Seq<char>,
    pub executor: ExecutorModel,
}

impl View for Script {
    type V = ScriptModel;

    closed spec fn view(&self) -> ScriptModel {
        ScriptModel {
            name: self.name@,
            cmd: self.cmd@,
            description: match self.description {
                Some(d) => Some(d@),
                None => None,
            },
            cwd: self.cwd@,
            executor: self.executor@,
        }
    }
}

impl Script {
    /// A script whose fields are given directly; it carries no description.
    pub fn from_string(name: String, cmd: String, cwd: String, executor: ScriptExecutor) -> (r:
        Self)
        ensures
            r@ == (ScriptModel {
                name: name@,
                cmd: cmd@,
                description: None,
                cwd: cwd@,
                executor: executor@,
            }),
    {
        Self { name, cmd, description: None, cwd, executor }
    }

    /// The script's name, the registry's key.
    pub fn name(&self) -> (r: &String)
        ensures
            r@ == self@.name,
    {
        &self.name
    }

    /// The directory the script was discovered in, where it will run.
    pub fn cwd(&self) -> (r: &String)
        ensures
            r@ == self@.cwd,
    {
        &self.cwd
    }

    /// The executor that runs this script.
    pub fn executor(&self) -> (r: &ScriptExecutor)
        ensures
            r@ == self@.executor,
    {
        &self.executor
    }

    /// A script read from a table value: the required `cmd` entry is the
    /// command template, an optional `description` entry describes it.
    pub fn from_value(name: String, value: &Node, cwd: String, executor: ScriptExecutor) -> (r:
        Option<Script>)
        ensures
            match r {
                Some(sc) => script_of_value(name@, *value, cwd@, executor@) == Some(sc@),
                None => script_of_value(name@, *value, cwd@, executor@) is None,
            },
    {
        let cmd_key = "cmd".to_owned();
        match value.get(&cmd_key) {
            Some(Node::Str(c)) => {
                let desc_key = "description".to_owned();
                let description = value.get_str(&desc_key);
                Some(Self { name, cmd: c.clone(), description, cwd, executor })
            },
            _ => None,
        }
    }

    /// The shell command line that runs this script with the given trailing
    /// arguments, per the executor resolution rules.
    pub fn command_line(&self, args: &Vec<String>) -> (r: String)
        ensures
            r@ == resolved_line(self@, args@),
    {
        let mut line: String = match &self.executor {
            ScriptExecutor::Direct => {
                let mut l = self.cmd.clone();
                l.append(" ");
                l
            },
            ScriptExecutor::Npm => {
                let mut l = "npm run ".to_owned();
                l.append(self.name.as_str());
                l.append(" -- ");
                l
            },
            ScriptExecutor::Yarn => {
                let mut l = "yarn run ".to_owned();
                l.append(self.name.as_str());
                l.append(" -- ");
                l
            },
            ScriptExecutor::Pnpm => {
                let mut l = "pnpm run ".to_owned();
                l.append(self.name.as_str());
                l.append(" -- ");
                l
            },
            ScriptExecutor::Composer => {
                let mut l = "composer run-script ".to_owned();
                l.append(self.name.as_str());
                l.append(" -- ");
                l
            },
            ScriptExecutor::Custom(t) => {
                let mut l = t.clone();
                l.append(" ");
                l.append(self.name.as_str());
                l.append(" -- ");
                l
            },
        };
        proof {
            assert(line@ == base_line(self@));
            assert(line@ + join_prefix(args@, 0) =~= line@);
        }
        let mut i: usize = 0;
        while i < args.len()
            invariant
                i <= args.len(),
                line@ == base_line(self@) + join_prefix(args@, i as int),
            decreases args.len() - i,
        {
            let ghost pre = line@;
            if i > 0 {
                line.append(" ");
            }
            line.append(args[i].as_str());
            proof {
                if i > 0 {
                    assert(line@ =~= base_line(self@) + join_prefix(args@, i as int + 1));
                } else {
                    assert(join_prefix(args@, 1) == args@[0]@);
                    assert(line@ =~= base_line(self@) + join_prefix(args@, 1));
                }
            }
            i = i + 1;
        }
        proof {
            assert(joined_args(args@) == join_prefix(args@, args@.len() as int));
        }
        trim_end_str(line.as_str())
    }
}

/// A script read from a table value, as a mathematical value: `None` when
/// the table has no string `cmd` entry.
pub open spec fn script_of_value(
    name: Seq<char>,
    v: Node,
    cwd: Seq<char>,
    executor: ExecutorModel,
) -> Option<ScriptModel> {
    match child(v, "cmd"@) {
        Some(Node::Str(c)) => Some(
            ScriptModel { name, cmd: c@, description: child_str(v, "description"@), cwd, executor },
        ),
        _ => None,
    }
}

/// The arguments `args.take(n)` joined with single spaces.
pub open spec fn join_prefix(args: Seq<String>, n: int) -> Seq<char>
    decreases n,
{
    if n <= 0 {
        Seq::empty()
    } else if n == 1 {
        args[0]@
    } else {
        join_prefix(args, n - 1) + " "@ + args[n - 1]@
    }
}

/// All the arguments joined with single spaces.
pub open spec fn joined_args(args: Seq<String>) -> Seq<char> {
    join_prefix(args, args.len() as int)
}

/// A whitespace character, as the trailing trim understands it.
pub open spec fn is_space_char(c: char) -> bool {
    let u = c as u32;
    u == 0x20 || (0x09 <= u && u <= 0x0D) || u == 0x85 || u == 0xA0 || u == 0x1680 || (0x2000 <= u
        && u <= 0x200A) || u == 0x2028 || u == 0x2029 || u == 0x202F || u == 0x205F || u == 0x3000
}

/// `s` with its trailing whitespace removed.
pub open spec fn trim_end_chars(s: Seq<char>) -> Seq<char>
    decreases s.len(),
{
    if s.len() > 0 && is_space_char(s[s.len() - 1]) {
        trim_end_chars(s.drop_last())
    } else {
        s
    }
}

/// The command line before the trailing arguments: the template itself for
/// Direct, the delegating run command otherwise.
pub open spec fn base_line(s: ScriptModel) -> Seq<char> {
    match s.executor {
        ExecutorModel::Direct => s.cmd + " "@,
        ExecutorModel::Npm => "npm run "@ + s.name + " -- "@,
        ExecutorModel::Yarn => "yarn run "@ + s.name + " -- "@,
        ExecutorModel::Pnpm => "pnpm run "@ + s.name + " -- "@,
        ExecutorModel::Composer => "composer run-script "@ + s.name + " -- "@,
        ExecutorModel::Custom(t) => t + " "@ + s.name + " -- "@,
    }
}

/// The full resolved command line: base, then the joined arguments, with
/// trailing whitespace trimmed.
pub open spec fn resolved_line(s: ScriptModel, args: Seq<String>) -> Seq<char> {
    trim_end_chars(base_line(s) + joined_args(args))
}

/// Trimming only shortens from the end: the result is a prefix of `s`, and
/// it keeps every position up to the last non-whitespace character.
proof fn lemma_trim_end_prefix(s: Seq<char>)
    ensures
        trim_end_chars(s).len() <= s.len(),
        trim_end_chars(s) == s.take(trim_end_chars(s).len() as int),
        forall|i: int| 0 <= i < s.len() && !is_space_char(#[trigger] s[i]) ==> trim_end_chars(
            s,
        ).len() > i,
    decreases s.len(),
{
    if s.len() > 0 && is_space_char(s[s.len() - 1]) {
        lemma_trim_end_prefix(s.drop_last());
        let l = trim_end_chars(s).len();
        assert(trim_end_chars(s) == s.drop_last().take(l as int));
        assert(s.drop_last().take(l as int) =~= s.take(l as int));
        assert forall|i: int|
            0 <= i < s.len() && !is_space_char(#[trigger] s[i]) implies trim_end_chars(s).len()
            > i by {
            assert(i < s.len() - 1);
            assert(s.drop_last()[i] == s[i]);
        }
    } else {
        assert(s.take(s.len() as int) =~= s);
    }
}

/// The delegating tool's run prefix of a package-manager executor.
pub open spec fn delegator_prefix(e: ExecutorModel) -> Seq<char> {
    match e {
        ExecutorModel::Npm => "npm run "@,
        ExecutorModel::Yarn => "yarn run "@,
        ExecutorModel::Pnpm => "pnpm run "@,
        ExecutorModel::Composer => "composer run-script "@,
        _ => Seq::empty(),
    }
}

/// Deferral round trip, first half: resolving a script that delegates to a
/// package manager ignores its command template entirely — two scripts of
/// the same name and the same package-manager executor resolve to the same
/// line, whatever their templates, descriptions or directories hold.
pub proof fn lemma_deferred_resolution_ignores_template(
    s: ScriptModel,
    t: ScriptModel,
    args: Seq<String>,
)
    requires
        !(s.executor is Direct),
        s.executor == t.executor,
        s.name == t.name,
    ensures
        resolved_line(s, args) == resolved_line(t, args),
{
    assert(base_line(s) == base_line(t));
}

/// Deferral round trip, second half: the resolved line of a script that
/// delegates to a package manager begins with that manager's run command,
/// never with a raw shell fragment.
pub proof fn lemma_deferred_resolution_delegates(s: ScriptModel, args: Seq<String>)
    requires
        !(s.executor is Direct),
        !(s.executor is Custom),
    ensures
        resolved_line(s, args).len() > delegator_prefix(s.executor).len(),
        resolved_line(s, args).take(delegator_prefix(s.executor).len() as int) == delegator_prefix(
            s.executor,
        ),
{
    let p = delegator_prefix(s.executor);
    let m = " -- "@;
    let b = base_line(s);
    let total = b + joined_args(args);
    reveal_strlit(" -- ");
    assert(m.len() == 4 && m[2] == '-');
    assert(b == p + s.name + m);
    let idx = p.len() + s.name.len() + 2;
    assert(total[idx as int] == '-');
    assert(!is_space_char(total[idx as int]));
    lemma_trim_end_prefix(total);
    assert(trim_end_chars(total).len() > idx);
    assert(resolved_line(s, args).take(p.len() as int) =~= p);
}

/// Whether `c` is whitespace for the purposes of the trailing trim.
fn is_space(c: char) -> (r: bool)
    ensures
        r == is_space_char(c),
{
    let u = c as u32;
    u == 0x20 || (0x09 <= u && u <= 0x0D) || u == 0x85 || u == 0xA0 || u == 0x1680 || (0x2000 <= u
        && u <= 0x200A) || u == 0x2028 || u == 0x2029 || u == 0x202F || u == 0x205F || u == 0x3000
}

/// `s` with its trailing whitespace removed.
fn trim_end_str(s: &str) -> (r: String)
    ensures
        r@ == trim_end_chars(s@),
{
    let n = s.unicode_len();
    let mut k = n;
    proof {
        assert(s@.take(n as int) =~= s@);
    }
    loop
        invariant
            k <= n,
            n == s@.len(),
            trim_end_chars(s@) == trim_end_chars(s@.take(k as int)),
        ensures
            k <= n,
            n == s@.len(),
            trim_end_chars(s@) == trim_end_chars(s@.take(k as int)),
            k == 0 || !is_space_char(s@[k as int - 1]),
        decreases k,
    {
        if k == 0 {
            break ;
        }
        let c = s.get_char(k - 1);
        if !is_space(c) {
            break ;
        }
        proof {
            assert(s@.take(k as int).drop_last() =~= s@.take(k as int - 1));
        }
        k = k - 1;
    }
    let sub = s.substring_char(0, k);
    proof {
        assert(s@.take(k as int) =~= s@.subrange(0, k as int));
        if k > 0 {
            assert(trim_end_chars(s@.take(k as int)) == s@.take(k as int));
        }
    }
    sub.to_owned()
}

} // verus!
