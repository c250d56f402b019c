//! The configuration engine: one discovery pass over the five manifest
//! formats, in their fixed precedence order, feeding a script registry and
//! an executor override table with first-write-wins semantics.

use vstd::prelude::*;

use crate::node::child;
use crate::node::child_entries;
use crate::node::child_opt;
use crate::node::child_str;
use crate::node::Node;
use crate::parse::json_tree;
use crate::parse::parse_json;
use crate::parse::parse_toml;
use crate::parse::toml_tree;
use crate::script::inferred_default;
use crate::script::executor_name;
use crate::script::script_of_value;
use crate::script::ExecutorModel;
use crate::script::Script;
use crate::script::ScriptExecutor;
use crate::script::ScriptModel;

verus! {

/// The five manifest formats, in their fixed precedence order.
#[derive(Debug, Clone, PartialEq, Eq, Structural)]
pub enum ConfigType {
    PxJson,
    PxToml,
    PackageJson,
    CargoToml,
    ComposerJson,
}

/// Why a discovery pass failed: a manifest of the named format was found
/// but its text did not decode.
#[derive(Debug, Clone, PartialEq, Eq, Structural)]
pub enum ConfigError {
    Parse(ConfigType),
}

/// A manifest found on disk: the directory it was found in — the working
/// directory for the scripts it defines — and its text.
#[derive(Debug)]
pub struct FoundManifest {
    pub dir: String,
    pub text: String,
}

/// The mathematical value of a `FoundManifest`.
pub ghost struct FoundManifestModel {
    pub dir: Seq<char>,
    pub text: Seq<char>,
}

impl View for FoundManifest {
    type V = FoundManifestModel;

    open spec fn view(&self) -> FoundManifestModel {
        FoundManifestModel { dir: self.dir@, text: self.text@ }
    }
}

/// The view of an optional manifest source.
pub open spec fn src_view(o: Option<FoundManifest>) -> Option<FoundManifestModel> {
    match o {
        Some(m) => Some(m@),
        None => None,
    }
}

/// The manifests one discovery pass consumes: for each format, the nearest
/// file of that name, already located and read, or nothing.
#[derive(Debug)]
pub struct ManifestSet {
    pub px_json: Option<FoundManifest>,
    pub px_toml: Option<FoundManifest>,
    pub package_json: Option<FoundManifest>,
    pub cargo_toml: Option<FoundManifest>,
    pub composer_json: Option<FoundManifest>,
}

/// The mathematical value of a `ManifestSet`.
pub ghost struct ManifestSetModel {
    pub px_json: Option<FoundManifestModel>,
    pub px_toml: Option<FoundManifestModel>,
    pub package_json: Option<FoundManifestModel>,
    pub cargo_toml: Option<FoundManifestModel>,
    pub composer_json: Option<FoundManifestModel>,
}

impl View for ManifestSet {
    type V = ManifestSetModel;

    open spec fn view(&self) -> ManifestSetModel {
        ManifestSetModel {
            px_json: src_view(self.px_json),
            px_toml: src_view(self.px_toml),
            package_json: src_view(self.package_json),
            cargo_toml: src_view(self.cargo_toml),
            composer_json: src_view(self.composer_json),
        }
    }
}

/// The manifest a format reads from.
pub open spec fn source_of(s: ManifestSetModel, kind: ConfigType) -> Option<FoundManifestModel> {
    match kind {
        ConfigType::PxJson => s.px_json,
        ConfigType::PxToml => s.px_toml,
        ConfigType::PackageJson => s.package_json,
        ConfigType::CargoToml => s.cargo_toml,
        ConfigType::ComposerJson => s.composer_json,
    }
}

/// The executor override table: at most one override per named executor,
/// and the first write wins.
#[derive(Debug)]
pub struct ExecutorTable {
    npm: Option<String>,
    yarn: Option<String>,
    pnpm: Option<String>,
    composer: Option<String>,
}

/// The mathematical value of an `ExecutorTable`.
pub ghost struct ExecutorTableModel {
    pub npm: Option<Seq<char>>,
    pub yarn: Option<Seq<char>>,
    pub pnpm: Option<Seq<char>>,
    pub composer: Option<Seq<char>>,
}

impl View for ExecutorTable {
    type V = ExecutorTableModel;

    closed spec fn view(&self) -> ExecutorTableModel {
        ExecutorTableModel {
            npm: match self.npm {
                Some(c) => Some(c@),
                None => None,
            },
            yarn: match self.yarn {
                Some(c) => Some(c@),
                None => None,
            },
            pnpm: match self.pnpm {
                Some(c) => Some(c@),
                None => None,
            },
            composer: match self.composer {
                Some(c) => Some(c@),
                None => None,
            },
        }
    }
}

/// The override command registered for an executor, if any; only the four
/// named executors are valid keys.
pub open spec fn override_of(t: ExecutorTableModel, e: ExecutorModel) -> Option<Seq<char>> {
    match e {
        ExecutorModel::Npm => t.npm,
        ExecutorModel::Yarn => t.yarn,
        ExecutorModel::Pnpm => t.pnpm,
        ExecutorModel::Composer => t.composer,
        _ => None,
    }
}

/// `t` with `cmd` registered for `e` — unless `e` already has an override
/// (the first write wins) or is not a named executor.
pub open spec fn with_override(
    t: ExecutorTableModel,
    e: ExecutorModel,
    cmd: Seq<char>,
) -> ExecutorTableModel {
    if override_of(t, e) is Some {
        t
    } else {
        match e {
            ExecutorModel::Npm => ExecutorTableModel { npm: Some(cmd), ..t },
            ExecutorModel::Yarn => ExecutorTableModel { yarn: Some(cmd), ..t },
            ExecutorModel::Pnpm => ExecutorTableModel { pnpm: Some(cmd), ..t },
            ExecutorModel::Composer => ExecutorTableModel { composer: Some(cmd), ..t },
            _ => t,
        }
    }
}

impl ExecutorTable {
    /// The table with no overrides registered.
    pub fn new() -> (r: Self)
        ensures
            r@ == (ExecutorTableModel { npm: None, yarn: None, pnpm: None, composer: None }),
    {
        Self { npm: None, yarn: None, pnpm: None, composer: None }
    }

    /// The override registered for `key`, if any.
    pub fn get_override(&self, key: &ScriptExecutor) -> (r: Option<&String>)
        ensures
            match r {
                Some(c) => override_of(self@, key@) == Some(c@),
                None => override_of(self@, key@) is None,
            },
    {
        match key {
            ScriptExecutor::Npm => self.npm.as_ref(),
            ScriptExecutor::Yarn => self.yarn.as_ref(),
            ScriptExecutor::Pnpm => self.pnpm.as_ref(),
            ScriptExecutor::Composer => self.composer.as_ref(),
            _ => None,
        }
    }

    /// Registers `cmd` for `key` unless an override is already present.
    pub fn set_override(&mut self, key: &ScriptExecutor, cmd: String)
        ensures
            final(self)@ == with_override(old(self)@, key@, cmd@),
    {
        match key {
            ScriptExecutor::Npm => {
                if self.npm.is_none() {
                    self.npm = Some(cmd);
                }
            },
            ScriptExecutor::Yarn => {
                if self.yarn.is_none() {
                    self.yarn = Some(cmd);
                }
            },
            ScriptExecutor::Pnpm => {
                if self.pnpm.is_none() {
                    self.pnpm = Some(cmd);
                }
            },
            ScriptExecutor::Composer => {
                if self.composer.is_none() {
                    self.composer = Some(cmd);
                }
            },
            _ => {},
        }
    }
}

/// Whether the registry holds a script of this name.
pub open spec fn reg_contains(reg: Seq<ScriptModel>, name: Seq<char>) -> bool {
    exists|i: int| 0 <= i < reg.len() && reg[i].name == name
}

/// The first script of this name in the registry, if any.
pub open spec fn reg_lookup(reg: Seq<ScriptModel>, name: Seq<char>) -> Option<ScriptModel>
    decreases reg.len(),
{
    if reg.len() == 0 {
        None
    } else if reg[0].name == name {
        Some(reg[0])
    } else {
        reg_lookup(reg.skip(1), name)
    }
}

/// Script names are unique keys within the registry.
pub open spec fn registry_wf(reg: Seq<ScriptModel>) -> bool {
    forall|i: int, j: int| 0 <= i < j < reg.len() ==> reg[i].name != reg[j].name
}

/// One script-table entry applied to the registry: the first write wins; a
/// string value is a Direct script, a table value must carry a `cmd`.
pub open spec fn scripts_step(
    reg: Seq<ScriptModel>,
    name: Seq<char>,
    v: Node,
    cwd: Seq<char>,
) -> Seq<ScriptModel> {
    if reg_contains(reg, name) {
        reg
    } else {
        match v {
            Node::Str(s) => reg.push(
                ScriptModel {
                    name,
                    cmd: s@,
                    description: None,
                    cwd,
                    executor: ExecutorModel::Direct,
                },
            ),
            _ => match script_of_value(name, v, cwd, ExecutorModel::Direct) {
                Some(sv) => reg.push(sv),
                None => reg,
            },
        }
    }
}

/// A whole script table applied to the registry, entry by entry.
pub open spec fn apply_scripts(
    reg: Seq<ScriptModel>,
    es: Seq<(String, Node)>,
    cwd: Seq<char>,
) -> Seq<ScriptModel>
    decreases es.len(),
{
    if es.len() == 0 {
        reg
    } else {
        apply_scripts(scripts_step(reg, es[0].0@, es[0].1, cwd), es.skip(1), cwd)
    }
}

/// One deferred script: an empty command template under the shared
/// executor; the first write wins.
pub open spec fn deferred_step(
    reg: Seq<ScriptModel>,
    name: Seq<char>,
    cwd: Seq<char>,
    e: ExecutorModel,
) -> Seq<ScriptModel> {
    if reg_contains(reg, name) {
        reg
    } else {
        reg.push(ScriptModel { name, cmd: Seq::empty(), description: None, cwd, executor: e })
    }
}

/// A whole table of deferred scripts applied to the registry: one
/// empty-command script per entry name, all sharing `e`.
pub open spec fn apply_deferred(
    reg: Seq<ScriptModel>,
    es: Seq<(String, Node)>,
    cwd: Seq<char>,
    e: ExecutorModel,
) -> Seq<ScriptModel>
    decreases es.len(),
{
    if es.len() == 0 {
        reg
    } else {
        apply_deferred(deferred_step(reg, es[0].0@, cwd, e), es.skip(1), cwd, e)
    }
}

/// One executor-table entry applied to the override table: unknown names
/// and non-string values are skipped; the first write per key wins.
pub open spec fn override_step(
    t: ExecutorTableModel,
    name: Seq<char>,
    v: Node,
) -> ExecutorTableModel {
    match executor_name(name) {
        Some(e) => match v {
            Node::Str(c) => with_override(t, e, c@),
            _ => t,
        },
        None => t,
    }
}

/// A whole executor table applied to the override table, entry by entry.
pub open spec fn apply_overrides(
    t: ExecutorTableModel,
    es: Seq<(String, Node)>,
) -> ExecutorTableModel
    decreases es.len(),
{
    if es.len() == 0 {
        t
    } else {
        apply_overrides(override_step(t, es[0].0@, es[0].1), es.skip(1))
    }
}

/// The configuration one discovery pass produces: the script registry and
/// the executor override table.
#[derive(Debug)]
pub struct Config {
    pub scripts: Vec<Script>,
    executors: ExecutorTable,
}

/// The mathematical value of a `Config`.
pub ghost struct ConfigModel {
    pub scripts: Seq<ScriptModel>,
    pub executors: ExecutorTableModel,
}

impl View for Config {
    type V = ConfigModel;

    closed spec fn view(&self) -> ConfigModel {
        ConfigModel {
            scripts: self.scripts@.map_values(|s: Script| s@),
            executors: self.executors@,
        }
    }
}

impl Config {
    /// Whether a script of this name is already registered.
    pub fn contains_script(&self, name: &String) -> (r: bool)
        ensures
            r == reg_contains(self@.scripts, name@),
    {
        let mut i: usize = 0;
        while i < self.scripts.len()
            invariant
                i <= self.scripts.len(),
                forall|j: int| 0 <= j < i ==> self@.scripts[j].name != name@,
            decreases self.scripts.len() - i,
        {
            let sc = &self.scripts[i];
            if *sc.name() == *name {
                assert(self@.scripts[i as int].name == name@);
                return true;
            }
            i = i + 1;
        }
        false
    }

    /// The registered script of this name, if any.
    pub fn get_script(&self, name: &String) -> (r: Option<&Script>)
        ensures
            match r {
                Some(sc) => reg_lookup(self@.scripts, name@) == Some(sc@),
                None => reg_lookup(self@.scripts, name@) is None,
            },
    {
        let ghost reg = self@.scripts;
        proof {
            assert(reg.skip(0) =~= reg);
        }
        let mut i: usize = 0;
        while i < self.scripts.len()
            invariant
                i <= self.scripts.len(),
                reg == self@.scripts,
                reg_lookup(reg, name@) == reg_lookup(reg.skip(i as int), name@),
            decreases self.scripts.len() - i,
        {
            let sc = &self.scripts[i];
            if *sc.name() == *name {
                proof {
                    assert(reg.skip(i as int)[0] == reg[i as int]);
                }
                return Some(sc);
            }
            proof {
                assert(reg.skip(i as int)[0] == reg[i as int]);
                assert(reg.skip(i as int).skip(1) =~= reg.skip(i as int + 1));
            }
            i = i + 1;
        }
        None
    }

    /// Applies a script table (string or `cmd`-table entries, executor
    /// Direct) to the registry, first write wins.
    fn load_script_entries(&mut self, es: &Vec<(String, Node)>, cwd: &String)
        ensures
            final(self)@.scripts == apply_scripts(old(self)@.scripts, es@, cwd@),
            final(self)@.executors == old(self)@.executors,
    {
        let ghost orig = self@.scripts;
        let ghost orig_t = self@.executors;
        proof {
            assert(es@.skip(0) =~= es@);
        }
        let mut i: usize = 0;
        while i < es.len()
            invariant
                i <= es.len(),
                self@.executors == orig_t,
                apply_scripts(orig, es@, cwd@) == apply_scripts(
                    self@.scripts,
                    es@.skip(i as int),
                    cwd@,
                ),
            decreases es.len() - i,
        {
            let ghost pre = self@.scripts;
            let entry_name = es[i].0.clone();
            if !self.contains_script(&entry_name) {
                let v = &es[i].1;
                match v {
                    Node::Str(s) => {
                        let sc = Script::from_string(
                            entry_name,
                            s.clone(),
                            cwd.clone(),
                            ScriptExecutor::Direct,
                        );
                        self.scripts.push(sc);
                        proof {
                            assert(self@.scripts =~= pre.push(sc@));
                        }
                    },
                    _ => {
                        match Script::from_value(entry_name, v, cwd.clone(), ScriptExecutor::Direct) {
                            Some(sc) => {
                                self.scripts.push(sc);
                                proof {
                                    assert(self@.scripts =~= pre.push(sc@));
                                }
                            },
                            None => {},
                        }
                    },
                }
            }
            proof {
                assert(self@.scripts == scripts_step(pre, es@[i as int].0@, es@[i as int].1, cwd@));
                assert(es@.skip(i as int)[0] == es@[i as int]);
                assert(es@.skip(i as int).skip(1) =~= es@.skip(i as int + 1));
            }
            i = i + 1;
        }
        proof {
            assert(es@.skip(i as int).len() == 0);
        }
    }

    /// Applies a table of deferred scripts (empty command template, shared
    /// executor) to the registry, first write wins.
    fn load_deferred_entries(&mut self, es: &Vec<(String, Node)>, cwd: &String, executor: &ScriptExecutor)
        ensures
            final(self)@.scripts == apply_deferred(old(self)@.scripts, es@, cwd@, executor@),
            final(self)@.executors == old(self)@.executors,
    {
        let ghost orig = self@.scripts;
        let ghost orig_t = self@.executors;
        proof {
            assert(es@.skip(0) =~= es@);
        }
        let mut i: usize = 0;
        while i < es.len()
            invariant
                i <= es.len(),
                self@.executors == orig_t,
                apply_deferred(orig, es@, cwd@, executor@) == apply_deferred(
                    self@.scripts,
                    es@.skip(i as int),
                    cwd@,
                    executor@,
                ),
            decreases es.len() - i,
        {
            let ghost pre = self@.scripts;
            let entry_name = es[i].0.clone();
            if !self.contains_script(&entry_name) {
                let sc = Script::from_string(
                    entry_name,
                    String::new(),
                    cwd.clone(),
                    executor.clone(),
                );
                self.scripts.push(sc);
                proof {
                    assert(self@.scripts =~= pre.push(sc@));
                }
            }
            proof {
                assert(self@.scripts == deferred_step(pre, es@[i as int].0@, cwd@, executor@));
                assert(es@.skip(i as int)[0] == es@[i as int]);
                assert(es@.skip(i as int).skip(1) =~= es@.skip(i as int + 1));
            }
            i = i + 1;
        }
        proof {
            assert(es@.skip(i as int).len() == 0);
        }
    }

    /// Applies an executor table's entries to the override table, first
    /// write per key wins.
    fn load_override_entries(&mut self, es: &Vec<(String, Node)>)
        ensures
            final(self)@.executors == apply_overrides(old(self)@.executors, es@),
            final(self)@.scripts == old(self)@.scripts,
    {
        let ghost orig = self@.scripts;
        let ghost orig_t = self@.executors;
        proof {
            assert(es@.skip(0) =~= es@);
        }
        let mut i: usize = 0;
        while i < es.len()
            invariant
                i <= es.len(),
                self@.scripts == orig,
                apply_overrides(orig_t, es@) == apply_overrides(
                    self@.executors,
                    es@.skip(i as int),
                ),
            decreases es.len() - i,
        {
            let ghost pre = self@.executors;
            match ScriptExecutor::from_str(es[i].0.as_str()) {
                Ok(key) => {
                    match &es[i].1 {
                        Node::Str(c) => {
                            self.executors.set_override(&key, c.clone());
                        },
                        _ => {},
                    }
                },
                Err(_) => {},
            }
            proof {
                assert(self@.executors == override_step(pre, es@[i as int].0@, es@[i as int].1));
                assert(es@.skip(i as int)[0] == es@[i as int]);
                assert(es@.skip(i as int).skip(1) =~= es@.skip(i as int + 1));
            }
            i = i + 1;
        }
        proof {
            assert(es@.skip(i as int).len() == 0);
        }
    }
}

/// The string child of the child table `k1`, at key `k2`.
pub open spec fn nested_str(root: Node, k1: Seq<char>, k2: Seq<char>) -> Option<Seq<char>> {
    match child(root, k1) {
        Some(n) => child_str(n, k2),
        None => None,
    }
}

/// The executor every script of a JS manifest gets: an explicit native
/// override field wins; otherwise the inferred default, reinterpreted
/// through the override table.
pub open spec fn js_default_executor(root: Node, t: ExecutorTableModel) -> ExecutorModel {
    match nested_str(root, "px"@, "executor"@) {
        Some(cmd) => ExecutorModel::Custom(cmd),
        None => {
            let d = inferred_default(child_str(root, "packageManager"@));
            match override_of(t, d) {
                Some(c) => ExecutorModel::Custom(c),
                None => d,
            }
        },
    }
}

/// A native manifest applied: its `executor` table feeds the override
/// table, its `scripts` table feeds the registry with Direct scripts.
pub open spec fn px_loaded(c: ConfigModel, root: Node, dir: Seq<char>) -> ConfigModel {
    ConfigModel {
        scripts: apply_scripts(c.scripts, child_entries(root, "scripts"@), dir),
        executors: apply_overrides(c.executors, child_entries(root, "executor"@)),
    }
}

/// A JS manifest applied: deferred scripts only, under the resolved
/// executor; the override table is left untouched.
pub open spec fn package_loaded(c: ConfigModel, root: Node, dir: Seq<char>) -> ConfigModel {
    ConfigModel {
        scripts: apply_deferred(
            c.scripts,
            child_entries(root, "scripts"@),
            dir,
            js_default_executor(root, c.executors),
        ),
        executors: c.executors,
    }
}

/// The script table nested under a Rust manifest's package metadata.
pub open spec fn cargo_entries(root: Node) -> Seq<(String, Node)> {
    match child_opt(child_opt(child(root, "package"@), "metadata"@), "scripts"@) {
        Some(Node::Table(es)) => es@,
        _ => Seq::empty(),
    }
}

/// A Rust manifest applied: its metadata scripts feed the registry with
/// Direct scripts.
pub open spec fn cargo_loaded(c: ConfigModel, root: Node, dir: Seq<char>) -> ConfigModel {
    ConfigModel {
        scripts: apply_scripts(c.scripts, cargo_entries(root), dir),
        executors: c.executors,
    }
}

/// A Composer manifest applied: a native override field is registered for
/// the Composer key (first write wins), and the deferred scripts run under
/// whatever the table then holds for Composer.
pub open spec fn composer_loaded(c: ConfigModel, root: Node, dir: Seq<char>) -> ConfigModel {
    let t1 = match nested_str(root, "px"@, "executor"@) {
        Some(cmd) => with_override(c.executors, ExecutorModel::Composer, cmd),
        None => c.executors,
    };
    let e = match override_of(t1, ExecutorModel::Composer) {
        Some(cmd) => ExecutorModel::Custom(cmd),
        None => ExecutorModel::Composer,
    };
    ConfigModel {
        scripts: apply_deferred(c.scripts, child_entries(root, "scripts"@), dir, e),
        executors: t1,
    }
}

/// What a format's text decodes to: the two TOML formats through the TOML
/// decoder, the rest through the JSON decoder.
pub open spec fn decoded(kind: ConfigType, text: Seq<char>) -> Option<Node> {
    match kind {
        ConfigType::PxToml => toml_tree(text),
        ConfigType::CargoToml => toml_tree(text),
        _ => json_tree(text),
    }
}

/// A decoded format applied to the configuration.
pub open spec fn applied(c: ConfigModel, kind: ConfigType, root: Node, dir: Seq<char>) -> ConfigModel {
    match kind {
        ConfigType::PxJson => px_loaded(c, root, dir),
        ConfigType::PxToml => px_loaded(c, root, dir),
        ConfigType::PackageJson => package_loaded(c, root, dir),
        ConfigType::CargoToml => cargo_loaded(c, root, dir),
        ConfigType::ComposerJson => composer_loaded(c, root, dir),
    }
}

/// One format loaded: a missing manifest is skipped silently; one whose
/// text does not decode is a parse failure naming the format.
pub open spec fn loaded(
    c: ConfigModel,
    kind: ConfigType,
    src: Option<FoundManifestModel>,
) -> Result<ConfigModel, ConfigType> {
    match src {
        None => Ok(c),
        Some(m) => match decoded(kind, m.text) {
            None => Err(kind),
            Some(root) => Ok(applied(c, kind, root, m.dir)),
        },
    }
}

/// What a loader guarantees: on success the configuration advanced by its
/// format; on failure it is untouched and the error names the format.
pub open spec fn loader_post(
    pre: ConfigModel,
    kind: ConfigType,
    src: Option<FoundManifestModel>,
    post: ConfigModel,
    r: Result<(), ConfigError>,
) -> bool {
    match r {
        Ok(()) => loaded(pre, kind, src) == Ok::<ConfigModel, ConfigType>(post),
        Err(e) => post == pre && e == ConfigError::Parse(kind) && loaded(pre, kind, src)
            == Err::<ConfigModel, ConfigType>(kind),
    }
}

/// The configuration before any format is loaded.
pub open spec fn empty_config() -> ConfigModel {
    ConfigModel {
        scripts: Seq::empty(),
        executors: ExecutorTableModel { npm: None, yarn: None, pnpm: None, composer: None },
    }
}

/// A whole pass from `c`: the five formats in their fixed precedence
/// order, stopping at the first parse failure.
pub open spec fn pass_from(c: ConfigModel, s: ManifestSetModel) -> Result<ConfigModel, ConfigType> {
    match loaded(c, ConfigType::PxJson, s.px_json) {
        Err(k) => Err(k),
        Ok(c1) => match loaded(c1, ConfigType::PxToml, s.px_toml) {
            Err(k) => Err(k),
            Ok(c2) => match loaded(c2, ConfigType::PackageJson, s.package_json) {
                Err(k) => Err(k),
                Ok(c3) => match loaded(c3, ConfigType::CargoToml, s.cargo_toml) {
                    Err(k) => Err(k),
                    Ok(c4) => loaded(c4, ConfigType::ComposerJson, s.composer_json),
                },
            },
        },
    }
}

/// The configuration a discovery pass over these sources produces.
pub open spec fn pass_result(s: ManifestSetModel) -> Result<ConfigModel, ConfigType> {
    pass_from(empty_config(), s)
}

impl Config {
    /// One discovery pass over the given sources, from the empty
    /// configuration. Error policy, uniform across all five formats: a
    /// manifest that is absent is skipped; one that was found but does not
    /// decode fails the pass with the format's name.
    pub fn new(sources: &ManifestSet) -> (r: Result<Config, ConfigError>)
        ensures
            match r {
                Ok(c) => pass_result(sources@) == Ok::<ConfigModel, ConfigType>(c@)
                    && registry_wf(c@.scripts),
                Err(e) => match e {
                    ConfigError::Parse(k) => pass_result(sources@) == Err::<
                        ConfigModel,
                        ConfigType,
                    >(k),
                },
            },
    {
        let mut config = Config { scripts: Vec::new(), executors: ExecutorTable::new() };
        proof {
            assert(config@.scripts =~= empty_config().scripts);
            assert(config@ == empty_config());
        }
        match config.load_configs(sources) {
            Ok(()) => {
                proof {
                    lemma_pass_wf(empty_config(), sources@);
                }
                Ok(config)
            },
            Err(e) => Err(e),
        }
    }

    /// Loads the five formats in their fixed precedence order, stopping at
    /// the first parse failure.
    pub fn load_configs(&mut self, sources: &ManifestSet) -> (r: Result<(), ConfigError>)
        ensures
            match r {
                Ok(()) => pass_from(old(self)@, sources@) == Ok::<ConfigModel, ConfigType>(
                    final(self)@,
                ),
                Err(e) => match e {
                    ConfigError::Parse(k) => pass_from(old(self)@, sources@) == Err::<
                        ConfigModel,
                        ConfigType,
                    >(k),
                },
            },
    {
        match self.load_config(&ConfigType::PxJson, sources) {
            Ok(()) => {},
            Err(e) => {
                return Err(e);
            },
        }
        match self.load_config(&ConfigType::PxToml, sources) {
            Ok(()) => {},
            Err(e) => {
                return Err(e);
            },
        }
        match self.load_config(&ConfigType::PackageJson, sources) {
            Ok(()) => {},
            Err(e) => {
                return Err(e);
            },
        }
        match self.load_config(&ConfigType::CargoToml, sources) {
            Ok(()) => {},
            Err(e) => {
                return Err(e);
            },
        }
        match self.load_config(&ConfigType::ComposerJson, sources) {
            Ok(()) => {},
            Err(e) => {
                return Err(e);
            },
        }
        Ok(())
    }

    /// Loads one format from its source, if it was found.
    pub fn load_config(&mut self, config_type: &ConfigType, sources: &ManifestSet) -> (r: Result<
        (),
        ConfigError,
    >)
        ensures
            loader_post(
                old(self)@,
                *config_type,
                source_of(sources@, *config_type),
                final(self)@,
                r,
            ),
    {
        match config_type {
            ConfigType::PxJson => self.load_px_json(&sources.px_json),
            ConfigType::PxToml => self.load_px_toml(&sources.px_toml),
            ConfigType::PackageJson => self.load_package_json(&sources.package_json),
            ConfigType::CargoToml => self.load_cargo_toml(&sources.cargo_toml),
            ConfigType::ComposerJson => self.load_composer_json(&sources.composer_json),
        }
    }

    /// The native JSON manifest.
    fn load_px_json(&mut self, src: &Option<FoundManifest>) -> (r: Result<(), ConfigError>)
        ensures
            loader_post(old(self)@, ConfigType::PxJson, src_view(*src), final(self)@, r),
    {
        let m = match src {
            Some(m) => m,
            None => {
                return Ok(());
            },
        };
        let root = match parse_json(m.text.as_str()) {
            Some(root) => root,
            None => {
                return Err(ConfigError::Parse(ConfigType::PxJson));
            },
        };
        let exec_key = "executor".to_owned();
        match root.get(&exec_key) {
            Some(Node::Table(es)) => {
                self.load_override_entries(es);
            },
            _ => {},
        }
        let scripts_key = "scripts".to_owned();
        match root.get(&scripts_key) {
            Some(Node::Table(es)) => {
                self.load_script_entries(es, &m.dir);
            },
            _ => {},
        }
        Ok(())
    }

    /// The native TOML manifest: the same shape, TOML-encoded.
    fn load_px_toml(&mut self, src: &Option<FoundManifest>) -> (r: Result<(), ConfigError>)
        ensures
            loader_post(old(self)@, ConfigType::PxToml, src_view(*src), final(self)@, r),
    {
        let m = match src {
            Some(m) => m,
            None => {
                return Ok(());
            },
        };
        let root = match parse_toml(m.text.as_str()) {
            Some(root) => root,
            None => {
                return Err(ConfigError::Parse(ConfigType::PxToml));
            },
        };
        let exec_key = "executor".to_owned();
        match root.get(&exec_key) {
            Some(Node::Table(es)) => {
                self.load_override_entries(es);
            },
            _ => {},
        }
        let scripts_key = "scripts".to_owned();
        match root.get(&scripts_key) {
            Some(Node::Table(es)) => {
                self.load_script_entries(es, &m.dir);
            },
            _ => {},
        }
        Ok(())
    }

    /// The JS-ecosystem manifest: deferred scripts under one resolved
    /// executor.
    fn load_package_json(&mut self, src: &Option<FoundManifest>) -> (r: Result<(), ConfigError>)
        ensures
            loader_post(old(self)@, ConfigType::PackageJson, src_view(*src), final(self)@, r),
    {
        let m = match src {
            Some(m) => m,
            None => {
                return Ok(());
            },
        };
        let root = match parse_json(m.text.as_str()) {
            Some(root) => root,
            None => {
                return Err(ConfigError::Parse(ConfigType::PackageJson));
            },
        };
        let px_key = "px".to_owned();
        let exec_key = "executor".to_owned();
        let px_override: Option<String> = match root.get(&px_key) {
            Some(n) => n.get_str(&exec_key),
            None => None,
        };
        let executor: ScriptExecutor = match px_override {
            Some(cmd) => ScriptExecutor::Custom(cmd),
            None => {
                let pm_key = "packageManager".to_owned();
                let pm = root.get_str(&pm_key);
                let d = match &pm {
                    Some(s) => ScriptExecutor::infer_default(Some(s.as_str())),
                    None => ScriptExecutor::infer_default(None),
                };
                match self.executors.get_override(&d) {
                    Some(c) => ScriptExecutor::Custom(c.clone()),
                    None => d,
                }
            },
        };
        proof {
            assert(executor@ == js_default_executor(root, old(self)@.executors));
        }
        let scripts_key = "scripts".to_owned();
        match root.get(&scripts_key) {
            Some(Node::Table(es)) => {
                self.load_deferred_entries(es, &m.dir, &executor);
            },
            _ => {},
        }
        Ok(())
    }

    /// The Rust-ecosystem manifest: metadata scripts, executor Direct.
    fn load_cargo_toml(&mut self, src: &Option<FoundManifest>) -> (r: Result<(), ConfigError>)
        ensures
            loader_post(old(self)@, ConfigType::CargoToml, src_view(*src), final(self)@, r),
    {
        let m = match src {
            Some(m) => m,
            None => {
                return Ok(());
            },
        };
        let root = match parse_toml(m.text.as_str()) {
            Some(root) => root,
            None => {
                return Err(ConfigError::Parse(ConfigType::CargoToml));
            },
        };
        let pkg_key = "package".to_owned();
        let meta_key = "metadata".to_owned();
        let scripts_key = "scripts".to_owned();
        let scripts_node: Option<&Node> = match root.get(&pkg_key) {
            Some(p) => match p.get(&meta_key) {
                Some(mm) => mm.get(&scripts_key),
                None => None,
            },
            None => None,
        };
        match scripts_node {
            Some(Node::Table(es)) => {
                self.load_script_entries(es, &m.dir);
            },
            _ => {},
        }
        Ok(())
    }

    /// The Composer manifest: deferred scripts under the Composer key's
    /// current interpretation.
    fn load_composer_json(&mut self, src: &Option<FoundManifest>) -> (r: Result<(), ConfigError>)
        ensures
            loader_post(old(self)@, ConfigType::ComposerJson, src_view(*src), final(self)@, r),
    {
        let m = match src {
            Some(m) => m,
            None => {
                return Ok(());
            },
        };
        let root = match parse_json(m.text.as_str()) {
            Some(root) => root,
            None => {
                return Err(ConfigError::Parse(ConfigType::ComposerJson));
            },
        };
        let px_key = "px".to_owned();
        let exec_key = "executor".to_owned();
        let ovr: Option<String> = match root.get(&px_key) {
            Some(n) => n.get_str(&exec_key),
            None => None,
        };
        match ovr {
            Some(cmd) => {
                self.executors.set_override(&ScriptExecutor::Composer, cmd);
            },
            None => {},
        }
        let e: ScriptExecutor = match self.executors.get_override(&ScriptExecutor::Composer) {
            Some(c) => ScriptExecutor::Custom(c.clone()),
            None => ScriptExecutor::Composer,
        };
        let scripts_key = "scripts".to_owned();
        match root.get(&scripts_key) {
            Some(Node::Table(es)) => {
                self.load_deferred_entries(es, &m.dir, &e);
            },
            _ => {},
        }
        Ok(())
    }
}

/// Pushing a script with a fresh name keeps every earlier lookup.
proof fn lemma_lookup_push(reg: Seq<ScriptModel>, sv: ScriptModel, name: Seq<char>)
    requires
        reg_contains(reg, name),
    ensures
        reg_lookup(reg.push(sv), name) == reg_lookup(reg, name),
    decreases reg.len(),
{
    if reg.len() == 0 {
    } else if reg[0].name == name {
        assert(reg.push(sv)[0] == reg[0]);
    } else {
        let i = choose|i: int| 0 <= i < reg.len() && reg[i].name == name;
        assert(reg.skip(1)[i - 1] == reg[i]);
        assert(reg_contains(reg.skip(1), name));
        lemma_lookup_push(reg.skip(1), sv, name);
        assert(reg.push(sv).skip(1) =~= reg.skip(1).push(sv));
    }
}

/// A name once registered survives a whole script table unchanged.
pub proof fn lemma_scripts_keep_first(
    reg: Seq<ScriptModel>,
    es: Seq<(String, Node)>,
    cwd: Seq<char>,
    name: Seq<char>,
)
    requires
        reg_contains(reg, name),
    ensures
        reg_contains(apply_scripts(reg, es, cwd), name),
        reg_lookup(apply_scripts(reg, es, cwd), name) == reg_lookup(reg, name),
    decreases es.len(),
{
    if es.len() == 0 {
    } else {
        let reg1 = scripts_step(reg, es[0].0@, es[0].1, cwd);
        if reg1 != reg {
            let sv = reg1[reg.len() as int];
            assert(reg1 == reg.push(sv));
            lemma_lookup_push(reg, sv, name);
            let i = choose|i: int| 0 <= i < reg.len() && reg[i].name == name;
            assert(reg.push(sv)[i] == reg[i]);
            assert(reg_contains(reg1, name));
        }
        lemma_scripts_keep_first(reg1, es.skip(1), cwd, name);
    }
}

/// A name once registered survives a whole deferred table unchanged.
pub proof fn lemma_deferred_keep_first(
    reg: Seq<ScriptModel>,
    es: Seq<(String, Node)>,
    cwd: Seq<char>,
    e: ExecutorModel,
    name: Seq<char>,
)
    requires
        reg_contains(reg, name),
    ensures
        reg_contains(apply_deferred(reg, es, cwd, e), name),
        reg_lookup(apply_deferred(reg, es, cwd, e), name) == reg_lookup(reg, name),
    decreases es.len(),
{
    if es.len() == 0 {
    } else {
        let reg1 = deferred_step(reg, es[0].0@, cwd, e);
        if reg1 != reg {
            let sv = reg1[reg.len() as int];
            assert(reg1 == reg.push(sv));
            lemma_lookup_push(reg, sv, name);
            let i = choose|i: int| 0 <= i < reg.len() && reg[i].name == name;
            assert(reg.push(sv)[i] == reg[i]);
            assert(reg_contains(reg1, name));
        }
        lemma_deferred_keep_first(reg1, es.skip(1), cwd, e, name);
    }
}

/// An override once registered survives a whole executor table unchanged.
pub proof fn lemma_overrides_keep_first(
    t: ExecutorTableModel,
    es: Seq<(String, Node)>,
    e: ExecutorModel,
)
    requires
        override_of(t, e) is Some,
    ensures
        override_of(apply_overrides(t, es), e) == override_of(t, e),
    decreases es.len(),
{
    if es.len() == 0 {
    } else {
        let t1 = override_step(t, es[0].0@, es[0].1);
        assert(override_of(t1, e) == override_of(t, e));
        lemma_overrides_keep_first(t1, es.skip(1), e);
    }
}

/// Precedence across formats: loading a later format never changes a
/// script the registry already holds, nor an override the table already
/// holds — the earliest format's definition is retained.
pub proof fn lemma_format_precedence(
    c: ConfigModel,
    kind: ConfigType,
    src: Option<FoundManifestModel>,
    c2: ConfigModel,
    name: Seq<char>,
    e: ExecutorModel,
)
    requires
        loaded(c, kind, src) == Ok::<ConfigModel, ConfigType>(c2),
    ensures
        reg_contains(c.scripts, name) ==> reg_lookup(c2.scripts, name) == reg_lookup(
            c.scripts,
            name,
        ),
        override_of(c.executors, e) is Some ==> override_of(c2.executors, e) == override_of(
            c.executors,
            e,
        ),
{
    match src {
        None => {},
        Some(m) => {
            match decoded(kind, m.text) {
                None => {},
                Some(root) => {
                    if reg_contains(c.scripts, name) {
                        match kind {
                            ConfigType::PxJson => lemma_scripts_keep_first(
                                c.scripts,
                                child_entries(root, "scripts"@),
                                m.dir,
                                name,
                            ),
                            ConfigType::PxToml => lemma_scripts_keep_first(
                                c.scripts,
                                child_entries(root, "scripts"@),
                                m.dir,
                                name,
                            ),
                            ConfigType::PackageJson => lemma_deferred_keep_first(
                                c.scripts,
                                child_entries(root, "scripts"@),
                                m.dir,
                                js_default_executor(root, c.executors),
                                name,
                            ),
                            ConfigType::CargoToml => lemma_scripts_keep_first(
                                c.scripts,
                                cargo_entries(root),
                                m.dir,
                                name,
                            ),
                            ConfigType::ComposerJson => {
                                let t1 = match nested_str(root, "px"@, "executor"@) {
                                    Some(cmd) => with_override(
                                        c.executors,
                                        ExecutorModel::Composer,
                                        cmd,
                                    ),
                                    None => c.executors,
                                };
                                let e1 = match override_of(t1, ExecutorModel::Composer) {
                                    Some(cmd) => ExecutorModel::Custom(cmd),
                                    None => ExecutorModel::Composer,
                                };
                                lemma_deferred_keep_first(
                                    c.scripts,
                                    child_entries(root, "scripts"@),
                                    m.dir,
                                    e1,
                                    name,
                                );
                            },
                        }
                    }
                    if override_of(c.executors, e) is Some {
                        match kind {
                            ConfigType::PxJson => lemma_overrides_keep_first(
                                c.executors,
                                child_entries(root, "executor"@),
                                e,
                            ),
                            ConfigType::PxToml => lemma_overrides_keep_first(
                                c.executors,
                                child_entries(root, "executor"@),
                                e,
                            ),
                            _ => {},
                        }
                    }
                },
            }
        },
    }
}

/// The deferred loaders extend the registry and every script they add has
/// an empty command template and the shared executor.
pub proof fn lemma_apply_deferred_adds(
    reg: Seq<ScriptModel>,
    es: Seq<(String, Node)>,
    cwd: Seq<char>,
    e: ExecutorModel,
)
    ensures
        apply_deferred(reg, es, cwd, e).len() >= reg.len(),
        forall|i: int| 0 <= i < reg.len() ==> apply_deferred(reg, es, cwd, e)[i] == reg[i],
        forall|i: int|
            reg.len() <= i < apply_deferred(reg, es, cwd, e).len() ==> (apply_deferred(
                reg,
                es,
                cwd,
                e,
            )[i].cmd == Seq::<char>::empty() && apply_deferred(reg, es, cwd, e)[i].executor == e),
    decreases es.len(),
{
    if es.len() == 0 {
    } else {
        let reg1 = deferred_step(reg, es[0].0@, cwd, e);
        lemma_apply_deferred_adds(reg1, es.skip(1), cwd, e);
        let r = apply_deferred(reg, es, cwd, e);
        assert(r == apply_deferred(reg1, es.skip(1), cwd, e));
        assert(reg1.len() >= reg.len());
        assert forall|i: int| 0 <= i < reg.len() implies r[i] == reg[i] by {
            assert(r[i] == reg1[i]);
        }
        assert forall|i: int|
            reg.len() <= i < r.len() implies (r[i].cmd == Seq::<char>::empty() && r[i].executor
                == e) by {
            if i < reg1.len() {
                assert(reg1 != reg);
                assert(reg1 == reg.push(reg1[reg.len() as int]));
                assert(r[i] == reg1[i]);
            }
        }
    }
}

/// A JS manifest's explicit native override field always wins: whatever
/// the package-manager field declares and whatever the override table
/// holds, the declared tool is the executor.
pub proof fn lemma_js_override_wins(root: Node, t: ExecutorTableModel)
    ensures
        nested_str(root, "px"@, "executor"@) matches Some(cmd) ==> js_default_executor(root, t)
            == ExecutorModel::Custom(cmd),
{
}

/// Scripts entering through the JS or Composer loaders defer execution:
/// empty command template, never the Direct executor.
pub proof fn lemma_deferred_scripts_delegate(c: ConfigModel, root: Node, dir: Seq<char>)
    ensures
        ({
            let r = package_loaded(c, root, dir).scripts;
            forall|i: int|
                c.scripts.len() <= i < r.len() ==> (r[i].cmd == Seq::<char>::empty() && !(
                r[i].executor is Direct))
        }),
        ({
            let r = composer_loaded(c, root, dir).scripts;
            forall|i: int|
                c.scripts.len() <= i < r.len() ==> (r[i].cmd == Seq::<char>::empty() && !(
                r[i].executor is Direct))
        }),
{
    lemma_apply_deferred_adds(
        c.scripts,
        child_entries(root, "scripts"@),
        dir,
        js_default_executor(root, c.executors),
    );
    let t1 = match nested_str(root, "px"@, "executor"@) {
        Some(cmd) => with_override(c.executors, ExecutorModel::Composer, cmd),
        None => c.executors,
    };
    let e1 = match override_of(t1, ExecutorModel::Composer) {
        Some(cmd) => ExecutorModel::Custom(cmd),
        None => ExecutorModel::Composer,
    };
    lemma_apply_deferred_adds(c.scripts, child_entries(root, "scripts"@), dir, e1);
}

/// Registering a fresh name keeps the registry's names unique.
proof fn lemma_push_wf(reg: Seq<ScriptModel>, sv: ScriptModel)
    requires
        registry_wf(reg),
        !reg_contains(reg, sv.name),
    ensures
        registry_wf(reg.push(sv)),
{
    assert forall|i: int, j: int|
        0 <= i < j < reg.push(sv).len() implies reg.push(sv)[i].name != reg.push(sv)[j].name by {
        if j < reg.len() {
        } else {
            assert(reg.push(sv)[i] == reg[i]);
        }
    }
}

/// A script table keeps the registry's names unique.
proof fn lemma_apply_scripts_wf(reg: Seq<ScriptModel>, es: Seq<(String, Node)>, cwd: Seq<char>)
    requires
        registry_wf(reg),
    ensures
        registry_wf(apply_scripts(reg, es, cwd)),
    decreases es.len(),
{
    if es.len() == 0 {
    } else {
        let reg1 = scripts_step(reg, es[0].0@, es[0].1, cwd);
        if reg1 != reg {
            let sv = reg1[reg.len() as int];
            assert(reg1 == reg.push(sv));
            lemma_push_wf(reg, sv);
        }
        lemma_apply_scripts_wf(reg1, es.skip(1), cwd);
    }
}

/// A deferred table keeps the registry's names unique.
proof fn lemma_apply_deferred_wf(
    reg: Seq<ScriptModel>,
    es: Seq<(String, Node)>,
    cwd: Seq<char>,
    e: ExecutorModel,
)
    requires
        registry_wf(reg),
    ensures
        registry_wf(apply_deferred(reg, es, cwd, e)),
    decreases es.len(),
{
    if es.len() == 0 {
    } else {
        let reg1 = deferred_step(reg, es[0].0@, cwd, e);
        if reg1 != reg {
            let sv = reg1[reg.len() as int];
            assert(reg1 == reg.push(sv));
            lemma_push_wf(reg, sv);
        }
        lemma_apply_deferred_wf(reg1, es.skip(1), cwd, e);
    }
}

/// One format keeps the registry's names unique.
proof fn lemma_loaded_wf(c: ConfigModel, kind: ConfigType, src: Option<FoundManifestModel>)
    requires
        registry_wf(c.scripts),
    ensures
        loaded(c, kind, src) matches Ok(c2) ==> registry_wf(c2.scripts),
{
    match src {
        None => {},
        Some(m) => {
            match decoded(kind, m.text) {
                None => {},
                Some(root) => {
                    match kind {
                        ConfigType::PxJson => lemma_apply_scripts_wf(
                            c.scripts,
                            child_entries(root, "scripts"@),
                            m.dir,
                        ),
                        ConfigType::PxToml => lemma_apply_scripts_wf(
                            c.scripts,
                            child_entries(root, "scripts"@),
                            m.dir,
                        ),
                        ConfigType::PackageJson => lemma_apply_deferred_wf(
                            c.scripts,
                            child_entries(root, "scripts"@),
                            m.dir,
                            js_default_executor(root, c.executors),
                        ),
                        ConfigType::CargoToml => lemma_apply_scripts_wf(
                            c.scripts,
                            cargo_entries(root),
                            m.dir,
                        ),
                        ConfigType::ComposerJson => {
                            let t1 = match nested_str(root, "px"@, "executor"@) {
                                Some(cmd) => with_override(
                                    c.executors,
                                    ExecutorModel::Composer,
                                    cmd,
                                ),
                                None => c.executors,
                            };
                            let e1 = match override_of(t1, ExecutorModel::Composer) {
                                Some(cmd) => ExecutorModel::Custom(cmd),
                                None => ExecutorModel::Composer,
                            };
                            lemma_apply_deferred_wf(
                                c.scripts,
                                child_entries(root, "scripts"@),
                                m.dir,
                                e1,
                            );
                        },
                    }
                },
            }
        },
    }
}

/// A whole pass keeps the registry's names unique.
proof fn lemma_pass_wf(c: ConfigModel, s: ManifestSetModel)
    requires
        registry_wf(c.scripts),
    ensures
        pass_from(c, s) matches Ok(c2) ==> registry_wf(c2.scripts),
{
    lemma_loaded_wf(c, ConfigType::PxJson, s.px_json);
    if let Ok(c1) = loaded(c, ConfigType::PxJson, s.px_json) {
        lemma_loaded_wf(c1, ConfigType::PxToml, s.px_toml);
        if let Ok(c2) = loaded(c1, ConfigType::PxToml, s.px_toml) {
            lemma_loaded_wf(c2, ConfigType::PackageJson, s.package_json);
            if let Ok(c3) = loaded(c2, ConfigType::PackageJson, s.package_json) {
                lemma_loaded_wf(c3, ConfigType::CargoToml, s.cargo_toml);
                if let Ok(c4) = loaded(c3, ConfigType::CargoToml, s.cargo_toml) {
                    lemma_loaded_wf(c4, ConfigType::ComposerJson, s.composer_json);
                }
            }
        }
    }
}

} // verus!
