//! The format reader's decision logic: the ancestor chain of the working
//! directory, nearest first, and the selection of the first directory in
//! the chain where a manifest was seen.

use vstd::prelude::*;
use vstd::string::StrSliceExecFns;

verus! {

/// The greatest index holding a path separator, if any.
pub open spec fn last_slash(s: Seq<char>) -> Option<int>
    decreases s.len(),
{
    if s.len() == 0 {
        None
    } else if s[s.len() - 1] == '/' {
        Some(s.len() - 1)
    } else {
        last_slash(s.drop_last())
    }
}

/// A found separator is in range and is a separator; when none is found,
/// there is none.
proof fn lemma_last_slash_props(s: Seq<char>)
    ensures
        match last_slash(s) {
            Some(i) => 0 <= i < s.len() && s[i] == '/',
            None => forall|j: int| 0 <= j < s.len() ==> s[j] != '/',
        },
    decreases s.len(),
{
    if s.len() == 0 {
    } else if s[s.len() - 1] == '/' {
    } else {
        lemma_last_slash_props(s.drop_last());
        if last_slash(s) is None {
            assert forall|j: int| 0 <= j < s.len() implies s[j] != '/' by {
                if j < s.len() - 1 {
                    assert(s.drop_last()[j] == s[j]);
                }
            }
        }
    }
}

/// The parent directory of a path: the text before its last separator
/// ("/" when that separator leads the path, "" when there is none); the
/// root "/" and the empty path have no parent.
pub open spec fn parent_of(s: Seq<char>) -> Option<Seq<char>> {
    if s.len() == 0 || s == seq!['/'] {
        None
    } else {
        match last_slash(s) {
            None => Some(Seq::empty()),
            Some(i) => if i == 0 {
                Some(seq!['/'])
            } else {
                Some(s.take(i))
            },
        }
    }
}

/// A parent is strictly shorter than its child.
proof fn lemma_parent_shorter(s: Seq<char>)
    ensures
        parent_of(s) matches Some(p) ==> p.len() < s.len(),
{
    lemma_last_slash_props(s);
    if s.len() == 0 || s == seq!['/'] {
    } else {
        match last_slash(s) {
            None => {},
            Some(i) => {
                if i == 0 && s.len() == 1 {
                    assert(s =~= seq!['/']);
                }
            },
        }
    }
}

/// The candidate directories of the ancestor walk: the path itself first,
/// then each parent in turn, ending at the top.
pub open spec fn ancestors_spec(s: Seq<char>) -> Seq<Seq<char>>
    decreases s.len(),
    via ancestors_spec_decreases
{
    match parent_of(s) {
        None => seq![s],
        Some(p) => seq![s] + ancestors_spec(p),
    }
}

#[via_fn]
proof fn ancestors_spec_decreases(s: Seq<char>) {
    lemma_parent_shorter(s);
}

/// The position of the first candidate directory that is present.
pub open spec fn nearest_index(dirs: Seq<Seq<char>>, present: Seq<Seq<char>>) -> Option<int>
    decreases dirs.len(),
{
    if dirs.len() == 0 {
        None
    } else if present.contains(dirs[0]) {
        Some(0)
    } else {
        match nearest_index(dirs.skip(1), present) {
            Some(i) => Some(i + 1),
            None => None,
        }
    }
}

/// The parent directory of `p`, or nothing at the top of the tree.
fn parent_dir(p: &str) -> (r: Option<String>)
    ensures
        match r {
            Some(q) => parent_of(p@) == Some(q@),
            None => parent_of(p@) is None,
        },
{
    let n = p.unicode_len();
    if n == 0 {
        return None;
    }
    if n == 1 && p.get_char(0) == '/' {
        proof {
            assert(p@ =~= seq!['/']);
        }
        return None;
    }
    proof {
        assert(p@.take(n as int) =~= p@);
    }
    let mut k = n;
    loop
        invariant
            k <= n,
            n == p@.len(),
            last_slash(p@) == last_slash(p@.take(k as int)),
        ensures
            k <= n,
            n == p@.len(),
            last_slash(p@) == last_slash(p@.take(k as int)),
            k == 0 || p@[k as int - 1] == '/',
        decreases k,
    {
        if k == 0 {
            break ;
        }
        if p.get_char(k - 1) == '/' {
            break ;
        }
        proof {
            assert(p@.take(k as int).drop_last() =~= p@.take(k as int - 1));
        }
        k = k - 1;
    }
    if k == 0 {
        proof {
            assert(p@.take(0).len() == 0);
            assert(last_slash(p@) is None);
            assert(p@ != seq!['/']) by {
                if p@ == seq!['/'] {
                    assert(p@.len() == 1 && p@[0] == '/');
                }
            }
        }
        return Some(String::new());
    }
    proof {
        assert(p@.take(k as int)[k as int - 1] == p@[k as int - 1]);
        assert(last_slash(p@) == Some(k as int - 1));
        assert(p@ != seq!['/']) by {
            if p@ == seq!['/'] {
                assert(p@.len() == 1 && p@[0] == '/');
            }
        }
    }
    if k == 1 {
        let root = "/".to_owned();
        proof {
            reveal_strlit("/");
            assert(root@ =~= seq!['/']);
        }
        return Some(root);
    }
    let sub = p.substring_char(0, k - 1);
    proof {
        assert(p@.subrange(0, k as int - 1) =~= p@.take(k as int - 1));
    }
    Some(sub.to_owned())
}

/// The ancestor chain of a directory, nearest first: the directory itself,
/// then each parent up to the top of the tree.
pub fn ancestors_of(path: &str) -> (r: Vec<String>)
    ensures
        r@.map_values(|d: String| d@) == ancestors_spec(path@),
{
    let mut out: Vec<String> = Vec::new();
    let mut cur: String = path.to_owned();
    proof {
        assert(out@.map_values(|d: String| d@) =~= Seq::<Seq<char>>::empty());
        assert(Seq::<Seq<char>>::empty() + ancestors_spec(cur@) =~= ancestors_spec(cur@));
    }
    loop
        invariant_except_break
            ancestors_spec(path@) == out@.map_values(|d: String| d@) + ancestors_spec(cur@),
        ensures
            out@.map_values(|d: String| d@) == ancestors_spec(path@),
        decreases cur@.len(),
    {
        let ghost pre = out@.map_values(|d: String| d@);
        let ghost cur_view = cur@;
        match parent_dir(cur.as_str()) {
            None => {
                out.push(cur);
                proof {
                    assert(out@.map_values(|d: String| d@) =~= pre + seq![cur_view]);
                    assert(ancestors_spec(cur_view) == seq![cur_view]);
                    assert(pre + seq![cur_view] =~= pre + ancestors_spec(cur_view));
                }
                break ;
            },
            Some(parent) => {
                out.push(cur);
                proof {
                    lemma_parent_shorter(cur_view);
                    assert(out@.map_values(|d: String| d@) =~= pre + seq![cur_view]);
                    assert(ancestors_spec(cur_view) == seq![cur_view] + ancestors_spec(parent@));
                    assert((pre + seq![cur_view]) + ancestors_spec(parent@) =~= pre + (
                    seq![cur_view] + ancestors_spec(parent@)));
                }
                cur = parent;
            },
        }
    }
    out
}

/// Whether some entry of `xs` holds exactly the characters of `x`.
fn list_contains(xs: &Vec<String>, x: &String) -> (r: bool)
    ensures
        r == xs@.map_values(|d: String| d@).contains(x@),
{
    let ghost xv = xs@.map_values(|d: String| d@);
    let mut j: usize = 0;
    while j < xs.len()
        invariant
            j <= xs.len(),
            xv == xs@.map_values(|d: String| d@),
            forall|i: int| 0 <= i < j ==> xv[i] != x@,
        decreases xs.len() - j,
    {
        let entry = &xs[j];
        if *entry == *x {
            assert(xv[j as int] == x@);
            return true;
        }
        j = j + 1;
    }
    assert(!xv.contains(x@));
    false
}

/// The first directory of the candidate chain where the manifest was seen:
/// the nearest-ancestor selection.
pub fn find_nearest(dirs: &Vec<String>, present: &Vec<String>) -> (r: Option<usize>)
    ensures
        match r {
            Some(i) => nearest_index(
                dirs@.map_values(|d: String| d@),
                present@.map_values(|d: String| d@),
            ) == Some(i as int),
            None => nearest_index(
                dirs@.map_values(|d: String| d@),
                present@.map_values(|d: String| d@),
            ) is None,
        },
{
    let ghost dv = dirs@.map_values(|d: String| d@);
    let ghost pv = present@.map_values(|d: String| d@);
    let mut i: usize = 0;
    while i < dirs.len()
        invariant
            i <= dirs.len(),
            dv == dirs@.map_values(|d: String| d@),
            pv == present@.map_values(|d: String| d@),
            forall|j: int| 0 <= j < i ==> !pv.contains(#[trigger] dv[j]),
        decreases dirs.len() - i,
    {
        if list_contains(present, &dirs[i]) {
            proof {
                lemma_nearest_found(dv, pv, i as int);
            }
            return Some(i);
        }
        i = i + 1;
    }
    proof {
        lemma_nearest_none(dv, pv);
    }
    None
}

/// When everything before position `i` is absent and position `i` is
/// present, the nearest index is `i`.
proof fn lemma_nearest_found(dv: Seq<Seq<char>>, pv: Seq<Seq<char>>, i: int)
    requires
        0 <= i < dv.len(),
        pv.contains(dv[i]),
        forall|j: int| 0 <= j < i ==> !pv.contains(#[trigger] dv[j]),
    ensures
        nearest_index(dv, pv) == Some(i),
    decreases i,
{
    if i == 0 {
    } else {
        assert(!pv.contains(dv[0]));
        assert(dv.skip(1)[i - 1] == dv[i]);
        assert forall|j: int| 0 <= j < i - 1 implies !pv.contains(#[trigger] dv.skip(1)[j]) by {
            assert(dv.skip(1)[j] == dv[j + 1]);
        }
        lemma_nearest_found(dv.skip(1), pv, i - 1);
    }
}

/// When no candidate is present, nothing is selected.
proof fn lemma_nearest_none(dv: Seq<Seq<char>>, pv: Seq<Seq<char>>)
    requires
        forall|j: int| 0 <= j < dv.len() ==> !pv.contains(#[trigger] dv[j]),
    ensures
        nearest_index(dv, pv) is None,
    decreases dv.len(),
{
    if dv.len() == 0 {
    } else {
        assert forall|j: int| 0 <= j < dv.len() - 1 implies !pv.contains(
            #[trigger] dv.skip(1)[j],
        ) by {
            assert(dv.skip(1)[j] == dv[j + 1]);
        }
        lemma_nearest_none(dv.skip(1), pv);
    }
}

/// Nearest-ancestor search: the working directory heads its own ancestor
/// chain, so when it holds the manifest itself, it — and not any ancestor
/// that also holds one — is the directory selected.
pub proof fn lemma_nearest_ancestor_wins(p: Seq<char>, present: Seq<Seq<char>>)
    requires
        present.contains(p),
    ensures
        ancestors_spec(p)[0] == p,
        nearest_index(ancestors_spec(p), present) == Some(0int),
{
    assert(ancestors_spec(p)[0] == p);
}

} // verus!
