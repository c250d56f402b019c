//! The generic key-value tree that the manifest decoders yield. Only the
//! shapes the loaders consume are distinguished: strings and tables; every
//! other value is `Other`.

use vstd::prelude::*;

verus! {

/// One decoded manifest value: a string, a table of named children in the
/// order the decoder yielded them, or anything else.
#[derive(Debug)]
pub enum Node {
    Str(String),
    Table(Vec<(String, Node)>),
    Other,
}

/// The first entry of `es` named `key`, if any.
pub open spec fn table_get(es: Seq<(String, Node)>, key: Seq<char>) -> Option<Node>
    decreases es.len(),
{
    if es.len() == 0 {
        None
    } else if es[0].0@ == key {
        Some(es[0].1)
    } else {
        table_get(es.skip(1), key)
    }
}

/// The child of `n` named `key`, when `n` is a table that has one.
pub open spec fn child(n: Node, key: Seq<char>) -> Option<Node> {
    match n {
        Node::Table(es) => table_get(es@, key),
        _ => None,
    }
}

/// Like `child`, threaded through an optional node.
pub open spec fn child_opt(n: Option<Node>, key: Seq<char>) -> Option<Node> {
    match n {
        Some(m) => child(m, key),
        None => None,
    }
}

/// The string content of the child of `n` named `key`, if it is a string.
pub open spec fn child_str(n: Node, key: Seq<char>) -> Option<Seq<char>> {
    match child(n, key) {
        Some(Node::Str(s)) => Some(s@),
        _ => None,
    }
}

/// The entries of the child table of `n` named `key`; empty when absent or
/// not a table.
pub open spec fn child_entries(n: Node, key: Seq<char>) -> Seq<(String, Node)> {
    match child(n, key) {
        Some(Node::Table(es)) => es@,
        _ => Seq::empty(),
    }
}

impl Node {
    /// Looks a key up in a table node; `None` on any other node or when the
    /// key is absent.
    pub fn get<'a>(&'a self, key: &String) -> (r: Option<&'a Node>)
        ensures
            match r {
                Some(n) => child(*self, key@) == Some(*n),
                None => child(*self, key@) is None,
            },
    {
        match self {
            Node::Table(es) => {
                proof {
                    assert(es@.skip(0) =~= es@);
                }
                let mut i: usize = 0;
                while i < es.len()
                    invariant
                        i <= es.len(),
                        child(*self, key@) == table_get(es@, key@),
                        table_get(es@, key@) == table_get(es@.skip(i as int), key@),
                    decreases es.len() - i,
                {
                    if es[i].0 == *key {
                        proof {
                            assert(es@.skip(i as int)[0] == es@[i as int]);
                        }
                        return Some(&es[i].1);
                    }
                    proof {
                        assert(es@.skip(i as int).skip(1) =~= es@.skip(i as int + 1));
                        assert(es@.skip(i as int)[0] == es@[i as int]);
                    }
                    i = i + 1;
                }
                proof {
                    assert(es@.skip(i as int).len() == 0);
                }
                None
            },
            _ => None,
        }
    }

    /// The string content of this node's child named `key`, cloned out.
    pub fn get_str(&self, key: &String) -> (r: Option<String>)
        ensures
            match r {
                Some(s) => child_str(*self, key@) == Some(s@),
                None => child_str(*self, key@) is None,
            },
    {
        match self.get(key) {
            Some(Node::Str(s)) => Some(s.clone()),
            _ => None,
        }
    }
}

} // verus!
