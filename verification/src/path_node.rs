//! A materialized configuration node: one name, its aliases, its children
//! and the target bundle it points to. An earlier design of the resolver
//! built this tree; the streaming resolver never does, but the type remains
//! for callers that want a materialized view.

use vstd::prelude::*;

use crate::error::view_strings;
use crate::parser::{attr_of, view_attrs, Attribute};
use crate::strutil::{split_of, split_str, str_eq};
use crate::target::Target;

verus! {

/// One node of a materialized configuration tree.
pub struct PathNode {
    /// The node's primary name.
    pub value: String,
    /// The other names the node answers to, without the primary name.
    pub aliases: Vec<String>,
    pub children: Vec<PathNode>,
    pub target: Option<Target>,
}

/// The pieces of `s`, with every piece equal to `value` removed.
pub open spec fn without(s: Seq<Seq<char>>, value: Seq<char>) -> Seq<Seq<char>>
    decreases s.len(),
{
    if s.len() == 0 {
        s
    } else if s.last() == value {
        without(s.drop_last(), value)
    } else {
        without(s.drop_last(), value).push(s.last())
    }
}

impl PathNode {
    /// An empty node.
    pub fn new() -> (r: PathNode)
        ensures
            r.value@.len() == 0,
            r.aliases@.len() == 0,
            r.children@.len() == 0,
            r.target is None,
    {
        PathNode { value: String::new(), aliases: Vec::new(), children: Vec::new(), target: None }
    }

    /// Builds the node's naming from the attributes of its markup element:
    /// the `value` attribute names it, and the `alias` attribute lists the
    /// other names, separated by bars, with repetitions of the primary name
    /// dropped. Children and the target bundle are attached later.
    pub fn from_config_element(attributes: &Vec<Attribute>) -> (r: PathNode)
        requires
            attr_of(view_attrs(attributes@), "value"@) is Some,
        ensures
            Some(r.value@) == attr_of(view_attrs(attributes@), "value"@),
            view_strings(r.aliases@) == (match attr_of(view_attrs(attributes@), "alias"@) {
                Some(raw) => without(split_of(raw, '|'), r.value@),
                None => Seq::<Seq<char>>::empty(),
            }),
            r.children@.len() == 0,
            r.target is None,
    {
        let value = match crate::parser::get_attribute(attributes, "value") {
            Some(v) => v.clone(),
            None => {
                proof {
                    assert(false);
                }
                String::new()
            },
        };
        let aliases = match crate::parser::get_attribute(attributes, "alias") {
            Some(raw) => {
                let parts = split_str(raw.as_str(), '|');
                let mut kept: Vec<String> = Vec::new();
                let mut i: usize = 0;
                while i < parts.len()
                    invariant
                        i <= parts@.len(),
                        view_strings(kept@) == without(
                            view_strings(parts@).take(i as int),
                            value@,
                        ),
                    decreases parts@.len() - i,
                {
                    proof {
                        assert(view_strings(parts@).take(i + 1).drop_last() =~= view_strings(
                            parts@,
                        ).take(i as int));
                        assert(view_strings(parts@).take(i + 1).last() == parts@[i as int]@);
                    }
                    if !str_eq(parts[i].as_str(), value.as_str()) {
                        let ghost old_kept = view_strings(kept@);
                        kept.push(parts[i].clone());
                        proof {
                            assert(view_strings(kept@) =~= old_kept.push(parts@[i as int]@));
                        }
                    }
                    i = i + 1;
                }
                proof {
                    assert(view_strings(parts@).take(parts@.len() as int) =~= view_strings(
                        parts@,
                    ));
                }
                kept
            },
            None => {
                let kept: Vec<String> = Vec::new();
                proof {
                    assert(view_strings(kept@) =~= Seq::<Seq<char>>::empty());
                }
                kept
            },
        };
        PathNode { value, aliases, children: Vec::new(), target: None }
    }
}

} // verus!
