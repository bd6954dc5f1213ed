//! Classification of one raw markup element into the vocabulary of the
//! configuration format, borrowing from the element's attributes. This is
//! the element-level view an earlier reader iteration exposed; the streaming
//! filter has its own richer classification.

use vstd::prelude::*;

use crate::parser::{attr_of, view_attrs, Attribute};
use crate::strutil::{split_of, split_str_ref, str_eq, view_strs};

verus! {

/// The names and target reference of one node element.
#[derive(PartialEq, Eq, Debug)]
pub struct PathNodeInner<'a> {
    pub values: Vec<&'a str>,
    pub target: Option<&'a str>,
}

/// The mathematical shape of a [`PathNodeInner`].
pub struct PathNodeInnerModel {
    pub values: Seq<Seq<char>>,
    pub target: Option<Seq<char>>,
}

impl<'a> View for PathNodeInner<'a> {
    type V = PathNodeInnerModel;

    open spec fn view(&self) -> PathNodeInnerModel {
        PathNodeInnerModel {
            values: view_strs(self.values@),
            target: match self.target {
                Some(t) => Some(t@),
                None => None,
            },
        }
    }
}

impl<'a> PathNodeInner<'a> {
    /// Whether one of the node's names is `val`.
    pub fn has(&self, val: &str) -> (r: bool)
        ensures
            r == exists|i: int| 0 <= i < self@.values.len() && self@.values[i] == val@,
    {
        let mut i: usize = 0;
        while i < self.values.len()
            invariant
                i <= self.values@.len(),
                forall|j: int| 0 <= j < i ==> view_strs(self.values@)[j] != val@,
            decreases self.values@.len() - i,
        {
            if str_eq(self.values[i], val) {
                assert(self@.values[i as int] == val@);
                return true;
            }
            i = i + 1;
        }
        false
    }
}

/// One markup element, classified by its tag name.
#[derive(PartialEq, Eq, Debug)]
pub enum ParsedElement<'a> {
    Paths,
    Targets,
    PathNode { inner: PathNodeInner<'a> },
    TargetNode { name: Option<&'a str> },
    PathAdd(Option<&'a str>),
    ScriptExecute(Option<&'a str>),
    Unknown { tag_name: &'a str },
}

/// The mathematical shape of a [`ParsedElement`].
pub enum ParsedElementModel {
    Paths,
    Targets,
    PathNode { inner: PathNodeInnerModel },
    TargetNode { name: Option<Seq<char>> },
    PathAdd(Option<Seq<char>>),
    ScriptExecute(Option<Seq<char>>),
    Unknown { tag_name: Seq<char> },
}

impl<'a> View for ParsedElement<'a> {
    type V = ParsedElementModel;

    open spec fn view(&self) -> ParsedElementModel {
        match self {
            ParsedElement::Paths => ParsedElementModel::Paths,
            ParsedElement::Targets => ParsedElementModel::Targets,
            ParsedElement::PathNode { inner } => ParsedElementModel::PathNode { inner: inner@ },
            ParsedElement::TargetNode { name } => ParsedElementModel::TargetNode {
                name: match name {
                    Some(n) => Some(n@),
                    None => None,
                },
            },
            ParsedElement::PathAdd(v) => ParsedElementModel::PathAdd(
                match v {
                    Some(x) => Some(x@),
                    None => None,
                },
            ),
            ParsedElement::ScriptExecute(v) => ParsedElementModel::ScriptExecute(
                match v {
                    Some(x) => Some(x@),
                    None => None,
                },
            ),
            ParsedElement::Unknown { tag_name } => ParsedElementModel::Unknown {
                tag_name: tag_name@,
            },
        }
    }
}

/// How one element is classified from its tag name and attributes.
pub open spec fn parse_element_spec(
    name: Seq<char>,
    attributes: Seq<crate::parser::AttributeModel>,
) -> ParsedElementModel {
    if name == "paths"@ {
        ParsedElementModel::Paths
    } else if name == "targets"@ {
        ParsedElementModel::Targets
    } else if name == "p"@ {
        ParsedElementModel::PathNode {
            inner: PathNodeInnerModel {
                values: match attr_of(attributes, "value"@) {
                    Some(raw) => split_of(raw, '|'),
                    None => Seq::<Seq<char>>::empty(),
                },
                target: attr_of(attributes, "target"@),
            },
        }
    } else if name == "target"@ {
        ParsedElementModel::TargetNode { name: attr_of(attributes, "name"@) }
    } else if name == "scriptexec"@ {
        ParsedElementModel::ScriptExecute(attr_of(attributes, "path"@))
    } else if name == "pathadd"@ {
        ParsedElementModel::PathAdd(attr_of(attributes, "value"@))
    } else {
        ParsedElementModel::Unknown { tag_name: name }
    }
}

impl<'a> ParsedElement<'a> {
    /// Classifies one element by its tag name, borrowing the attribute
    /// values it keeps.
    pub fn from(name: &'a str, attributes: &'a Vec<Attribute>) -> (r: ParsedElement<'a>)
        ensures
            r@ == parse_element_spec(name@, view_attrs(attributes@)),
    {
        if str_eq(name, "paths") {
            ParsedElement::Paths
        } else if str_eq(name, "targets") {
            ParsedElement::Targets
        } else if str_eq(name, "p") {
            let values = match crate::parser::get_attribute(attributes, "value") {
                Some(raw) => split_str_ref(raw.as_str(), '|'),
                None => {
                    let empty: Vec<&'a str> = Vec::new();
                    proof {
                        assert(view_strs(empty@) =~= Seq::<Seq<char>>::empty());
                    }
                    empty
                },
            };
            let target = match crate::parser::get_attribute(attributes, "target") {
                Some(t) => Some(t.as_str()),
                None => None,
            };
            ParsedElement::PathNode { inner: PathNodeInner { values, target } }
        } else if str_eq(name, "target") {
            let tname = match crate::parser::get_attribute(attributes, "name") {
                Some(n) => Some(n.as_str()),
                None => None,
            };
            ParsedElement::TargetNode { name: tname }
        } else if str_eq(name, "scriptexec") {
            let v = match crate::parser::get_attribute(attributes, "path") {
                Some(x) => Some(x.as_str()),
                None => None,
            };
            ParsedElement::ScriptExecute(v)
        } else if str_eq(name, "pathadd") {
            let v = match crate::parser::get_attribute(attributes, "value") {
                Some(x) => Some(x.as_str()),
                None => None,
            };
            ParsedElement::PathAdd(v)
        } else {
            ParsedElement::Unknown { tag_name: name }
        }
    }
}

} // verus!
