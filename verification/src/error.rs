//! Error values produced while resolving a query path against a configuration
//! document, carrying source positions for diagnostics.

use vstd::prelude::*;

verus! {

/// A row/column pair reported by the markup reader. It is carried through to
/// diagnostics untouched and never used for control flow.
#[derive(Clone, Copy, PartialEq, Eq, Structural, Debug)]
pub struct TextPosition {
    pub row: u64,
    pub column: u64,
}

/// Everything that can go wrong between reading the raw arguments and
/// resolving a query to a list of target actions.
///
/// The reader errors (`FailOpenFile`, `FailParse`) carry the underlying
/// error rendered to a message, so that this type stays plain data.
#[allow(non_camel_case_types)]
#[derive(Debug, PartialEq, Eq)]
pub enum Error {
    /// An argument did not fit the accepted forms.
    InvalidArgument { arg: String },
    /// The configuration file could not be opened.
    FailOpenFile { file_name: String, message: String },
    /// The markup reader rejected the document.
    FailParse { message: String, position: TextPosition },
    /// A section element appeared where the format forbids it.
    InvalidFormat { position: TextPosition, element: String },
    /// The query string itself is malformed (an empty segment).
    InvalidPath { path: String },
    /// A segment had no matching node among the siblings at its depth.
    PathNodeNotFound {
        path: String,
        correct_part: String,
        incorrect_node: String,
        /// True when the node searched has neither children nor a target:
        /// probably a configuration-authoring mistake, not a typo.
        is_invalid: bool,
        nodes_available: Vec<String>,
    },
    /// The path matched a node fully, but that node names no target.
    TargetNotSet { path: String, path_node_pos: TextPosition, nodes_available: Vec<String> },
    /// A node referenced a target name the targets section never defines.
    TargetNotExist { path: String, target_name: String, target_config_pos: TextPosition },
    /// The event stream ended without honoring its nesting contract.
    UnexpectedInternalError_ReachUnexpectedInternalState,
    UnexpectedInternalError_GetUnexpectedResult,
    /// A listing result was handed to `merge`, which only accepts actions.
    UnexpectedInternalError_AvailableNextsCannotCombine,
}

/// The mathematical shape of an [`Error`]: every string replaced by its
/// sequence of characters. Contracts speak of this type.
pub enum ErrorModel {
    InvalidArgument { arg: Seq<char> },
    FailOpenFile { file_name: Seq<char>, message: Seq<char> },
    FailParse { message: Seq<char>, position: TextPosition },
    InvalidFormat { position: TextPosition, element: Seq<char> },
    InvalidPath { path: Seq<char> },
    PathNodeNotFound {
        path: Seq<char>,
        correct_part: Seq<char>,
        incorrect_node: Seq<char>,
        is_invalid: bool,
        nodes_available: Seq<Seq<char>>,
    },
    TargetNotSet { path: Seq<char>, path_node_pos: TextPosition, nodes_available: Seq<Seq<char>> },
    TargetNotExist { path: Seq<char>, target_name: Seq<char>, target_config_pos: TextPosition },
    UnexpectedInternalError_ReachUnexpectedInternalState,
    UnexpectedInternalError_GetUnexpectedResult,
    UnexpectedInternalError_AvailableNextsCannotCombine,
}

/// View of a vector of strings as a sequence of character sequences.
pub open spec fn view_strings(s: Seq<String>) -> Seq<Seq<char>> {
    s.map_values(|x: String| x@)
}

impl View for Error {
    type V = ErrorModel;

    open spec fn view(&self) -> ErrorModel {
        match self {
            Error::InvalidArgument { arg } => ErrorModel::InvalidArgument { arg: arg@ },
            Error::FailOpenFile { file_name, message } => ErrorModel::FailOpenFile {
                file_name: file_name@,
                message: message@,
            },
            Error::FailParse { message, position } => ErrorModel::FailParse {
                message: message@,
                position: *position,
            },
            Error::InvalidFormat { position, element } => ErrorModel::InvalidFormat {
                position: *position,
                element: element@,
            },
            Error::InvalidPath { path } => ErrorModel::InvalidPath { path: path@ },
            Error::PathNodeNotFound {
                path,
                correct_part,
                incorrect_node,
                is_invalid,
                nodes_available,
            } => ErrorModel::PathNodeNotFound {
                path: path@,
                correct_part: correct_part@,
                incorrect_node: incorrect_node@,
                is_invalid: *is_invalid,
                nodes_available: view_strings(nodes_available@),
            },
            Error::TargetNotSet { path, path_node_pos, nodes_available } => ErrorModel::TargetNotSet {
                path: path@,
                path_node_pos: *path_node_pos,
                nodes_available: view_strings(nodes_available@),
            },
            Error::TargetNotExist { path, target_name, target_config_pos } => ErrorModel::TargetNotExist {
                path: path@,
                target_name: target_name@,
                target_config_pos: *target_config_pos,
            },
            Error::UnexpectedInternalError_ReachUnexpectedInternalState => ErrorModel::UnexpectedInternalError_ReachUnexpectedInternalState,
            Error::UnexpectedInternalError_GetUnexpectedResult => ErrorModel::UnexpectedInternalError_GetUnexpectedResult,
            Error::UnexpectedInternalError_AvailableNextsCannotCombine => ErrorModel::UnexpectedInternalError_AvailableNextsCannotCombine,
        }
    }
}

/// Copies a vector of strings.
pub fn clone_string_vec(v: &Vec<String>) -> (r: Vec<String>)
    ensures
        r@ == v@,
{
    let mut r: Vec<String> = Vec::new();
    let mut i: usize = 0;
    while i < v.len()
        invariant
            i <= v@.len(),
            r@ == v@.take(i as int),
        decreases v@.len() - i,
    {
        r.push(v[i].clone());
        proof {
            assert(r@ =~= v@.take(i + 1));
        }
        i = i + 1;
    }
    proof {
        assert(v@.take(v@.len() as int) =~= v@);
    }
    r
}

impl Clone for Error {
    /// Copies the error; the copy has the same mathematical shape.
    fn clone(&self) -> (r: Error)
        ensures
            r@ == self@,
    {
        match self {
            Error::InvalidArgument { arg } => Error::InvalidArgument { arg: arg.clone() },
            Error::FailOpenFile { file_name, message } => Error::FailOpenFile {
                file_name: file_name.clone(),
                message: message.clone(),
            },
            Error::FailParse { message, position } => Error::FailParse {
                message: message.clone(),
                position: *position,
            },
            Error::InvalidFormat { position, element } => Error::InvalidFormat {
                position: *position,
                element: element.clone(),
            },
            Error::InvalidPath { path } => Error::InvalidPath { path: path.clone() },
            Error::PathNodeNotFound {
                path,
                correct_part,
                incorrect_node,
                is_invalid,
                nodes_available,
            } => Error::PathNodeNotFound {
                path: path.clone(),
                correct_part: correct_part.clone(),
                incorrect_node: incorrect_node.clone(),
                is_invalid: *is_invalid,
                nodes_available: clone_string_vec(nodes_available),
            },
            Error::TargetNotSet { path, path_node_pos, nodes_available } => Error::TargetNotSet {
                path: path.clone(),
                path_node_pos: *path_node_pos,
                nodes_available: clone_string_vec(nodes_available),
            },
            Error::TargetNotExist { path, target_name, target_config_pos } => Error::TargetNotExist {
                path: path.clone(),
                target_name: target_name.clone(),
                target_config_pos: *target_config_pos,
            },
            Error::UnexpectedInternalError_ReachUnexpectedInternalState => Error::UnexpectedInternalError_ReachUnexpectedInternalState,
            Error::UnexpectedInternalError_GetUnexpectedResult => Error::UnexpectedInternalError_GetUnexpectedResult,
            Error::UnexpectedInternalError_AvailableNextsCannotCombine => Error::UnexpectedInternalError_AvailableNextsCannotCombine,
        }
    }
}

/// The coarse error taxonomy of the element-level reader generation (the
/// one around `ParsedElement`); the resolver's richer [`Error`] carries the
/// positions and listings this one lacks.
#[derive(Debug)]
pub enum ConfigError {
    FailOpenFile { message: String },
    FailParse { message: String },
    UnexpectedPath,
    PathNodeNameNotSet,
    TargetsNotExist,
    TargetNotSet,
    TargetNotExist { target_name: String },
}

} // verus!
