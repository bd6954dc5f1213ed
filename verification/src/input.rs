//! Classification of the raw command-line arguments: the flag forms, the
//! query forms, and the plain path list.

use vstd::prelude::*;

use crate::error::{view_strings, Error, ErrorModel};
use crate::strutil::{lowercase, lower_of, starts_with, str_eq, str_starts_with};

verus! {

/// What the raw arguments ask for.
#[derive(Debug, Eq, PartialEq)]
pub enum InputType {
    Help,
    Version,
    OpenConfig,
    /// Resolve one query: list the next nodes, or name the target actions.
    GetInfo { path: String, require_list: bool },
    /// Resolve each path and apply the merged configuration.
    Paths { paths: Vec<String> },
}

/// The mathematical shape of an [`InputType`].
pub enum InputModel {
    Help,
    Version,
    OpenConfig,
    GetInfo { path: Seq<char>, require_list: bool },
    Paths { paths: Seq<Seq<char>> },
}

impl View for InputType {
    type V = InputModel;

    open spec fn view(&self) -> InputModel {
        match self {
            InputType::Help => InputModel::Help,
            InputType::Version => InputModel::Version,
            InputType::OpenConfig => InputModel::OpenConfig,
            InputType::GetInfo { path, require_list } => InputModel::GetInfo {
                path: path@,
                require_list: *require_list,
            },
            InputType::Paths { paths } => InputModel::Paths { paths: view_strings(paths@) },
        }
    }
}

/// An argument that is a flag of its own, or an ordinary path argument.
enum SpecialOrNormal<'a> {
    Special(InputType),
    Normal(&'a str),
}

/// The flag an argument names, if it names one.
pub open spec fn try_spec(s: Seq<char>) -> Option<InputModel> {
    if s == "--help"@ || s == "-h"@ {
        Some(InputModel::Help)
    } else if s == "--open-config"@ || s == "-c"@ {
        Some(InputModel::OpenConfig)
    } else if s == "--version"@ || s == "-v"@ {
        Some(InputModel::Version)
    } else if starts_with(s, "--list:"@) {
        Some(InputModel::GetInfo { path: s.skip(7), require_list: true })
    } else if starts_with(s, "-l"@) {
        Some(InputModel::GetInfo { path: s.skip(2), require_list: true })
    } else if starts_with(s, "--target:"@) {
        Some(InputModel::GetInfo { path: s.skip(9), require_list: false })
    } else if starts_with(s, "-t"@) {
        Some(InputModel::GetInfo { path: s.skip(2), require_list: false })
    } else {
        None
    }
}

/// Classifies one argument.
fn try_to_spec<'a>(arg: &'a str) -> (r: SpecialOrNormal<'a>)
    ensures
        match r {
            SpecialOrNormal::Special(t) => try_spec(arg@) == Some(t@),
            SpecialOrNormal::Normal(s) => try_spec(arg@) is None && s@ == arg@,
        },
{
    if str_eq(arg, "--help") || str_eq(arg, "-h") {
        SpecialOrNormal::Special(InputType::Help)
    } else if str_eq(arg, "--open-config") || str_eq(arg, "-c") {
        SpecialOrNormal::Special(InputType::OpenConfig)
    } else if str_eq(arg, "--version") || str_eq(arg, "-v") {
        SpecialOrNormal::Special(InputType::Version)
    } else if str_starts_with(arg, "--list:") {
        proof {
            reveal_strlit("--list:");
        }
        let n = arg.unicode_len();
        let rest = arg.substring_char(7, n);
        proof {
            assert(arg@.subrange(7, n as int) =~= arg@.skip(7));
        }
        SpecialOrNormal::Special(
            InputType::GetInfo { path: rest.to_owned(), require_list: true },
        )
    } else if str_starts_with(arg, "-l") {
        proof {
            reveal_strlit("-l");
        }
        let n = arg.unicode_len();
        let rest = arg.substring_char(2, n);
        proof {
            assert(arg@.subrange(2, n as int) =~= arg@.skip(2));
        }
        SpecialOrNormal::Special(
            InputType::GetInfo { path: rest.to_owned(), require_list: true },
        )
    } else if str_starts_with(arg, "--target:") {
        proof {
            reveal_strlit("--target:");
        }
        let n = arg.unicode_len();
        let rest = arg.substring_char(9, n);
        proof {
            assert(arg@.subrange(9, n as int) =~= arg@.skip(9));
        }
        SpecialOrNormal::Special(
            InputType::GetInfo { path: rest.to_owned(), require_list: false },
        )
    } else if str_starts_with(arg, "-t") {
        proof {
            reveal_strlit("-t");
        }
        let n = arg.unicode_len();
        let rest = arg.substring_char(2, n);
        proof {
            assert(arg@.subrange(2, n as int) =~= arg@.skip(2));
        }
        SpecialOrNormal::Special(
            InputType::GetInfo { path: rest.to_owned(), require_list: false },
        )
    } else {
        SpecialOrNormal::Normal(arg)
    }
}

/// The index of the first argument after the program name that is a flag, or
/// the length when none is.
pub open spec fn first_special(args: Seq<Seq<char>>, i: int) -> int
    decreases args.len() - i,
{
    if i < 0 || i >= args.len() {
        args.len() as int
    } else if try_spec(args[i]) is Some {
        i
    } else {
        first_special(args, i + 1)
    }
}

/// What a whole argument list asks for: nothing but the program name prints
/// the usage; a single argument may be a flag, matched after lowercasing, or
/// one path; several arguments must all be paths, and the first flag among
/// them is rejected.
pub open spec fn get_spec(args: Seq<Seq<char>>) -> Result<InputModel, ErrorModel> {
    if args.len() == 0 {
        Ok(InputModel::Paths { paths: Seq::<Seq<char>>::empty() })
    } else if args.len() == 1 {
        Ok(InputModel::Help)
    } else if args.len() == 2 {
        let lowered = lower_of(args[1]);
        match try_spec(lowered) {
            Some(t) => Ok(t),
            None => Ok(InputModel::Paths { paths: seq![lowered] }),
        }
    } else {
        let k = first_special(args, 1);
        if k < args.len() {
            Err(ErrorModel::InvalidArgument { arg: args[k] })
        } else {
            Ok(InputModel::Paths { paths: args.skip(1) })
        }
    }
}

impl InputType {
    /// Classifies the raw arguments, program name first.
    pub fn get(args: Vec<String>) -> (r: Result<InputType, Error>)
        ensures
            match r {
                Ok(t) => get_spec(view_strings(args@)) == Ok::<InputModel, ErrorModel>(t@),
                Err(e) => get_spec(view_strings(args@)) == Err::<InputModel, ErrorModel>(e@),
            },
    {
        let ghost va = view_strings(args@);
        if args.len() == 0 {
            let paths: Vec<String> = Vec::new();
            proof {
                assert(view_strings(paths@) =~= Seq::<Seq<char>>::empty());
            }
            Ok(InputType::Paths { paths })
        } else if args.len() == 1 {
            Ok(InputType::Help)
        } else if args.len() == 2 {
            proof {
                assert(va[1] == args@[1]@);
            }
            let arg1 = lowercase(args[1].as_str());
            match try_to_spec(arg1.as_str()) {
                SpecialOrNormal::Special(spec_arg) => Ok(spec_arg),
                SpecialOrNormal::Normal(normal) => {
                    let mut paths: Vec<String> = Vec::new();
                    paths.push(normal.to_owned());
                    proof {
                        assert(view_strings(paths@) =~= seq![lower_of(va[1])]);
                    }
                    Ok(InputType::Paths { paths })
                },
            }
        } else {
            let mut ret_val: Vec<String> = Vec::new();
            let mut i: usize = 1;
            proof {
                assert(view_strings(ret_val@) =~= va.subrange(1, 1));
            }
            while i < args.len()
                invariant
                    args@.len() >= 3,
                    1 <= i <= args@.len(),
                    va == view_strings(args@),
                    forall|j: int| 1 <= j < i ==> try_spec(va[j]) is None,
                    first_special(va, 1) == first_special(va, i as int),
                    view_strings(ret_val@) == va.subrange(1, i as int),
                decreases args@.len() - i,
            {
                proof {
                    assert(va[i as int] == args@[i as int]@);
                }
                match try_to_spec(args[i].as_str()) {
                    SpecialOrNormal::Special(_) => {
                        let bad = args[i].clone();
                        proof {
                            assert(first_special(va, i as int) == i);
                        }
                        return Err(Error::InvalidArgument { arg: bad });
                    },
                    SpecialOrNormal::Normal(_) => {
                        let ghost old_rv = ret_val@;
                        ret_val.push(args[i].clone());
                        proof {
                            assert(view_strings(ret_val@) =~= view_strings(old_rv).push(
                                args@[i as int]@,
                            ));
                            assert(va.subrange(1, i as int).push(va[i as int]) =~= va.subrange(
                                1,
                                i + 1,
                            ));
                        }
                    },
                }
                i = i + 1;
            }
            proof {
                assert(first_special(va, args@.len() as int) == va.len());
                assert(va.subrange(1, va.len() as int) =~= va.skip(1));
            }
            Ok(InputType::Paths { paths: ret_val })
        }
    }
}

} // verus!
