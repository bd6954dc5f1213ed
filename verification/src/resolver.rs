//! The path resolver: a single-pass state machine that drives one query
//! through the configuration event stream, in two phases — path search, then
//! target search — without rewinding.
//!
//! The contract of [`get_target`] is stated over a step function
//! ([`spec_step`]) and its iteration over the stream ([`spec_run`]): the
//! executable machine returns exactly what the mathematical machine returns.

use vstd::prelude::*;

use crate::error::{view_strings, Error, ErrorModel, TextPosition};
use crate::parser::{
    display_of, node_has, view_events, ConfigEvent, EventModel, PathNode, PathNodeModel,
};
use crate::result::{ConfigResult, MergedResult, ResultModel, TargetAction};
use crate::strutil::{split_of, split_str};

verus! {

/// The live state of one resolution.
enum State {
    /// Nothing seen yet; waiting for the paths section to open.
    WaitingPaths,
    /// Phase 1: looking for `expect_value` among the nodes at `expect_depth`,
    /// collecting the names of the non-matching siblings for diagnostics.
    SearchingPathNode {
        expect_depth: usize,
        expect_value: String,
        correct_part: String,
        last_depth_has_target: bool,
        current_depth_availables: Vec<String>,
    },
    /// Collecting the names of the nodes at `expect_depth` for a listing.
    RecordingAvailables { expect_depth: usize, ret_val: Vec<String> },
    /// Like `RecordingAvailables`, but the collection will be reported as the
    /// children of a node that names no target.
    ErrorRecordingAvailables { expect_depth: usize, ret_val: Vec<String> },
    /// Phase 2: the path matched a node naming this target; waiting for the
    /// targets section to open.
    WaitingTargets { target_name: String, target_config_pos: TextPosition },
    /// Looking for the definition of `target_name`.
    SearchingTarget { target_name: String, target_config_pos: TextPosition },
}

/// The mathematical shape of a [`State`].
pub enum StateModel {
    WaitingPaths,
    SearchingPathNode {
        expect_depth: int,
        expect_value: Seq<char>,
        correct_part: Seq<char>,
        last_depth_has_target: bool,
        current_depth_availables: Seq<Seq<char>>,
    },
    RecordingAvailables { expect_depth: int, ret_val: Seq<Seq<char>> },
    ErrorRecordingAvailables { expect_depth: int, ret_val: Seq<Seq<char>> },
    WaitingTargets { target_name: Seq<char>, target_config_pos: TextPosition },
    SearchingTarget { target_name: Seq<char>, target_config_pos: TextPosition },
}

impl View for State {
    type V = StateModel;

    closed spec fn view(&self) -> StateModel {
        match self {
            State::WaitingPaths => StateModel::WaitingPaths,
            State::SearchingPathNode {
                expect_depth,
                expect_value,
                correct_part,
                last_depth_has_target,
                current_depth_availables,
            } => StateModel::SearchingPathNode {
                expect_depth: *expect_depth as int,
                expect_value: expect_value@,
                correct_part: correct_part@,
                last_depth_has_target: *last_depth_has_target,
                current_depth_availables: view_strings(current_depth_availables@),
            },
            State::RecordingAvailables { expect_depth, ret_val } => StateModel::RecordingAvailables {
                expect_depth: *expect_depth as int,
                ret_val: view_strings(ret_val@),
            },
            State::ErrorRecordingAvailables { expect_depth, ret_val } => StateModel::ErrorRecordingAvailables {
                expect_depth: *expect_depth as int,
                ret_val: view_strings(ret_val@),
            },
            State::WaitingTargets { target_name, target_config_pos } => StateModel::WaitingTargets {
                target_name: target_name@,
                target_config_pos: *target_config_pos,
            },
            State::SearchingTarget { target_name, target_config_pos } => StateModel::SearchingTarget {
                target_name: target_name@,
                target_config_pos: *target_config_pos,
            },
        }
    }
}

/// What one step of the machine does: move to a new state, or conclude.
pub enum StepModel {
    Next(StateModel),
    Done(Result<ResultModel, ErrorModel>),
}

/// How a run over a whole event sequence ends: still going (the stream was
/// exhausted without a conclusion), or concluded.
pub enum RunModel {
    Going(StateModel),
    Done(Result<ResultModel, ErrorModel>),
}

/// Depth bookkeeping that every reachable state obeys: the expected depth
/// indexes the query during the search, and never runs past its end while
/// recording.
pub open spec fn state_inv(s: StateModel, query: Seq<Seq<char>>) -> bool {
    &&& query.len() <= usize::MAX
    &&& match s {
        StateModel::SearchingPathNode { expect_depth, .. } => 0 <= expect_depth < query.len(),
        StateModel::RecordingAvailables { expect_depth, .. } => 0 <= expect_depth <= query.len(),
        StateModel::ErrorRecordingAvailables { expect_depth, .. } => 0 <= expect_depth
            <= query.len(),
        _ => true,
    }
}

/// A step of the machine preserves the depth bookkeeping.
pub proof fn lemma_step_inv(
    s: StateModel,
    e: EventModel,
    query: Seq<Seq<char>>,
    require_list: bool,
    full_path: Seq<char>,
)
    requires
        state_inv(s, query),
    ensures
        spec_step(s, e, query, require_list, full_path) matches StepModel::Next(s2) ==> state_inv(
            s2,
            query,
        ),
{
}

/// The `PathNodeNotFound` error raised when the search state closes without a
/// match.
pub open spec fn not_found_error(
    full_path: Seq<char>,
    expect_value: Seq<char>,
    correct_part: Seq<char>,
    last_depth_has_target: bool,
    availables: Seq<Seq<char>>,
) -> ErrorModel {
    ErrorModel::PathNodeNotFound {
        path: full_path,
        correct_part: if correct_part.len() == 0 {
            "(root)"@
        } else {
            correct_part
        },
        incorrect_node: expect_value,
        is_invalid: !last_depth_has_target && availables.len() == 0,
        nodes_available: availables,
    }
}

/// One step of the resolver on one event.
pub open spec fn spec_step(
    s: StateModel,
    e: EventModel,
    query: Seq<Seq<char>>,
    require_list: bool,
    full_path: Seq<char>,
) -> StepModel {
    match e {
        EventModel::StartPaths => StepModel::Next(
            match s {
                StateModel::WaitingPaths => if query.len() > 0 {
                    StateModel::SearchingPathNode {
                        expect_depth: 0,
                        expect_value: query[0],
                        correct_part: Seq::<char>::empty(),
                        last_depth_has_target: false,
                        current_depth_availables: Seq::<Seq<char>>::empty(),
                    }
                } else {
                    StateModel::RecordingAvailables {
                        expect_depth: 0,
                        ret_val: Seq::<Seq<char>>::empty(),
                    }
                },
                _ => s,
            },
        ),
        EventModel::StartP { depth, inner, position } => match s {
            StateModel::SearchingPathNode {
                expect_depth,
                expect_value,
                correct_part,
                last_depth_has_target,
                current_depth_availables,
            } => {
                if depth == expect_depth && node_has(inner, expect_value) {
                    if query.len() > depth + 1 {
                        StepModel::Next(
                            StateModel::SearchingPathNode {
                                expect_depth: expect_depth + 1,
                                expect_value: query[depth + 1],
                                correct_part: correct_part + expect_value + "/"@,
                                last_depth_has_target: inner.target is Some,
                                current_depth_availables: Seq::<Seq<char>>::empty(),
                            },
                        )
                    } else if require_list {
                        StepModel::Next(
                            StateModel::RecordingAvailables {
                                expect_depth: expect_depth + 1,
                                ret_val: Seq::<Seq<char>>::empty(),
                            },
                        )
                    } else {
                        match inner.target {
                            Some(target) => StepModel::Next(
                                StateModel::WaitingTargets {
                                    target_name: target,
                                    target_config_pos: position,
                                },
                            ),
                            None => StepModel::Next(
                                StateModel::ErrorRecordingAvailables {
                                    expect_depth: expect_depth + 1,
                                    ret_val: Seq::<Seq<char>>::empty(),
                                },
                            ),
                        }
                    }
                } else {
                    StepModel::Next(
                        StateModel::SearchingPathNode {
                            expect_depth,
                            expect_value,
                            correct_part,
                            last_depth_has_target,
                            current_depth_availables: if depth == expect_depth {
                                current_depth_availables.push(display_of(inner.names))
                            } else {
                                current_depth_availables
                            },
                        },
                    )
                }
            },
            StateModel::RecordingAvailables { expect_depth, ret_val } => StepModel::Next(
                StateModel::RecordingAvailables {
                    expect_depth,
                    ret_val: if depth == expect_depth {
                        ret_val.push(display_of(inner.names))
                    } else {
                        ret_val
                    },
                },
            ),
            StateModel::ErrorRecordingAvailables { expect_depth, ret_val } => StepModel::Next(
                StateModel::ErrorRecordingAvailables {
                    expect_depth,
                    ret_val: if depth == expect_depth {
                        ret_val.push(display_of(inner.names))
                    } else {
                        ret_val
                    },
                },
            ),
            _ => StepModel::Next(s),
        },
        EventModel::EndP { depth, position } => match s {
            StateModel::RecordingAvailables { expect_depth, ret_val } => {
                if expect_depth == depth + 1 {
                    StepModel::Done(Ok(ResultModel::AvailablePathNodes(ret_val)))
                } else {
                    StepModel::Next(s)
                }
            },
            StateModel::ErrorRecordingAvailables { expect_depth, ret_val } => {
                if expect_depth == depth + 1 {
                    StepModel::Done(
                        Err(
                            ErrorModel::TargetNotSet {
                                path: full_path,
                                path_node_pos: position,
                                nodes_available: ret_val,
                            },
                        ),
                    )
                } else {
                    StepModel::Next(s)
                }
            },
            StateModel::SearchingPathNode {
                expect_depth,
                expect_value,
                correct_part,
                last_depth_has_target,
                current_depth_availables,
            } => {
                if depth + 1 == expect_depth {
                    StepModel::Done(
                        Err(
                            not_found_error(
                                full_path,
                                expect_value,
                                correct_part,
                                last_depth_has_target,
                                current_depth_availables,
                            ),
                        ),
                    )
                } else {
                    StepModel::Next(s)
                }
            },
            _ => StepModel::Next(s),
        },
        EventModel::EndPaths { position } => match s {
            StateModel::RecordingAvailables { expect_depth, ret_val } => StepModel::Done(
                Ok(ResultModel::AvailablePathNodes(ret_val)),
            ),
            StateModel::ErrorRecordingAvailables { expect_depth, ret_val } => StepModel::Done(
                Err(
                    ErrorModel::TargetNotSet {
                        path: full_path,
                        path_node_pos: position,
                        nodes_available: ret_val,
                    },
                ),
            ),
            StateModel::SearchingPathNode {
                expect_depth,
                expect_value,
                correct_part,
                last_depth_has_target,
                current_depth_availables,
            } => StepModel::Done(
                Err(
                    not_found_error(
                        full_path,
                        expect_value,
                        correct_part,
                        last_depth_has_target,
                        current_depth_availables,
                    ),
                ),
            ),
            _ => StepModel::Next(s),
        },
        EventModel::StartTargets => StepModel::Next(
            match s {
                StateModel::WaitingTargets { target_name, target_config_pos } => StateModel::SearchingTarget {
                    target_name,
                    target_config_pos,
                },
                _ => s,
            },
        ),
        EventModel::Target { name, actions } => match s {
            StateModel::SearchingTarget { target_name, target_config_pos } => {
                if name == target_name {
                    StepModel::Done(Ok(ResultModel::Actions(actions)))
                } else {
                    StepModel::Next(s)
                }
            },
            _ => StepModel::Next(s),
        },
        EventModel::EndTargets => match s {
            StateModel::WaitingTargets { target_name, target_config_pos } => StepModel::Done(
                Err(
                    ErrorModel::TargetNotExist {
                        path: full_path,
                        target_name,
                        target_config_pos,
                    },
                ),
            ),
            StateModel::SearchingTarget { target_name, target_config_pos } => StepModel::Done(
                Err(
                    ErrorModel::TargetNotExist {
                        path: full_path,
                        target_name,
                        target_config_pos,
                    },
                ),
            ),
            _ => StepModel::Next(s),
        },
        EventModel::XMLReaderError { e } => StepModel::Done(Err(e)),
    }
}

/// The machine iterated over a whole event sequence.
pub open spec fn spec_run(
    s: StateModel,
    events: Seq<EventModel>,
    query: Seq<Seq<char>>,
    require_list: bool,
    full_path: Seq<char>,
) -> RunModel
    decreases events.len(),
{
    if events.len() == 0 {
        RunModel::Going(s)
    } else {
        match spec_step(s, events[0], query, require_list, full_path) {
            StepModel::Done(r) => RunModel::Done(r),
            StepModel::Next(s2) => spec_run(s2, events.drop_first(), query, require_list, full_path),
        }
    }
}

/// Whether the raw query string is malformed: non-empty with an empty
/// segment (a leading, trailing or doubled separator).
pub open spec fn path_invalid(full_path: Seq<char>) -> bool {
    full_path.len() > 0 && exists|i: int|
        0 <= i < split_of(full_path, '/').len() && split_of(full_path, '/')[i].len() == 0
}

/// The segments of the query: none for the empty string, else the pieces
/// between the separators.
pub open spec fn query_of(full_path: Seq<char>) -> Seq<Seq<char>> {
    if full_path.len() == 0 {
        Seq::<Seq<char>>::empty()
    } else {
        split_of(full_path, '/')
    }
}

/// What resolving `full_path` against `events` returns.
pub open spec fn resolve_spec(
    events: Seq<EventModel>,
    full_path: Seq<char>,
    require_list: bool,
) -> Result<ResultModel, ErrorModel> {
    if path_invalid(full_path) {
        Err(ErrorModel::InvalidPath { path: full_path })
    } else {
        match spec_run(
            StateModel::WaitingPaths,
            events,
            query_of(full_path),
            require_list,
            full_path,
        ) {
            RunModel::Done(r) => r,
            RunModel::Going(_) => Err(
                ErrorModel::UnexpectedInternalError_ReachUnexpectedInternalState,
            ),
        }
    }
}

/// View of a resolution result.
pub open spec fn view_res(r: Result<ConfigResult, Error>) -> Result<ResultModel, ErrorModel> {
    match r {
        Ok(x) => Ok(x@),
        Err(e) => Err(e@),
    }
}

/// A state transition that may instead conclude the resolution.
enum MaybeReturn {
    State(State),
    Return(Result<ConfigResult, Error>),
}

/// View of a [`MaybeReturn`] as a step outcome.
spec fn view_step(r: MaybeReturn) -> StepModel {
    match r {
        MaybeReturn::State(s) => StepModel::Next(s@),
        MaybeReturn::Return(res) => StepModel::Done(view_res(res)),
    }
}

impl State {
    /// The paths section opened.
    fn start_paths(self, split_path: &Vec<String>, Ghost(require_list): Ghost<bool>, Ghost(
        full_path,
    ): Ghost<Seq<char>>) -> (r: State)
        ensures
            spec_step(
                self@,
                EventModel::StartPaths,
                view_strings(split_path@),
                require_list,
                full_path,
            ) == StepModel::Next(r@),
    {
        proof {
            assert(view_strings(Seq::<String>::empty()) =~= Seq::<Seq<char>>::empty());
            if split_path@.len() > 0 {
                assert(view_strings(split_path@)[0] == split_path@[0]@);
            }
        }
        match self {
            State::WaitingPaths => {
                if split_path.len() > 0 {
                    State::SearchingPathNode {
                        expect_depth: 0,
                        expect_value: split_path[0].clone(),
                        correct_part: String::new(),
                        last_depth_has_target: false,
                        current_depth_availables: Vec::new(),
                    }
                } else {
                    State::RecordingAvailables { expect_depth: 0, ret_val: Vec::new() }
                }
            },
            _ => self,
        }
    }

    /// A node opened.
    fn start_p(
        self,
        depth: usize,
        inner: &PathNode,
        split_path: &Vec<String>,
        require_list: bool,
        parser_position: TextPosition,
        Ghost(full_path): Ghost<Seq<char>>,
    ) -> (r: State)
        requires
            state_inv(self@, view_strings(split_path@)),
        ensures
            spec_step(
                self@,
                EventModel::StartP { depth: depth as int, inner: inner@, position: parser_position },
                view_strings(split_path@),
                require_list,
                full_path,
            ) == StepModel::Next(r@),
    {
        proof {
            assert(view_strings(split_path@).len() == split_path@.len());
            assert(view_strings(Seq::<String>::empty()) =~= Seq::<Seq<char>>::empty());
        }
        match self {
            State::SearchingPathNode {
                expect_depth,
                expect_value,
                correct_part,
                last_depth_has_target,
                mut current_depth_availables,
            } => {
                if depth == expect_depth && inner.has(expect_value.as_str()) {
                    if split_path.len() > depth + 1 {
                        proof {
                            assert(view_strings(split_path@)[depth + 1] == split_path@[depth
                                + 1]@);
                        }
                        let r = State::SearchingPathNode {
                            expect_depth: expect_depth + 1,
                            expect_value: split_path[depth + 1].clone(),
                            correct_part: correct_part.concat(expect_value.as_str()).concat("/"),
                            last_depth_has_target: inner.target.is_some(),
                            current_depth_availables: Vec::new(),
                        };
                        proof {
                            assert(view_strings(Seq::<String>::empty()) =~= Seq::<
                                Seq<char>,
                            >::empty());
                        }
                        r
                    } else if require_list {
                        let r = State::RecordingAvailables {
                            expect_depth: expect_depth + 1,
                            ret_val: Vec::new(),
                        };
                        proof {
                            assert(view_strings(Seq::<String>::empty()) =~= Seq::<
                                Seq<char>,
                            >::empty());
                        }
                        r
                    } else {
                        match &inner.target {
                            Some(target) => State::WaitingTargets {
                                target_name: target.clone(),
                                target_config_pos: parser_position,
                            },
                            None => {
                                let r = State::ErrorRecordingAvailables {
                                    expect_depth: expect_depth + 1,
                                    ret_val: Vec::new(),
                                };
                                proof {
                                    assert(view_strings(Seq::<String>::empty()) =~= Seq::<
                                        Seq<char>,
                                    >::empty());
                                }
                                r
                            },
                        }
                    }
                } else {
                    if depth == expect_depth {
                        let ghost old_avail = view_strings(current_depth_availables@);
                        current_depth_availables.push(inner.to_string());
                        proof {
                            assert(view_strings(current_depth_availables@) =~= old_avail.push(
                                display_of(inner@.names),
                            ));
                        }
                    }
                    State::SearchingPathNode {
                        expect_depth,
                        expect_value,
                        correct_part,
                        last_depth_has_target,
                        current_depth_availables,
                    }
                }
            },
            State::RecordingAvailables { expect_depth, mut ret_val } => {
                if depth == expect_depth {
                    let ghost old_rv = view_strings(ret_val@);
                    ret_val.push(inner.to_string());
                    proof {
                        assert(view_strings(ret_val@) =~= old_rv.push(display_of(inner@.names)));
                    }
                }
                State::RecordingAvailables { expect_depth, ret_val }
            },
            State::ErrorRecordingAvailables { expect_depth, mut ret_val } => {
                if depth == expect_depth {
                    let ghost old_rv = view_strings(ret_val@);
                    ret_val.push(inner.to_string());
                    proof {
                        assert(view_strings(ret_val@) =~= old_rv.push(display_of(inner@.names)));
                    }
                }
                State::ErrorRecordingAvailables { expect_depth, ret_val }
            },
            _ => self,
        }
    }

    /// A node closed.
    fn end_p(
        self,
        depth: usize,
        full_path: &str,
        parser_position: TextPosition,
        Ghost(query): Ghost<Seq<Seq<char>>>,
        Ghost(require_list): Ghost<bool>,
    ) -> (r: MaybeReturn)
        ensures
            spec_step(
                self@,
                EventModel::EndP { depth: depth as int, position: parser_position },
                query,
                require_list,
                full_path@,
            ) == view_step(r),
    {
        match self {
            State::RecordingAvailables { expect_depth, ret_val } => {
                if expect_depth >= 1 && expect_depth - 1 == depth {
                    MaybeReturn::Return(Ok(ConfigResult::AvailablePathNodes(ret_val)))
                } else {
                    MaybeReturn::State(State::RecordingAvailables { expect_depth, ret_val })
                }
            },
            State::ErrorRecordingAvailables { expect_depth, ret_val } => {
                if expect_depth >= 1 && expect_depth - 1 == depth {
                    MaybeReturn::Return(
                        Err(
                            Error::TargetNotSet {
                                path: full_path.to_owned(),
                                path_node_pos: parser_position,
                                nodes_available: ret_val,
                            },
                        ),
                    )
                } else {
                    MaybeReturn::State(State::ErrorRecordingAvailables { expect_depth, ret_val })
                }
            },
            State::SearchingPathNode {
                expect_depth,
                expect_value,
                correct_part,
                last_depth_has_target,
                current_depth_availables,
            } => {
                if expect_depth >= 1 && expect_depth - 1 == depth {
                    MaybeReturn::Return(
                        Err(
                            Error::PathNodeNotFound {
                                path: full_path.to_owned(),
                                correct_part: if correct_part.as_str().is_empty() {
                                    String::from_str("(root)")
                                } else {
                                    correct_part
                                },
                                incorrect_node: expect_value,
                                is_invalid: !last_depth_has_target
                                    && current_depth_availables.len() == 0,
                                nodes_available: current_depth_availables,
                            },
                        ),
                    )
                } else {
                    MaybeReturn::State(
                        State::SearchingPathNode {
                            expect_depth,
                            expect_value,
                            correct_part,
                            last_depth_has_target,
                            current_depth_availables,
                        },
                    )
                }
            },
            _ => MaybeReturn::State(self),
        }
    }

    /// The paths section closed.
    fn end_paths(
        self,
        full_path: &str,
        parser_position: TextPosition,
        Ghost(query): Ghost<Seq<Seq<char>>>,
        Ghost(require_list): Ghost<bool>,
    ) -> (r: MaybeReturn)
        ensures
            spec_step(
                self@,
                EventModel::EndPaths { position: parser_position },
                query,
                require_list,
                full_path@,
            ) == view_step(r),
    {
        match self {
            State::RecordingAvailables { expect_depth: _unused, ret_val } => {
                MaybeReturn::Return(Ok(ConfigResult::AvailablePathNodes(ret_val)))
            },
            State::ErrorRecordingAvailables { expect_depth: _unused, ret_val } => {
                MaybeReturn::Return(
                    Err(
                        Error::TargetNotSet {
                            path: full_path.to_owned(),
                            path_node_pos: parser_position,
                            nodes_available: ret_val,
                        },
                    ),
                )
            },
            State::SearchingPathNode {
                expect_depth,
                expect_value,
                correct_part,
                last_depth_has_target,
                current_depth_availables,
            } => {
                MaybeReturn::Return(
                    Err(
                        Error::PathNodeNotFound {
                            path: full_path.to_owned(),
                            correct_part: if correct_part.as_str().is_empty() {
                                String::from_str("(root)")
                            } else {
                                correct_part
                            },
                            incorrect_node: expect_value,
                            is_invalid: !last_depth_has_target
                                && current_depth_availables.len() == 0,
                            nodes_available: current_depth_availables,
                        },
                    ),
                )
            },
            _ => MaybeReturn::State(self),
        }
    }

    /// The targets section opened.
    fn start_targets(self, Ghost(query): Ghost<Seq<Seq<char>>>, Ghost(require_list): Ghost<
        bool,
    >, Ghost(full_path): Ghost<Seq<char>>) -> (r: State)
        ensures
            spec_step(self@, EventModel::StartTargets, query, require_list, full_path)
                == StepModel::Next(r@),
    {
        match self {
            State::WaitingTargets { target_name, target_config_pos } => State::SearchingTarget {
                target_name,
                target_config_pos,
            },
            _ => self,
        }
    }

    /// A target definition arrived.
    fn target(
        self,
        current_name: String,
        actions: Vec<TargetAction>,
        Ghost(query): Ghost<Seq<Seq<char>>>,
        Ghost(require_list): Ghost<bool>,
        Ghost(full_path): Ghost<Seq<char>>,
    ) -> (r: MaybeReturn)
        ensures
            spec_step(
                self@,
                EventModel::Target {
                    name: current_name@,
                    actions: crate::result::view_actions(actions@),
                },
                query,
                require_list,
                full_path,
            ) == view_step(r),
    {
        match self {
            State::SearchingTarget { target_name, target_config_pos } => {
                if current_name.eq(&target_name) {
                    MaybeReturn::Return(Ok(ConfigResult::Actions(actions)))
                } else {
                    MaybeReturn::State(
                        State::SearchingTarget { target_name, target_config_pos },
                    )
                }
            },
            _ => MaybeReturn::State(self),
        }
    }

    /// The targets section closed.
    fn end_targets(self, full_path: &str, Ghost(query): Ghost<Seq<Seq<char>>>, Ghost(
        require_list,
    ): Ghost<bool>) -> (r: MaybeReturn)
        ensures
            spec_step(self@, EventModel::EndTargets, query, require_list, full_path@)
                == view_step(r),
    {
        match self {
            State::WaitingTargets { target_name, target_config_pos } => {
                MaybeReturn::Return(
                    Err(
                        Error::TargetNotExist {
                            path: full_path.to_owned(),
                            target_name,
                            target_config_pos,
                        },
                    ),
                )
            },
            State::SearchingTarget { target_name, target_config_pos } => {
                MaybeReturn::Return(
                    Err(
                        Error::TargetNotExist {
                            path: full_path.to_owned(),
                            target_name,
                            target_config_pos,
                        },
                    ),
                )
            },
            _ => MaybeReturn::State(self),
        }
    }
}

/// Splits the raw query string into segments: none for the empty string, and
/// a malformed-query error when any segment is empty.
pub fn split_path(full_path: &str) -> (r: Result<Vec<String>, Error>)
    ensures
        (r is Err) == path_invalid(full_path@),
        r matches Err(e) ==> e@ == (ErrorModel::InvalidPath { path: full_path@ }),
        r matches Ok(v) ==> view_strings(v@) == query_of(full_path@),
{
    if full_path.is_empty() {
        Ok(Vec::new())
    } else {
        let splitted = split_str(full_path, '/');
        let mut valid = true;
        let mut i: usize = 0;
        while i < splitted.len()
            invariant
                i <= splitted@.len(),
                view_strings(splitted@) == split_of(full_path@, '/'),
                valid == (forall|j: int|
                    0 <= j < i ==> view_strings(splitted@)[j].len() != 0),
            decreases splitted@.len() - i,
        {
            proof {
                assert(view_strings(splitted@)[i as int] == splitted@[i as int]@);
            }
            if splitted[i].as_str().is_empty() {
                valid = false;
            }
            i = i + 1;
        }
        if valid {
            Ok(splitted)
        } else {
            Err(Error::InvalidPath { path: full_path.to_owned() })
        }
    }
}

/// Resolves one query against a configuration event stream.
///
/// The query is split into segments first; a malformed query is rejected
/// before any event is looked at. The machine then consumes the events once,
/// start to finish, and returns exactly what the mathematical machine
/// [`resolve_spec`] returns on the same inputs.
pub fn get_target(events: &Vec<ConfigEvent>, full_path: &str, require_list: bool) -> (r: Result<
    ConfigResult,
    Error,
>)
    ensures
        view_res(r) == resolve_spec(view_events(events@), full_path@, require_list),
{
    let ghost all_events = view_events(events@);
    let ghost fp = full_path@;
    let split = match split_path(full_path) {
        Ok(split) => split,
        Err(e) => {
            return Err(e);
        },
    };
    let ghost query = query_of(fp);
    let n_segments = split.len();
    proof {
        assert(view_strings(split@) == query);
        assert(query.len() == n_segments);
        assert(view_events(events@).skip(0) =~= view_events(events@));
    }

    let mut state = State::WaitingPaths;
    let mut i: usize = 0;
    loop
        invariant
            view_strings(split@) == query,
            query == query_of(fp),
            fp == full_path@,
            !path_invalid(fp),
            all_events == view_events(events@),
            i <= events@.len(),
            state_inv(state@, query),
            spec_run(StateModel::WaitingPaths, all_events, query, require_list, fp) == spec_run(
                state@,
                view_events(events@).skip(i as int),
                query,
                require_list,
                fp,
            ),
        decreases events@.len() - i,
    {
        if i == events.len() {
            proof {
                assert(view_events(events@).skip(i as int).len() == 0);
                assert(spec_run(state@, view_events(events@).skip(i as int), query, require_list,
                    fp) == RunModel::Going(state@));
            }
            return Err(Error::UnexpectedInternalError_ReachUnexpectedInternalState);
        }
        let ghost evs = view_events(events@).skip(i as int);
        let ghost prev_state = state@;
        let event = &events[i];
        proof {
            assert(evs[0] == events@[i as int]@);
            assert(evs.drop_first() =~= view_events(events@).skip(i + 1));
            lemma_step_inv(prev_state, evs[0], query, require_list, fp);
            assert(spec_run(prev_state, evs, query, require_list, fp) == (
            match spec_step(prev_state, evs[0], query, require_list, fp) {
                StepModel::Done(r0) => RunModel::Done(r0),
                StepModel::Next(s2) => spec_run(s2, evs.drop_first(), query, require_list, fp),
            }));
        }
        i = i + 1;
        match event {
            ConfigEvent::StartPaths => {
                state = state.start_paths(&split, Ghost(require_list), Ghost(fp));
            },
            ConfigEvent::StartP { depth, inner, position } => {
                state = state.start_p(
                    *depth,
                    inner,
                    &split,
                    require_list,
                    *position,
                    Ghost(fp),
                );
            },
            ConfigEvent::EndP { depth, position } => {
                match state.end_p(*depth, full_path, *position, Ghost(query), Ghost(require_list)) {
                    MaybeReturn::State(new_state) => {
                        state = new_state;
                    },
                    MaybeReturn::Return(ret_val) => {
                        return ret_val;
                    },
                }
            },
            ConfigEvent::EndPaths { position } => {
                match state.end_paths(full_path, *position, Ghost(query), Ghost(require_list)) {
                    MaybeReturn::State(new_state) => {
                        state = new_state;
                    },
                    MaybeReturn::Return(ret_val) => {
                        return ret_val;
                    },
                }
            },
            ConfigEvent::StartTargets => {
                state = state.start_targets(Ghost(query), Ghost(require_list), Ghost(fp));
            },
            ConfigEvent::Target { name, actions } => {
                match state.target(
                    name.clone(),
                    crate::result::clone_actions(actions),
                    Ghost(query),
                    Ghost(require_list),
                    Ghost(fp),
                ) {
                    MaybeReturn::State(new_state) => {
                        state = new_state;
                    },
                    MaybeReturn::Return(ret_val) => {
                        return ret_val;
                    },
                }
            },
            ConfigEvent::EndTargets => {
                match state.end_targets(full_path, Ghost(query), Ghost(require_list)) {
                    MaybeReturn::State(new_state) => {
                        state = new_state;
                    },
                    MaybeReturn::Return(ret_val) => {
                        return ret_val;
                    },
                }
            },
            ConfigEvent::XMLReaderError { e } => {
                return Err(e.clone());
            },
        }
    }
}


/// All configuration events a document's raw events produce.
pub open spec fn events_of(raw: Seq<crate::parser::SourceModel>) -> Seq<EventModel> {
    crate::parser::fout(crate::parser::initial_filter(), raw)
}

/// The actions of one result model; a listing has none.
pub open spec fn m_actions_of(r: ResultModel) -> Seq<crate::result::ActionModel> {
    match r {
        ResultModel::Actions(a) => a,
        ResultModel::AvailablePathNodes(_) => Seq::<crate::result::ActionModel>::empty(),
    }
}

/// The actions of a sequence of result models, in order.
pub open spec fn m_concat(rs: Seq<ResultModel>) -> Seq<crate::result::ActionModel>
    decreases rs.len(),
{
    if rs.len() == 0 {
        Seq::<crate::result::ActionModel>::empty()
    } else {
        m_concat(rs.drop_last()) + m_actions_of(rs.last())
    }
}

/// Whether every result model carries actions.
pub open spec fn m_all_actions(rs: Seq<ResultModel>) -> bool {
    forall|i: int| 0 <= i < rs.len() ==> rs[i] is Actions
}

/// `m_concat` agrees with `concat_actions` through the views.
proof fn lemma_concat_view(results: Seq<ConfigResult>)
    ensures
        m_concat(crate::result::view_results(results)) == crate::result::concat_actions(results),
    decreases results.len(),
{
    if results.len() == 0 {
    } else {
        lemma_concat_view(results.drop_last());
        assert(crate::result::view_results(results).drop_last() =~= crate::result::view_results(
            results.drop_last(),
        ));
        assert(crate::result::view_results(results).last() == results.last()@);
        assert(m_concat(crate::result::view_results(results)) =~= crate::result::concat_actions(
            results,
        ));
    }
}

/// The failures a batch of queries produces, one per failing query, in the
/// queries' order.
pub open spec fn batch_errors(events: Seq<EventModel>, paths: Seq<Seq<char>>) -> Seq<ErrorModel>
    decreases paths.len(),
{
    if paths.len() == 0 {
        Seq::<ErrorModel>::empty()
    } else {
        batch_errors(events, paths.drop_last()) + match resolve_spec(events, paths.last(), false) {
            Err(e) => seq![e],
            Ok(_) => Seq::<ErrorModel>::empty(),
        }
    }
}

/// The results of the queries of a batch that resolve, in the queries' order.
pub open spec fn batch_successes(events: Seq<EventModel>, paths: Seq<Seq<char>>) -> Seq<ResultModel>
    decreases paths.len(),
{
    if paths.len() == 0 {
        Seq::<ResultModel>::empty()
    } else {
        batch_successes(events, paths.drop_last()) + match resolve_spec(
            events,
            paths.last(),
            false,
        ) {
            Ok(r) => seq![r],
            Err(_) => Seq::<ResultModel>::empty(),
        }
    }
}

/// View of a vector of errors as a sequence of error models.
pub open spec fn view_errors(s: Seq<Error>) -> Seq<ErrorModel> {
    s.map_values(|e: Error| e@)
}

/// A configuration document, held as the raw markup events of its text. Each
/// query filters and resolves over a fresh pass of them: the two-phase,
/// no-rewind resolver needs a fresh stream per query.
pub struct Config {
    items: Vec<crate::parser::SourceEvent>,
}

impl View for Config {
    type V = Seq<crate::parser::SourceModel>;

    closed spec fn view(&self) -> Seq<crate::parser::SourceModel> {
        crate::parser::view_sources(self.items@)
    }
}

impl Config {
    /// A configuration over the given raw events.
    pub fn new(items: Vec<crate::parser::SourceEvent>) -> (r: Config)
        ensures
            r@ == crate::parser::view_sources(items@),
    {
        Config { items }
    }

    /// Resolves one query against the document.
    pub fn input(&self, full_path: &str, require_list: bool) -> (r: Result<ConfigResult, Error>)
        ensures
            view_res(r) == resolve_spec(events_of(self@), full_path@, require_list),
    {
        let items = crate::parser::clone_source_events(&self.items);
        let mut parser = crate::parser::ConfigParser::from(items);
        let ghost total = events_of(self@);
        let mut events: Vec<ConfigEvent> = Vec::new();
        loop
            invariant_except_break
                view_events(events@) + crate::parser::fout(parser@.state, parser@.remaining)
                    == total,
            ensures
                view_events(events@) == total,
            decreases parser@.remaining.len(),
        {
            let ghost pre = parser@;
            match parser.next() {
                Some(e) => {
                    events.push(e);
                    proof {
                        assert(view_events(events@) =~= view_events(events@.drop_last()).push(
                            events@.last()@,
                        ));
                        assert(view_events(events@) + crate::parser::fout(
                            parser@.state,
                            parser@.remaining,
                        ) =~= total);
                    }
                },
                None => {
                    proof {
                        assert(view_events(events@) + crate::parser::fout(
                            pre.state,
                            pre.remaining,
                        ) =~= view_events(events@));
                        assert(view_events(events@) == total);
                    }
                    break;
                },
            }
        }
        get_target(&events, full_path, require_list)
    }

    /// Resolves a batch of queries and merges what resolved into one
    /// consolidated configuration, collecting one error per failed query.
    /// A query that resolved to a listing cannot be merged with actions; in
    /// that case the merge error is appended and the configuration is empty.
    pub fn batch(&self, paths: Vec<String>) -> (r: (MergedResult, Vec<Error>))
        ensures
            ({
                let events = events_of(self@);
                let ps = view_strings(paths@);
                let errs = batch_errors(events, ps);
                let succ = batch_successes(events, ps);
                if m_all_actions(succ) {
                    &&& view_errors(r.1@) == errs
                    &&& r.0.paths.var@ == "PATH"@
                    &&& view_strings(r.0.paths.values@) == crate::result::sel_paths(
                        m_concat(succ),
                    )
                    &&& view_strings(r.0.scripts@) == crate::result::sel_scripts(m_concat(succ))
                    &&& crate::result::var_add_keys(r.0.vars@) == crate::result::var_keys(
                        m_concat(succ),
                    )
                    &&& forall|k: int|
                        0 <= k < r.0.vars@.len() ==> view_strings(#[trigger] r.0.vars@[k].values@)
                            == crate::result::var_values(m_concat(succ), r.0.vars@[k].var@)
                } else {
                    &&& view_errors(r.1@) == errs.push(
                        ErrorModel::UnexpectedInternalError_AvailableNextsCannotCombine,
                    )
                    &&& r.0.paths.var@ == "PATH"@
                    &&& r.0.paths.values@.len() == 0
                    &&& r.0.scripts@.len() == 0
                    &&& r.0.vars@.len() == 0
                }
            }),
    {
        let ghost events = events_of(self@);
        let ghost ps = view_strings(paths@);
        let mut results: Vec<ConfigResult> = Vec::new();
        let mut errors: Vec<Error> = Vec::new();
        let mut i: usize = 0;
        while i < paths.len()
            invariant
                i <= paths@.len(),
                events == events_of(self@),
                ps == view_strings(paths@),
                crate::result::view_results(results@) == batch_successes(events, ps.take(i as int)),
                view_errors(errors@) == batch_errors(events, ps.take(i as int)),
            decreases paths@.len() - i,
        {
            proof {
                assert(ps.take(i + 1).drop_last() =~= ps.take(i as int));
                assert(ps.take(i + 1).last() == paths@[i as int]@);
            }
            match self.input(paths[i].as_str(), false) {
                Ok(result) => {
                    results.push(result);
                    proof {
                        assert(crate::result::view_results(results@) =~= batch_successes(
                            events,
                            ps.take(i + 1),
                        ));
                        assert(view_errors(errors@) =~= batch_errors(events, ps.take(i + 1)));
                    }
                },
                Err(error) => {
                    errors.push(error);
                    proof {
                        assert(crate::result::view_results(results@) =~= batch_successes(
                            events,
                            ps.take(i + 1),
                        ));
                        assert(view_errors(errors@) =~= batch_errors(events, ps.take(i + 1)));
                    }
                },
            }
            i = i + 1;
        }
        proof {
            assert(ps.take(ps.len() as int) =~= ps);
            lemma_concat_view(results@);
        }
        let ghost succ = batch_successes(events, ps);
        proof {
            assert(crate::result::view_results(results@) == succ);
            assert forall|k: int| 0 <= k < results@.len() implies (
            (#[trigger] results@[k]) is Actions) == (succ[k] is Actions) by {
                assert(succ[k] == results@[k]@);
            }
        }
        match ConfigResult::merge(results) {
            Ok(result) => (result, errors),
            Err(e) => {
                let ghost old_errors = view_errors(errors@);
                errors.push(e);
                proof {
                    assert(view_errors(errors@) =~= old_errors.push(
                        ErrorModel::UnexpectedInternalError_AvailableNextsCannotCombine,
                    ));
                }
                (MergedResult::new(), errors)
            },
        }
    }
}

} // verus!
