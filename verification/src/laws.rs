//! Laws of the resolver, proved over whole documents.
//!
//! A configuration document is modelled as a forest of nodes followed by a
//! list of target definitions; [`doc_events`] renders it as the event stream
//! a well-behaved producer delivers. The public proof functions at the end
//! state what resolution returns on such a stream: the declared actions of a
//! matched target, the children of a matched node without a target, and the
//! root listing for the empty query.

use vstd::prelude::*;

use crate::error::{ErrorModel, TextPosition};
use crate::parser::{display_of, node_has, EventModel, PathNodeModel};
use crate::resolver::{
    not_found_error, path_invalid, query_of, resolve_spec, spec_run, spec_step, RunModel,
    StateModel, StepModel,
};
use crate::result::{ActionModel, ResultModel};

verus! {

/// One configuration node of a modelled document: its names, the target it
/// names, the positions of its opening and closing tags, and its children.
pub struct NodeModel {
    pub names: Seq<Seq<char>>,
    pub target: Option<Seq<char>>,
    pub start_pos: TextPosition,
    pub end_pos: TextPosition,
    pub children: Seq<NodeModel>,
}

/// One target definition of a modelled document.
pub struct TargetModel {
    pub name: Seq<char>,
    pub actions: Seq<ActionModel>,
}

/// A whole modelled document: the paths forest, then the target definitions.
pub struct DocModel {
    pub roots: Seq<NodeModel>,
    pub end_paths_pos: TextPosition,
    pub targets: Seq<TargetModel>,
}

/// The node as the event stream carries it.
pub open spec fn pnode(n: NodeModel) -> PathNodeModel {
    PathNodeModel { names: n.names, target: n.target }
}

/// The events of one node's subtree, rooted at the given depth.
pub open spec fn tree_events(n: NodeModel, depth: int) -> Seq<EventModel>
    decreases n,
{
    seq![
        EventModel::StartP { depth, inner: pnode(n), position: n.start_pos },
    ] + forest_events(n.children, depth + 1) + seq![
        EventModel::EndP { depth, position: n.end_pos },
    ]
}

/// The events of a sequence of sibling subtrees, all at the given depth.
pub open spec fn forest_events(nodes: Seq<NodeModel>, depth: int) -> Seq<EventModel>
    decreases nodes,
{
    if nodes.len() == 0 {
        Seq::<EventModel>::empty()
    } else {
        tree_events(nodes[0], depth) + forest_events(nodes.drop_first(), depth)
    }
}

/// The events of the target definitions, in order.
pub open spec fn targets_events(ts: Seq<TargetModel>) -> Seq<EventModel>
    decreases ts,
{
    if ts.len() == 0 {
        Seq::<EventModel>::empty()
    } else {
        seq![EventModel::Target { name: ts[0].name, actions: ts[0].actions }] + targets_events(
            ts.drop_first(),
        )
    }
}

/// The full event stream of a modelled document.
pub open spec fn doc_events(doc: DocModel) -> Seq<EventModel> {
    seq![EventModel::StartPaths] + forest_events(doc.roots, 0) + seq![
        EventModel::EndPaths { position: doc.end_paths_pos },
    ] + seq![EventModel::StartTargets] + targets_events(doc.targets) + seq![
        EventModel::EndTargets,
    ]
}

/// The display names of a sequence of nodes, in order.
pub open spec fn displays(nodes: Seq<NodeModel>) -> Seq<Seq<char>> {
    nodes.map_values(|n: NodeModel| display_of(n.names))
}

/// The index of the first node whose names contain `seg`, or the length when
/// none does.
pub open spec fn first_match(nodes: Seq<NodeModel>, seg: Seq<char>) -> int
    decreases nodes.len(),
{
    if nodes.len() == 0 {
        0
    } else if node_has(pnode(nodes[0]), seg) {
        0
    } else {
        1 + first_match(nodes.drop_first(), seg)
    }
}

/// The node a query selects out of a forest, matching each segment from
/// index `i` on against the first node whose names contain it, and then
/// descending into that node's children.
pub open spec fn select(nodes: Seq<NodeModel>, query: Seq<Seq<char>>, i: int) -> Option<NodeModel>
    recommends
        0 <= i < query.len(),
    decreases nodes,
    when 0 <= i < query.len()
{
    let k = first_match(nodes, query[i]);
    if !(0 <= k < nodes.len()) {
        None
    } else if i == query.len() - 1 {
        Some(nodes[k])
    } else {
        select(nodes[k].children, query, i + 1)
    }
}

/// The index of the first definition of `name`, or the length when there is
/// none.
pub open spec fn first_target(ts: Seq<TargetModel>, name: Seq<char>) -> int
    decreases ts.len(),
{
    if ts.len() == 0 {
        0
    } else if ts[0].name == name {
        0
    } else {
        1 + first_target(ts.drop_first(), name)
    }
}

/// The actions of the first definition of `name`, if any.
pub open spec fn lookup_target(ts: Seq<TargetModel>, name: Seq<char>) -> Option<Seq<ActionModel>> {
    let k = first_target(ts, name);
    if 0 <= k < ts.len() {
        Some(ts[k].actions)
    } else {
        None
    }
}

/// Running the machine over `a + b` runs it over `a`, then over `b` from
/// wherever `a` left it; a conclusion inside `a` stands.
pub proof fn lemma_run_app(
    s: StateModel,
    a: Seq<EventModel>,
    b: Seq<EventModel>,
    query: Seq<Seq<char>>,
    rl: bool,
    fp: Seq<char>,
)
    ensures
        spec_run(s, a + b, query, rl, fp) == (match spec_run(s, a, query, rl, fp) {
            RunModel::Going(s2) => spec_run(s2, b, query, rl, fp),
            RunModel::Done(r) => RunModel::Done(r),
        }),
    decreases a.len(),
{
    if a.len() == 0 {
        assert(a + b =~= b);
    } else {
        assert((a + b)[0] == a[0]);
        assert((a + b).drop_first() =~= a.drop_first() + b);
        match spec_step(s, a[0], query, rl, fp) {
            StepModel::Done(r) => {},
            StepModel::Next(s2) => {
                lemma_run_app(s2, a.drop_first(), b, query, rl, fp);
            },
        }
    }
}

/// Running the machine over a single event is one step.
pub proof fn lemma_run_one(
    s: StateModel,
    e: EventModel,
    query: Seq<Seq<char>>,
    rl: bool,
    fp: Seq<char>,
)
    ensures
        spec_run(s, seq![e], query, rl, fp) == (match spec_step(s, e, query, rl, fp) {
            StepModel::Done(r) => RunModel::Done(r),
            StepModel::Next(s2) => RunModel::Going(s2),
        }),
{
    let evs = seq![e];
    assert(evs[0] == e);
    assert(evs.drop_first() =~= Seq::<EventModel>::empty());
    match spec_step(s, e, query, rl, fp) {
        StepModel::Done(r) => {},
        StepModel::Next(s2) => {
            assert(spec_run(s2, evs.drop_first(), query, rl, fp) == RunModel::Going(s2));
        },
    }
}

/// States that a subtree strictly below their depth of interest cannot
/// touch: the search and the recordings at a shallower depth, and both
/// phase-two states.
pub open spec fn paths_inert(s: StateModel, depth: int) -> bool {
    match s {
        StateModel::WaitingPaths => true,
        StateModel::SearchingPathNode { expect_depth, .. } => expect_depth < depth,
        StateModel::RecordingAvailables { expect_depth, .. } => expect_depth < depth,
        StateModel::ErrorRecordingAvailables { expect_depth, .. } => expect_depth < depth,
        StateModel::WaitingTargets { .. } => true,
        StateModel::SearchingTarget { .. } => true,
    }
}

/// An inert state passes through a whole subtree unchanged: this is the
/// depth-equality trick that skips non-matching subtrees in one pass.
pub proof fn lemma_tree_inert(
    s: StateModel,
    n: NodeModel,
    depth: int,
    query: Seq<Seq<char>>,
    rl: bool,
    fp: Seq<char>,
)
    requires
        paths_inert(s, depth),
    ensures
        spec_run(s, tree_events(n, depth), query, rl, fp) == RunModel::Going(s),
    decreases n,
{
    let start = seq![EventModel::StartP { depth, inner: pnode(n), position: n.start_pos }];
    let mid = forest_events(n.children, depth + 1);
    let stop = seq![EventModel::EndP { depth, position: n.end_pos }];
    assert(tree_events(n, depth) == start + mid + stop);
    lemma_run_one(s, start[0], query, rl, fp);
    assert(spec_step(s, start[0], query, rl, fp) == StepModel::Next(s));
    lemma_forest_inert(s, n.children, depth + 1, query, rl, fp);
    lemma_run_one(s, stop[0], query, rl, fp);
    assert(spec_step(s, stop[0], query, rl, fp) == StepModel::Next(s));
    lemma_run_app(s, start, mid, query, rl, fp);
    lemma_run_app(s, start + mid, stop, query, rl, fp);
}

/// An inert state passes through a whole forest unchanged.
pub proof fn lemma_forest_inert(
    s: StateModel,
    nodes: Seq<NodeModel>,
    depth: int,
    query: Seq<Seq<char>>,
    rl: bool,
    fp: Seq<char>,
)
    requires
        paths_inert(s, depth),
    ensures
        spec_run(s, forest_events(nodes, depth), query, rl, fp) == RunModel::Going(s),
    decreases nodes,
{
    if nodes.len() == 0 {
    } else {
        lemma_tree_inert(s, nodes[0], depth, query, rl, fp);
        lemma_forest_inert(s, nodes.drop_first(), depth, query, rl, fp);
        lemma_run_app(
            s,
            tree_events(nodes[0], depth),
            forest_events(nodes.drop_first(), depth),
            query,
            rl,
            fp,
        );
    }
}

/// A recording state at the forest's own depth collects exactly the display
/// names of the forest's roots, in document order.
pub open spec fn rec_state(err: bool, depth: int, rv: Seq<Seq<char>>) -> StateModel {
    if err {
        StateModel::ErrorRecordingAvailables { expect_depth: depth, ret_val: rv }
    } else {
        StateModel::RecordingAvailables { expect_depth: depth, ret_val: rv }
    }
}

pub proof fn lemma_record_forest(
    err: bool,
    nodes: Seq<NodeModel>,
    depth: int,
    rv: Seq<Seq<char>>,
    query: Seq<Seq<char>>,
    rl: bool,
    fp: Seq<char>,
)
    ensures
        spec_run(rec_state(err, depth, rv), forest_events(nodes, depth), query, rl, fp)
            == RunModel::Going(rec_state(err, depth, rv + displays(nodes))),
    decreases nodes,
{
    let s = rec_state(err, depth, rv);
    if nodes.len() == 0 {
        assert(rv + displays(nodes) =~= rv);
    } else {
        let n0 = nodes[0];
        let rest = nodes.drop_first();
        let start = seq![EventModel::StartP { depth, inner: pnode(n0), position: n0.start_pos }];
        let mid = forest_events(n0.children, depth + 1);
        let stop = seq![EventModel::EndP { depth, position: n0.end_pos }];
        assert(tree_events(n0, depth) == start + mid + stop);
        let s1 = rec_state(err, depth, rv.push(display_of(n0.names)));
        lemma_run_one(s, start[0], query, rl, fp);
        assert(spec_step(s, start[0], query, rl, fp) == StepModel::Next(s1));
        lemma_forest_inert(s1, n0.children, depth + 1, query, rl, fp);
        lemma_run_one(s1, stop[0], query, rl, fp);
        assert(spec_step(s1, stop[0], query, rl, fp) == StepModel::Next(s1));
        lemma_run_app(s, start, mid, query, rl, fp);
        lemma_run_app(s, start + mid, stop, query, rl, fp);
        assert(spec_run(s, tree_events(n0, depth), query, rl, fp) == RunModel::Going(s1));
        lemma_record_forest(err, rest, depth, rv.push(display_of(n0.names)), query, rl, fp);
        lemma_run_app(s, tree_events(n0, depth), forest_events(rest, depth), query, rl, fp);
        assert(rv.push(display_of(n0.names)) + displays(rest) =~= rv + displays(nodes));
    }
}

/// How the path search comes out of one forest of siblings: concluded, still
/// searching at the same depth with the sibling names collected, or matched
/// down to a node that names a target.
pub enum SearchOut {
    Done(Result<ResultModel, ErrorModel>),
    Miss { avail: Seq<Seq<char>> },
    Found { target_name: Seq<char>, position: TextPosition },
}

/// What the path search does on a forest of siblings at depth `d`, expecting
/// segment `query[d]`, with `corr`, `lht` and `avail` the parts of the search
/// state carried for diagnostics.
pub open spec fn search_forest(
    nodes: Seq<NodeModel>,
    d: int,
    query: Seq<Seq<char>>,
    rl: bool,
    fp: Seq<char>,
    corr: Seq<char>,
    lht: bool,
    avail: Seq<Seq<char>>,
) -> SearchOut
    recommends
        0 <= d < query.len(),
    decreases nodes,
{
    if nodes.len() == 0 {
        SearchOut::Miss { avail }
    } else {
        let n0 = nodes[0];
        if !node_has(pnode(n0), query[d]) {
            search_forest(
                nodes.drop_first(),
                d,
                query,
                rl,
                fp,
                corr,
                lht,
                avail.push(display_of(n0.names)),
            )
        } else if query.len() > d + 1 {
            let corr2 = corr + query[d] + "/"@;
            let lht2 = n0.target is Some;
            match search_forest(
                n0.children,
                d + 1,
                query,
                rl,
                fp,
                corr2,
                lht2,
                Seq::<Seq<char>>::empty(),
            ) {
                SearchOut::Done(r) => SearchOut::Done(r),
                SearchOut::Found { target_name, position } => SearchOut::Found {
                    target_name,
                    position,
                },
                SearchOut::Miss { avail: av } => SearchOut::Done(
                    Err(not_found_error(fp, query[d + 1], corr2, lht2, av)),
                ),
            }
        } else if rl {
            SearchOut::Done(Ok(ResultModel::AvailablePathNodes(displays(n0.children))))
        } else {
            match n0.target {
                Some(t) => SearchOut::Found { target_name: t, position: n0.start_pos },
                None => SearchOut::Done(
                    Err(
                        ErrorModel::TargetNotSet {
                            path: fp,
                            path_node_pos: n0.end_pos,
                            nodes_available: displays(n0.children),
                        },
                    ),
                ),
            }
        }
    }
}

/// The machine's run over a forest of siblings is exactly [`search_forest`].
pub proof fn lemma_search_forest(
    nodes: Seq<NodeModel>,
    d: int,
    query: Seq<Seq<char>>,
    rl: bool,
    fp: Seq<char>,
    corr: Seq<char>,
    lht: bool,
    avail: Seq<Seq<char>>,
)
    requires
        0 <= d < query.len(),
    ensures
        spec_run(
            StateModel::SearchingPathNode {
                expect_depth: d,
                expect_value: query[d],
                correct_part: corr,
                last_depth_has_target: lht,
                current_depth_availables: avail,
            },
            forest_events(nodes, d),
            query,
            rl,
            fp,
        ) == (match search_forest(nodes, d, query, rl, fp, corr, lht, avail) {
            SearchOut::Done(r) => RunModel::Done(r),
            SearchOut::Miss { avail: av } => RunModel::Going(
                StateModel::SearchingPathNode {
                    expect_depth: d,
                    expect_value: query[d],
                    correct_part: corr,
                    last_depth_has_target: lht,
                    current_depth_availables: av,
                },
            ),
            SearchOut::Found { target_name, position } => RunModel::Going(
                StateModel::WaitingTargets { target_name, target_config_pos: position },
            ),
        }),
    decreases nodes,
{
    let s = StateModel::SearchingPathNode {
        expect_depth: d,
        expect_value: query[d],
        correct_part: corr,
        last_depth_has_target: lht,
        current_depth_availables: avail,
    };
    if nodes.len() == 0 {
    } else {
        let n0 = nodes[0];
        let rest = nodes.drop_first();
        let start = seq![EventModel::StartP { depth: d, inner: pnode(n0), position: n0.start_pos }];
        let mid = forest_events(n0.children, d + 1);
        let stop = seq![EventModel::EndP { depth: d, position: n0.end_pos }];
        assert(tree_events(n0, d) == start + mid + stop);
        lemma_run_one(s, start[0], query, rl, fp);
        lemma_run_app(s, tree_events(n0, d), forest_events(rest, d), query, rl, fp);
        lemma_run_app(s, start, mid, query, rl, fp);
        lemma_run_app(s, start + mid, stop, query, rl, fp);
        if !node_has(pnode(n0), query[d]) {
            let s1 = StateModel::SearchingPathNode {
                expect_depth: d,
                expect_value: query[d],
                correct_part: corr,
                last_depth_has_target: lht,
                current_depth_availables: avail.push(display_of(n0.names)),
            };
            assert(spec_step(s, start[0], query, rl, fp) == StepModel::Next(s1));
            lemma_forest_inert(s1, n0.children, d + 1, query, rl, fp);
            lemma_run_one(s1, stop[0], query, rl, fp);
            assert(spec_step(s1, stop[0], query, rl, fp) == StepModel::Next(s1));
            assert(spec_run(s, tree_events(n0, d), query, rl, fp) == RunModel::Going(s1));
            lemma_search_forest(
                rest,
                d,
                query,
                rl,
                fp,
                corr,
                lht,
                avail.push(display_of(n0.names)),
            );
        } else if query.len() > d + 1 {
            let corr2 = corr + query[d] + "/"@;
            let lht2 = n0.target is Some;
            let s1 = StateModel::SearchingPathNode {
                expect_depth: d + 1,
                expect_value: query[d + 1],
                correct_part: corr2,
                last_depth_has_target: lht2,
                current_depth_availables: Seq::<Seq<char>>::empty(),
            };
            assert(spec_step(s, start[0], query, rl, fp) == StepModel::Next(s1));
            lemma_search_forest(
                n0.children,
                d + 1,
                query,
                rl,
                fp,
                corr2,
                lht2,
                Seq::<Seq<char>>::empty(),
            );
            match search_forest(
                n0.children,
                d + 1,
                query,
                rl,
                fp,
                corr2,
                lht2,
                Seq::<Seq<char>>::empty(),
            ) {
                SearchOut::Done(r) => {
                    assert(spec_run(s1, mid, query, rl, fp) == RunModel::Done(r));
                },
                SearchOut::Miss { avail: av } => {
                    let s2 = StateModel::SearchingPathNode {
                        expect_depth: d + 1,
                        expect_value: query[d + 1],
                        correct_part: corr2,
                        last_depth_has_target: lht2,
                        current_depth_availables: av,
                    };
                    assert(spec_run(s1, mid, query, rl, fp) == RunModel::Going(s2));
                    lemma_run_one(s2, stop[0], query, rl, fp);
                    assert(spec_step(s2, stop[0], query, rl, fp) == StepModel::Done(
                        Err(not_found_error(fp, query[d + 1], corr2, lht2, av)),
                    ));
                },
                SearchOut::Found { target_name, position } => {
                    let s2 = StateModel::WaitingTargets {
                        target_name,
                        target_config_pos: position,
                    };
                    assert(spec_run(s1, mid, query, rl, fp) == RunModel::Going(s2));
                    lemma_run_one(s2, stop[0], query, rl, fp);
                    assert(spec_step(s2, stop[0], query, rl, fp) == StepModel::Next(s2));
                    lemma_forest_inert(s2, rest, d, query, rl, fp);
                },
            }
        } else if rl {
            let s1 = rec_state(false, d + 1, Seq::<Seq<char>>::empty());
            assert(spec_step(s, start[0], query, rl, fp) == StepModel::Next(s1));
            lemma_record_forest(
                false,
                n0.children,
                d + 1,
                Seq::<Seq<char>>::empty(),
                query,
                rl,
                fp,
            );
            let s2 = rec_state(false, d + 1, Seq::<Seq<char>>::empty() + displays(n0.children));
            assert(Seq::<Seq<char>>::empty() + displays(n0.children) =~= displays(n0.children));
            lemma_run_one(s2, stop[0], query, rl, fp);
            assert(spec_step(s2, stop[0], query, rl, fp) == StepModel::Done(
                Ok(ResultModel::AvailablePathNodes(displays(n0.children))),
            ));
        } else {
            match n0.target {
                Some(t) => {
                    let s1 = StateModel::WaitingTargets {
                        target_name: t,
                        target_config_pos: n0.start_pos,
                    };
                    assert(spec_step(s, start[0], query, rl, fp) == StepModel::Next(s1));
                    lemma_forest_inert(s1, n0.children, d + 1, query, rl, fp);
                    lemma_run_one(s1, stop[0], query, rl, fp);
                    assert(spec_step(s1, stop[0], query, rl, fp) == StepModel::Next(s1));
                    lemma_forest_inert(s1, rest, d, query, rl, fp);
                },
                None => {
                    let s1 = rec_state(true, d + 1, Seq::<Seq<char>>::empty());
                    assert(spec_step(s, start[0], query, rl, fp) == StepModel::Next(s1));
                    lemma_record_forest(
                        true,
                        n0.children,
                        d + 1,
                        Seq::<Seq<char>>::empty(),
                        query,
                        rl,
                        fp,
                    );
                    let s2 = rec_state(
                        true,
                        d + 1,
                        Seq::<Seq<char>>::empty() + displays(n0.children),
                    );
                    assert(Seq::<Seq<char>>::empty() + displays(n0.children) =~= displays(
                        n0.children,
                    ));
                    lemma_run_one(s2, stop[0], query, rl, fp);
                    assert(spec_step(s2, stop[0], query, rl, fp) == StepModel::Done(
                        Err(
                            ErrorModel::TargetNotSet {
                                path: fp,
                                path_node_pos: n0.end_pos,
                                nodes_available: displays(n0.children),
                            },
                        ),
                    ));
                },
            }
        }
    }
}

/// `first_target` stays within the bounds of the definition list.
pub proof fn lemma_first_target_bounds(ts: Seq<TargetModel>, name: Seq<char>)
    ensures
        0 <= first_target(ts, name) <= ts.len(),
    decreases ts.len(),
{
    if ts.len() == 0 {
    } else if ts[0].name == name {
    } else {
        lemma_first_target_bounds(ts.drop_first(), name);
    }
}

/// Phase two: the first definition of the awaited target concludes with its
/// actions; without one the machine is still searching when the section ends.
pub proof fn lemma_targets(
    ts: Seq<TargetModel>,
    t: Seq<char>,
    p: TextPosition,
    query: Seq<Seq<char>>,
    rl: bool,
    fp: Seq<char>,
)
    ensures
        spec_run(
            StateModel::SearchingTarget { target_name: t, target_config_pos: p },
            targets_events(ts),
            query,
            rl,
            fp,
        ) == (match lookup_target(ts, t) {
            Some(actions) => RunModel::Done(Ok(ResultModel::Actions(actions))),
            None => RunModel::Going(
                StateModel::SearchingTarget { target_name: t, target_config_pos: p },
            ),
        }),
    decreases ts,
{
    let s = StateModel::SearchingTarget { target_name: t, target_config_pos: p };
    if ts.len() == 0 {
    } else {
        let e0 = EventModel::Target { name: ts[0].name, actions: ts[0].actions };
        assert(targets_events(ts) == seq![e0] + targets_events(ts.drop_first()));
        lemma_run_app(s, seq![e0], targets_events(ts.drop_first()), query, rl, fp);
        lemma_run_one(s, e0, query, rl, fp);
        if ts[0].name == t {
            assert(spec_step(s, e0, query, rl, fp) == StepModel::Done(
                Ok(ResultModel::Actions(ts[0].actions)),
            ));
            assert(first_target(ts, t) == 0);
        } else {
            assert(spec_step(s, e0, query, rl, fp) == StepModel::Next(s));
            lemma_targets(ts.drop_first(), t, p, query, rl, fp);
            lemma_first_target_bounds(ts.drop_first(), t);
            assert(first_target(ts, t) == 1 + first_target(ts.drop_first(), t));
            if lookup_target(ts.drop_first(), t) is Some {
                assert(ts[first_target(ts, t)] == ts.drop_first()[first_target(
                    ts.drop_first(),
                    t,
                )]);
            }
        }
    }
}

/// `first_match` stays within the bounds of the forest.
pub proof fn lemma_first_match_bounds(nodes: Seq<NodeModel>, seg: Seq<char>)
    ensures
        0 <= first_match(nodes, seg) <= nodes.len(),
    decreases nodes.len(),
{
    if nodes.len() == 0 {
    } else if node_has(pnode(nodes[0]), seg) {
    } else {
        lemma_first_match_bounds(nodes.drop_first(), seg);
    }
}

/// When the query selects a node that names a target, the path search over
/// the forest comes out `Found` with that target and the node's position.
pub proof fn lemma_select_found(
    nodes: Seq<NodeModel>,
    d: int,
    query: Seq<Seq<char>>,
    fp: Seq<char>,
    corr: Seq<char>,
    lht: bool,
    avail: Seq<Seq<char>>,
    node: NodeModel,
    target_name: Seq<char>,
)
    requires
        0 <= d < query.len(),
        select(nodes, query, d) == Some(node),
        node.target == Some(target_name),
    ensures
        search_forest(nodes, d, query, false, fp, corr, lht, avail) == (SearchOut::Found {
            target_name,
            position: node.start_pos,
        }),
    decreases nodes,
{
    lemma_first_match_bounds(nodes, query[d]);
    let k = first_match(nodes, query[d]);
    assert(0 <= k < nodes.len());
    let rest = nodes.drop_first();
    if !node_has(pnode(nodes[0]), query[d]) {
        assert(k == 1 + first_match(rest, query[d]));
        lemma_first_match_bounds(rest, query[d]);
        assert(rest[k - 1] == nodes[k]);
        assert(select(rest, query, d) == Some(node));
        lemma_select_found(
            rest,
            d,
            query,
            fp,
            corr,
            lht,
            avail.push(display_of(nodes[0].names)),
            node,
            target_name,
        );
    } else {
        assert(k == 0);
        if d == query.len() - 1 {
            assert(node == nodes[0]);
        } else {
            assert(select(nodes[0].children, query, d + 1) == Some(node));
            lemma_select_found(
                nodes[0].children,
                d + 1,
                query,
                fp,
                corr + query[d] + "/"@,
                nodes[0].target is Some,
                Seq::<Seq<char>>::empty(),
                node,
                target_name,
            );
        }
    }
}

/// When the query selects a node without a target and no listing was asked
/// for, the path search concludes with `TargetNotSet` carrying the selected
/// node's children, in document order.
pub proof fn lemma_select_not_set(
    nodes: Seq<NodeModel>,
    d: int,
    query: Seq<Seq<char>>,
    fp: Seq<char>,
    corr: Seq<char>,
    lht: bool,
    avail: Seq<Seq<char>>,
    node: NodeModel,
)
    requires
        0 <= d < query.len(),
        select(nodes, query, d) == Some(node),
        node.target is None,
    ensures
        search_forest(nodes, d, query, false, fp, corr, lht, avail) == SearchOut::Done(
            Err(
                ErrorModel::TargetNotSet {
                    path: fp,
                    path_node_pos: node.end_pos,
                    nodes_available: displays(node.children),
                },
            ),
        ),
    decreases nodes,
{
    lemma_first_match_bounds(nodes, query[d]);
    let k = first_match(nodes, query[d]);
    assert(0 <= k < nodes.len());
    let rest = nodes.drop_first();
    if !node_has(pnode(nodes[0]), query[d]) {
        assert(k == 1 + first_match(rest, query[d]));
        lemma_first_match_bounds(rest, query[d]);
        assert(rest[k - 1] == nodes[k]);
        assert(select(rest, query, d) == Some(node));
        lemma_select_not_set(
            rest,
            d,
            query,
            fp,
            corr,
            lht,
            avail.push(display_of(nodes[0].names)),
            node,
        );
    } else {
        assert(k == 0);
        if d == query.len() - 1 {
            assert(node == nodes[0]);
        } else {
            assert(select(nodes[0].children, query, d + 1) == Some(node));
            lemma_select_not_set(
                nodes[0].children,
                d + 1,
                query,
                fp,
                corr + query[d] + "/"@,
                nodes[0].target is Some,
                Seq::<Seq<char>>::empty(),
                node,
            );
        }
    }
}

/// The machine's run over a whole document, decomposed into its sections.
/// From the initial state, the opening of the paths section puts the machine
/// into its phase-one state, and the outcome is assembled from the section
/// runs proved above.
proof fn lemma_doc_run(doc: DocModel, query: Seq<Seq<char>>, rl: bool, fp: Seq<char>) -> (pieces: (
    Seq<EventModel>,
    Seq<EventModel>,
))
    ensures
        doc_events(doc) == seq![EventModel::StartPaths] + pieces.0 + pieces.1,
        pieces.0 == forest_events(doc.roots, 0),
        pieces.1 == seq![EventModel::EndPaths { position: doc.end_paths_pos }] + (seq![
            EventModel::StartTargets,
        ] + (targets_events(doc.targets) + seq![EventModel::EndTargets])),
{
    let f = forest_events(doc.roots, 0);
    let tail = seq![EventModel::EndPaths { position: doc.end_paths_pos }] + (seq![
        EventModel::StartTargets,
    ] + (targets_events(doc.targets) + seq![EventModel::EndTargets]));
    assert(doc_events(doc) =~= seq![EventModel::StartPaths] + f + tail);
    (f, tail)
}

/// Law: a malformed query — non-empty with an empty segment — is rejected
/// before any event is looked at: the outcome is `InvalidPath`, whatever the
/// stream holds.
pub proof fn lemma_malformed_query_rejected(
    events: Seq<EventModel>,
    full_path: Seq<char>,
    require_list: bool,
)
    requires
        path_invalid(full_path),
    ensures
        resolve_spec(events, full_path, require_list) == Err::<
            crate::result::ResultModel,
            ErrorModel,
        >(ErrorModel::InvalidPath { path: full_path }),
{
}

/// Law: a well-formed query that matches a configured path down to a node
/// naming a target defined in the targets section resolves, without listing,
/// to exactly that target's declared actions, in declared order.
pub proof fn lemma_resolve_matched_target(
    doc: DocModel,
    full_path: Seq<char>,
    node: NodeModel,
    target_name: Seq<char>,
    actions: Seq<ActionModel>,
)
    requires
        !path_invalid(full_path),
        query_of(full_path).len() > 0,
        select(doc.roots, query_of(full_path), 0) == Some(node),
        node.target == Some(target_name),
        lookup_target(doc.targets, target_name) == Some(actions),
    ensures
        resolve_spec(doc_events(doc), full_path, false) == Ok::<ResultModel, ErrorModel>(
            ResultModel::Actions(actions),
        ),
{
    let query = query_of(full_path);
    let fp = full_path;
    let (f, tail) = lemma_doc_run(doc, query, false, fp);
    let s0 = StateModel::WaitingPaths;
    let s1 = StateModel::SearchingPathNode {
        expect_depth: 0,
        expect_value: query[0],
        correct_part: Seq::<char>::empty(),
        last_depth_has_target: false,
        current_depth_availables: Seq::<Seq<char>>::empty(),
    };
    lemma_run_one(s0, EventModel::StartPaths, query, false, fp);
    assert(spec_step(s0, EventModel::StartPaths, query, false, fp) == StepModel::Next(s1));
    lemma_select_found(
        doc.roots,
        0,
        query,
        fp,
        Seq::<char>::empty(),
        false,
        Seq::<Seq<char>>::empty(),
        node,
        target_name,
    );
    lemma_search_forest(
        doc.roots,
        0,
        query,
        false,
        fp,
        Seq::<char>::empty(),
        false,
        Seq::<Seq<char>>::empty(),
    );
    let w = StateModel::WaitingTargets {
        target_name,
        target_config_pos: node.start_pos,
    };
    assert(spec_run(s1, f, query, false, fp) == RunModel::Going(w));
    let e2 = EventModel::EndPaths { position: doc.end_paths_pos };
    let e3 = EventModel::StartTargets;
    let e4 = EventModel::EndTargets;
    let tevs = targets_events(doc.targets);
    let st = StateModel::SearchingTarget {
        target_name,
        target_config_pos: node.start_pos,
    };
    lemma_run_one(w, e2, query, false, fp);
    assert(spec_step(w, e2, query, false, fp) == StepModel::Next(w));
    lemma_run_one(w, e3, query, false, fp);
    assert(spec_step(w, e3, query, false, fp) == StepModel::Next(st));
    lemma_targets(doc.targets, target_name, node.start_pos, query, false, fp);
    assert(spec_run(st, tevs, query, false, fp) == RunModel::Done(
        Ok(ResultModel::Actions(actions)),
    ));
    lemma_run_app(st, tevs, seq![e4], query, false, fp);
    lemma_run_app(w, seq![e3], tevs + seq![e4], query, false, fp);
    assert(seq![e3] + (tevs + seq![e4]) =~= (seq![e3] + tevs) + seq![e4]);
    lemma_run_app(w, seq![e2], seq![e3] + (tevs + seq![e4]), query, false, fp);
    assert(tail == seq![e2] + (seq![e3] + (tevs + seq![e4])));
    assert(spec_run(w, tail, query, false, fp) == RunModel::Done(
        Ok(ResultModel::Actions(actions)),
    ));
    lemma_run_app(s1, f, tail, query, false, fp);
    lemma_run_app(s0, seq![EventModel::StartPaths], f + tail, query, false, fp);
    assert(seq![EventModel::StartPaths] + (f + tail) =~= doc_events(doc));
    assert(spec_run(s0, doc_events(doc), query, false, fp) == RunModel::Done(
        Ok(ResultModel::Actions(actions)),
    ));
}

/// Law: a well-formed query that matches a configured path down to a node
/// with no target resolves, without listing, to `TargetNotSet` listing
/// exactly that node's direct children's display names, in document order.
pub proof fn lemma_resolve_target_not_set(doc: DocModel, full_path: Seq<char>, node: NodeModel)
    requires
        !path_invalid(full_path),
        query_of(full_path).len() > 0,
        select(doc.roots, query_of(full_path), 0) == Some(node),
        node.target is None,
    ensures
        resolve_spec(doc_events(doc), full_path, false) == Err::<ResultModel, ErrorModel>(
            ErrorModel::TargetNotSet {
                path: full_path,
                path_node_pos: node.end_pos,
                nodes_available: displays(node.children),
            },
        ),
{
    let query = query_of(full_path);
    let fp = full_path;
    let (f, tail) = lemma_doc_run(doc, query, false, fp);
    let s0 = StateModel::WaitingPaths;
    let s1 = StateModel::SearchingPathNode {
        expect_depth: 0,
        expect_value: query[0],
        correct_part: Seq::<char>::empty(),
        last_depth_has_target: false,
        current_depth_availables: Seq::<Seq<char>>::empty(),
    };
    lemma_run_one(s0, EventModel::StartPaths, query, false, fp);
    assert(spec_step(s0, EventModel::StartPaths, query, false, fp) == StepModel::Next(s1));
    lemma_select_not_set(
        doc.roots,
        0,
        query,
        fp,
        Seq::<char>::empty(),
        false,
        Seq::<Seq<char>>::empty(),
        node,
    );
    lemma_search_forest(
        doc.roots,
        0,
        query,
        false,
        fp,
        Seq::<char>::empty(),
        false,
        Seq::<Seq<char>>::empty(),
    );
    let err = ErrorModel::TargetNotSet {
        path: fp,
        path_node_pos: node.end_pos,
        nodes_available: displays(node.children),
    };
    assert(spec_run(s1, f, query, false, fp) == RunModel::Done(
        Err::<ResultModel, ErrorModel>(err),
    ));
    lemma_run_app(s1, f, tail, query, false, fp);
    lemma_run_app(s0, seq![EventModel::StartPaths], f + tail, query, false, fp);
    assert(seq![EventModel::StartPaths] + (f + tail) =~= doc_events(doc));
    assert(spec_run(s0, doc_events(doc), query, false, fp) == RunModel::Done(
        Err::<ResultModel, ErrorModel>(err),
    ));
}

/// Law: the empty query with listing resolves to the display names of the
/// root-level nodes, in document order.
pub proof fn lemma_resolve_root_listing(doc: DocModel, full_path: Seq<char>)
    requires
        full_path.len() == 0,
    ensures
        resolve_spec(doc_events(doc), full_path, true) == Ok::<ResultModel, ErrorModel>(
            ResultModel::AvailablePathNodes(displays(doc.roots)),
        ),
{
    let query = query_of(full_path);
    let fp = full_path;
    assert(!path_invalid(fp));
    assert(query.len() == 0);
    let (f, tail) = lemma_doc_run(doc, query, true, fp);
    let s0 = StateModel::WaitingPaths;
    let s1 = rec_state(false, 0, Seq::<Seq<char>>::empty());
    lemma_run_one(s0, EventModel::StartPaths, query, true, fp);
    assert(spec_step(s0, EventModel::StartPaths, query, true, fp) == StepModel::Next(s1));
    lemma_record_forest(false, doc.roots, 0, Seq::<Seq<char>>::empty(), query, true, fp);
    let s2 = rec_state(false, 0, Seq::<Seq<char>>::empty() + displays(doc.roots));
    assert(Seq::<Seq<char>>::empty() + displays(doc.roots) =~= displays(doc.roots));
    assert(spec_run(s1, f, query, true, fp) == RunModel::Going(s2));
    let e2 = EventModel::EndPaths { position: doc.end_paths_pos };
    lemma_run_one(s2, e2, query, true, fp);
    assert(spec_step(s2, e2, query, true, fp) == StepModel::Done(
        Ok(ResultModel::AvailablePathNodes(displays(doc.roots))),
    ));
    let rest3 = seq![EventModel::StartTargets] + (targets_events(doc.targets) + seq![
        EventModel::EndTargets,
    ]);
    lemma_run_app(s2, seq![e2], rest3, query, true, fp);
    assert(tail == seq![e2] + rest3);
    assert(spec_run(s2, tail, query, true, fp) == RunModel::Done(
        Ok(ResultModel::AvailablePathNodes(displays(doc.roots))),
    ));
    lemma_run_app(s1, f, tail, query, true, fp);
    lemma_run_app(s0, seq![EventModel::StartPaths], f + tail, query, true, fp);
    assert(seq![EventModel::StartPaths] + (f + tail) =~= doc_events(doc));
    assert(spec_run(s0, doc_events(doc), query, true, fp) == RunModel::Done(
        Ok(ResultModel::AvailablePathNodes(displays(doc.roots))),
    ));
}

} // verus!
