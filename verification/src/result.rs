//! The result of one resolution — either a list of target actions or a list
//! of next path nodes — and the merge of several resolutions into one
//! consolidated configuration.

use vstd::prelude::*;

use crate::error::{view_strings, Error};

verus! {

/// One configuration action named by a target.
#[derive(Debug, Eq, PartialEq)]
pub enum TargetAction {
    /// Prepend a value to the search path.
    PathAdd(String),
    /// Execute a script at the given path.
    ScriptExecute(String),
    /// Prepend a value to the named environment variable.
    VariableAdd(String, String),
}

/// The mathematical shape of a [`TargetAction`].
pub enum ActionModel {
    PathAdd(Seq<char>),
    ScriptExecute(Seq<char>),
    VariableAdd(Seq<char>, Seq<char>),
}

impl View for TargetAction {
    type V = ActionModel;

    open spec fn view(&self) -> ActionModel {
        match self {
            TargetAction::PathAdd(v) => ActionModel::PathAdd(v@),
            TargetAction::ScriptExecute(v) => ActionModel::ScriptExecute(v@),
            TargetAction::VariableAdd(var, v) => ActionModel::VariableAdd(var@, v@),
        }
    }
}

impl Clone for TargetAction {
    /// Copies the action; the copy equals the original.
    fn clone(&self) -> (r: TargetAction)
        ensures
            r == self,
    {
        match self {
            TargetAction::PathAdd(v) => TargetAction::PathAdd(v.clone()),
            TargetAction::ScriptExecute(v) => TargetAction::ScriptExecute(v.clone()),
            TargetAction::VariableAdd(var, v) => TargetAction::VariableAdd(var.clone(), v.clone()),
        }
    }
}

/// View of a vector of actions as a sequence of action models.
pub open spec fn view_actions(s: Seq<TargetAction>) -> Seq<ActionModel> {
    s.map_values(|a: TargetAction| a@)
}

/// Copies a vector of actions.
pub fn clone_actions(v: &Vec<TargetAction>) -> (r: Vec<TargetAction>)
    ensures
        r@ == v@,
{
    let mut r: Vec<TargetAction> = Vec::new();
    let mut i: usize = 0;
    while i < v.len()
        invariant
            i <= v@.len(),
            r@ == v@.take(i as int),
        decreases v@.len() - i,
    {
        r.push(v[i].clone());
        proof {
            assert(r@ =~= v@.take(i + 1));
        }
        i = i + 1;
    }
    proof {
        assert(v@.take(v@.len() as int) =~= v@);
    }
    r
}

/// What one resolution returns: either the actions of the matched target, or
/// the names of the nodes available one level below the matched path.
#[derive(Debug, Eq, PartialEq)]
pub enum ConfigResult {
    Actions(Vec<TargetAction>),
    AvailablePathNodes(Vec<String>),
}

/// The mathematical shape of a [`ConfigResult`].
pub enum ResultModel {
    Actions(Seq<ActionModel>),
    AvailablePathNodes(Seq<Seq<char>>),
}

impl View for ConfigResult {
    type V = ResultModel;

    open spec fn view(&self) -> ResultModel {
        match self {
            ConfigResult::Actions(v) => ResultModel::Actions(view_actions(v@)),
            ConfigResult::AvailablePathNodes(v) => ResultModel::AvailablePathNodes(view_strings(v@)),
        }
    }
}

/// All values that several results add to one environment variable, in order.
#[derive(Debug, Eq, PartialEq, Hash)]
pub struct MergedVarAdd {
    pub var: String,
    pub values: Vec<String>,
}

impl MergedVarAdd {
    /// An empty addition to the search path variable.
    pub fn new_path() -> (r: MergedVarAdd)
        ensures
            r.var@ == "PATH"@,
            r.values@ =~= Seq::<String>::empty(),
    {
        MergedVarAdd { var: String::from_str("PATH"), values: Vec::new() }
    }

    /// An addition to the search path variable holding the given values.
    pub fn new_path_with_value(values: Vec<String>) -> (r: MergedVarAdd)
        ensures
            r.var@ == "PATH"@,
            r.values == values,
    {
        MergedVarAdd { var: String::from_str("PATH"), values }
    }
}

/// The consolidated configuration produced by [`ConfigResult::merge`]:
/// variable additions keyed by name, search path additions, and scripts,
/// each in the order the merged results supplied them.
#[derive(Debug, Eq, PartialEq)]
pub struct MergedResult {
    pub vars: Vec<MergedVarAdd>,
    pub paths: MergedVarAdd,
    pub scripts: Vec<String>,
}

impl MergedResult {
    /// The empty consolidated configuration.
    pub fn new() -> (r: MergedResult)
        ensures
            r.vars@ =~= Seq::<MergedVarAdd>::empty(),
            r.paths.var@ == "PATH"@,
            r.paths.values@ =~= Seq::<String>::empty(),
            r.scripts@ =~= Seq::<String>::empty(),
    {
        MergedResult { vars: Vec::new(), paths: MergedVarAdd::new_path(), scripts: Vec::new() }
    }
}

/// The search path values named by a sequence of actions, in order.
pub open spec fn sel_paths(acts: Seq<ActionModel>) -> Seq<Seq<char>>
    decreases acts.len(),
{
    if acts.len() == 0 {
        Seq::<Seq<char>>::empty()
    } else {
        sel_paths(acts.drop_last()) + match acts.last() {
            ActionModel::PathAdd(v) => seq![v],
            _ => Seq::<Seq<char>>::empty(),
        }
    }
}

/// The script paths named by a sequence of actions, in order.
pub open spec fn sel_scripts(acts: Seq<ActionModel>) -> Seq<Seq<char>>
    decreases acts.len(),
{
    if acts.len() == 0 {
        Seq::<Seq<char>>::empty()
    } else {
        sel_scripts(acts.drop_last()) + match acts.last() {
            ActionModel::ScriptExecute(v) => seq![v],
            _ => Seq::<Seq<char>>::empty(),
        }
    }
}

/// The distinct variable names a sequence of actions adds to, in the order of
/// first use.
pub open spec fn var_keys(acts: Seq<ActionModel>) -> Seq<Seq<char>>
    decreases acts.len(),
{
    if acts.len() == 0 {
        Seq::<Seq<char>>::empty()
    } else {
        let pre = var_keys(acts.drop_last());
        match acts.last() {
            ActionModel::VariableAdd(k, _) => if pre.contains(k) {
                pre
            } else {
                pre.push(k)
            },
            _ => pre,
        }
    }
}

/// The values a sequence of actions adds to one variable, in order.
pub open spec fn var_values(acts: Seq<ActionModel>, key: Seq<char>) -> Seq<Seq<char>>
    decreases acts.len(),
{
    if acts.len() == 0 {
        Seq::<Seq<char>>::empty()
    } else {
        let pre = var_values(acts.drop_last(), key);
        match acts.last() {
            ActionModel::VariableAdd(k, v) => if k == key {
                pre.push(v)
            } else {
                pre
            },
            _ => pre,
        }
    }
}

/// All actions of a sequence of results, results in caller order, and inside
/// one result the actions in their declared order.
pub open spec fn concat_actions(results: Seq<ConfigResult>) -> Seq<ActionModel>
    decreases results.len(),
{
    if results.len() == 0 {
        Seq::<ActionModel>::empty()
    } else {
        concat_actions(results.drop_last()) + match results.last() {
            ConfigResult::Actions(v) => view_actions(v@),
            ConfigResult::AvailablePathNodes(_) => Seq::<ActionModel>::empty(),
        }
    }
}

/// View of a vector of results as a sequence of result models.
pub open spec fn view_results(s: Seq<ConfigResult>) -> Seq<ResultModel> {
    s.map_values(|r: ConfigResult| r@)
}

/// The variable names of a merged variable list.
pub open spec fn var_add_keys(s: Seq<MergedVarAdd>) -> Seq<Seq<char>> {
    s.map_values(|mv: MergedVarAdd| mv.var@)
}

/// Finds the entry for `key` in the accumulated variable additions.
fn find_var(vars: &Vec<MergedVarAdd>, key: &String) -> (r: Option<usize>)
    ensures
        match r {
            Some(k) => k < vars@.len() && vars@[k as int].var@ == key@,
            None => forall|k: int| 0 <= k < vars@.len() ==> vars@[k].var@ != key@,
        },
{
    let mut k: usize = 0;
    while k < vars.len()
        invariant
            k <= vars@.len(),
            forall|j: int| 0 <= j < k ==> vars@[j].var@ != key@,
        decreases vars@.len() - k,
    {
        if vars[k].var.eq(key) {
            return Some(k);
        }
        k = k + 1;
    }
    None
}

impl ConfigResult {
    /// Consolidates several resolved results into one configuration.
    ///
    /// Every element must be the `Actions` variant; a listing element is a
    /// caller error, whatever its position. The merged lists keep the caller
    /// order of the results and, within a result, the declared order of its
    /// actions; values of one variable keep that order inside their bucket,
    /// and buckets appear in the order the variable was first used. The empty
    /// input gives the empty configuration. Nothing is deduplicated.
    pub fn merge(results: Vec<ConfigResult>) -> (r: Result<MergedResult, Error>)
        ensures
            (exists|i: int|
                0 <= i < results@.len() && !(results@[i] is Actions)) <==> (r is Err),
            r matches Err(e) ==> e is UnexpectedInternalError_AvailableNextsCannotCombine,
            r matches Ok(m) ==> {
                &&& m.paths.var@ == "PATH"@
                &&& view_strings(m.paths.values@) == sel_paths(concat_actions(results@))
                &&& view_strings(m.scripts@) == sel_scripts(concat_actions(results@))
                &&& var_add_keys(m.vars@) == var_keys(concat_actions(results@))
                &&& forall|k: int|
                    0 <= k < m.vars@.len() ==> view_strings(#[trigger] m.vars@[k].values@)
                        == var_values(concat_actions(results@), m.vars@[k].var@)
            },
            results@.len() == 0 ==> (r matches Ok(m) && m.vars@.len() == 0
                && m.paths.values@.len() == 0 && m.scripts@.len() == 0),
    {
        let mut i: usize = 0;
        while i < results.len()
            invariant
                i <= results@.len(),
                forall|k: int| 0 <= k < i ==> results@[k] is Actions,
            decreases results@.len() - i,
        {
            match &results[i] {
                ConfigResult::Actions(_) => {},
                ConfigResult::AvailablePathNodes(_) => {
                    return Err(Error::UnexpectedInternalError_AvailableNextsCannotCombine);
                },
            }
            i = i + 1;
        }

        let mut paths: Vec<String> = Vec::new();
        let mut scripts: Vec<String> = Vec::new();
        let mut vars: Vec<MergedVarAdd> = Vec::new();
        let ghost mut acc: Seq<ActionModel> = Seq::<ActionModel>::empty();

        let mut i: usize = 0;
        while i < results.len()
            invariant
                i <= results@.len(),
                forall|k: int| 0 <= k < results@.len() ==> results@[k] is Actions,
                acc == concat_actions(results@.take(i as int)),
                view_strings(paths@) == sel_paths(acc),
                view_strings(scripts@) == sel_scripts(acc),
                var_add_keys(vars@) == var_keys(acc),
                forall|k: int|
                    0 <= k < vars@.len() ==> view_strings(#[trigger] vars@[k].values@)
                        == var_values(acc, vars@[k].var@),
                forall|k1: int, k2: int|
                    0 <= k1 < k2 < vars@.len() ==> vars@[k1].var@ != vars@[k2].var@,
            decreases results@.len() - i,
        {
            match &results[i] {
                ConfigResult::Actions(acts) => {
                    let mut j: usize = 0;
                    let ghost acc_before: Seq<ActionModel> = acc;
                    while j < acts.len()
                        invariant
                            j <= acts@.len(),
                            acc == acc_before + view_actions(acts@.take(j as int)),
                            view_strings(paths@) == sel_paths(acc),
                            view_strings(scripts@) == sel_scripts(acc),
                            var_add_keys(vars@) == var_keys(acc),
                            forall|k: int|
                                0 <= k < vars@.len() ==> view_strings(
                                    #[trigger] vars@[k].values@,
                                ) == var_values(acc, vars@[k].var@),
                            forall|k1: int, k2: int|
                                0 <= k1 < k2 < vars@.len() ==> vars@[k1].var@ != vars@[k2].var@,
                        decreases acts@.len() - j,
                    {
                        let ghost acc_old: Seq<ActionModel> = acc;
                        let action = &acts[j];
                        proof {
                            acc = acc.push(action@);
                            assert(acc.drop_last() =~= acc_old);
                            assert(acts@.take(j + 1).drop_last() =~= acts@.take(j as int));
                            assert(view_actions(acts@.take(j + 1)) =~= view_actions(
                                acts@.take(j as int),
                            ).push(action@));
                            assert(acc =~= acc_before + view_actions(acts@.take(j + 1)));
                        }
                        match action {
                            TargetAction::PathAdd(value) => {
                                paths.push(value.clone());
                                proof {
                                    assert(view_strings(paths@) =~= sel_paths(acc));
                                }
                            },
                            TargetAction::ScriptExecute(value) => {
                                scripts.push(value.clone());
                                proof {
                                    assert(view_strings(scripts@) =~= sel_scripts(acc));
                                }
                            },
                            TargetAction::VariableAdd(var, value) => {
                                match find_var(&vars, var) {
                                    Some(k) => {
                                        let ghost old_vars = vars@;
                                        let mut entry = vars.remove(k);
                                        entry.values.push(value.clone());
                                        vars.insert(k, entry);
                                        proof {
                                            assert(var_add_keys(old_vars)[k as int] == var@);
                                            assert(var_keys(acc_old)[k as int] == var@);
                                            assert(var_keys(acc_old).contains(var@));
                                            assert(var_keys(acc) == var_keys(acc_old));
                                            assert(var_add_keys(vars@) =~= var_keys(acc));
                                            assert forall|kk: int|
                                                0 <= kk < vars@.len() implies view_strings(
                                                #[trigger] vars@[kk].values@,
                                            ) == var_values(acc, vars@[kk].var@) by {
                                                if kk == k {
                                                    assert(view_strings(vars@[kk].values@)
                                                        =~= var_values(acc_old, var@).push(
                                                        value@,
                                                    ));
                                                } else {
                                                    assert(vars@[kk] == old_vars[kk]);
                                                    assert(vars@[kk].var@ != var@);
                                                }
                                            }
                                        }
                                    },
                                    None => {
                                        let ghost old_vars = vars@;
                                        let mut values: Vec<String> = Vec::new();
                                        values.push(value.clone());
                                        vars.push(
                                            MergedVarAdd { var: var.clone(), values },
                                        );
                                        proof {
                                            assert(!var_keys(acc_old).contains(var@)) by {
                                                if var_keys(acc_old).contains(var@) {
                                                    let kk = choose|kk: int|
                                                        0 <= kk < var_keys(acc_old).len()
                                                            && var_keys(acc_old)[kk] == var@;
                                                    assert(var_add_keys(old_vars)[kk] == var@);
                                                    assert(old_vars[kk].var@ == var@);
                                                }
                                            }
                                            assert(var_keys(acc) == var_keys(acc_old).push(
                                                var@,
                                            ));
                                            assert(var_add_keys(vars@) =~= var_keys(acc));
                                            lemma_var_values_unused(acc_old, var@);
                                            assert forall|kk: int|
                                                0 <= kk < vars@.len() implies view_strings(
                                                #[trigger] vars@[kk].values@,
                                            ) == var_values(acc, vars@[kk].var@) by {
                                                if kk < vars@.len() - 1 {
                                                    assert(vars@[kk] == old_vars[kk]);
                                                    assert(vars@[kk].var@ != var@);
                                                } else {
                                                    assert(view_strings(vars@[kk].values@)
                                                        =~= var_values(acc_old, var@).push(
                                                        value@,
                                                    ));
                                                }
                                            }
                                        }
                                    },
                                }
                            },
                        }
                        j = j + 1;
                    }
                    proof {
                        assert(acts@.take(acts@.len() as int) =~= acts@);
                        assert(results@.take(i + 1).drop_last() =~= results@.take(i as int));
                        assert(results@.take(i + 1).last() == results@[i as int]);
                        assert(acc == concat_actions(results@.take(i + 1)));
                    }
                },
                ConfigResult::AvailablePathNodes(_) => {
                    proof {
                        assert(false);
                    }
                },
            }
            i = i + 1;
        }
        proof {
            assert(results@.take(results@.len() as int) =~= results@);
        }
        Ok(MergedResult { vars, paths: MergedVarAdd::new_path_with_value(paths), scripts })
    }
}

/// A key outside `var_keys` has an empty bucket of values.
proof fn lemma_var_values_unused(s: Seq<ActionModel>, key: Seq<char>)
    requires
        !var_keys(s).contains(key),
    ensures
        var_values(s, key) == Seq::<Seq<char>>::empty(),
    decreases s.len(),
{
    if s.len() == 0 {
    } else {
        let s0 = s.drop_last();
        match s.last() {
            ActionModel::VariableAdd(k, v) => {
                assert(!var_keys(s0).contains(key)) by {
                    if var_keys(s0).contains(key) {
                        let i = choose|i: int|
                            0 <= i < var_keys(s0).len() && var_keys(s0)[i] == key;
                        if var_keys(s0).contains(k) {
                            assert(var_keys(s)[i] == key);
                        } else {
                            assert(var_keys(s)[i] == key);
                        }
                        assert(var_keys(s).contains(key));
                    }
                }
                assert(k != key) by {
                    if k == key {
                        if !var_keys(s0).contains(k) {
                            assert(var_keys(s).last() == key);
                            assert(var_keys(s).contains(key));
                        }
                    }
                }
                lemma_var_values_unused(s0, key);
            },
            ActionModel::PathAdd(_) => {
                lemma_var_values_unused(s0, key);
            },
            ActionModel::ScriptExecute(_) => {
                lemma_var_values_unused(s0, key);
            },
        }
    }
}

/// `concat_actions` distributes over concatenation of result lists.
proof fn lemma_concat_actions_app(a: Seq<ConfigResult>, b: Seq<ConfigResult>)
    ensures
        concat_actions(a + b) == concat_actions(a) + concat_actions(b),
    decreases b.len(),
{
    if b.len() == 0 {
        assert(a + b =~= a);
        assert(concat_actions(a) + concat_actions(b) =~= concat_actions(a));
    } else {
        lemma_concat_actions_app(a, b.drop_last());
        assert((a + b).drop_last() =~= a + b.drop_last());
        assert((a + b).last() == b.last());
        assert(concat_actions(a + b) =~= concat_actions(a) + concat_actions(b));
    }
}

/// `sel_paths` distributes over concatenation of action lists.
proof fn lemma_sel_paths_app(x: Seq<ActionModel>, y: Seq<ActionModel>)
    ensures
        sel_paths(x + y) == sel_paths(x) + sel_paths(y),
    decreases y.len(),
{
    if y.len() == 0 {
        assert(x + y =~= x);
        assert(sel_paths(x) + sel_paths(y) =~= sel_paths(x));
    } else {
        lemma_sel_paths_app(x, y.drop_last());
        assert((x + y).drop_last() =~= x + y.drop_last());
        assert((x + y).last() == y.last());
        assert(sel_paths(x + y) =~= sel_paths(x) + sel_paths(y));
    }
}

/// `sel_scripts` distributes over concatenation of action lists.
proof fn lemma_sel_scripts_app(x: Seq<ActionModel>, y: Seq<ActionModel>)
    ensures
        sel_scripts(x + y) == sel_scripts(x) + sel_scripts(y),
    decreases y.len(),
{
    if y.len() == 0 {
        assert(x + y =~= x);
        assert(sel_scripts(x) + sel_scripts(y) =~= sel_scripts(x));
    } else {
        lemma_sel_scripts_app(x, y.drop_last());
        assert((x + y).drop_last() =~= x + y.drop_last());
        assert((x + y).last() == y.last());
        assert(sel_scripts(x + y) =~= sel_scripts(x) + sel_scripts(y));
    }
}

/// `var_values` distributes over concatenation of action lists, for every key.
proof fn lemma_var_values_app(x: Seq<ActionModel>, y: Seq<ActionModel>, key: Seq<char>)
    ensures
        var_values(x + y, key) == var_values(x, key) + var_values(y, key),
    decreases y.len(),
{
    if y.len() == 0 {
        assert(x + y =~= x);
        assert(var_values(x, key) + var_values(y, key) =~= var_values(x, key));
    } else {
        lemma_var_values_app(x, y.drop_last(), key);
        assert((x + y).drop_last() =~= x + y.drop_last());
        assert((x + y).last() == y.last());
        assert(var_values(x + y, key) =~= var_values(x, key) + var_values(y, key));
    }
}

/// Merging is associative with respect to concatenation order: the merged
/// search path list of `a ++ b` is the merged list of `a` followed by the
/// merged list of `b`; the same holds for the script list and, for every
/// variable, for its bucket of values.
pub proof fn lemma_merge_concatenation(a: Seq<ConfigResult>, b: Seq<ConfigResult>)
    ensures
        sel_paths(concat_actions(a + b)) == sel_paths(concat_actions(a)) + sel_paths(
            concat_actions(b),
        ),
        sel_scripts(concat_actions(a + b)) == sel_scripts(concat_actions(a)) + sel_scripts(
            concat_actions(b),
        ),
        forall|key: Seq<char>|
            var_values(concat_actions(a + b), key) == var_values(concat_actions(a), key)
                + var_values(concat_actions(b), key),
{
    lemma_concat_actions_app(a, b);
    lemma_sel_paths_app(concat_actions(a), concat_actions(b));
    lemma_sel_scripts_app(concat_actions(a), concat_actions(b));
    assert forall|key: Seq<char>|
        var_values(concat_actions(a + b), key) == var_values(concat_actions(a), key) + var_values(
            concat_actions(b),
            key,
        ) by {
        lemma_var_values_app(concat_actions(a), concat_actions(b), key);
    }
}

} // verus!
