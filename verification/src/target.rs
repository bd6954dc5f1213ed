//! A named bundle of configuration actions, built up while the targets
//! section of a document is read.

use vstd::prelude::*;

verus! {

/// One action of a target bundle.
#[derive(Debug, Eq, PartialEq)]
pub enum TargetAction {
    /// Prepend a value to the search path.
    PathAdd(String),
    /// Execute a script at the given path.
    ScriptExecute(String),
}

/// The mathematical shape of a [`TargetAction`].
pub enum BundleActionModel {
    PathAdd(Seq<char>),
    ScriptExecute(Seq<char>),
}

impl View for TargetAction {
    type V = BundleActionModel;

    open spec fn view(&self) -> BundleActionModel {
        match self {
            TargetAction::PathAdd(v) => BundleActionModel::PathAdd(v@),
            TargetAction::ScriptExecute(v) => BundleActionModel::ScriptExecute(v@),
        }
    }
}

/// View of a vector of bundle actions as a sequence of their models.
pub open spec fn view_bundle(s: Seq<TargetAction>) -> Seq<BundleActionModel> {
    s.map_values(|a: TargetAction| a@)
}

/// A target: the ordered actions it performs.
#[derive(Debug, Eq, PartialEq)]
pub struct Target {
    pub actions: Vec<TargetAction>,
}

impl Target {
    /// Appends a search path addition.
    pub fn push_path(&mut self, path: &str)
        ensures
            view_bundle(final(self).actions@) == view_bundle(old(self).actions@).push(
                BundleActionModel::PathAdd(path@),
            ),
    {
        self.actions.push(TargetAction::PathAdd(path.to_owned()));
        proof {
            assert(view_bundle(self.actions@) =~= view_bundle(old(self).actions@).push(
                BundleActionModel::PathAdd(path@),
            ));
        }
    }

    /// Appends a script execution.
    pub fn push_script(&mut self, script: &str)
        ensures
            view_bundle(final(self).actions@) == view_bundle(old(self).actions@).push(
                BundleActionModel::ScriptExecute(script@),
            ),
    {
        self.actions.push(TargetAction::ScriptExecute(script.to_owned()));
        proof {
            assert(view_bundle(self.actions@) =~= view_bundle(old(self).actions@).push(
                BundleActionModel::ScriptExecute(script@),
            ));
        }
    }
}

} // verus!
