//! The plain-script build node: one shell command run in a working
//! directory, after its dependencies.  Running the command is the embedder's
//! part; here the node only takes its place in the build graph.

use vstd::prelude::*;

use crate::sched::{copy_ids, Step, StepId};

verus! {

/// A plain shell-command node of the build graph.
pub struct BashStep {
    pub work_dir: String,
    pub command: String,
    pub pinned: bool,
    pub dependencies: Vec<StepId>,
}

impl Step for BashStep {
    open spec fn spec_deps(&self) -> Seq<StepId> {
        self.dependencies@
    }

    open spec fn spec_pinned(&self) -> bool {
        self.pinned
    }

    fn deps(&self) -> (r: Vec<StepId>) {
        copy_ids(&self.dependencies)
    }

    fn pinned(&self) -> (r: bool) {
        self.pinned
    }
}

} // verus!
