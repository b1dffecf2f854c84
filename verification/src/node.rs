//! The polymorphic build-node set: any kind of build node, as one value.
//! The variants differ only in how they materialize and replay their substep
//! sequences; the scheduler sees every one through [`Step`].

use vstd::prelude::*;

use crate::bash::BashStep;
use crate::genus::GenusStep;
use crate::innovus::InnovusStep;
use crate::pegasus::PegasusStep;
use crate::sched::{Step, StepId};

verus! {

/// One build node of whichever stage: synthesis, place-and-route,
/// verification, or a plain script.
pub enum BuildStep {
    Syn(GenusStep),
    Par(InnovusStep),
    Check(PegasusStep),
    Script(BashStep),
}

impl Step for BuildStep {
    open spec fn spec_deps(&self) -> Seq<StepId> {
        match self {
            BuildStep::Syn(s) => s.spec_deps(),
            BuildStep::Par(s) => s.spec_deps(),
            BuildStep::Check(s) => s.spec_deps(),
            BuildStep::Script(s) => s.spec_deps(),
        }
    }

    open spec fn spec_pinned(&self) -> bool {
        match self {
            BuildStep::Syn(s) => s.spec_pinned(),
            BuildStep::Par(s) => s.spec_pinned(),
            BuildStep::Check(s) => s.spec_pinned(),
            BuildStep::Script(s) => s.spec_pinned(),
        }
    }

    fn deps(&self) -> (r: Vec<StepId>) {
        match self {
            BuildStep::Syn(s) => s.deps(),
            BuildStep::Par(s) => s.deps(),
            BuildStep::Check(s) => s.deps(),
            BuildStep::Script(s) => s.deps(),
        }
    }

    fn pinned(&self) -> (r: bool) {
        match self {
            BuildStep::Syn(s) => s.pinned(),
            BuildStep::Par(s) => s.pinned(),
            BuildStep::Check(s) => s.pinned(),
            BuildStep::Script(s) => s.pinned(),
        }
    }
}

} // verus!
