//! The per-module result of composing a reference flow: one synthesis node
//! and one place-and-route node per hierarchical block, located in the build
//! graph by their ids, and findable in the composed [`crate::dag::Dag`] by
//! the module's name.

use vstd::prelude::*;

use crate::dag::NamedNode;
use crate::sched::StepId;

verus! {

/// How a block's pins are placed: not at all, during synthesis, or during
/// place-and-route — with the directory the pin data lives in.
pub enum FlatPinInfo {
    NoPin,
    PinSyn(String),
    PinPar(String),
}

/// The stage-agnostic description of one hierarchical design block: its
/// name, how its pins are placed, and its source file.  Its physical
/// placement constraints are the embedder's business and stay opaque to the
/// composition.
pub struct ModuleInfo {
    pub module_name: String,
    pub pin_info: FlatPinInfo,
    pub verilog_path: String,
}

/// The build plan of one module: the ids its synthesis and place-and-route
/// nodes were given in the build-step arena.
pub struct Sky130FlatFlow {
    pub module: String,
    pub syn: StepId,
    pub par: StepId,
}

impl NamedNode for Sky130FlatFlow {
    open spec fn spec_name(&self) -> Seq<char> {
        self.module@
    }

    fn name(&self) -> (r: String) {
        self.module.clone()
    }
}

} // verus!
