//! Build-orchestration core for multi-stage hardware physical-design flows.
//!
//! A design hierarchy is described as a [`dag::Dag`] of module descriptions.
//! The hierarchical composer (`dag::hierarchical`) turns it, children first,
//! into a graph of concrete build plans.  The scheduler (`sched`) walks a
//! build graph and yields each reachable node exactly once, dependencies
//! before dependents, skipping pinned nodes.  Each concrete build node
//! (`genus`, `innovus`, `pegasus`, `bash`) owns an ordered sequence of
//! substeps and materializes them into a tool script, optionally resuming
//! from a named checkpoint.  The embedder performs the actual file writes
//! and subprocess calls; everything that decides *what* runs is here.

pub mod bash;
pub mod cadence;
pub mod dag;
pub mod error;
pub mod flow;
pub mod flows;
pub mod genus;
pub mod innovus;
pub mod node;
pub mod pegasus;
pub mod sched;
pub mod substep;
pub mod text;
