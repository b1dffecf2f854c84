//! The physical-verification build node.  It owns no substep sequence of its
//! own: the control file handed to it is materialized from substeps like the
//! other nodes' scripts, while the tool's command-line invocation itself is
//! the embedder's part.

use vstd::prelude::*;

use crate::sched::{copy_ids, Step, StepId};
use crate::substep::{append_script_body, script_body, Substep};

verus! {

/// A physical-verification run of one module: which check to run (its
/// `func`), where, and after which dependencies.
pub struct PegasusStep {
    pub work_dir: String,
    pub func: String,
    pub module: String,
    pub pinned: bool,
    pub dependencies: Vec<StepId>,
}

impl PegasusStep {
    /// A fresh verification node.
    pub fn new(
        work_dir: String,
        func: String,
        module: String,
        pinned: bool,
        deps: Vec<StepId>,
    ) -> (r: PegasusStep)
        ensures
            r.work_dir == work_dir,
            r.func == func,
            r.module == module,
            r.pinned == pinned,
            r.dependencies == deps,
    {
        PegasusStep { work_dir, func, module, pinned, dependencies: deps }
    }

    /// The control file this node materializes from a substep sequence: a
    /// restore instruction when a checkpoint directory is given (resolved
    /// under the working directory), the substeps in order, and `quit`.
    pub open spec fn spec_ctl_script(
        &self,
        steps: Seq<Substep>,
        checkpoint_dir: Option<String>,
    ) -> Seq<char> {
        (match checkpoint_dir {
            Some(dir) => "read_db "@ + self.work_dir@ + "/"@ + dir@ + "\n"@,
            None => Seq::<char>::empty(),
        }) + script_body(steps, self.work_dir@, "write_db -to_file "@) + "quit\n"@
    }

    /// Materialize the control file text.
    pub fn ctl_script(&self, steps: &Vec<Substep>, checkpoint_dir: &Option<String>) -> (r: String)
        ensures
            r@ == self.spec_ctl_script(steps@, *checkpoint_dir),
    {
        let mut out = String::new();
        match checkpoint_dir {
            Some(dir) => {
                out.append("read_db ");
                out.append(self.work_dir.as_str());
                out.append("/");
                out.append(dir.as_str());
                out.append("\n");
            },
            None => {},
        }
        append_script_body(&mut out, steps, 0, &self.work_dir, "write_db -to_file ");
        out.append("quit\n");
        proof {
            assert(steps@.skip(0) =~= steps@);
            assert(out@ =~= self.spec_ctl_script(steps@, *checkpoint_dir));
        }
        out
    }
}

impl Step for PegasusStep {
    open spec fn spec_deps(&self) -> Seq<StepId> {
        self.dependencies@
    }

    open spec fn spec_pinned(&self) -> bool {
        self.pinned
    }

    fn deps(&self) -> (r: Vec<StepId>) {
        copy_ids(&self.dependencies)
    }

    fn pinned(&self) -> (r: bool) {
        self.pinned
    }
}

} // verus!
