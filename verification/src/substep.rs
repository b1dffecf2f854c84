//! Substeps and checkpoints: the replay model shared by every concrete
//! build node.
//!
//! A build node owns an ordered sequence of named substeps and an optional
//! starting checkpoint.  Materializing the node's script slices the sequence
//! at the checkpointed substep (everything earlier is skipped, not
//! replayed), prepends an instruction restoring the persisted state, and
//! then emits each substep's command followed — when its checkpoint flag is
//! set — by an instruction persisting the tool state reached *after* that
//! command, to a path derived from the working directory and the substep's
//! name.  (A checkpoint named `X` therefore holds the state immediately
//! after substep `X` completes, and resuming from `X` replays `X` onward.)

use vstd::prelude::*;

verus! {

/// One atomic, named operation inside a stage's script, with a flag marking
/// whether the tool state reached after it should persist as a checkpoint.
pub struct Substep {
    pub name: String,
    pub command: String,
    pub checkpoint: bool,
}

/// A named resume point: which substep's state to restore, and where the
/// persisted tool state lives on disk.
pub struct Checkpoint {
    pub name: String,
    pub path: String,
}

/// What a parent build needs of an already-built submodule: its name and
/// the paths of its interface model and abstract view.
pub struct SubmoduleInfo {
    pub name: String,
    pub ilm: String,
    pub lef: String,
}

/// Index of the first substep with the given name.
pub open spec fn find_substep(steps: Seq<Substep>, name: Seq<char>) -> Option<int>
    decreases steps.len(),
{
    if steps.len() == 0 {
        None
    } else if steps[0].name@ == name {
        Some(0int)
    } else {
        match find_substep(steps.drop_first(), name) {
            Some(i) => Some(i + 1),
            None => None,
        }
    }
}

/// What [`find_substep`] finds is the first match: the substep at the index
/// carries the name and no earlier one does; `None` means no substep does.
pub proof fn lemma_find_substep_first(steps: Seq<Substep>, name: Seq<char>)
    ensures
        match find_substep(steps, name) {
            Some(i) => 0 <= i < steps.len() && steps[i].name@ == name && (forall|j: int|
                0 <= j < i ==> steps[j].name@ != name),
            None => forall|j: int| 0 <= j < steps.len() ==> steps[j].name@ != name,
        },
    decreases steps.len(),
{
    if steps.len() == 0 {
    } else if steps[0].name@ == name {
    } else {
        let rest = steps.drop_first();
        lemma_find_substep_first(rest, name);
        assert(forall|j: int| 0 <= j < rest.len() ==> rest[j] == #[trigger] steps[j + 1]);
        match find_substep(rest, name) {
            Some(i) => {
                assert(rest[i] == steps[i + 1]);
                assert forall|j: int| 0 <= j < i + 1 implies steps[j].name@ != name by {
                    if j > 0 {
                        assert(rest[j - 1].name@ != name);
                        assert(rest[j - 1] == steps[j]);
                    }
                }
            },
            None => {
                assert forall|j: int| 0 <= j < steps.len() implies steps[j].name@ != name by {
                    if j > 0 {
                        assert(rest[j - 1].name@ != name);
                        assert(rest[j - 1] == steps[j]);
                    }
                }
            },
        }
    }
}

/// Find the first substep with the given name.
pub fn position_of(steps: &Vec<Substep>, name: &String) -> (r: Option<usize>)
    ensures
        match r {
            Some(i) => i < steps@.len() && Some(i as int) == find_substep(steps@, name@),
            None => find_substep(steps@, name@) is None,
        },
{
    let n: usize = steps.len();
    let mut i: usize = 0;
    while i < n
        invariant
            n == steps@.len(),
            0 <= i <= n,
            forall|j: int| 0 <= j < i ==> steps@[j].name@ != name@,
        decreases n - i,
    {
        if steps[i].name == *name {
            proof {
                lemma_find_substep_first(steps@, name@);
                match find_substep(steps@, name@) {
                    Some(k) => {
                        if k < i as int {
                            assert(steps@[k].name@ != name@);
                            assert(steps@[k].name@ == name@);
                        }
                        if k > i as int {
                            assert(steps@[i as int].name@ != name@);
                        }
                        assert(k == i as int);
                    },
                    None => {
                        assert(steps@[i as int].name@ != name@);
                        assert(false);
                    },
                }
            }
            return Some(i);
        }
        i += 1;
    }
    proof {
        lemma_find_substep_first(steps@, name@);
        match find_substep(steps@, name@) {
            Some(k) => {
                assert(steps@[k].name@ != name@);
                assert(false);
            },
            None => {},
        }
    }
    None
}

/// The deterministic path a substep's checkpoint is persisted to: derived
/// from the node's working directory and the substep's name.
pub open spec fn checkpoint_path(work_dir: Seq<char>, name: Seq<char>) -> Seq<char> {
    work_dir + "/"@ + name + ".checkpoint"@
}

/// The script text one substep contributes: its command, then — when its
/// checkpoint flag is set — the persist instruction, written as the tool's
/// persist command (`write_prefix`) applied to the substep's checkpoint
/// path.  The persist instruction follows the command: the checkpoint holds
/// the state after the substep.
pub open spec fn substep_block(s: Substep, work_dir: Seq<char>, write_prefix: Seq<char>) -> Seq<
    char,
> {
    s.command@ + "\n"@ + if s.checkpoint {
        write_prefix + checkpoint_path(work_dir, s.name@) + "\n"@
    } else {
        Seq::<char>::empty()
    }
}

/// The script text of a whole substep sequence, in order.
pub open spec fn script_body(steps: Seq<Substep>, work_dir: Seq<char>, write_prefix: Seq<char>) -> Seq<
    char,
>
    decreases steps.len(),
{
    if steps.len() == 0 {
        Seq::<char>::empty()
    } else {
        script_body(steps.drop_last(), work_dir, write_prefix) + substep_block(
            steps.last(),
            work_dir,
            write_prefix,
        )
    }
}

/// Append to `out` the script text of the substeps from index `from` on.
pub fn append_script_body(
    out: &mut String,
    steps: &Vec<Substep>,
    from: usize,
    work_dir: &String,
    write_prefix: &str,
)
    requires
        from <= steps@.len(),
    ensures
        final(out)@ == old(out)@ + script_body(
            steps@.skip(from as int),
            work_dir@,
            write_prefix@,
        ),
{
    let n: usize = steps.len();
    let mut k: usize = from;
    proof {
        assert(steps@.subrange(from as int, from as int) =~= Seq::<Substep>::empty());
    }
    while k < n
        invariant
            from <= k <= n,
            n == steps@.len(),
            out@ == old(out)@ + script_body(
                steps@.subrange(from as int, k as int),
                work_dir@,
                write_prefix@,
            ),
        decreases n - k,
    {
        out.append(steps[k].command.as_str());
        out.append("\n");
        if steps[k].checkpoint {
            out.append(write_prefix);
            out.append(work_dir.as_str());
            out.append("/");
            out.append(steps[k].name.as_str());
            out.append(".checkpoint");
            out.append("\n");
        }
        proof {
            let upto = steps@.subrange(from as int, k as int + 1);
            assert(upto.drop_last() =~= steps@.subrange(from as int, k as int));
            assert(upto.last() == steps@[k as int]);
        }
        k += 1;
    }
    proof {
        assert(steps@.subrange(from as int, n as int) =~= steps@.skip(from as int));
    }
}

} // verus!
