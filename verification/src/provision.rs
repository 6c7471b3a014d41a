//! The template provisioning pipeline.
//!
//! Provisioning runs ordered, fail-fast stages: ensure the root directory
//! exists, download the base archive, extract it, remove the staged
//! archive (a failure there is reported but non-fatal), then create the
//! sandbox. The machine here makes the stage order and the
//! short-circuiting part of the contract; the caller performs each stage
//! and feeds its outcome back. The machine has no rollback action of any
//! kind: a directory created before a later stage fails is left in place.

use vstd::prelude::*;

use crate::util::bytes_eq;

verus! {

/// The five pipeline stages, in their fixed order.
#[derive(Clone, Copy, Debug, PartialEq, Eq, Structural)]
pub enum Stage {
    EnsureDir,
    Download,
    Extract,
    RemoveArchive,
    Create,
}

/// Where the pipeline stands.
#[derive(Clone, Copy, Debug, PartialEq, Eq, Structural)]
pub enum PipelineState {
    /// The named stage is the next to run.
    At { stage: Stage },
    /// All stages ran; the sandbox exists.
    Done,
    /// The named stage failed; nothing further runs.
    Failed { stage: Stage },
}

/// The pipeline starts at directory creation.
pub open spec fn pipeline_init() -> PipelineState {
    PipelineState::At { stage: Stage::EnsureDir }
}

/// The stage to perform next, or nothing when the pipeline has ended.
pub open spec fn pipeline_action(s: PipelineState) -> Option<Stage> {
    match s {
        PipelineState::At { stage } => Some(stage),
        PipelineState::Done => None,
        PipelineState::Failed { .. } => None,
    }
}

/// One transition: the pending stage's outcome moves the pipeline on.
/// Every failure halts it at that stage, except archive removal, which is
/// reported but non-fatal. Terminal states absorb every further outcome.
pub open spec fn pipeline_step_spec(s: PipelineState, ok: bool) -> PipelineState {
    match s {
        PipelineState::At { stage } => match stage {
            Stage::EnsureDir => if ok {
                PipelineState::At { stage: Stage::Download }
            } else {
                PipelineState::Failed { stage: Stage::EnsureDir }
            },
            Stage::Download => if ok {
                PipelineState::At { stage: Stage::Extract }
            } else {
                PipelineState::Failed { stage: Stage::Download }
            },
            Stage::Extract => if ok {
                PipelineState::At { stage: Stage::RemoveArchive }
            } else {
                PipelineState::Failed { stage: Stage::Extract }
            },
            Stage::RemoveArchive => PipelineState::At { stage: Stage::Create },
            Stage::Create => if ok {
                PipelineState::Done
            } else {
                PipelineState::Failed { stage: Stage::Create }
            },
        },
        PipelineState::Done => PipelineState::Done,
        PipelineState::Failed { stage } => PipelineState::Failed { stage },
    }
}

/// The state after a sequence of stage outcomes.
pub open spec fn pipeline_run(s: PipelineState, outcomes: Seq<bool>) -> PipelineState
    decreases outcomes.len(),
{
    if outcomes.len() == 0 {
        s
    } else {
        pipeline_run(pipeline_step_spec(s, outcomes[0]), outcomes.drop_first())
    }
}

/// The stages actually attempted along a run, in order.
pub open spec fn stages_attempted(s: PipelineState, outcomes: Seq<bool>) -> Seq<Stage>
    decreases outcomes.len(),
{
    if outcomes.len() == 0 {
        Seq::<Stage>::empty()
    } else {
        match pipeline_action(s) {
            Some(st) => seq![st] + stages_attempted(
                pipeline_step_spec(s, outcomes[0]),
                outcomes.drop_first(),
            ),
            None => Seq::<Stage>::empty(),
        }
    }
}

/// A failed pipeline stays failed and attempts nothing more.
pub proof fn lemma_failed_absorbing(st: Stage, outcomes: Seq<bool>)
    ensures
        pipeline_run(PipelineState::Failed { stage: st }, outcomes) == (PipelineState::Failed {
            stage: st,
        }),
        stages_attempted(PipelineState::Failed { stage: st }, outcomes) == Seq::<Stage>::empty(),
    decreases outcomes.len(),
{
    if outcomes.len() > 0 {
        lemma_failed_absorbing(st, outcomes.drop_first());
    }
}

/// Short-circuit law: when directory creation succeeds and the download
/// fails, the run attempts exactly those two stages — extraction, archive
/// removal and creation are never attempted — and the pipeline halts at
/// the download failure. No rollback stage exists, so the directory made
/// by the first stage is left in place.
pub proof fn lemma_download_failure_short_circuits(outcomes: Seq<bool>)
    requires
        outcomes.len() >= 2,
        outcomes[0],
        !outcomes[1],
    ensures
        pipeline_run(pipeline_init(), outcomes) == (PipelineState::Failed {
            stage: Stage::Download,
        }),
        stages_attempted(pipeline_init(), outcomes) == seq![Stage::EnsureDir, Stage::Download],
        !stages_attempted(pipeline_init(), outcomes).contains(Stage::Extract),
        !stages_attempted(pipeline_init(), outcomes).contains(Stage::RemoveArchive),
        !stages_attempted(pipeline_init(), outcomes).contains(Stage::Create),
{
    let s1 = pipeline_step_spec(pipeline_init(), outcomes[0]);
    let rest1 = outcomes.drop_first();
    assert(s1 == PipelineState::At { stage: Stage::Download });
    assert(rest1[0] == outcomes[1]);
    let s2 = pipeline_step_spec(s1, rest1[0]);
    let rest2 = rest1.drop_first();
    assert(s2 == PipelineState::Failed { stage: Stage::Download });
    lemma_failed_absorbing(Stage::Download, rest2);
    assert(pipeline_run(s1, rest1) == pipeline_run(s2, rest2));
    assert(pipeline_run(pipeline_init(), outcomes) == pipeline_run(s1, rest1));
    assert(stages_attempted(s1, rest1) =~= seq![Stage::Download] + stages_attempted(s2, rest2));
    assert(stages_attempted(pipeline_init(), outcomes) =~= seq![Stage::EnsureDir]
        + stages_attempted(s1, rest1));
    assert(stages_attempted(pipeline_init(), outcomes) =~= seq![
        Stage::EnsureDir,
        Stage::Download,
    ]);
    let attempted = stages_attempted(pipeline_init(), outcomes);
    assert(attempted[0] == Stage::EnsureDir && attempted[1] == Stage::Download);
    assert(!attempted.contains(Stage::Extract)) by {
        if attempted.contains(Stage::Extract) {
            let i = choose|i: int| 0 <= i < attempted.len() && attempted[i] == Stage::Extract;
        }
    }
    assert(!attempted.contains(Stage::RemoveArchive)) by {
        if attempted.contains(Stage::RemoveArchive) {
            let i = choose|i: int|
                0 <= i < attempted.len() && attempted[i] == Stage::RemoveArchive;
        }
    }
    assert(!attempted.contains(Stage::Create)) by {
        if attempted.contains(Stage::Create) {
            let i = choose|i: int| 0 <= i < attempted.len() && attempted[i] == Stage::Create;
        }
    }
}

/// A fresh pipeline.
pub fn pipeline_start() -> (r: PipelineState)
    ensures
        r == pipeline_init(),
{
    PipelineState::At { stage: Stage::EnsureDir }
}

/// The stage to perform next, if the pipeline has not ended.
pub fn pipeline_next_action(s: PipelineState) -> (r: Option<Stage>)
    ensures
        r == pipeline_action(s),
{
    match s {
        PipelineState::At { stage } => Some(stage),
        _ => None,
    }
}

/// Feeds one stage outcome into the pipeline.
pub fn pipeline_step(s: PipelineState, ok: bool) -> (r: PipelineState)
    ensures
        r == pipeline_step_spec(s, ok),
{
    match s {
        PipelineState::At { stage } => match stage {
            Stage::EnsureDir => if ok {
                PipelineState::At { stage: Stage::Download }
            } else {
                PipelineState::Failed { stage: Stage::EnsureDir }
            },
            Stage::Download => if ok {
                PipelineState::At { stage: Stage::Extract }
            } else {
                PipelineState::Failed { stage: Stage::Download }
            },
            Stage::Extract => if ok {
                PipelineState::At { stage: Stage::RemoveArchive }
            } else {
                PipelineState::Failed { stage: Stage::Extract }
            },
            Stage::RemoveArchive => PipelineState::At { stage: Stage::Create },
            Stage::Create => if ok {
                PipelineState::Done
            } else {
                PipelineState::Failed { stage: Stage::Create }
            },
        },
        PipelineState::Done => PipelineState::Done,
        PipelineState::Failed { stage } => PipelineState::Failed { stage },
    }
}

/// A model of the directory tree: the set of paths that exist. It stands
/// for the idempotent creation call the first stage makes.
pub struct DirModel {
    pub dirs: Vec<Vec<u8>>,
}

impl DirModel {
    /// Whether a path exists in the model.
    pub open spec fn has(&self, p: Seq<u8>) -> bool {
        exists|i: int| 0 <= i < self.dirs@.len() && (#[trigger] self.dirs@[i])@ == p
    }

    /// An empty tree.
    pub fn new() -> (r: DirModel)
        ensures
            forall|q: Seq<u8>| !r.has(q),
    {
        DirModel { dirs: Vec::new() }
    }

    /// Whether the directory exists.
    pub fn contains_dir(&self, p: &Vec<u8>) -> (r: bool)
        ensures
            r == self.has(p@),
    {
        let n = self.dirs.len();
        let mut i: usize = 0;
        while i < n
            invariant
                i <= n,
                n == self.dirs@.len(),
                forall|j: int| 0 <= j < i ==> (#[trigger] self.dirs@[j])@ != p@,
            decreases n - i,
        {
            if bytes_eq(&self.dirs[i], p) {
                return true;
            }
            i += 1;
        }
        false
    }

    /// Ensures the directory exists. A pre-existing directory is not an
    /// error: the call always succeeds, and never removes anything.
    pub fn ensure_dir(&mut self, p: &Vec<u8>) -> (ok: bool)
        ensures
            ensure_post(*old(self), *final(self), p@, ok),
    {
        if !self.contains_dir(p) {
            let ghost pre = self.dirs@;
            let copy = crate::util::subvec(p, 0, p.len());
            self.dirs.push(copy);
            proof {
                assert(self.dirs@[pre.len() as int]@ == p@);
                assert forall|q: Seq<u8>| #[trigger] self.has(q) implies (old(self).has(q) || q
                    == p@) by {
                    let i = choose|i: int|
                        0 <= i < self.dirs@.len() && (#[trigger] self.dirs@[i])@ == q;
                    if i < pre.len() {
                        assert(old(self).dirs@[i]@ == q);
                    }
                }
                assert forall|q: Seq<u8>| old(self).has(q) implies self.has(q) by {
                    let i = choose|i: int|
                        0 <= i < pre.len() && (#[trigger] old(self).dirs@[i])@ == q;
                    assert(self.dirs@[i]@ == q);
                }
            }
        }
        true
    }
}

/// Exactly what one directory-ensuring call does: it succeeds, the path
/// exists afterwards, and nothing else changes.
pub open spec fn ensure_post(pre: DirModel, post: DirModel, p: Seq<u8>, ok: bool) -> bool {
    &&& ok
    &&& post.has(p)
    &&& forall|q: Seq<u8>| #[trigger] post.has(q) == (pre.has(q) || q == p)
}

/// Idempotent directory creation law: running the directory stage a
/// second time over the same path succeeds again and changes nothing, so
/// provisioning the same template twice never fails there.
pub proof fn lemma_ensure_dir_idempotent(
    d0: DirModel,
    d1: DirModel,
    d2: DirModel,
    p: Seq<u8>,
    ok1: bool,
    ok2: bool,
)
    requires
        ensure_post(d0, d1, p, ok1),
        ensure_post(d1, d2, p, ok2),
    ensures
        ok2,
        forall|q: Seq<u8>| d2.has(q) == d1.has(q),
{
    assert forall|q: Seq<u8>| d2.has(q) == d1.has(q) by {
        assert(d2.has(q) == (d1.has(q) || q == p));
        assert(d1.has(q) == (d0.has(q) || q == p));
    }
}

} // verus!
