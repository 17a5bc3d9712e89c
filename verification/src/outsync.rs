//! Output-directory reconciliation: what to do when the destination already
//! holds files of a prior run.
//!
//! A prior run is recognized by frame-prefixed names. When any are present
//! the caller either confirmed a destructive overwrite — then exactly the
//! recognized artifacts are purged before the batch — or declined, and the
//! run is cancelled with nothing touched.

use vstd::prelude::*;

use crate::names::{frame_prefixed, is_frame_prefixed, is_prior_artifact, prior_artifact};
use crate::order::views;

verus! {

/// Whether a listing holds any file of a prior run.
pub open spec fn has_prior_frames(names: Seq<Seq<char>>) -> bool {
    exists|i: int| 0 <= i < names.len() && frame_prefixed(#[trigger] names[i])
}

/// The predicate that picks a prior run's artifacts out of a listing.
pub open spec fn artifact_pred() -> spec_fn(Seq<char>) -> bool {
    |n: Seq<char>| prior_artifact(n)
}

/// How a run reconciles its destination directory.
pub enum SyncPlan {
    /// No prior run is present: convert into the directory as it is.
    Proceed,
    /// Prior artifacts exist and overwrite was declined: touch nothing and
    /// report a benign cancellation.
    Cancelled,
    /// Overwrite confirmed: delete exactly the named files, then convert.
    CleanFirst(Vec<String>),
}

/// Detects files of a prior run in a directory listing.
pub fn detect_prior_frames(names: &Vec<String>) -> (r: bool)
    ensures
        r == has_prior_frames(views(names@)),
{
    let mut i: usize = 0;
    while i < names.len()
        invariant
            i <= names@.len(),
            forall|j: int| 0 <= j < i ==> !frame_prefixed(#[trigger] views(names@)[j]),
        decreases names@.len() - i,
    {
        if is_frame_prefixed(names[i].as_str()) {
            proof {
                assert(frame_prefixed(views(names@)[i as int]));
            }
            return true;
        }
        i = i + 1;
    }
    false
}

/// Decides the reconciliation: proceed untouched when nothing of a prior run
/// is present; cancel, touching nothing, when prior frames exist and
/// overwrite was declined; otherwise purge exactly the recognized artifacts
/// of prior runs.
pub fn plan_output_sync(names: &Vec<String>, overwrite_confirmed: bool) -> (p: SyncPlan)
    ensures
        p matches SyncPlan::Proceed <==> !has_prior_frames(views(names@)),
        p matches SyncPlan::Cancelled <==> has_prior_frames(views(names@)) && !overwrite_confirmed,
        p matches SyncPlan::CleanFirst(purge) ==> has_prior_frames(views(names@)) && overwrite_confirmed
            && views(purge@) == views(names@).filter(artifact_pred()),
        has_prior_frames(views(names@)) && overwrite_confirmed ==> p matches SyncPlan::CleanFirst(_),
{
    if !detect_prior_frames(names) {
        return SyncPlan::Proceed;
    }
    if !overwrite_confirmed {
        return SyncPlan::Cancelled;
    }
    let mut purge: Vec<String> = Vec::new();
    let mut i: usize = 0;
    proof {
        reveal(Seq::filter);
        assert(views(purge@) =~= views(names@).take(0).filter(artifact_pred()));
    }
    while i < names.len()
        invariant
            i <= names@.len(),
            views(purge@) == views(names@).take(i as int).filter(artifact_pred()),
        decreases names@.len() - i,
    {
        let ghost vs = views(names@);
        proof {
            assert(vs.take(i + 1).drop_last() =~= vs.take(i as int));
            assert(vs.take(i + 1).last() == names@[i as int]@);
        }
        if is_prior_artifact(names[i].as_str()) {
            let ghost prev = purge@;
            purge.push(names[i].clone());
            proof {
                reveal(Seq::filter);
                assert(artifact_pred()(vs.take(i + 1).last()));
                assert(vs.take(i + 1).filter(artifact_pred()) == vs.take(i as int).filter(
                    artifact_pred(),
                ).push(names@[i as int]@));
                assert(views(purge@) =~= views(prev).push(names@[i as int]@));
            }
        } else {
            proof {
                reveal(Seq::filter);
                assert(!artifact_pred()(vs.take(i + 1).last()));
                assert(vs.take(i + 1).filter(artifact_pred()) == vs.take(i as int).filter(
                    artifact_pred(),
                ));
            }
        }
        i = i + 1;
    }
    proof {
        assert(views(names@).take(names@.len() as int) =~= views(names@));
    }
    SyncPlan::CleanFirst(purge)
}

} // verus!
