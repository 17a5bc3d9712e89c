//! Batch planning and aggregation: which frames a run converts, in what
//! order, what it reports, and when the sources may be deleted.
//!
//! Frames are independent of one another, so workers may finish them in any
//! order; the plan below fixes the logical frame order, and the laws at the
//! bottom show the produced artifacts do not depend on discovery or
//! scheduling order.

use vstd::prelude::*;
use vstd::pervasive::unreached;
use vstd::seq_lib::lemma_sorted_unique;

use crate::config::ConversionConfig;
use crate::errors::EngineError;
use crate::names::{artifact_name, is_png_name, lemma_named_ext_nonempty, output_name, png_name};
use crate::order::{lemma_lex_total_ordering, lex_leq, sort_names, views};
use crate::transcode::transcode_spec;

verus! {

/// One unit of batch work: a source image and the name its artifact will
/// carry.
pub struct Frame {
    pub source_name: String,
    pub output_name: String,
}

/// The source names of a frame sequence.
pub open spec fn frame_sources(frames: Seq<Frame>) -> Seq<Seq<char>> {
    frames.map_values(|f: Frame| f.source_name@)
}

/// The predicate that picks source frame images out of a listing.
pub open spec fn png_pred() -> spec_fn(Seq<char>) -> bool {
    |n: Seq<char>| png_name(n)
}

/// The planned frame order of a batch: the source images among the
/// discovered names, in lexicographic order.
pub open spec fn plan_spec(names: Seq<Seq<char>>) -> Seq<Seq<char>> {
    names.sort_by(lex_leq()).filter(png_pred())
}

/// Plans a batch from a directory listing: one frame per source image, in
/// lexicographic order, each carrying its artifact's name.
pub fn plan_batch(names: &Vec<String>) -> (frames: Vec<Frame>)
    ensures
        frame_sources(frames@) == plan_spec(views(names@)),
        forall|i: int|
            0 <= i < frames@.len() ==> (#[trigger] frames@[i]).output_name@ == artifact_name(
                frames@[i].source_name@,
            ),
{
    let sorted = sort_names(names);
    let mut frames: Vec<Frame> = Vec::new();
    let mut i: usize = 0;
    proof {
        reveal(Seq::filter);
        assert(frame_sources(frames@) =~= views(sorted@).take(0).filter(png_pred()));
    }
    while i < sorted.len()
        invariant
            i <= sorted@.len(),
            views(sorted@) == views(names@).sort_by(lex_leq()),
            frame_sources(frames@) == views(sorted@).take(i as int).filter(png_pred()),
            forall|j: int|
                0 <= j < frames@.len() ==> (#[trigger] frames@[j]).output_name@ == artifact_name(
                    frames@[j].source_name@,
                ),
        decreases sorted@.len() - i,
    {
        let ghost vs = views(sorted@);
        proof {
            assert(vs.take(i + 1).drop_last() =~= vs.take(i as int));
            assert(vs.take(i + 1).last() == sorted@[i as int]@);
        }
        if is_png_name(sorted[i].as_str()) {
            let out = match output_name(sorted[i].as_str()) {
                Ok(o) => o,
                Err(_) => {
                    proof {
                        lemma_named_ext_nonempty(sorted@[i as int]@);
                    }
                    unreached()
                },
            };
            let f = Frame { source_name: sorted[i].clone(), output_name: out };
            let ghost prev = frames@;
            frames.push(f);
            proof {
                reveal(Seq::filter);
                assert(png_pred()(vs.take(i + 1).last()));
                assert(vs.take(i + 1).filter(png_pred()) == vs.take(i as int).filter(
                    png_pred(),
                ).push(sorted@[i as int]@));
                assert(frame_sources(frames@) =~= frame_sources(prev).push(sorted@[i as int]@));
            }
        } else {
            proof {
                reveal(Seq::filter);
                assert(!png_pred()(vs.take(i + 1).last()));
                assert(vs.take(i + 1).filter(png_pred()) == vs.take(i as int).filter(png_pred()));
            }
        }
        i = i + 1;
    }
    proof {
        assert(views(sorted@).take(sorted@.len() as int) =~= views(sorted@));
    }
    frames
}

/// Law: the planned frame order depends only on which names were discovered,
/// not on the order the directory walk produced them in.
pub proof fn lemma_plan_order_independent(names1: Seq<Seq<char>>, names2: Seq<Seq<char>>)
    requires
        names1.to_multiset() == names2.to_multiset(),
    ensures
        plan_spec(names1) == plan_spec(names2),
{
    lemma_lex_total_ordering();
    names1.lemma_sort_by_ensures(lex_leq());
    names2.lemma_sort_by_ensures(lex_leq());
    lemma_sorted_unique(names1.sort_by(lex_leq()), names2.sort_by(lex_leq()), lex_leq());
}

/// The set of `(artifact name, artifact content)` pairs a batch yields over
/// a directory whose file bytes are given by `contents`. A `None` content
/// records a frame whose bytes do not decode.
pub open spec fn batch_outputs(
    names: Seq<Seq<char>>,
    contents: Map<Seq<char>, Seq<u8>>,
    ramp: Seq<char>,
    cfg: ConversionConfig,
) -> Set<(Seq<char>, Option<Seq<char>>)> {
    plan_spec(names).map_values(
        |n: Seq<char>| (artifact_name(n), transcode_spec(contents[n], ramp, cfg)),
    ).to_set()
}

/// Law: the set of `(artifact name, artifact content)` pairs a batch
/// produces is the same for any two listings of the same names, whatever
/// order discovery or scheduling visits them in.
pub proof fn lemma_batch_outputs_order_independent(
    names1: Seq<Seq<char>>,
    names2: Seq<Seq<char>>,
    contents: Map<Seq<char>, Seq<u8>>,
    ramp: Seq<char>,
    cfg: ConversionConfig,
)
    requires
        names1.to_multiset() == names2.to_multiset(),
    ensures
        batch_outputs(names1, contents, ramp, cfg) == batch_outputs(names2, contents, ramp, cfg),
{
    lemma_plan_order_independent(names1, names2);
}

/// The aggregate outcome of a batch: how many frames of the plan succeeded
/// before the first failure, and that failure if there was one.
pub struct BatchResult {
    pub frames_converted: usize,
    pub first_error: Option<EngineError>,
}

/// Aggregates per-frame outcomes, in plan order, under the fail-fast policy:
/// the batch's error is the first one encountered, and the count is the
/// number of frames that succeeded before it.
pub fn summarize_outcomes(outcomes: Vec<Result<(), EngineError>>) -> (res: BatchResult)
    ensures
        res.frames_converted <= outcomes@.len(),
        forall|j: int| 0 <= j < res.frames_converted ==> (#[trigger] outcomes@[j]) is Ok,
        res.frames_converted < outcomes@.len() ==> (res.first_error matches Some(e)
            && outcomes@[res.frames_converted as int] == Err::<(), EngineError>(e)),
        res.frames_converted == outcomes@.len() ==> res.first_error is None,
{
    let mut rest = outcomes;
    let n = rest.len();
    let mut i: usize = 0;
    while i < n
        invariant
            rest@ == outcomes@,
            n == outcomes@.len(),
            i <= n,
            forall|j: int| 0 <= j < i ==> (#[trigger] outcomes@[j]) is Ok,
        decreases n - i,
    {
        let failed = match &rest[i] {
            Ok(_) => false,
            Err(_) => true,
        };
        if failed {
            let taken = rest.remove(i);
            match taken {
                Ok(_) => unreached(),
                Err(e) => {
                    return BatchResult { frames_converted: i, first_error: Some(e) };
                },
            }
        }
        i = i + 1;
    }
    BatchResult { frames_converted: n, first_error: None }
}

/// Names the source images to delete once a batch is over: all of them when
/// the caller declined to keep them and every frame succeeded, none
/// otherwise. Deletion is irreversible, so it is owed only after full
/// success.
pub fn sources_to_delete(frames: &Vec<Frame>, keep_source_images: bool, batch_succeeded: bool) -> (d:
    Vec<String>)
    ensures
        !keep_source_images && batch_succeeded ==> views(d@) == frame_sources(frames@),
        keep_source_images || !batch_succeeded ==> d@.len() == 0,
{
    let mut d: Vec<String> = Vec::new();
    if keep_source_images || !batch_succeeded {
        return d;
    }
    let mut i: usize = 0;
    while i < frames.len()
        invariant
            i <= frames@.len(),
            views(d@) == frame_sources(frames@.take(i as int)),
        decreases frames@.len() - i,
    {
        let ghost prev = d@;
        d.push(frames[i].source_name.clone());
        proof {
            assert(frame_sources(frames@.take(i + 1)) =~= frame_sources(frames@.take(i as int)).push(
                frames@[i as int].source_name@,
            ));
            assert(views(d@) =~= views(prev).push(frames@[i as int].source_name@));
        }
        i = i + 1;
    }
    proof {
        assert(frames@.take(frames@.len() as int) =~= frames@);
    }
    d
}

} // verus!
