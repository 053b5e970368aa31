//! What holds of every run of the pipeline, whatever the outside world
//! answers.
use vstd::prelude::*;

use crate::asset::{is_terminal, AssetStatus, AssetView};
use crate::paths::{compressed_name, has_extension};
use crate::pipeline::{begin_spec, delete_error, step_spec, verdict, Action, Event, RunView};

verus! {

/// The state of a run after the events `es`, in order.
pub open spec fn after(v: RunView, es: Seq<Event>) -> RunView
    decreases es.len(),
{
    if es.len() == 0 {
        v
    } else {
        step_spec(after(v, es.drop_last()), es.last())
    }
}

/// Some state of the run through `es`, the first one included, asked for `a`.
pub open spec fn requested(v: RunView, es: Seq<Event>, a: Action) -> bool {
    exists|k: int| 0 <= k <= es.len() && #[trigger] after(v, es.take(k)).pending == a
}

pub open spec fn removes_source(a: Action) -> bool {
    a == Action::TrashSource || a == Action::RemoveSource
}

/// What every reachable state satisfies.
pub open spec fn run_inv(v: RunView) -> bool {
    match v.pending {
        Action::CheckTarget | Action::Encode | Action::ProbeSizes => v.asset.status
            == AssetStatus::Processing,
        Action::ProbeCreationTime => v.asset.status == AssetStatus::Processing && verdict(
            v.asset,
            v.compressed,
        ) is None,
        Action::WriteCreationDate => v.asset.status == AssetStatus::Processing && verdict(
            v.asset,
            v.compressed,
        ) is None && v.asset.creation_time is Some,
        Action::TrashSource | Action::RemoveSource => v.asset.status == AssetStatus::Processing
            && verdict(v.asset, v.compressed) is None && v.asset.creation_time is Some && v.delete,
        Action::RemoveCompressed => v.asset.status == AssetStatus::Failed,
        Action::Finish => true,
    }
}

pub proof fn lemma_after_append(v: RunView, a: Seq<Event>, b: Seq<Event>)
    ensures
        after(v, a + b) == after(after(v, a), b),
    decreases b.len(),
{
    if b.len() == 0 {
        assert(a + b =~= a);
    } else {
        assert((a + b).drop_last() =~= a + b.drop_last());
        lemma_after_append(v, a, b.drop_last());
    }
}

/// Once finished, a run stays as it is.
pub proof fn lemma_finished_stays(v: RunView, es: Seq<Event>)
    requires
        v.pending == Action::Finish,
    ensures
        after(v, es) == v,
    decreases es.len(),
{
    if es.len() > 0 {
        lemma_finished_stays(v, es.drop_last());
    }
}

/// The deletion option of a run never changes.
pub proof fn lemma_delete_kept(v: RunView, es: Seq<Event>)
    ensures
        after(v, es).delete == v.delete,
    decreases es.len(),
{
    if es.len() > 0 {
        lemma_delete_kept(v, es.drop_last());
    }
}

pub proof fn lemma_begin_inv(a: AssetView, delete: bool, time_zone: Seq<char>)
    ensures
        run_inv(begin_spec(a, delete, time_zone)),
{
}

pub proof fn lemma_step_inv(v: RunView, e: Event)
    requires
        run_inv(v),
    ensures
        run_inv(step_spec(v, e)),
{
}

pub proof fn lemma_after_inv(v: RunView, es: Seq<Event>)
    requires
        run_inv(v),
    ensures
        run_inv(after(v, es)),
    decreases es.len(),
{
    if es.len() > 0 {
        lemma_after_inv(v, es.drop_last());
        lemma_step_inv(after(v, es.drop_last()), es.last());
    }
}

/// No step proceeds past a terminal status: once an asset is skipped,
/// failed, completed or failed in post-processing, its status stays.
pub proof fn lemma_terminal_status_kept(v: RunView, es: Seq<Event>)
    requires
        run_inv(v),
        is_terminal(v.asset.status),
    ensures
        after(v, es).asset.status == v.asset.status,
    decreases es.len(),
{
    if es.len() > 0 {
        lemma_terminal_status_kept(v, es.drop_last());
        lemma_after_inv(v, es.drop_last());
    }
}

/// Status only moves forward: a run begun on a pending asset never shows
/// it pending again, whatever comes.
pub proof fn lemma_never_pending_again(a: AssetView, delete: bool, time_zone: Seq<char>, es: Seq<
    Event,
>)
    requires
        a.status == AssetStatus::Pending,
    ensures
        after(begin_spec(a, delete, time_zone), es).asset.status != AssetStatus::Pending,
    decreases es.len(),
{
    if es.len() > 0 {
        lemma_never_pending_again(a, delete, time_zone, es.drop_last());
    }
}

/// A failed run that may still be rolling back stays failed.
pub open spec fn failed(v: RunView) -> bool {
    v.asset.status == AssetStatus::Failed && (v.pending == Action::RemoveCompressed || v.pending
        == Action::Finish)
}

pub proof fn lemma_failed_stays(v: RunView, es: Seq<Event>)
    requires
        failed(v),
    ensures
        failed(after(v, es)),
    decreases es.len(),
{
    if es.len() > 0 {
        lemma_failed_stays(v, es.drop_last());
    }
}

/// A compressed copy that is no smaller than its source is removed: the
/// verifier fails the asset and asks for the removal of the copy, and from
/// then on, whatever comes, the asset stays failed and nothing but that
/// removal is asked for. A removal that fails is recorded as the run's error.
pub proof fn lemma_rollback(
    v: RunView,
    original: u64,
    compressed: u64,
    es: Seq<Event>,
    words: String,
)
    requires
        v.pending == Action::ProbeSizes,
        compressed >= original,
    ensures
        ({
            let w = step_spec(
                v,
                Event::SizesProbed { original: Some(original), compressed: Some(compressed) },
            );
            &&& w.pending == Action::RemoveCompressed
            &&& w.asset.status == AssetStatus::Failed
            &&& step_spec(w, Event::CompressedRemoved { outcome: Err(words) }).error == Some(
                delete_error(w.compressed.path, words@),
            )
            &&& after(w, es).asset.status == AssetStatus::Failed
            &&& forall|k: int|
                0 <= k <= es.len() ==> {
                    let p = #[trigger] after(w, es.take(k)).pending;
                    p == Action::RemoveCompressed || p == Action::Finish
                }
        }),
{
    let w = step_spec(
        v,
        Event::SizesProbed { original: Some(original), compressed: Some(compressed) },
    );
    lemma_failed_stays(w, es);
    assert forall|k: int| 0 <= k <= es.len() implies {
        let p = #[trigger] after(w, es.take(k)).pending;
        p == Action::RemoveCompressed || p == Action::Finish
    } by {
        lemma_failed_stays(w, es.take(k));
    }
}

/// An encoder that exits with a failure fails the asset and ends the run:
/// no verification, no metadata step and no removal is asked for afterwards.
pub proof fn lemma_encoder_failure(v: RunView, es: Seq<Event>)
    requires
        v.pending == Action::Encode,
    ensures
        ({
            let w = step_spec(v, Event::EncoderExited { success: false });
            &&& w.asset.status == AssetStatus::Failed
            &&& w.pending == Action::Finish
            &&& after(w, es) == w
            &&& forall|a: Action| a != Action::Finish ==> !requested(w, es, a)
        }),
{
    let w = step_spec(v, Event::EncoderExited { success: false });
    lemma_finished_stays(w, es);
    assert forall|a: Action| a != Action::Finish implies !requested(w, es, a) by {
        assert forall|k: int| 0 <= k <= es.len() implies #[trigger] after(w, es.take(k)).pending
            != a by {
            lemma_finished_stays(w, es.take(k));
        }
    }
}

/// Past the point where the source may be removed.
pub open spec fn late(v: RunView) -> bool {
    ||| removes_source(v.pending) && v.asset.status == AssetStatus::Processing
    ||| v.pending == Action::Finish && (v.asset.status == AssetStatus::Completed
        || v.asset.status == AssetStatus::PostProcessingFailed)
}

proof fn lemma_late_stays(v: RunView, es: Seq<Event>)
    requires
        late(v),
    ensures
        late(after(v, es)),
    decreases es.len(),
{
    if es.len() > 0 {
        lemma_late_stays(v, es.drop_last());
    }
}

/// The source is only asked to be removed when deletion is enabled, the
/// compressed copy passed verification and the creation date was written;
/// and a run that asked for it never ends failed or skipped.
pub proof fn lemma_deletion_gated(
    a: AssetView,
    delete: bool,
    time_zone: Seq<char>,
    es: Seq<Event>,
    k: int,
)
    requires
        0 <= k <= es.len(),
        removes_source(after(begin_spec(a, delete, time_zone), es.take(k)).pending),
    ensures
        ({
            let b = begin_spec(a, delete, time_zone);
            let s = after(b, es.take(k));
            let f = after(b, es);
            &&& delete
            &&& s.asset.status == AssetStatus::Processing
            &&& verdict(s.asset, s.compressed) is None
            &&& s.asset.creation_time is Some
            &&& f.asset.status != AssetStatus::Failed
            &&& f.asset.status != AssetStatus::Skipped
        }),
{
    let b = begin_spec(a, delete, time_zone);
    let s = after(b, es.take(k));
    lemma_begin_inv(a, delete, time_zone);
    lemma_after_inv(b, es.take(k));
    lemma_delete_kept(b, es.take(k));
    lemma_late_stays(s, es.skip(k));
    assert(es.take(k) + es.skip(k) =~= es);
    lemma_after_append(b, es.take(k), es.skip(k));
}

/// Before the encoder has been asked for.
pub open spec fn early(v: RunView) -> bool {
    ||| v.pending == Action::CheckTarget && v.asset.status == AssetStatus::Processing
    ||| v.pending == Action::Finish && v.asset.status == AssetStatus::Skipped
}

proof fn lemma_completion_needs_encode(v: RunView, es: Seq<Event>)
    requires
        early(v),
    ensures
        early(after(v, es)) || requested(v, es, Action::Encode),
    decreases es.len(),
{
    if es.len() > 0 {
        let prev = es.drop_last();
        lemma_completion_needs_encode(v, prev);
        assert(es.take(es.len() as int) =~= es);
        if requested(v, prev, Action::Encode) {
            let k = choose|k: int|
                0 <= k <= prev.len() && #[trigger] after(v, prev.take(k)).pending
                    == Action::Encode;
            assert(prev.take(k) =~= es.take(k));
        } else {
            let p = after(v, prev);
            assert(prev.take(prev.len() as int) =~= prev);
            if p.pending == Action::Encode {
                assert(prev =~= es.take(prev.len() as int));
            }
        }
    } else {
        assert(es.take(0) =~= es);
    }
}

/// Running the pipeline twice on the same source with deletion disabled:
/// a first run that completed encoded into the counterpart path, never
/// rolled it back and left the source in place; the second run names the
/// same path, and finding it there, skips the asset without ever asking for
/// the encoder.
pub proof fn lemma_second_run_skips(
    a: AssetView,
    time_zone: Seq<char>,
    first: Seq<Event>,
    second: Seq<Event>,
)
    requires
        a.status == AssetStatus::Pending,
        has_extension(a.path),
        after(begin_spec(a, false, time_zone), first).asset.status == AssetStatus::Completed,
    ensures
        ({
            let b = begin_spec(a, false, time_zone);
            let again = step_spec(b, Event::TargetChecked { exists: true });
            &&& b.compressed.path == compressed_name(a.path)
            &&& requested(b, first, Action::Encode)
            &&& !requested(b, first, Action::RemoveCompressed)
            &&& !requested(b, first, Action::TrashSource)
            &&& !requested(b, first, Action::RemoveSource)
            &&& b.pending == Action::CheckTarget
            &&& again.asset.status == AssetStatus::Skipped
            &&& after(again, second) == again
            &&& !requested(again, second, Action::Encode)
        }),
{
    let b = begin_spec(a, false, time_zone);
    let again = step_spec(b, Event::TargetChecked { exists: true });
    lemma_completion_needs_encode(b, first);
    assert(first.take(first.len() as int) =~= first);
    lemma_begin_inv(a, false, time_zone);
    assert forall|k: int| 0 <= k <= first.len() implies #[trigger] after(b, first.take(k)).pending
        != Action::RemoveCompressed by {
        let s = after(b, first.take(k));
        lemma_after_inv(b, first.take(k));
        if s.pending == Action::RemoveCompressed {
            lemma_failed_stays(s, first.skip(k));
            assert(first.take(k) + first.skip(k) =~= first);
            lemma_after_append(b, first.take(k), first.skip(k));
        }
    }
    assert forall|k: int| 0 <= k <= first.len() implies !removes_source(
        #[trigger] after(b, first.take(k)).pending,
    ) by {
        lemma_after_inv(b, first.take(k));
        lemma_delete_kept(b, first.take(k));
    }
    assert(!requested(b, first, Action::TrashSource)) by {
        assert forall|k: int| 0 <= k <= first.len() implies #[trigger] after(
            b,
            first.take(k),
        ).pending != Action::TrashSource by {
            assert(!removes_source(after(b, first.take(k)).pending));
        }
    }
    assert(!requested(b, first, Action::RemoveSource)) by {
        assert forall|k: int| 0 <= k <= first.len() implies #[trigger] after(
            b,
            first.take(k),
        ).pending != Action::RemoveSource by {
            assert(!removes_source(after(b, first.take(k)).pending));
        }
    }
    lemma_finished_stays(again, second);
    assert forall|k: int| 0 <= k <= second.len() implies #[trigger] after(
        again,
        second.take(k),
    ).pending != Action::Encode by {
        lemma_finished_stays(again, second.take(k));
    }
}

} // verus!
