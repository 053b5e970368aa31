//! A batch of assets, processed strictly one after another. Whatever the
//! outcome of one asset's pipeline, the batch goes on with the next; every
//! asset ends up in the final report.
use vstd::prelude::*;

use crate::asset::{AssetView, VideoFile};
use crate::pipeline::{begin_spec, step_spec, Action, AppConfig, AssetRun, Event, RunView};
use crate::scanner::views_of;

verus! {

/// The mathematical content of a `Batch`.
pub struct BatchView {
    /// Runs that are over, in order.
    pub finished: Seq<RunView>,
    /// The run under way, if any.
    pub current: Option<RunView>,
    /// Assets not begun yet, in order.
    pub waiting: Seq<AssetView>,
    pub delete: bool,
    pub time_zone: Seq<char>,
}

/// Retires a finished run and begins the next assets until one waits on
/// the caller or none is left.
pub open spec fn settle(v: BatchView) -> BatchView
    decreases v.waiting.len(), (if v.current is Some {
        1int
    } else {
        0int
    }),
{
    match v.current {
        Some(r) => if r.pending != Action::Finish {
            v
        } else {
            settle(BatchView { finished: v.finished.push(r), current: None, ..v })
        },
        None => if v.waiting.len() == 0 {
            v
        } else {
            settle(
                BatchView {
                    current: Some(begin_spec(v.waiting[0], v.delete, v.time_zone)),
                    waiting: v.waiting.drop_first(),
                    ..v
                },
            )
        },
    }
}

/// What the batch asks the caller to do next.
pub open spec fn batch_action(v: BatchView) -> Action {
    match v.current {
        Some(r) => r.pending,
        None => Action::Finish,
    }
}

/// One step of the batch: the run under way takes the event.
pub open spec fn batch_step(v: BatchView, e: Event) -> BatchView {
    match v.current {
        Some(r) => settle(BatchView { current: Some(step_spec(r, e)), ..v }),
        None => settle(v),
    }
}

pub open spec fn assets_of_runs(runs: Seq<RunView>) -> Seq<AssetView> {
    runs.map_values(|r: RunView| r.asset)
}

/// Every asset of the batch, in order: finished, under way, waiting.
pub open spec fn all_assets(v: BatchView) -> Seq<AssetView> {
    assets_of_runs(v.finished) + match v.current {
        Some(r) => seq![r.asset],
        None => Seq::empty(),
    } + v.waiting
}

pub open spec fn paths_of(assets: Seq<AssetView>) -> Seq<Seq<char>> {
    assets.map_values(|a: AssetView| a.path)
}

/// Every retired run is over.
pub open spec fn all_finished(runs: Seq<RunView>) -> bool {
    forall|i: int| 0 <= i < runs.len() ==> (#[trigger] runs[i]).pending == Action::Finish
}

proof fn lemma_step_keeps_path(r: RunView, e: Event)
    ensures
        step_spec(r, e).asset.path == r.asset.path,
{
}

/// Moving on never loses, adds or reorders an asset; afterwards either a
/// run waits on the caller or every asset is done, and every retired run is
/// over.
pub proof fn lemma_settle(v: BatchView)
    requires
        all_finished(v.finished),
    ensures
        ({
            let s = settle(v);
            &&& paths_of(all_assets(s)) == paths_of(all_assets(v))
            &&& all_finished(s.finished)
            &&& s.current matches Some(r) ==> r.pending != Action::Finish
            &&& s.current is None ==> s.waiting.len() == 0
            &&& batch_action(s) == Action::Finish ==> s.current is None && s.waiting.len() == 0
        }),
    decreases v.waiting.len(), (if v.current is Some {
        1int
    } else {
        0int
    }),
{
    match v.current {
        Some(r) => {
            if r.pending == Action::Finish {
                let w = BatchView { finished: v.finished.push(r), current: None, ..v };
                assert(all_assets(w) =~= all_assets(v));
                assert(all_finished(w.finished)) by {
                    assert forall|i: int| 0 <= i < w.finished.len() implies (
                    #[trigger] w.finished[i]).pending == Action::Finish by {
                        if i < v.finished.len() {
                            assert(w.finished[i] == v.finished[i]);
                        }
                    }
                }
                lemma_settle(w);
            }
        },
        None => {
            if v.waiting.len() > 0 {
                let w = BatchView {
                    current: Some(begin_spec(v.waiting[0], v.delete, v.time_zone)),
                    waiting: v.waiting.drop_first(),
                    ..v
                };
                assert(paths_of(all_assets(w)) =~= paths_of(all_assets(v))) by {
                    assert(all_assets(v) =~= assets_of_runs(v.finished) + seq![v.waiting[0]]
                        + v.waiting.drop_first());
                }
                lemma_settle(w);
            }
        },
    }
}

/// A step of the batch never loses, adds or reorders an asset, and it stops
/// asking only once every asset's run is over.
pub proof fn lemma_batch_step(v: BatchView, e: Event)
    requires
        all_finished(v.finished),
    ensures
        ({
            let s = batch_step(v, e);
            &&& paths_of(all_assets(s)) == paths_of(all_assets(v))
            &&& all_finished(s.finished)
            &&& batch_action(s) == Action::Finish ==> s.current is None && s.waiting.len() == 0
        }),
{
    match v.current {
        Some(r) => {
            let w = BatchView { current: Some(step_spec(r, e)), ..v };
            lemma_step_keeps_path(r, e);
            assert(paths_of(all_assets(w)) =~= paths_of(all_assets(v)));
            lemma_settle(w);
        },
        None => {
            lemma_settle(v);
        },
    }
}

pub open spec fn runs_view(runs: Seq<AssetRun>) -> Seq<RunView> {
    runs.map_values(|r: AssetRun| r@)
}

/// Assets processed one after another with one configuration.
pub struct Batch {
    finished: Vec<AssetRun>,
    current: Option<AssetRun>,
    assets: Vec<VideoFile>,
    next: usize,
    config: AppConfig,
}

impl View for Batch {
    type V = BatchView;

    closed spec fn view(&self) -> BatchView {
        BatchView {
            finished: runs_view(self.finished@),
            current: match self.current {
                Some(r) => Some(r@),
                None => None,
            },
            waiting: if self.next <= self.assets.len() {
                views_of(self.assets@).subrange(self.next as int, self.assets.len() as int)
            } else {
                Seq::empty()
            },
            delete: self.config.delete_enabled(),
            time_zone: self.config.time_zone_view(),
        }
    }
}

/// Starts processing `assets` in order with `config`; returns the batch and
/// the first action it asks for.
pub fn process_assets(assets: Vec<VideoFile>, config: AppConfig) -> (r: (Batch, Action))
    ensures
        r.0@ == settle(
            BatchView {
                finished: Seq::empty(),
                current: None,
                waiting: views_of(assets@),
                delete: config.delete_enabled(),
                time_zone: config.time_zone_view(),
            },
        ),
        r.1 == batch_action(r.0@),
        paths_of(all_assets(r.0@)) == paths_of(views_of(assets@)),
        all_finished(r.0@.finished),
        r.1 == Action::Finish ==> r.0@.current is None && r.0@.waiting.len() == 0,
{
    let ghost start = BatchView {
        finished: Seq::empty(),
        current: None,
        waiting: views_of(assets@),
        delete: config.delete_enabled(),
        time_zone: config.time_zone_view(),
    };
    assert(all_assets(start) =~= views_of(assets@));
    proof {
        lemma_settle(start);
    }
    let mut batch = Batch { finished: Vec::new(), current: None, assets, next: 0, config };
    assert(runs_view(batch.finished@) =~= Seq::empty());
    assert(views_of(batch.assets@).subrange(0, batch.assets.len() as int) =~= views_of(
        batch.assets@,
    ));
    let a = batch.settle();
    (batch, a)
}

impl Batch {
    spec fn measure(&self) -> int {
        (if self.next <= self.assets.len() {
            self.assets.len() - self.next
        } else {
            0int
        }) * 2 + if self.current is Some {
            1int
        } else {
            0int
        }
    }

    fn settle(&mut self) -> (r: Action)
        ensures
            final(self)@ == settle(old(self)@),
            r == batch_action(final(self)@),
    {
        loop
            invariant
                settle(self@) == settle(old(self)@),
            decreases self.measure(),
        {
            let ghost before = self@;
            match self.current.take() {
                Some(run) => {
                    let a = run.pending();
                    if a != Action::Finish {
                        self.current = Some(run);
                        assert(self@ == before);
                        return a;
                    }
                    let ghost fin = self.finished@;
                    self.finished.push(run);
                    assert(runs_view(self.finished@) =~= runs_view(fin).push(run@));
                    assert(self@ == BatchView { finished: before.finished.push(run@), current: None, ..before });
                },
                None => {
                    if self.next >= self.assets.len() {
                        assert(before.waiting.len() == 0);
                        return Action::Finish;
                    }
                    let (run, _) = AssetRun::begin(self.assets[self.next].duplicate(), &self.config);
                    self.current = Some(run);
                    self.next = self.next + 1;
                    assert(views_of(self.assets@).subrange(self.next as int, self.assets.len() as int)
                        =~= before.waiting.drop_first());
                    assert(before.waiting[0] == self.assets@[self.next - 1]@);
                },
            }
        }
    }

    /// Hands `event` to the run under way, then moves on as far as it can.
    pub fn step(&mut self, event: Event) -> (r: Action)
        ensures
            final(self)@ == batch_step(old(self)@, event),
            r == batch_action(final(self)@),
            all_finished(old(self)@.finished) ==> all_finished(final(self)@.finished) && paths_of(
                all_assets(final(self)@),
            ) == paths_of(all_assets(old(self)@)) && (r == Action::Finish ==> final(self)@.current is None
                && final(self)@.waiting.len() == 0),
    {
        proof {
            if all_finished(old(self)@.finished) {
                lemma_batch_step(old(self)@, event);
            }
        }
        match self.current.take() {
            Some(run) => {
                let mut run = run;
                run.step(event);
                self.current = Some(run);
            },
            None => {},
        }
        self.settle()
    }

    /// The run under way.
    pub fn current(&self) -> (r: Option<&AssetRun>)
        ensures
            match r {
                Some(run) => self@.current == Some(run@),
                None => self@.current is None,
            },
    {
        match &self.current {
            Some(run) => Some(run),
            None => None,
        }
    }

    /// Records the probed duration of the source under way.
    pub fn record_duration(&mut self, seconds: Option<u64>)
        ensures
            final(self)@ == match old(self)@.current {
                Some(r) => BatchView {
                    current: Some(
                        RunView { asset: AssetView { duration: seconds, ..r.asset }, ..r },
                    ),
                    ..old(self)@
                },
                None => old(self)@,
            },
    {
        match self.current.take() {
            Some(run) => {
                let mut run = run;
                run.record_duration(seconds);
                self.current = Some(run);
            },
            None => {},
        }
    }

    /// The runs that are over, in order.
    pub fn finished(&self) -> (r: &Vec<AssetRun>)
        ensures
            runs_view(r@) == self@.finished,
    {
        &self.finished
    }

    /// Every asset of the batch, in order, as it stands.
    pub fn into_assets(self) -> (r: Vec<VideoFile>)
        ensures
            views_of(r@) == all_assets(self@),
    {
        let ghost v = self@;
        let Batch { finished, current, assets, next, config } = self;
        let mut r: Vec<VideoFile> = Vec::new();
        let mut finished = finished;
        let mut i: usize = 0;
        while i < finished.len()
            invariant
                i <= finished.len(),
                runs_view(finished@) == v.finished,
                views_of(r@) == assets_of_runs(v.finished.subrange(0, i as int)),
            decreases finished.len() - i,
        {
            let ghost prev = r@;
            r.push(finished[i].asset().duplicate());
            assert(views_of(r@) =~= views_of(prev).push(v.finished[i as int].asset));
            assert(assets_of_runs(v.finished.subrange(0, i + 1)) =~= assets_of_runs(
                v.finished.subrange(0, i as int),
            ).push(v.finished[i as int].asset));
            i = i + 1;
        }
        assert(v.finished.subrange(0, finished.len() as int) =~= v.finished);
        let ghost done = r@;
        match current {
            Some(run) => {
                r.push(run.into_asset());
            },
            None => {},
        }
        let ghost mid = r@;
        assert(views_of(mid) =~= assets_of_runs(v.finished) + match v.current {
            Some(x) => seq![x.asset],
            None => Seq::<AssetView>::empty(),
        });
        let start: usize = if next <= assets.len() {
            next
        } else {
            assets.len()
        };
        let mut j: usize = start;
        assert(views_of(assets@).subrange(start as int, start as int) =~= Seq::<AssetView>::empty());
        assert(views_of(r@) =~= views_of(mid) + Seq::<AssetView>::empty());
        while j < assets.len()
            invariant
                start <= j <= assets.len(),
                views_of(r@) == views_of(mid) + views_of(assets@).subrange(start as int, j as int),
            decreases assets.len() - j,
        {
            let ghost prev = r@;
            r.push(assets[j].duplicate());
            assert(views_of(r@) =~= views_of(prev).push(assets@[j as int]@));
            assert(views_of(assets@).subrange(start as int, j + 1) =~= views_of(assets@).subrange(
                start as int,
                j as int,
            ).push(assets@[j as int]@));
            j = j + 1;
        }
        assert(views_of(r@) =~= views_of(mid) + v.waiting);
        assert(views_of(r@) =~= all_assets(v));
        r
    }
}

} // verus!
