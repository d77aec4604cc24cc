//! What is done to a web view on all of its painters.
use crate::frame_queue::FrameReason;
use crate::paint::{held_views, Paint, PaintView};
use crate::paint_metrics::PipelineMetrics;
use crate::painter::{extends_by_frame, PainterView, TransactionOp};
use crate::painter_webviews::{pipeline_or_fresh, UnknownWebView};
use crate::seqs::{kept, lemma_concat_has, lemma_kept_all, lemma_kept_twice, lemma_take_has};
use vstd::prelude::*;

verus! {

broadcast use vstd::std_specs::hash::group_hash_axioms;

/// What the removal of a web view comes to on one painter: the transaction where the painter knew
/// it, and whether the painter goes too.
#[derive(Debug)]
pub struct RemovedFrom {
    pub painter_id: u64,
    pub transaction: Option<Vec<TransactionOp>>,
    pub painter_removed: bool,
}

/// A painter without the web view.
pub open spec fn stripped(p: PainterView, webview: u64, now: u64) -> PainterView {
    if p.webviews.contains_key(webview) {
        p.without_webview(webview).scene_requested(now)
    } else {
        p
    }
}

/// How many of these painters have to repaint the web view.
pub open spec fn repaints_of(painters: Map<u64, PainterView>, ids: Seq<u64>, webview: u64) -> nat
    decreases ids.len(),
{
    if ids.len() == 0 {
        0
    } else {
        let p = painters[ids.last()];
        repaints_of(painters, ids.drop_last(), webview) + if p.wants_repaint()
            && p.webviews.contains_key(webview) {
            1nat
        } else {
            0
        }
    }
}

/// Two lists in a row hold an id as often as both together; a list without repetition holds it at
/// most once.
proof fn lemma_counts(a: Seq<u64>, b: Seq<u64>, w: u64)
    requires
        b.no_duplicates(),
    ensures
        (a + b).to_multiset().count(w) == a.to_multiset().count(w) + if b.contains(w) {
            1nat
        } else {
            0
        },
{
    vstd::seq_lib::lemma_multiset_commutative(a, b);
    b.lemma_multiset_has_no_duplicates();
    b.to_multiset_ensures();
    if b.contains(w) {
        assert(b.to_multiset().contains(w));
    }
}

/// The painters after the web view was taken from these: one that is left without web views goes.
pub open spec fn stripped_painters(
    painters: Map<u64, PainterView>,
    targets: Seq<u64>,
    webview: u64,
    now: u64,
) -> Map<u64, PainterView> {
    Map::new(
        |p: u64|
            painters.contains_key(p) && !(targets.contains(p) && stripped(
                painters[p],
                webview,
                now,
            ).webviews.is_empty()),
        |p: u64|
            if targets.contains(p) {
                stripped(painters[p], webview, now)
            } else {
                painters[p]
            },
    )
}

/// How far hiding or showing a web view has come: the painters, those among them that it changed,
/// whether one was there, and whether one did not know the web view. After that, nothing more is
/// done.
#[verifier::ext_equal]
pub struct HidingView {
    pub painters: Map<u64, PainterView>,
    pub changed: Seq<u64>,
    pub seen: bool,
    pub failed: bool,
}

pub open spec fn hiding(
    painters: Map<u64, PainterView>,
    targets: Seq<u64>,
    webview: u64,
    hidden: bool,
    now: u64,
) -> HidingView
    decreases targets.len(),
{
    if targets.len() == 0 {
        HidingView { painters, changed: Seq::empty(), seen: false, failed: false }
    } else {
        let h = hiding(painters, targets.drop_last(), webview, hidden, now);
        let p = targets.last();
        if !h.painters.contains_key(p) {
            h
        } else if h.failed {
            HidingView { seen: true, ..h }
        } else if !h.painters[p].webviews.contains_key(webview) {
            HidingView { seen: true, failed: true, ..h }
        } else if h.painters[p].webviews[webview].hidden == hidden {
            HidingView { seen: true, ..h }
        } else {
            HidingView {
                painters: h.painters.insert(
                    p,
                    h.painters[p].hidden_set(webview, hidden).scene_requested(now),
                ),
                changed: h.changed.push(p),
                seen: true,
                ..h
            }
        }
    }
}

impl PaintView {
    /// The engine without the web view.
    pub open spec fn without_webview(self, webview: u64, now: u64) -> PaintView {
        let painters = stripped_painters(self.painters, self.targets_of(webview), webview, now);
        PaintView {
            held: self.held.remove(webview),
            last_issue: self.last_issue.remove(webview),
            coordinator: self.coordinator.without_webview(webview),
            targets: self.targets.remove(webview),
            painters,
            order: kept(self.order, painters.dom()),
            ..self
        }
    }

    /// The engine after a pipeline of a web view waits for canvas images, on each of its painters.
    pub open spec fn delayed(
        self,
        webview: u64,
        pipeline: u64,
        epoch: u64,
        keys: Seq<u64>,
    ) -> PaintView {
        PaintView {
            painters: Map::new(
                |p: u64| self.painters.contains_key(p),
                |p: u64|
                    if self.targets_of(webview).contains(p) {
                        PainterView {
                            delayer: self.painters[p].delayer.delayed(pipeline, epoch, keys),
                            ..self.painters[p]
                        }
                    } else {
                        self.painters[p]
                    },
            ),
            ..self
        }
    }

    /// A painter after the epoch of a pipeline moved on.
    pub open spec fn epoch_moved(
        self,
        painter: u64,
        webview: u64,
        pipeline: u64,
        epoch: u32,
    ) -> PainterView {
        let p = self.painters[painter];
        if p.webviews.contains_key(webview) {
            p.metrics_set(
                webview,
                pipeline,
                (PipelineMetrics {
                    display_list_epoch: Some(epoch),
                    ..pipeline_or_fresh(p.webviews[webview], pipeline)
                }),
            )
        } else {
            p
        }
    }

    /// The engine after the epoch of a pipeline moved on, on each painter of its web view.
    pub open spec fn epoch_updated(self, webview: u64, pipeline: u64, epoch: u32) -> PaintView {
        PaintView {
            painters: Map::new(
                |p: u64| self.painters.contains_key(p),
                |p: u64|
                    if self.targets_of(webview).contains(p) {
                        self.epoch_moved(p, webview, pipeline, epoch)
                    } else {
                        self.painters[p]
                    },
            ),
            ..self
        }
    }
}

impl Paint {
    /// Removes a web view: the request that is held for it, the barriers that it is part of, and
    /// the web view on each of its painters. A painter that is left without web views goes too.
    pub fn remove_webview(&mut self, webview_id: u64, now: u64) -> (out: Vec<RemovedFrom>)
        requires
            old(self).wf(),
        ensures
            final(self).wf(),
            final(self)@ == old(self)@.without_webview(webview_id, now),
            forall|i: int|
                0 <= i < out@.len() ==> ({
                    let f = #[trigger] out@[i];
                    let p = old(self)@.painters[f.painter_id];
                    &&& old(self)@.painters.contains_key(f.painter_id)
                    &&& f.transaction is Some == p.webviews.contains_key(webview_id)
                    &&& f.painter_removed == stripped(p, webview_id, now).webviews.is_empty()
                    &&& f.transaction matches Some(t) ==> extends_by_frame(
                        seq![TransactionOp::RootDisplayList],
                        t@,
                        p.video,
                        FrameReason::Scene,
                    )
                }),
            out@.map_values(|f: RemovedFrom| f.painter_id) == old(self)@.targets_of(
                webview_id,
            ).filter(|p: u64| old(self)@.painters.contains_key(p)),
    {
        let ghost held = self.coalesced_wall_frame_requests@;
        let _ = self.coalesced_wall_frame_requests.remove(&webview_id);
        proof {
            assert(held_views(held.remove(webview_id)) =~= held_views(held).remove(webview_id));
        }
        let _ = self.last_wall_frame_issue_at.remove(&webview_id);
        self.wall_frame_coordinator.remove_webview(webview_id);
        let painter_ids = self.remove_webview_painter_targets(webview_id);
        let ghost v0 = old(self)@;
        let ghost v1 = self@;
        let ghost known = |p: u64| v0.painters.contains_key(p);
        let ghost ids = |f: RemovedFrom| f.painter_id;
        let mut out: Vec<RemovedFrom> = Vec::new();
        let mut i: usize = 0;
        proof {
            reveal(Seq::filter);
            assert(painter_ids@.take(0) =~= Seq::<u64>::empty());
            assert(out@.map_values(ids) =~= Seq::<u64>::empty());
            assert(v1.painters =~= stripped_painters(
                v0.painters,
                painter_ids@.take(0),
                webview_id,
                now,
            ));
            self.lemma_ordered();
            assert forall|k: int| 0 <= k < v0.order.len() implies v1.painters.dom().contains(
                #[trigger] v0.order[k],
            ) by {
                assert(v1.order.contains(v1.order[k]));
            }
            lemma_kept_all(v0.order, v1.painters.dom());
        }
        while i < painter_ids.len()
            invariant
                i <= painter_ids@.len(),
                painter_ids@.no_duplicates(),
                painter_ids@ == v0.targets_of(webview_id),
                self.wf(),
                known == (|p: u64| v0.painters.contains_key(p)),
                ids == (|f: RemovedFrom| f.painter_id),
                self@ == (PaintView {
                    painters: stripped_painters(
                        v0.painters,
                        painter_ids@.take(i as int),
                        webview_id,
                        now,
                    ),
                    order: kept(v0.order, self@.painters.dom()),
                    ..v1
                }),
                out@.map_values(ids) == painter_ids@.take(i as int).filter(known),
                forall|k: int|
                    0 <= k < out@.len() ==> ({
                        let f = #[trigger] out@[k];
                        let p = v0.painters[f.painter_id];
                        &&& v0.painters.contains_key(f.painter_id)
                        &&& f.transaction is Some == p.webviews.contains_key(webview_id)
                        &&& f.painter_removed == stripped(p, webview_id, now).webviews.is_empty()
                        &&& f.transaction matches Some(t) ==> extends_by_frame(
                            seq![TransactionOp::RootDisplayList],
                            t@,
                            p.video,
                            FrameReason::Scene,
                        )
                    }),
            decreases painter_ids@.len() - i,
        {
            let painter_id: u64 = painter_ids[i];
            let ghost before = self@;
            let ghost sofar = out@;
            proof {
                reveal(Seq::filter);
                assert(painter_ids@.take(i + 1).drop_last() =~= painter_ids@.take(i as int));
                lemma_take_has(painter_ids@, i as int);
                assert(!painter_ids@.take(i as int).contains(painter_id));
                assert(before.painters.contains_key(painter_id) == v0.painters.contains_key(
                    painter_id,
                ));
            }
            let mut found: bool = false;
            let mut transaction: Option<Vec<TransactionOp>> = None;
            let mut empty: bool = false;
            match self.maybe_painter_mut(painter_id) {
                Some(painter) => {
                    found = true;
                    transaction = painter.remove_webview(webview_id, now);
                    empty = painter.is_empty();
                },
                None => {},
            }
            if found {
                if empty {
                    self.remove_painter(painter_id);
                }
                out.push(RemovedFrom { painter_id, transaction, painter_removed: empty });
                proof {
                    assert(out@.map_values(ids) =~= sofar.map_values(ids).push(painter_id));
                }
            }
            i = i + 1;
            proof {
                assert(self@.painters =~= stripped_painters(
                    v0.painters,
                    painter_ids@.take(i as int),
                    webview_id,
                    now,
                ));
                if found && empty {
                    lemma_kept_twice(v0.order, before.painters.dom(), self@.painters.dom());
                }
                assert(found && !empty ==> self@.painters.dom() =~= before.painters.dom());
            }
        }
        proof {
            assert(painter_ids@.take(i as int) =~= painter_ids@);
            assert(out@.map_values(|f: RemovedFrom| f.painter_id) =~= out@.map_values(ids));
            assert(self@ =~= v0.without_webview(webview_id, now));
        }
        out
    }

    /// Hides or shows a web view on all of its painters, until one does not know it. The web view
    /// is unknown where one does not, or where none of its painters is there. Handed back are the
    /// transactions of the painters for which it changed anything.
    fn set_webview_hidden(&mut self, webview_id: u64, hidden: bool, now: u64) -> (r: (
        Vec<(u64, Vec<TransactionOp>)>,
        Result<(), UnknownWebView>,
    ))
        requires
            old(self).wf(),
        ensures
            final(self).wf(),
            ({
                let h = hiding(
                    old(self)@.painters,
                    old(self)@.targets_of(webview_id),
                    webview_id,
                    hidden,
                    now,
                );
                &&& final(self)@ == (PaintView { painters: h.painters, ..old(self)@ })
                &&& r.0@.map_values(|f: (u64, Vec<TransactionOp>)| f.0) == h.changed
                &&& r.1 == (if h.seen && !h.failed {
                    Ok::<(), UnknownWebView>(())
                } else {
                    Err(UnknownWebView(webview_id))
                })
            }),
            forall|i: int|
                0 <= i < r.0@.len() ==> old(self)@.painters.contains_key((#[trigger] r.0@[i]).0)
                    && extends_by_frame(
                    seq![TransactionOp::RootDisplayList],
                    r.0@[i].1@,
                    old(self)@.painters[r.0@[i].0].video,
                    FrameReason::Scene,
                ),
    {
        let painter_ids = self.painter_targets_for_webview(webview_id);
        let ghost v0 = self@;
        let ghost ids = |f: (u64, Vec<TransactionOp>)| f.0;
        let mut out: Vec<(u64, Vec<TransactionOp>)> = Vec::new();
        assert(out@.map_values(ids) =~= Seq::<u64>::empty());
        let mut seen: bool = false;
        let mut failed: bool = false;
        let mut i: usize = 0;
        assert(painter_ids@.take(0) =~= Seq::<u64>::empty());
        while i < painter_ids.len()
            invariant
                i <= painter_ids@.len(),
                painter_ids@.no_duplicates(),
                self.wf(),
                v0 == old(self)@,
                self@ == (PaintView { painters: self@.painters, ..v0 }),
                ids == (|f: (u64, Vec<TransactionOp>)| f.0),
                (HidingView {
                    painters: self@.painters,
                    changed: out@.map_values(ids),
                    seen,
                    failed,
                }) == hiding(
                    v0.painters,
                    painter_ids@.take(i as int),
                    webview_id,
                    hidden,
                    now,
                ),
                self@.painters.dom() == v0.painters.dom(),
                forall|k: int|
                    i <= k < painter_ids@.len() && v0.painters.contains_key(painter_ids@[k])
                        ==> self@.painters[#[trigger] painter_ids@[k]]
                        == v0.painters[painter_ids@[k]],
                forall|k: int|
                    0 <= k < out@.len() ==> v0.painters.contains_key((#[trigger] out@[k]).0)
                        && extends_by_frame(
                        seq![TransactionOp::RootDisplayList],
                        out@[k].1@,
                        v0.painters[out@[k].0].video,
                        FrameReason::Scene,
                    ),
            decreases painter_ids@.len() - i,
        {
            let painter_id: u64 = painter_ids[i];
            let ghost before = self@;
            proof {
                assert(painter_ids@.take(i + 1).drop_last() =~= painter_ids@.take(i as int));
            }
            match self.maybe_painter_mut(painter_id) {
                Some(painter) => {
                    seen = true;
                    if !failed {
                        match painter.set_webview_hidden(webview_id, hidden, now) {
                            Ok(Some(transaction)) => {
                                let ghost sofar = out@;
                                out.push((painter_id, transaction));
                                proof {
                                    assert(out@.map_values(ids) =~= sofar.map_values(ids).push(
                                        painter_id,
                                    ));
                                }
                            },
                            Ok(None) => {},
                            Err(_) => {
                                failed = true;
                            },
                        }
                    }
                },
                None => {},
            }
            i = i + 1;
            proof {
                let h = hiding(
                    v0.painters,
                    painter_ids@.take(i as int),
                    webview_id,
                    hidden,
                    now,
                );
                assert(self@.painters =~= h.painters);
                assert(self@.painters.dom() =~= v0.painters.dom());
            }
        }
        proof {
            assert(painter_ids@.take(i as int) =~= painter_ids@);
            assert(out@.map_values(|f: (u64, Vec<TransactionOp>)| f.0) =~= out@.map_values(ids));
        }
        if seen && !failed {
            (out, Ok(()))
        } else {
            (out, Err(UnknownWebView(webview_id)))
        }
    }

    /// Shows a web view.
    pub fn show_webview(&mut self, webview_id: u64, now: u64) -> (r: (
        Vec<(u64, Vec<TransactionOp>)>,
        Result<(), UnknownWebView>,
    ))
        requires
            old(self).wf(),
        ensures
            final(self).wf(),
            ({
                let h = hiding(
                    old(self)@.painters,
                    old(self)@.targets_of(webview_id),
                    webview_id,
                    false,
                    now,
                );
                &&& final(self)@ == (PaintView { painters: h.painters, ..old(self)@ })
                &&& r.0@.map_values(|f: (u64, Vec<TransactionOp>)| f.0) == h.changed
                &&& r.1 == (if h.seen && !h.failed {
                    Ok::<(), UnknownWebView>(())
                } else {
                    Err(UnknownWebView(webview_id))
                })
            }),
            forall|i: int|
                0 <= i < r.0@.len() ==> old(self)@.painters.contains_key((#[trigger] r.0@[i]).0)
                    && extends_by_frame(
                    seq![TransactionOp::RootDisplayList],
                    r.0@[i].1@,
                    old(self)@.painters[r.0@[i].0].video,
                    FrameReason::Scene,
                ),
    {
        self.set_webview_hidden(webview_id, false, now)
    }

    /// Hides a web view.
    pub fn hide_webview(&mut self, webview_id: u64, now: u64) -> (r: (
        Vec<(u64, Vec<TransactionOp>)>,
        Result<(), UnknownWebView>,
    ))
        requires
            old(self).wf(),
        ensures
            final(self).wf(),
            ({
                let h = hiding(
                    old(self)@.painters,
                    old(self)@.targets_of(webview_id),
                    webview_id,
                    true,
                    now,
                );
                &&& final(self)@ == (PaintView { painters: h.painters, ..old(self)@ })
                &&& r.0@.map_values(|f: (u64, Vec<TransactionOp>)| f.0) == h.changed
                &&& r.1 == (if h.seen && !h.failed {
                    Ok::<(), UnknownWebView>(())
                } else {
                    Err(UnknownWebView(webview_id))
                })
            }),
            forall|i: int|
                0 <= i < r.0@.len() ==> old(self)@.painters.contains_key((#[trigger] r.0@[i]).0)
                    && extends_by_frame(
                    seq![TransactionOp::RootDisplayList],
                    r.0@[i].1@,
                    old(self)@.painters[r.0@[i].0].video,
                    FrameReason::Scene,
                ),
    {
        self.set_webview_hidden(webview_id, true, now)
    }

    /// A pipeline of a web view waits for canvas images before its next frame, on each of its
    /// painters.
    pub fn delay_new_frames_for_canvas(
        &mut self,
        webview_id: u64,
        pipeline_id: u64,
        canvas_epoch: u64,
        image_keys: &[u64],
    )
        requires
            old(self).wf(),
        ensures
            final(self).wf(),
            final(self)@ == old(self)@.delayed(
                webview_id,
                pipeline_id,
                canvas_epoch,
                image_keys@,
            ),
    {
        let painter_ids = self.painter_targets_for_webview(webview_id);
        let ghost v0 = self@;
        let mut i: usize = 0;
        while i < painter_ids.len()
            invariant
                i <= painter_ids@.len(),
                painter_ids@.no_duplicates(),
                painter_ids@ == v0.targets_of(webview_id),
                self.wf(),
                v0 == old(self)@,
                self@ == (PaintView { painters: self@.painters, ..v0 }),
                self@.painters =~= Map::new(
                    |p: u64| v0.painters.contains_key(p),
                    |p: u64|
                        if painter_ids@.take(i as int).contains(p) {
                            PainterView {
                                delayer: v0.painters[p].delayer.delayed(
                                    pipeline_id,
                                    canvas_epoch,
                                    image_keys@,
                                ),
                                ..v0.painters[p]
                            }
                        } else {
                            v0.painters[p]
                        },
                ),
            decreases painter_ids@.len() - i,
        {
            let painter_id: u64 = painter_ids[i];
            proof {
                lemma_take_has(painter_ids@, i as int);
                assert(!painter_ids@.take(i as int).contains(painter_id));
            }
            match self.maybe_painter_mut(painter_id) {
                Some(painter) => {
                    painter.delay_new_frames_for_canvas(pipeline_id, canvas_epoch, image_keys);
                },
                None => {},
            }
            i = i + 1;
        }
        proof {
            assert(painter_ids@.take(i as int) =~= painter_ids@);
            assert(self@ =~= v0.delayed(webview_id, pipeline_id, canvas_epoch, image_keys@));
        }
    }

    /// The epoch of a pipeline's display list moves on, on each painter of its web view.
    pub fn update_epoch(&mut self, webview_id: u64, pipeline_id: u64, epoch: u32)
        requires
            old(self).wf(),
        ensures
            final(self).wf(),
            final(self)@ == old(self)@.epoch_updated(webview_id, pipeline_id, epoch),
    {
        let painter_ids = self.painter_targets_for_webview(webview_id);
        let ghost v0 = self@;
        let mut i: usize = 0;
        while i < painter_ids.len()
            invariant
                i <= painter_ids@.len(),
                painter_ids@.no_duplicates(),
                painter_ids@ == v0.targets_of(webview_id),
                self.wf(),
                v0 == old(self)@,
                self@ == (PaintView { painters: self@.painters, ..v0 }),
                self@.painters =~= Map::new(
                    |p: u64| v0.painters.contains_key(p),
                    |p: u64|
                        if painter_ids@.take(i as int).contains(p) {
                            v0.epoch_moved(p, webview_id, pipeline_id, epoch)
                        } else {
                            v0.painters[p]
                        },
                ),
            decreases painter_ids@.len() - i,
        {
            let painter_id: u64 = painter_ids[i];
            proof {
                lemma_take_has(painter_ids@, i as int);
                assert(!painter_ids@.take(i as int).contains(painter_id));
            }
            match self.maybe_painter_mut(painter_id) {
                Some(painter) => {
                    let _ = painter.update_epoch(webview_id, pipeline_id, epoch);
                },
                None => {},
            }
            i = i + 1;
        }
        proof {
            assert(painter_ids@.take(i as int) =~= painter_ids@);
            assert(self@ =~= v0.epoch_updated(webview_id, pipeline_id, epoch));
        }
    }

    /// The web views that have to be repainted, painter by painter: a web view stands there once
    /// for each painter that has to repaint it.
    pub fn webviews_needing_repaint(&self) -> (out: Vec<u64>)
        requires
            self.wf(),
        ensures
            forall|w: u64| #[trigger]
                out@.contains(w) <==> exists|p: u64| #[trigger]
                    self@.painters.contains_key(p) && self@.painters[p].wants_repaint()
                        && self@.painters[p].webviews.contains_key(w),
            forall|w: u64| #[trigger]
                out@.to_multiset().count(w) == repaints_of(self@.painters, self@.order, w),
    {
        let mut out: Vec<u64> = Vec::new();
        let mut i: usize = 0;
        proof {
            out@.to_multiset_ensures();
            assert(self@.order.take(0) =~= Seq::<u64>::empty());
        }
        while i < self.painters.entries.len()
            invariant
                self.wf(),
                i <= self.painters.entries@.len(),
                forall|w: u64| #[trigger]
                    out@.contains(w) <==> exists|k: int|
                        0 <= k < i && (#[trigger] self.painters.entries@[k]).1@.wants_repaint()
                            && self.painters.entries@[k].1@.webviews.contains_key(w),
                forall|w: u64| #[trigger]
                    out@.to_multiset().count(w) == repaints_of(
                        self@.painters,
                        self@.order.take(i as int),
                        w,
                    ),
            decreases self.painters.entries@.len() - i,
        {
            let more = self.painters.entries[i].1.webviews_needing_repaint();
            let ghost before = out@;
            let mut j: usize = 0;
            while j < more.len()
                invariant
                    j <= more@.len(),
                    out@ == before + more@.take(j as int),
                decreases more@.len() - j,
            {
                out.push(more[j]);
                j = j + 1;
                assert(out@ =~= before + more@.take(j as int));
            }
            proof {
                assert(more@.take(j as int) =~= more@);
                let p = self.painters.entries@[i as int].1@;
                lemma_concat_has(before, more@);
                assert forall|w: u64| #[trigger] out@.contains(w) <==> before.contains(w) || (
                p.wants_repaint() && p.webviews.contains_key(w)) by {
                    assert(more@.to_set().contains(w) <==> more@.contains(w));
                    assert(p.webviews.dom().contains(w) <==> p.webviews.contains_key(w));
                }
                let head = self@.order.take(i + 1);
                crate::idmap::lemma_entry(self.painters.entries@, i as int);
                assert(head.drop_last() =~= self@.order.take(i as int));
                assert(self@.painters[head.last()] == p);
                assert forall|w: u64| #[trigger]
                    out@.to_multiset().count(w) == repaints_of(self@.painters, head, w) by {
                    lemma_counts(before, more@, w);
                    assert(more@.to_set().contains(w) <==> more@.contains(w));
                    assert(p.webviews.dom().contains(w) <==> p.webviews.contains_key(w));
                }
            }
            i = i + 1;
        }
        proof {
            assert(self@.order.take(i as int) =~= self@.order);
            assert forall|w: u64| #[trigger] out@.contains(w) <==> exists|p: u64| #[trigger]
                self@.painters.contains_key(p) && self@.painters[p].wants_repaint()
                    && self@.painters[p].webviews.contains_key(w) by {
                if out@.contains(w) {
                    let k = choose|k: int|
                        0 <= k < i && (#[trigger] self.painters.entries@[k]).1@.wants_repaint()
                            && self.painters.entries@[k].1@.webviews.contains_key(w);
                    crate::idmap::lemma_entry(self.painters.entries@, k);
                    assert(self@.painters.contains_key(self.painters.entries@[k].0));
                }
                if exists|p: u64| #[trigger]
                    self@.painters.contains_key(p) && self@.painters[p].wants_repaint()
                        && self@.painters[p].webviews.contains_key(w) {
                    let p = choose|p: u64| #[trigger]
                        self@.painters.contains_key(p) && self@.painters[p].wants_repaint()
                            && self@.painters[p].webviews.contains_key(w);
                    let k = crate::idmap::lemma_find_entry(self.painters.entries@, p);
                    assert(self.painters.entries@[k].1@.wants_repaint());
                }
            }
        }
        out
    }
}

/// Nothing is left of a web view that is removed: it has no painters of record, no held request, no
/// frame that it waits for and no barrier.
pub proof fn law_removed_webview_leaves_nothing(v: PaintView, webview: u64, now: u64, frame: u64)
    ensures
        ({
            let after = v.without_webview(webview, now);
            &&& !after.targets.contains_key(webview)
            &&& !after.held.contains_key(webview)
            &&& !after.last_issue.contains_key(webview)
            &&& !after.coordinator.active.contains_key(webview)
            &&& after.coordinator.barriers.contains_key(frame)
                ==> !after.coordinator.barriers[frame].webview_ids.contains(webview)
        }),
{
}

/// A removed web view is on none of its painters any more, and no painter that it was on is left
/// without web views.
pub proof fn law_no_empty_painter_is_kept(v: PaintView, webview: u64, now: u64, p: u64)
    requires
        v.targets_of(webview).contains(p),
    ensures
        v.without_webview(webview, now).painters.contains_key(p) ==> !v.without_webview(
            webview,
            now,
        ).painters[p].webviews.contains_key(webview) && !v.without_webview(
            webview,
            now,
        ).painters[p].webviews.is_empty(),
{
}

} // verus!
