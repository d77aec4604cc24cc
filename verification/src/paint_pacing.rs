//! Requesting the frames of a wall, holding them back, and letting them go.
use crate::frame_queue::{since, FrameReason};
use crate::idmap::copy_ids;
use crate::pacing::{
    schedule_wall_frame_pacing_wake, wake_after, CoalescedView, CoalescedWallFrameRequest,
    RequestView, WallFramePacingBlockReason, WallFrameRequest,
};
use crate::paint::{held_views, Paint, PaintView};
use crate::painter::{extends_by_frame, tells, PainterView};
use crate::painter_images::ScriptFrame;
use crate::seqs::{lemma_last_has, lemma_push_distinct, lemma_take_has};
use crate::table::table_ids;
use crate::wall_frame::append_new;
use vstd::prelude::*;

verus! {

broadcast use vstd::std_specs::hash::group_hash_axioms;

/// A frame that was issued: its id, what each painter that takes part sends, and the reports of
/// instructions that it made moot.
#[derive(Debug)]
pub struct IssuedFrame {
    pub logical_frame_id: u64,
    pub frames: Vec<(u64, ScriptFrame)>,
    pub expired: Vec<(u64, u64, u64)>,
    /// The web views whose painters are compared: those of a wall, where several painters are
    /// asked.
    pub compared: Vec<u64>,
}

/// A request that was held.
#[derive(Clone, Copy, Debug, PartialEq, Eq, Structural)]
pub struct HeldFrame {
    pub webview_id: u64,
    pub reason: WallFramePacingBlockReason,
    pub pending_max: usize,
    /// How many requests of the web view are held in one by now.
    pub coalesced_for_webview: u64,
    pub total_coalesced: u64,
    /// The host wakes the engine after this long.
    pub wake_after: Option<u64>,
}

/// What became of a request.
#[derive(Debug)]
pub enum FrameOutcome {
    Held(HeldFrame),
    Issued(IssuedFrame),
}

/// A request that was held and is issued now.
#[derive(Debug)]
pub struct ReleasedFrame {
    pub webview_id: u64,
    pub issued: IssuedFrame,
    pub coalesced_count: u64,
    pub max_pending_seen: usize,
    pub total_released: u64,
}

/// The first of the ids for which the test holds.
pub open spec fn first_in(ids: Seq<u64>, test: spec_fn(u64) -> bool) -> Option<u64>
    decreases ids.len(),
{
    if ids.len() == 0 {
        None
    } else {
        match first_in(ids.drop_last(), test) {
            Some(id) => Some(id),
            None => if test(ids.last()) {
                Some(ids.last())
            } else {
                None
            },
        }
    }
}

/// The largest number of frames that is pending in any of the painters.
pub open spec fn max_pending(painters: Map<u64, PainterView>, ids: Seq<u64>) -> nat
    decreases ids.len(),
{
    if ids.len() == 0 {
        0
    } else {
        let rest = max_pending(painters, ids.drop_last());
        let id = ids.last();
        if painters.contains_key(id) && painters[id].frames.pending() > rest {
            painters[id].frames.pending()
        } else {
            rest
        }
    }
}

/// What a painter sends is what it held before, and the pipelines that it tells are those that
/// waited.
pub open spec fn sends(p: PainterView, f: ScriptFrame) -> bool {
    tells(f.acknowledged@, p.delayer.waiting) && extends_by_frame(
        Seq::empty(),
        f.transaction@,
        p.video,
        FrameReason::Scene,
    )
}

impl PaintView {
    /// The painters and web views that a frame of these source painters takes in.
    pub open spec fn request_for(self, sources: Seq<u64>) -> RequestView
        decreases sources.len(),
    {
        if sources.len() == 0 {
            RequestView { painters: Seq::empty(), webviews: Seq::empty() }
        } else {
            let r = self.request_for(sources.drop_last());
            let p = sources.last();
            RequestView {
                painters: append_new(r.painters, self.source_targets(p)),
                webviews: match self.source_webview(p) {
                    Some(w) => if self.source_targets(p).len() > 1 {
                        append_new(r.webviews, seq![w])
                    } else {
                        r.webviews
                    },
                    None => r.webviews,
                },
            }
        }
    }

    /// Why a request is held, if it is: for the first of the gates that holds it.
    pub open spec fn block_reason(self, request: RequestView, now: u64) -> Option<
        WallFramePacingBlockReason,
    > {
        if !self.config.is_enabled() || request.painters.len() <= 1 || request.key() is None {
            None
        } else {
            match first_in(request.webviews, |w: u64| self.coordinator.active.contains_key(w)) {
                Some(w) => Some(WallFramePacingBlockReason::Active(w)),
                None => if max_pending(self.painters, request.painters) >= self.config.max_pending {
                    Some(
                        WallFramePacingBlockReason::Pending(
                            max_pending(self.painters, request.painters) as usize,
                        ),
                    )
                } else {
                    match first_in(request.webviews, |w: u64| self.too_soon(w, now)) {
                        Some(w) => Some(
                            WallFramePacingBlockReason::TooSoon(w, since(now, self.last_issue[w])),
                        ),
                        None => None,
                    }
                },
            }
        }
    }

    /// The last frame of the web view was issued less than the interval ago.
    pub open spec fn too_soon(self, webview: u64, now: u64) -> bool {
        self.last_issue.contains_key(webview) && since(now, self.last_issue[webview])
            < self.config.min_interval_ns
    }

    /// The engine after a request was held: the newest request takes the place of an older one.
    pub open spec fn holding(
        self,
        request: RequestView,
        reason: WallFramePacingBlockReason,
        now: u64,
    ) -> PaintView {
        let key = request.key()->0;
        let pending = pending_of(self, request, reason);
        let (count, seen) = if self.held.contains_key(key) {
            (
                self.held[key].count.wrapping_add(1),
                if self.held[key].max_pending > pending {
                    self.held[key].max_pending
                } else {
                    pending
                },
            )
        } else {
            (1u64, pending)
        };
        PaintView {
            tally: self.tally.recorded(reason),
            next_wake: match reason {
                WallFramePacingBlockReason::TooSoon(_, elapsed) => wake_after(
                    self.next_wake,
                    now,
                    remaining(self.config.min_interval_ns, elapsed),
                ),
                _ => self.next_wake,
            },
            held_count: self.held_count.wrapping_add(1),
            held: self.held.insert(
                key,
                CoalescedView { request, count, max_pending: seen },
            ),
            ..self
        }
    }

    /// The painter takes part in the frame: it is there and requests a composite for it.
    pub open spec fn takes_part(self, painter: u64, frame: u64, now: u64) -> bool {
        self.painters.contains_key(painter) && self.painters[painter].script_frame(
            frame,
            now,
            now,
        ).1
    }

    /// The painters that take part in the frame.
    pub open spec fn participants(self, ids: Seq<u64>, frame: u64, now: u64) -> Seq<u64> {
        ids.filter(|p: u64| self.takes_part(p, frame, now))
    }

    /// The painters after script asked these for the frame.
    pub open spec fn scripted(self, ids: Seq<u64>, frame: u64, now: u64) -> Map<u64, PainterView> {
        Map::new(
            |p: u64| self.painters.contains_key(p),
            |p: u64|
                if ids.contains(p) {
                    self.painters[p].script_frame(frame, now, now).0
                } else {
                    self.painters[p]
                },
        )
    }

    /// The engine after a request was issued. The painters that take part are held together by a
    /// barrier where there are several.
    pub open spec fn issued(self, request: RequestView, now: u64) -> PaintView {
        let frame = self.last_frame.wrapping_add(1);
        let coordinator = self.coordinator.expired_before(frame, request.painters);
        let generated = self.participants(request.painters, frame, now);
        PaintView {
            last_frame: frame,
            painters: self.scripted(request.painters, frame, now),
            coordinator: if generated.len() > 1 {
                coordinator.registered(frame, request.webviews, generated, now)
            } else {
                coordinator
            },
            last_issue: if generated.len() > 1 {
                Map::new(
                    |w: u64| self.last_issue.contains_key(w) || request.webviews.contains(w),
                    |w: u64|
                        if request.webviews.contains(w) {
                            now
                        } else {
                            self.last_issue[w]
                        },
                )
            } else {
                self.last_issue
            },
            ..self
        }
    }

    /// The held request of a web view can be issued.
    pub open spec fn can_release(self, webview: u64, now: u64) -> bool {
        self.held.contains_key(webview) && self.block_reason(
            self.held[webview].request,
            now,
        ) is None
    }

    /// The engine after the held request of a web view was issued.
    pub open spec fn released_one(self, webview: u64, now: u64) -> PaintView {
        PaintView {
            held: self.held.remove(webview),
            released_count: self.released_count.wrapping_add(1),
            ..self
        }.issued(self.held[webview].request, now)
    }

    /// The engine after the held requests of these web views were issued, one after the other.
    pub open spec fn released_in(self, order: Seq<u64>, now: u64) -> PaintView
        decreases order.len(),
    {
        if order.len() == 0 {
            self
        } else {
            self.released_in(order.drop_last(), now).released_one(order.last(), now)
        }
    }

    /// Each of the web views has a request that can be issued when its turn comes.
    pub open spec fn releasable_in(self, order: Seq<u64>, now: u64) -> bool
        decreases order.len(),
    {
        order.len() == 0 || (self.releasable_in(order.drop_last(), now) && self.released_in(
            order.drop_last(),
            now,
        ).can_release(order.last(), now))
    }

    /// A wake whose time has come is no longer arranged.
    pub open spec fn woken(self, now: u64) -> PaintView {
        PaintView {
            next_wake: match self.next_wake {
                Some(at) => if now >= at {
                    None
                } else {
                    Some(at)
                },
                None => None,
            },
            ..self
        }
    }
}

/// What is left of an interval.
pub open spec fn remaining(interval: u64, elapsed: u64) -> u64 {
    if elapsed <= interval {
        (interval - elapsed) as u64
    } else {
        0
    }
}

/// The number of pending frames that a held request counts with.
pub open spec fn pending_of(
    v: PaintView,
    request: RequestView,
    reason: WallFramePacingBlockReason,
) -> usize {
    match reason {
        WallFramePacingBlockReason::Pending(n) => n,
        _ => max_pending(v.painters, request.painters) as usize,
    }
}

/// Adding one more id at the end of what is added.
proof fn lemma_append_one(a: Seq<u64>, b: Seq<u64>, v: u64)
    ensures
        append_new(a, b.push(v)) == (if append_new(a, b).contains(v) {
            append_new(a, b)
        } else {
            append_new(a, b).push(v)
        }),
{
    assert(b.push(v).drop_last() =~= b);
    assert(b.push(v).last() == v);
}

/// Who takes part depends on the painters alone.
proof fn lemma_participants(v: PaintView, w: PaintView, ids: Seq<u64>, frame: u64, now: u64)
    requires
        v.painters == w.painters,
    ensures
        v.participants(ids, frame, now) == w.participants(ids, frame, now),
{
    let a = |p: u64| v.takes_part(p, frame, now);
    let b = |p: u64| w.takes_part(p, frame, now);
    assert(a =~= b);
}

impl Paint {
    /// The painters and web views that a frame of these source painters takes in: each source
    /// painter stands for all painters of its web view, and a web view with several painters is
    /// paced.
    pub fn wall_frame_request_from_source_painters(&self, painter_ids: &[u64]) -> (r:
        WallFrameRequest)
        requires
            self.wf(),
        ensures
            r@ == self@.request_for(painter_ids@),
            r@.wf(),
    {
        let mut request = WallFrameRequest {
            target_painter_ids: Vec::new(),
            wall_webview_ids: Vec::new(),
        };
        let mut i: usize = 0;
        assert(painter_ids@.take(0) =~= Seq::<u64>::empty());
        assert(request@ =~= self@.request_for(painter_ids@.take(0)));
        while i < painter_ids.len()
            invariant
                i <= painter_ids@.len(),
                self.wf(),
                request@ == self@.request_for(painter_ids@.take(i as int)),
                request@.wf(),
            decreases painter_ids@.len() - i,
        {
            let painter_id: u64 = painter_ids[i];
            let ghost before = request@;
            proof {
                assert(painter_ids@.take(i + 1).drop_last() =~= painter_ids@.take(i as int));
            }
            let targets = self.target_painter_ids_for_source_painter(painter_id);
            if targets.len() > 1 {
                if let Some(webview_id) = self.source_webview_id_for_primary_painter(painter_id) {
                    proof {
                        reveal_with_fuel(append_new, 2);
                        assert(seq![webview_id].drop_last() =~= Seq::<u64>::empty());
                        if !before.webviews.contains(webview_id) {
                            lemma_push_distinct(before.webviews, webview_id);
                        }
                    }
                    request.add_webview(webview_id);
                }
            }
            let ghost with_webviews = request@;
            let mut j: usize = 0;
            assert(targets@.take(0) =~= Seq::<u64>::empty());
            while j < targets.len()
                invariant
                    j <= targets@.len(),
                    request@.webviews == with_webviews.webviews,
                    request@.webviews.no_duplicates(),
                    request@.painters == append_new(before.painters, targets@.take(j as int)),
                    request@.painters.no_duplicates(),
                decreases targets@.len() - j,
            {
                proof {
                    assert(targets@.take(j + 1) =~= targets@.take(j as int).push(
                        targets@[j as int],
                    ));
                    lemma_append_one(
                        before.painters,
                        targets@.take(j as int),
                        targets@[j as int],
                    );
                    if !request@.painters.contains(targets@[j as int]) {
                        lemma_push_distinct(request@.painters, targets@[j as int]);
                    }
                }
                request.add_painter(targets[j]);
                j = j + 1;
            }
            assert(targets@.take(j as int) =~= targets@);
            i = i + 1;
            proof {
                assert(request@ =~= self@.request_for(painter_ids@.take(i as int)));
            }
        }
        assert(painter_ids@.take(i as int) =~= painter_ids@);
        request
    }

    /// The largest number of frames that is pending in any of the painters.
    pub fn max_pending_frames_for_targets(&self, painter_ids: &[u64]) -> (n: usize)
        requires
            self.wf(),
        ensures
            n == max_pending(self@.painters, painter_ids@),
    {
        let mut most: usize = 0;
        let mut i: usize = 0;
        assert(painter_ids@.take(0) =~= Seq::<u64>::empty());
        while i < painter_ids.len()
            invariant
                i <= painter_ids@.len(),
                self.wf(),
                most == max_pending(self@.painters, painter_ids@.take(i as int)),
            decreases painter_ids@.len() - i,
        {
            proof {
                assert(painter_ids@.take(i + 1).drop_last() =~= painter_ids@.take(i as int));
            }
            if let Some(painter) = self.maybe_painter(painter_ids[i]) {
                let pending: usize = painter.pending_frames();
                if pending > most {
                    most = pending;
                }
            }
            i = i + 1;
        }
        assert(painter_ids@.take(i as int) =~= painter_ids@);
        most
    }

    /// The first web view of the list that waits for a frame.
    fn first_active(&self, webview_ids: &[u64]) -> (r: Option<u64>)
        requires
            self.wf(),
        ensures
            r == first_in(webview_ids@, |w: u64| self@.coordinator.active.contains_key(w)),
    {
        let ghost test = |w: u64| self@.coordinator.active.contains_key(w);
        let mut found: Option<u64> = None;
        let mut i: usize = 0;
        assert(webview_ids@.take(0) =~= Seq::<u64>::empty());
        while i < webview_ids.len()
            invariant
                i <= webview_ids@.len(),
                self.wf(),
                test == (|w: u64| self@.coordinator.active.contains_key(w)),
                found == first_in(webview_ids@.take(i as int), test),
            decreases webview_ids@.len() - i,
        {
            proof {
                assert(webview_ids@.take(i + 1).drop_last() =~= webview_ids@.take(i as int));
            }
            if found.is_none() && self.wall_frame_coordinator.webview_has_active_frame(
                webview_ids[i],
            ) {
                found = Some(webview_ids[i]);
            }
            i = i + 1;
        }
        assert(webview_ids@.take(i as int) =~= webview_ids@);
        found
    }

    /// The first web view of the list whose last frame was issued less than the interval ago, with
    /// the time since then.
    fn first_too_soon(&self, webview_ids: &[u64], now: u64) -> (r: Option<(u64, u64)>)
        requires
            self.wf(),
        ensures
            match r {
                Some((w, elapsed)) => first_in(webview_ids@, |w: u64| self@.too_soon(w, now))
                    == Some(w) && elapsed == since(now, self@.last_issue[w]),
                None => first_in(webview_ids@, |w: u64| self@.too_soon(w, now)) is None,
            },
    {
        let ghost test = |w: u64| self@.too_soon(w, now);
        let mut found: Option<(u64, u64)> = None;
        let mut i: usize = 0;
        assert(webview_ids@.take(0) =~= Seq::<u64>::empty());
        while i < webview_ids.len()
            invariant
                i <= webview_ids@.len(),
                self.wf(),
                test == (|w: u64| self@.too_soon(w, now)),
                match found {
                    Some((w, elapsed)) => first_in(webview_ids@.take(i as int), test) == Some(w)
                        && elapsed == since(now, self@.last_issue[w]),
                    None => first_in(webview_ids@.take(i as int), test) is None,
                },
            decreases webview_ids@.len() - i,
        {
            proof {
                assert(webview_ids@.take(i + 1).drop_last() =~= webview_ids@.take(i as int));
            }
            if found.is_none() {
                if let Some(last) = self.last_wall_frame_issue_at.get(&webview_ids[i]) {
                    let elapsed: u64 = now.saturating_sub(*last);
                    if elapsed < self.wall_frame_pacing_config.min_interval_ns {
                        found = Some((webview_ids[i], elapsed));
                    }
                }
            }
            i = i + 1;
        }
        assert(webview_ids@.take(i as int) =~= webview_ids@);
        found
    }

    /// Why a request is held, if it is.
    pub fn wall_frame_request_pacing_block_reason(
        &self,
        request: &WallFrameRequest,
        now: u64,
    ) -> (r: Option<WallFramePacingBlockReason>)
        requires
            self.wf(),
        ensures
            r == self@.block_reason(request@, now),
    {
        if !self.wall_frame_pacing_config.enabled() || request.target_painter_ids.len() <= 1
            || request.pacing_key().is_none() {
            return None;
        }
        if let Some(webview_id) = self.first_active(&request.wall_webview_ids) {
            return Some(WallFramePacingBlockReason::Active(webview_id));
        }
        let pending_max: usize = self.max_pending_frames_for_targets(&request.target_painter_ids);
        if pending_max >= self.wall_frame_pacing_config.max_pending {
            return Some(WallFramePacingBlockReason::Pending(pending_max));
        }
        match self.first_too_soon(&request.wall_webview_ids, now) {
            Some((webview_id, elapsed)) => Some(
                WallFramePacingBlockReason::TooSoon(webview_id, elapsed),
            ),
            None => None,
        }
    }

    /// Holds a request under its web view: it takes the place of an older one that is held.
    pub fn coalesce_wall_frame_request(
        &mut self,
        request: WallFrameRequest,
        webview_id: u64,
        block_reason: WallFramePacingBlockReason,
        now: u64,
    ) -> (r: HeldFrame)
        requires
            old(self).wf(),
            request@.wf(),
            request@.key() == Some(webview_id),
        ensures
            final(self).wf(),
            final(self)@ == old(self)@.holding(request@, block_reason, now),
            r == held_by(old(self)@, request@, block_reason, now),
    {
        self.wall_frame_pacing_block_tally.record(&block_reason);
        let pending_max: usize = match block_reason {
            WallFramePacingBlockReason::Pending(n) => n,
            _ => self.max_pending_frames_for_targets(&request.target_painter_ids),
        };
        let mut wake_after: Option<u64> = None;
        if let WallFramePacingBlockReason::TooSoon(_, elapsed) = block_reason {
            let delay: u64 = self.wall_frame_pacing_config.min_interval_ns.saturating_sub(elapsed);
            if schedule_wall_frame_pacing_wake(
                &mut self.wall_frame_pacing_next_wake_at,
                now,
                delay,
            ) {
                wake_after = Some(delay);
            }
        }
        self.wall_frame_pacing_coalesced_count = self.wall_frame_pacing_coalesced_count.wrapping_add(
            1,
        );
        let (count, seen): (u64, usize) = match self.coalesced_wall_frame_requests.get(&webview_id) {
            Some(held) => (
                held.coalesced_count.wrapping_add(1),
                if held.max_pending_seen > pending_max {
                    held.max_pending_seen
                } else {
                    pending_max
                },
            ),
            None => (1, pending_max),
        };
        let ghost before = self.coalesced_wall_frame_requests@;
        let held = CoalescedWallFrameRequest {
            request,
            coalesced_count: count,
            max_pending_seen: seen,
        };
        proof {
            assert(held_views(before.insert(webview_id, held)) =~= held_views(before).insert(
                webview_id,
                held@,
            ));
        }
        self.coalesced_wall_frame_requests.insert(webview_id, held);
        proof {
            assert(self@ =~= old(self)@.holding(request@, block_reason, now));
        }
        HeldFrame {
            webview_id,
            reason: block_reason,
            pending_max,
            coalesced_for_webview: count,
            total_coalesced: self.wall_frame_pacing_coalesced_count,
            wake_after,
        }
    }

    /// Asks the painters for a frame, in order. What those that take part send is handed back.
    fn ask_painters(&mut self, painter_ids: &[u64], logical_frame_id: u64, now: u64) -> (frames:
        Vec<(u64, ScriptFrame)>)
        requires
            old(self).wf(),
            painter_ids@.no_duplicates(),
        ensures
            final(self).wf(),
            final(self).coalesced_wall_frame_requests == old(self).coalesced_wall_frame_requests,
            final(self)@ == (PaintView {
                painters: old(self)@.scripted(painter_ids@, logical_frame_id, now),
                ..old(self)@
            }),
            frames@.map_values(|f: (u64, ScriptFrame)| f.0) == old(self)@.participants(
                painter_ids@,
                logical_frame_id,
                now,
            ),
            forall|i: int|
                0 <= i < frames@.len() ==> sends(
                    old(self)@.painters[(#[trigger] frames@[i]).0],
                    frames@[i].1,
                ),
    {
        let mut frames: Vec<(u64, ScriptFrame)> = Vec::new();
        let ghost v0 = self@;
        let ghost test = |p: u64| v0.takes_part(p, logical_frame_id, now);
        let ghost ids = |f: (u64, ScriptFrame)| f.0;
        let mut i: usize = 0;
        proof {
            reveal(Seq::filter);
            assert(painter_ids@.take(0) =~= Seq::<u64>::empty());
            assert(frames@.map_values(ids) =~= Seq::<u64>::empty());
            assert(self@.painters =~= v0.scripted(painter_ids@.take(0), logical_frame_id, now));
        }
        while i < painter_ids.len()
            invariant
                i <= painter_ids@.len(),
                painter_ids@.no_duplicates(),
                self.wf(),
                v0 == old(self)@,
                self.coalesced_wall_frame_requests == old(self).coalesced_wall_frame_requests,
                test == (|p: u64| v0.takes_part(p, logical_frame_id, now)),
                ids == (|f: (u64, ScriptFrame)| f.0),
                self@ == (PaintView {
                    painters: v0.scripted(painter_ids@.take(i as int), logical_frame_id, now),
                    ..v0
                }),
                frames@.map_values(ids) == painter_ids@.take(i as int).filter(test),
                forall|k: int|
                    0 <= k < frames@.len() ==> sends(
                        v0.painters[(#[trigger] frames@[k]).0],
                        frames@[k].1,
                    ),
            decreases painter_ids@.len() - i,
        {
            let painter_id: u64 = painter_ids[i];
            let ghost before = self@;
            let ghost sofar = frames@;
            proof {
                reveal(Seq::filter);
                assert(painter_ids@.take(i + 1).drop_last() =~= painter_ids@.take(i as int));
                lemma_take_has(painter_ids@, i as int);
                assert(!painter_ids@.take(i as int).contains(painter_id));
            }
            match self.maybe_painter_mut(painter_id) {
                Some(painter) => {
                    let ghost p0 = painter@;
                    match painter.generate_frame_for_script(logical_frame_id, now, now) {
                        Some(frame) => {
                            frames.push((painter_id, frame));
                            proof {
                                assert(frames@.map_values(ids) =~= sofar.map_values(ids).push(
                                    painter_id,
                                ));
                            }
                        },
                        None => {},
                    }
                    proof {
                        assert(p0 == v0.painters[painter_id]);
                    }
                },
                None => {},
            }
            i = i + 1;
            proof {
                assert(self@.painters =~= v0.scripted(
                    painter_ids@.take(i as int),
                    logical_frame_id,
                    now,
                ));
            }
        }
        proof {
            assert(painter_ids@.take(i as int) =~= painter_ids@);
            assert(frames@.map_values(|f: (u64, ScriptFrame)| f.0) =~= frames@.map_values(ids));
        }
        frames
    }

    /// Notes that frames of these web views were issued now.
    fn note_issue(&mut self, webview_ids: &[u64], now: u64)
        requires
            old(self).wf(),
        ensures
            final(self).wf(),
            final(self).coalesced_wall_frame_requests == old(self).coalesced_wall_frame_requests,
            final(self)@ == (PaintView {
                last_issue: Map::new(
                    |w: u64| old(self)@.last_issue.contains_key(w) || webview_ids@.contains(w),
                    |w: u64|
                        if webview_ids@.contains(w) {
                            now
                        } else {
                            old(self)@.last_issue[w]
                        },
                ),
                ..old(self)@
            }),
    {
        let ghost v0 = self@;
        let mut i: usize = 0;
        while i < webview_ids.len()
            invariant
                i <= webview_ids@.len(),
                self.wf(),
                self.coalesced_wall_frame_requests == old(self).coalesced_wall_frame_requests,
                v0 == old(self)@,
                self@ == (PaintView { last_issue: self@.last_issue, ..v0 }),
                self@.last_issue =~= Map::new(
                    |w: u64|
                        v0.last_issue.contains_key(w) || webview_ids@.take(i as int).contains(w),
                    |w: u64|
                        if webview_ids@.take(i as int).contains(w) {
                            now
                        } else {
                            v0.last_issue[w]
                        },
                ),
            decreases webview_ids@.len() - i,
        {
            proof {
                lemma_take_has(webview_ids@, i as int);
            }
            let _ = self.last_wall_frame_issue_at.insert(webview_ids[i], now);
            i = i + 1;
        }
        assert(webview_ids@.take(i as int) =~= webview_ids@);
    }

    /// Issues a frame. An instruction to keep a previous frame that is older than this one ends,
    /// for all painters that are asked, whether they take part or not: a painter that is skipped
    /// could never take part. Then the painters are asked; where several take part, they are held
    /// together by a barrier.
    pub fn issue_wall_frame_request(&mut self, request: &WallFrameRequest, now: u64) -> (r:
        IssuedFrame)
        requires
            old(self).wf(),
            request@.wf(),
        ensures
            final(self).wf(),
            final(self).coalesced_wall_frame_requests == old(self).coalesced_wall_frame_requests,
            final(self)@ == old(self)@.issued(request@, now),
            issued_by(old(self)@, request@, now, r),
    {
        let logical_frame_id: u64 = self.next_logical_frame_id.wrapping_add(1);
        self.next_logical_frame_id = logical_frame_id;
        let expired = self.wall_frame_coordinator.expire_keep_previous_before(
            logical_frame_id,
            &request.target_painter_ids,
        );
        let ghost v1 = self@;
        let frames = self.ask_painters(&request.target_painter_ids, logical_frame_id, now);
        proof {
            let v0 = old(self)@;
            assert(v1.painters == v0.painters);
            lemma_participants(v1, v0, request@.painters, logical_frame_id, now);
            assert(v1.scripted(request@.painters, logical_frame_id, now) =~= v0.scripted(
                request@.painters,
                logical_frame_id,
                now,
            ));
        }
        if frames.len() > 1 {
            let mut generated: Vec<u64> = Vec::new();
            let mut i: usize = 0;
            while i < frames.len()
                invariant
                    i <= frames@.len(),
                    generated@ == frames@.map_values(|f: (u64, ScriptFrame)| f.0).take(i as int),
                decreases frames@.len() - i,
            {
                generated.push(frames[i].0);
                i = i + 1;
                assert(generated@ =~= frames@.map_values(|f: (u64, ScriptFrame)| f.0).take(
                    i as int,
                ));
            }
            assert(generated@ =~= frames@.map_values(|f: (u64, ScriptFrame)| f.0));
            self.note_issue(&request.wall_webview_ids, now);
            let webviews = copy_ids(&request.wall_webview_ids);
            self.wall_frame_coordinator.register_frame(logical_frame_id, webviews, generated, now);
        }
        proof {
            assert(self@ =~= old(self)@.issued(request@, now));
        }
        let compared: Vec<u64> = if request.target_painter_ids.len() > 1 {
            copy_ids(&request.wall_webview_ids)
        } else {
            Vec::new()
        };
        IssuedFrame { logical_frame_id, frames, expired, compared }
    }

    /// Script asks for a frame of these source painters: it is issued, or held where an older one
    /// is under way or was issued too recently.
    pub fn generate_frame(&mut self, painter_ids: &[u64], now: u64) -> (r: FrameOutcome)
        requires
            old(self).wf(),
        ensures
            final(self).wf(),
            ({
                let v = old(self)@;
                let request = v.request_for(painter_ids@);
                match v.block_reason(request, now) {
                    Some(reason) => final(self)@ == v.holding(request, reason, now) && r is Held
                        && r->Held_0 == held_by(v, request, reason, now),
                    None => final(self)@ == v.issued(request, now) && r is Issued && issued_by(
                        v,
                        request,
                        now,
                        r->Issued_0,
                    ),
                }
            }),
    {
        let request = self.wall_frame_request_from_source_painters(painter_ids);
        match self.wall_frame_request_pacing_block_reason(&request, now) {
            Some(reason) => match request.pacing_key() {
                Some(webview_id) => FrameOutcome::Held(
                    self.coalesce_wall_frame_request(request, webview_id, reason, now),
                ),
                None => FrameOutcome::Issued(self.issue_wall_frame_request(&request, now)),
            },
            None => FrameOutcome::Issued(self.issue_wall_frame_request(&request, now)),
        }
    }

    /// A web view whose held request can be issued.
    fn find_releasable(&self, now: u64) -> (r: Option<u64>)
        requires
            self.wf(),
        ensures
            match r {
                Some(w) => self@.can_release(w, now),
                None => forall|w: u64| !#[trigger] self@.can_release(w, now),
            },
    {
        let ids = table_ids(&self.coalesced_wall_frame_requests);
        let mut i: usize = 0;
        while i < ids.len()
            invariant
                self.wf(),
                i <= ids@.len(),
                forall|k: int| 0 <= k < i ==> !self@.can_release(#[trigger] ids@[k], now),
            decreases ids@.len() - i,
        {
            if let Some(held) = self.coalesced_wall_frame_requests.get(&ids[i]) {
                if self.wall_frame_request_pacing_block_reason(&held.request, now).is_none() {
                    return Some(ids[i]);
                }
            }
            i = i + 1;
        }
        proof {
            assert forall|w: u64| !#[trigger] self@.can_release(w, now) by {
                if self@.held.contains_key(w) {
                    assert(ids@.to_set().contains(w));
                    let k = choose|k: int| 0 <= k < ids@.len() && ids@[k] == w;
                    assert(!self@.can_release(ids@[k], now));
                }
            }
        }
        None
    }

    /// Issues every held request that can be issued, until none is left that can. Which of several
    /// goes first is left open; what is handed back says in which order they went.
    pub fn try_release_coalesced_wall_frame_requests(&mut self, now: u64) -> (out: Vec<
        ReleasedFrame,
    >)
        requires
            old(self).wf(),
        ensures
            final(self).wf(),
            ({
                let order = out@.map_values(|f: ReleasedFrame| f.webview_id);
                &&& old(self)@.woken(now).releasable_in(order, now)
                &&& final(self)@ == old(self)@.woken(now).released_in(order, now)
                &&& forall|k: int|
                    0 <= k < out@.len() ==> released_by(
                        old(self)@.woken(now).released_in(order.take(k), now),
                        now,
                        #[trigger] out@[k],
                    )
            }),
            forall|w: u64| !#[trigger] final(self)@.can_release(w, now),
    {
        if let Some(at) = self.wall_frame_pacing_next_wake_at {
            if now >= at {
                self.wall_frame_pacing_next_wake_at = None;
            }
        }
        let ghost v0 = self@;
        let ghost ids = |f: ReleasedFrame| f.webview_id;
        let mut out: Vec<ReleasedFrame> = Vec::new();
        proof {
            assert(v0 =~= old(self)@.woken(now));
            assert(out@.map_values(ids) =~= Seq::<u64>::empty());
        }
        let mut next: Option<u64> = self.find_releasable(now);
        while next.is_some()
            invariant
                self.wf(),
                ids == (|f: ReleasedFrame| f.webview_id),
                v0.releasable_in(out@.map_values(ids), now),
                self@ == v0.released_in(out@.map_values(ids), now),
                forall|k: int|
                    0 <= k < out@.len() ==> released_by(
                        v0.released_in(out@.map_values(ids).take(k), now),
                        now,
                        #[trigger] out@[k],
                    ),
                match next {
                    Some(w) => self@.can_release(w, now),
                    None => forall|w: u64| !#[trigger] self@.can_release(w, now),
                },
            decreases self.coalesced_wall_frame_requests@.len() + (if next is Some {
                1int
            } else {
                0
            }),
        {
            let ghost v = self@;
            let ghost table = self.coalesced_wall_frame_requests@;
            let ghost sofar = out@;
            match next {
                None => {},
                Some(webview_id) => {
                    match self.coalesced_wall_frame_requests.remove(&webview_id) {
                        None => {},
                        Some(held) => {
                            proof {
                                assert(held_views(table.remove(webview_id)) =~= held_views(
                                    table,
                                ).remove(webview_id));
                                assert(held@.request.wf());
                            }
                            let total_released: u64 =
                                self.wall_frame_pacing_released_count.wrapping_add(1);
                            self.wall_frame_pacing_released_count = total_released;
                            let ghost asked = self@;
                            let issued = self.issue_wall_frame_request(&held.request, now);
                            let released = ReleasedFrame {
                                webview_id,
                                issued,
                                coalesced_count: held.coalesced_count,
                                max_pending_seen: held.max_pending_seen,
                                total_released,
                            };
                            out.push(released);
                            proof {
                                assert(self@ =~= v.released_one(webview_id, now));
                                assert(out@.map_values(ids).drop_last() =~= sofar.map_values(ids));
                                assert(out@.map_values(ids).last() == webview_id);
                                lemma_participants(
                                    v,
                                    asked,
                                    held@.request.painters,
                                    v.last_frame.wrapping_add(1),
                                    now,
                                );
                                assert(released_by(v, now, released));
                                assert forall|k: int| 0 <= k < out@.len() implies released_by(
                                    v0.released_in(out@.map_values(ids).take(k), now),
                                    now,
                                    #[trigger] out@[k],
                                ) by {
                                    if k < sofar.len() {
                                        assert(out@[k] == sofar[k]);
                                        assert(out@.map_values(ids).take(k)
                                            =~= sofar.map_values(ids).take(k));
                                    } else {
                                        assert(out@.map_values(ids).take(k)
                                            =~= sofar.map_values(ids));
                                    }
                                }
                            }
                        },
                    }
                },
            }
            next = self.find_releasable(now);
        }
        proof {
            assert(out@.map_values(|f: ReleasedFrame| f.webview_id) =~= out@.map_values(ids));
        }
        out
    }
}

/// What an issued frame says of itself: its id, what each painter that takes part sends, in the
/// order in which they were asked, and the reports.
pub open spec fn issued_by(v: PaintView, request: RequestView, now: u64, r: IssuedFrame) -> bool {
    let frame = v.last_frame.wrapping_add(1);
    &&& r.logical_frame_id == frame
    &&& r.frames@.map_values(|f: (u64, ScriptFrame)| f.0) == v.participants(
        request.painters,
        frame,
        now,
    )
    &&& forall|i: int|
        0 <= i < r.frames@.len() ==> sends(
            v.painters[(#[trigger] r.frames@[i]).0],
            r.frames@[i].1,
        )
    &&& r.expired@ == v.coordinator.expiry_reports(frame, request.painters)
    &&& r.compared@ == (if request.painters.len() > 1 {
        request.webviews
    } else {
        Seq::empty()
    })
}

/// What a held request says of itself.
pub open spec fn held_by(
    v: PaintView,
    request: RequestView,
    reason: WallFramePacingBlockReason,
    now: u64,
) -> HeldFrame {
    let after = v.holding(request, reason, now);
    HeldFrame {
        webview_id: request.key()->0,
        reason,
        pending_max: pending_of(v, request, reason),
        coalesced_for_webview: after.held[request.key()->0].count,
        total_coalesced: after.held_count,
        wake_after: match reason {
            WallFramePacingBlockReason::TooSoon(_, elapsed) => if after.next_wake != v.next_wake {
                Some(remaining(v.config.min_interval_ns, elapsed))
            } else {
                None
            },
            _ => None,
        },
    }
}

/// What a held request that is issued says of itself.
pub open spec fn released_by(v: PaintView, now: u64, f: ReleasedFrame) -> bool {
    let held = v.held[f.webview_id];
    &&& issued_by(v, held.request, now, f.issued)
    &&& f.coalesced_count == held.count
    &&& f.max_pending_seen == held.max_pending
    &&& f.total_released == v.released_count.wrapping_add(1)
}

/// Of the requests that are held for a web view the latest wins.
pub proof fn law_latest_request_wins(
    v: PaintView,
    first: RequestView,
    second: RequestView,
    a: WallFramePacingBlockReason,
    b: WallFramePacingBlockReason,
    now: u64,
    later: u64,
)
    requires
        first.key() is Some,
        first.key() == second.key(),
    ensures
        v.holding(first, a, now).holding(second, b, later).held[second.key()->0].request == second,
{
}

/// A frame of a single painter is never held, nor is any where pacing is off.
pub proof fn law_single_painter_is_never_held(v: PaintView, request: RequestView, now: u64)
    requires
        request.painters.len() <= 1 || !v.config.is_enabled(),
    ensures
        v.block_reason(request, now) is None,
{
}

proof fn lemma_first_in(ids: Seq<u64>, test: spec_fn(u64) -> bool, w: u64)
    requires
        ids.contains(w),
        test(w),
    ensures
        first_in(ids, test) is Some,
    decreases ids.len(),
{
    let rest = ids.drop_last();
    lemma_last_has(ids);
    if rest.contains(w) {
        lemma_first_in(rest, test, w);
    }
}

/// A wall has one frame under way: once several painters take part in a frame, a further request
/// for one of its web views is held until the frame is decided.
pub proof fn law_one_wall_frame_at_a_time(
    v: PaintView,
    request: RequestView,
    now: u64,
    next: RequestView,
    later: u64,
    w: u64,
)
    requires
        v.config.is_enabled(),
        v.participants(request.painters, v.last_frame.wrapping_add(1), now).len() > 1,
        request.webviews.contains(w),
        next.webviews.contains(w),
        next.painters.len() > 1,
    ensures
        v.issued(request, now).coordinator.active.contains_key(w),
        v.issued(request, now).block_reason(next, later) is Some,
{
    let after = v.issued(request, now);
    assert(after.coordinator.active.contains_key(w));
    lemma_first_in(next.webviews, |x: u64| after.coordinator.active.contains_key(x), w);
}

/// Frames of a web view that several painters take part in are issued at least the interval apart.
pub proof fn law_wall_frames_keep_their_interval(
    v: PaintView,
    request: RequestView,
    now: u64,
    next: RequestView,
    later: u64,
    w: u64,
)
    requires
        v.config.is_enabled(),
        v.participants(request.painters, v.last_frame.wrapping_add(1), now).len() > 1,
        request.webviews.contains(w),
        next.webviews.contains(w),
        next.painters.len() > 1,
        now <= later < now + v.config.min_interval_ns,
    ensures
        v.issued(request, now).too_soon(w, later),
        v.issued(request, now).block_reason(next, later) is Some,
{
    let after = v.issued(request, now);
    lemma_first_in(next.webviews, |x: u64| after.too_soon(x, later), w);
}

} // verus!
