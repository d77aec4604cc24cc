//! How a painter takes in images and paces the composites that they ask for.
use crate::frame_queue::{since, FrameReason};
use crate::fx::{fx_get, fx_insert, fx_remove};
use crate::painter::{
    extends_by_frame, tells, AckFlushStats, AckLatch, ImageUpdate, Painter, PainterView,
    TransactionOp, ACK_REPORT_INTERVAL_NS, EXTERNAL_PRESENT_INTERVAL_NS,
};
use vstd::prelude::*;

verus! {

/// A frame that script asked for: the transaction that requests it, and the pipelines that are
/// told that their images are in.
#[derive(Debug)]
pub struct ScriptFrame {
    pub transaction: Vec<TransactionOp>,
    pub acknowledged: Vec<u64>,
}

/// Image updates that were taken in.
#[derive(Debug)]
pub struct ImageRun {
    pub transaction: Vec<TransactionOp>,
    /// A video frame was among them.
    pub video_arrived: bool,
    /// The pipelines that are told, where the images completed a frame that was held back.
    pub acknowledged: Option<Vec<u64>>,
}

/// What image updates come to.
#[derive(Debug)]
pub struct ImageOutcome {
    pub transaction: Vec<TransactionOp>,
    /// The transaction holds anything to send.
    pub send: bool,
    pub acknowledged: Option<Vec<u64>>,
    /// The external surfaces are presented without the renderer.
    pub present_external: bool,
}

/// An acknowledgement that was owed and is sent. Once a second the number of them is reported,
/// with the length of the window.
#[derive(Debug)]
pub struct OwedAck {
    pub transaction: Vec<TransactionOp>,
    pub acknowledged: Vec<u64>,
    pub report: Option<(u64, u64)>,
}

/// An acknowledgement that is held for too long, and what holds it.
#[derive(Clone, Copy, Debug, PartialEq, Eq, Structural)]
pub struct LatchReport {
    pub held_ns: u64,
    pub pending_frame: bool,
    /// How many canvas images are waited for.
    pub pending_images: usize,
    pub renderer_behind: bool,
    pub in_flight: bool,
}

impl PainterView {
    /// The painter after script asked for a frame, and whether the frame was requested.
    pub open spec fn script_frame(self, frame: u64, wall_at: u64, now: u64) -> (
        PainterView,
        bool,
    ) {
        let s = PainterView { delayer: self.delayer.with_pending_frame(true), ..self };
        s.paced_composite(Some(frame), Some(wall_at), now)
    }

    /// One more owed acknowledgement is counted; a window of a second ends with a report.
    pub open spec fn flush_counted(self, now: u64) -> (PainterView, Option<(u64, u64)>) {
        let count = self.flush.count.wrapping_add(1);
        let start = match self.flush.window_start {
            Some(t) => t,
            None => now,
        };
        let elapsed = since(now, start);
        if elapsed >= ACK_REPORT_INTERVAL_NS {
            (
                PainterView {
                    flush: AckFlushStats { count: 0, window_start: Some(now) },
                    ..self
                },
                Some((count, elapsed)),
            )
        } else {
            (
                PainterView { flush: AckFlushStats { count, window_start: Some(start) }, ..self },
                None,
            )
        }
    }

    /// Something is owed that nothing stands in the way of.
    pub open spec fn owes_ack(self, now: u64) -> bool {
        !self.delayer.waiting.is_empty() && self.delayer.needs_new_frame() && !self.gate.behind(
            now,
        )
    }

    pub open spec fn ack_flushed(self, recovery_disabled: bool, now: u64) -> PainterView {
        if recovery_disabled || self.delayer.waiting.is_empty() || !self.delayer.needs_new_frame() {
            self
        } else if self.gate.behind(now) {
            self.gate_asked(now)
        } else {
            self.gate_asked(now).composite_requested(None, None, now).acknowledged().flush_counted(
                now,
            ).0
        }
    }

    /// The painter after it looked for an acknowledgement that is held too long, and the report.
    pub open spec fn latch_checked(self, now: u64) -> (PainterView, Option<LatchReport>) {
        if self.delayer.waiting.is_empty() {
            (
                PainterView { latch: AckLatch { held_since: None, last_report: None }, ..self },
                None,
            )
        } else {
            match self.latch.held_since {
                None => (
                    PainterView {
                        latch: AckLatch { held_since: Some(now), ..self.latch },
                        ..self
                    },
                    None,
                ),
                Some(held) => {
                    let recent = match self.latch.last_report {
                        Some(last) => since(now, last) < ACK_REPORT_INTERVAL_NS,
                        None => false,
                    };
                    if since(now, held) < ACK_REPORT_INTERVAL_NS || recent {
                        (self, None)
                    } else {
                        let s = PainterView {
                            latch: AckLatch { last_report: Some(now), ..self.latch },
                            ..self
                        };
                        (
                            s.gate_asked(now),
                            Some(
                                LatchReport {
                                    held_ns: since(now, held),
                                    pending_frame: self.delayer.pending_frame,
                                    pending_images: self.delayer.pending.len() as usize,
                                    renderer_behind: self.gate.behind(now),
                                    in_flight: self.gate.asked(now).in_flight,
                                },
                            ),
                        )
                    }
                },
            }
        }
    }

    /// The painter after the external surfaces had their chance to be presented.
    pub open spec fn external_presented(self, fast_present: bool, now: u64) -> PainterView {
        if fast_present && self.external_due(now) {
            PainterView { last_external: Some(now), ..self }
        } else {
            self
        }
    }
}

impl Painter {
    /// Script asks for a frame. It is requested where no image is missing, no composite is under
    /// way and the fault test withholds nothing; else it stays asked for.
    pub fn generate_frame_for_script(
        &mut self,
        logical_frame_id: u64,
        wall_requested_at: u64,
        now: u64,
    ) -> (r: Option<ScriptFrame>)
        requires
            old(self).wf(),
        ensures
            final(self).wf(),
            (final(self)@, r is Some) == old(self)@.script_frame(
                logical_frame_id,
                wall_requested_at,
                now,
            ),
            r matches Some(f) ==> tells(f.acknowledged@, old(self)@.delayer.waiting)
                && extends_by_frame(
                Seq::empty(),
                f.transaction@,
                old(self)@.video,
                FrameReason::Scene,
            ),
    {
        self.frame_delayer.set_pending_frame(true);
        let mut transaction: Vec<TransactionOp> = Vec::new();
        match self.request_paced_composite(
            &mut transaction,
            Some(logical_frame_id),
            Some(wall_requested_at),
            now,
        ) {
            None => None,
            Some(acknowledged) => Some(ScriptFrame { transaction, acknowledged }),
        }
    }

    /// Takes one image update in: a step of the transaction, or a video frame that is held. The
    /// answer says whether it was a video frame.
    fn stage_image_update(
        &mut self,
        update: ImageUpdate,
        transaction: &mut Vec<TransactionOp>,
    ) -> (video: bool)
        requires
            old(self).wf(),
        ensures
            final(self).wf(),
            final(self)@ == old(self)@.stage_one(update).0,
            final(transaction)@ == old(transaction)@ + old(self)@.stage_one(update).1,
            video == old(self)@.stage_one(update).2,
    {
        let mut video: bool = false;
        match update {
            ImageUpdate::AddImage { key, data, raw, animated } => {
                if raw && animated {
                    let _ = fx_insert(&mut self.animation_image_cache, key, data);
                }
                transaction.push(TransactionOp::AddImage { key, data });
            },
            ImageUpdate::DeleteImage { key } => {
                transaction.push(TransactionOp::DeleteImage { key });
                self.frame_delayer.delete_image(key);
                let _ = fx_remove(&mut self.animation_image_cache, key);
                let _ = fx_remove(&mut self.pending_video_frame_updates, key);
            },
            ImageUpdate::UpdateImage { key, data, epoch } => match epoch {
                Some(epoch) => {
                    self.frame_delayer.update_image(key, epoch);
                    transaction.push(TransactionOp::UpdateImage { key, data });
                },
                None => {
                    video = true;
                    let _ = fx_insert(&mut self.pending_video_frame_updates, key, data);
                },
            },
            ImageUpdate::UpdateImageForAnimation { key, desc } => {
                if let Some(data) = fx_get(&self.animation_image_cache, key) {
                    transaction.push(TransactionOp::UpdateCachedImage { key, data: *data, desc });
                }
            },
        }
        proof {
            assert(self@ =~= old(self)@.stage_one(update).0);
        }
        video
    }

    /// Takes image updates in. Canvas images, new ones and deletions go into the transaction at
    /// once. Of each video only the newest frame is held until the next composite. Where a frame
    /// waited for these images, it is requested.
    pub fn begin_image_updates(&mut self, updates: &[ImageUpdate], now: u64) -> (r: ImageRun)
        requires
            old(self).wf(),
        ensures
            final(self).wf(),
            ({
                let (s, ops, video) = old(self)@.staged(updates@);
                &&& (final(self)@, r.acknowledged is Some) == s.paced_composite(None, None, now)
                &&& r.video_arrived == video
                &&& match r.acknowledged {
                    Some(told) => tells(told@, s.delayer.waiting) && extends_by_frame(
                        ops,
                        r.transaction@,
                        s.video,
                        FrameReason::Scene,
                    ),
                    None => r.transaction@ == ops,
                }
            }),
    {
        let mut transaction: Vec<TransactionOp> = Vec::new();
        let mut video_arrived: bool = false;
        let mut i: usize = 0;
        assert(updates@.take(0) =~= Seq::<ImageUpdate>::empty());
        while i < updates.len()
            invariant
                i <= updates@.len(),
                self.wf(),
                old(self)@.staged(updates@.take(i as int)) == (
                    self@,
                    transaction@,
                    video_arrived,
                ),
            decreases updates@.len() - i,
        {
            proof {
                assert(updates@.take(i + 1).drop_last() =~= updates@.take(i as int));
            }
            let video: bool = self.stage_image_update(updates[i], &mut transaction);
            video_arrived = video_arrived || video;
            i = i + 1;
        }
        assert(updates@.take(i as int) =~= updates@);
        let acknowledged = self.request_paced_composite(&mut transaction, None, None, now);
        ImageRun { transaction, video_arrived, acknowledged }
    }

    /// Whether the surfaces outside the renderer are presented without it: a video frame arrived,
    /// no frame was requested for it, no animation callback drives composites already, and the
    /// host finds that nothing else changed.
    pub fn should_fast_present(&self, run: &ImageRun, only_external_changed: bool) -> (b: bool)
        ensures
            b == (run.video_arrived && run.acknowledged is None && !self@.callbacks_running()
                && only_external_changed),
    {
        run.video_arrived && run.acknowledged.is_none() && only_external_changed
            && !self.animation_callbacks_running()
    }

    /// Settles what the image updates ask for. `fast_present` says that only surfaces outside the
    /// renderer changed: they are presented without it, at their own pace. Else a video frame that
    /// arrived asks for a composite, no more often than the period, and is owed it until it can
    /// be requested: while nothing is pending, no composite is under way and no animation
    /// callback drives composites already.
    pub fn finish_image_updates(
        &mut self,
        run: ImageRun,
        fast_present: bool,
        immediate_composite_enabled: bool,
        period: u64,
        now: u64,
    ) -> (r: ImageOutcome)
        requires
            old(self).wf(),
        ensures
            final(self).wf(),
            ({
                let s = old(self)@.external_presented(fast_present, now);
                let (after, composite) = s.video_composite(
                    run.video_arrived,
                    fast_present || run.acknowledged is Some,
                    immediate_composite_enabled,
                    period,
                    now,
                );
                &&& final(self)@ == after
                &&& r.present_external == (fast_present && old(self)@.external_due(now))
                &&& r.acknowledged == run.acknowledged
                &&& r.send == (r.transaction@.len() > 0)
                &&& if composite {
                    extends_by_frame(
                        run.transaction@,
                        r.transaction@,
                        old(self)@.video,
                        FrameReason::Scene,
                    )
                } else {
                    r.transaction@ == run.transaction@
                }
            }),
    {
        let mut transaction = run.transaction;
        let mut present_external: bool = false;
        if fast_present {
            let due: bool = match self.last_external_present {
                Some(last) => now.saturating_sub(last) >= EXTERNAL_PRESENT_INTERVAL_NS,
                None => true,
            };
            if due {
                present_external = true;
                self.last_external_present = Some(now);
            }
        }
        let generated: bool = run.acknowledged.is_some();
        if run.video_arrived && immediate_composite_enabled {
            let due: bool = match self.last_video_driven_frame_at {
                Some(last) => now.saturating_sub(last) >= period,
                None => true,
            };
            if due {
                self.video_composite_owed = true;
            }
        }
        if self.video_composite_owed && !fast_present && !generated && self.frames.pending_frames
            == 0 && !self.animation_callbacks_running() && !self.gate.renderer_behind(now) {
            self.generate_frame(&mut transaction, FrameReason::Scene, None, None, now);
            self.gate.set(true, now);
            self.video_composite_owed = false;
            self.last_video_driven_frame_at = Some(now);
        }
        let send: bool = transaction.len() > 0;
        ImageOutcome { transaction, send, acknowledged: run.acknowledged, present_external }
    }

    /// Sends an acknowledgement that is owed and that nothing stands in the way of any more. On a
    /// page whose only images come from the script that waits for it, no other event would.
    pub fn flush_owed_canvas_ack(&mut self, recovery_disabled: bool, now: u64) -> (r: Option<
        OwedAck,
    >)
        requires
            old(self).wf(),
        ensures
            final(self).wf(),
            final(self)@ == old(self)@.ack_flushed(recovery_disabled, now),
            r is Some <==> !recovery_disabled && old(self)@.owes_ack(now),
            r matches Some(a) ==> tells(a.acknowledged@, old(self)@.delayer.waiting)
                && extends_by_frame(
                Seq::empty(),
                a.transaction@,
                old(self)@.video,
                FrameReason::Scene,
            ) && a.report == old(self)@.flush_counted(now).1,
    {
        if recovery_disabled {
            return None;
        }
        if !self.frame_delayer.is_holding_ack() {
            return None;
        }
        if !self.frame_delayer.needs_new_frame() || self.gate.renderer_behind(now) {
            return None;
        }
        let mut transaction: Vec<TransactionOp> = Vec::new();
        self.frame_delayer.set_pending_frame(false);
        self.generate_frame(&mut transaction, FrameReason::Scene, None, None, now);
        self.gate.set(true, now);
        let acknowledged = self.frame_delayer.take_waiting_pipelines();
        let count: u64 = self.ack_flush.count.wrapping_add(1);
        let start: u64 = match self.ack_flush.window_start {
            Some(t) => t,
            None => now,
        };
        let elapsed: u64 = now.saturating_sub(start);
        let report: Option<(u64, u64)>;
        if elapsed >= ACK_REPORT_INTERVAL_NS {
            report = Some((count, elapsed));
            self.ack_flush = AckFlushStats { count: 0, window_start: Some(now) };
        } else {
            report = None;
            self.ack_flush = AckFlushStats { count, window_start: Some(start) };
        }
        proof {
            assert(self@ =~= old(self)@.ack_flushed(recovery_disabled, now));
        }
        Some(OwedAck { transaction, acknowledged, report })
    }

    /// Looks for an acknowledgement that has been held for a second and says, at most once a
    /// second, what holds it. Nothing is said while all is well.
    pub fn check_canvas_ack_latch(&mut self, now: u64) -> (r: Option<LatchReport>)
        requires
            old(self).wf(),
        ensures
            final(self).wf(),
            (final(self)@, r) == old(self)@.latch_checked(now),
            r matches Some(report) ==> report.pending_images == old(self)@.delayer.pending.len(),
    {
        if !self.frame_delayer.is_holding_ack() {
            self.ack_latch = AckLatch { held_since: None, last_report: None };
            return None;
        }
        let held_since: u64 = match self.ack_latch.held_since {
            Some(t) => t,
            None => {
                self.ack_latch.held_since = Some(now);
                return None;
            },
        };
        let held_ns: u64 = now.saturating_sub(held_since);
        if held_ns < ACK_REPORT_INTERVAL_NS {
            return None;
        }
        if let Some(last) = self.ack_latch.last_report {
            if now.saturating_sub(last) < ACK_REPORT_INTERVAL_NS {
                return None;
            }
        }
        self.ack_latch.last_report = Some(now);
        let renderer_behind: bool = self.gate.renderer_behind(now);
        Some(
            LatchReport {
                held_ns,
                pending_frame: self.frame_delayer.pending_frame,
                pending_images: self.frame_delayer.pending_canvas_image_count(),
                renderer_behind,
                in_flight: self.gate.in_flight,
            },
        )
    }

    /// A pipeline waits for canvas images before its next frame.
    pub fn delay_new_frames_for_canvas(
        &mut self,
        pipeline_id: u64,
        canvas_epoch: u64,
        image_keys: &[u64],
    )
        requires
            old(self).wf(),
        ensures
            final(self).wf(),
            final(self)@ == (PainterView {
                delayer: old(self)@.delayer.delayed(pipeline_id, canvas_epoch, image_keys@),
                ..old(self)@
            }),
    {
        self.frame_delayer.add_delay(pipeline_id, canvas_epoch, image_keys);
    }
}

/// At most one composite is under way: after a script frame or a video frame requested one, no
/// other is requested before its render pass or the time-out.
pub proof fn law_one_composite_at_a_time(
    p: PainterView,
    frame: u64,
    wall_at: u64,
    now: u64,
    next: u64,
    later: u64,
)
    requires
        p.script_frame(frame, wall_at, now).1,
        later < now + crate::composite_latch::DISPLAY_COMPOSITE_IN_FLIGHT_TIMEOUT_NS,
    ensures
        ({
            let after = p.script_frame(frame, wall_at, now).0;
            &&& after.gate.behind(later)
            &&& !after.script_frame(next, later, later).1
            &&& !after.paced_composite(None, None, later).1
            &&& !after.video_composite(true, false, true, 0, later).1
        }),
{
}

/// A frame that script asked for is not lost where it could not be requested: it stays asked for,
/// with the pipelines that wait for it.
pub proof fn law_deferred_script_frame_stays_owed(p: PainterView, frame: u64, wall_at: u64, now: u64)
    requires
        !p.script_frame(frame, wall_at, now).1,
    ensures
        p.script_frame(frame, wall_at, now).0.delayer.pending_frame,
        p.script_frame(frame, wall_at, now).0.delayer.waiting == p.delayer.waiting,
        p.script_frame(frame, wall_at, now).0.video == p.video,
{
}

/// An acknowledgement that could be sent is sent by the next render pass at the latest, where the
/// recovery is on: nobody waits for it after that.
pub proof fn law_owed_ack_is_paid_at_the_next_render(p: PainterView, now: u64)
    requires
        !p.delayer.waiting.is_empty(),
        p.delayer.needs_new_frame(),
        !p.gate.behind(now),
    ensures
        p.ack_flushed(false, now).delayer.waiting.is_empty(),
        p.ack_flushed(false, now).frames.pending() == p.frames.pending() + 1,
        p.ack_flushed(false, now).latch_checked(now).1 is None,
{
}

/// A withheld acknowledgement, as the fault test makes one, is paid by the recovery at the next
/// render pass.
pub proof fn law_recovery_undoes_a_withheld_ack(p: PainterView, frame: u64, wall_at: u64, now: u64)
    requires
        p.withholds(),
        p.delayer.pending.is_empty(),
        !p.gate.behind(now),
    ensures
        ({
            let after = p.script_frame(frame, wall_at, now);
            &&& !after.1
            &&& !after.0.delayer.waiting.is_empty()
            &&& after.0.ack_flushed(false, now).delayer.waiting.is_empty()
        }),
{
}

/// Of each video only the newest frame is handed to the renderer, and none of a deleted image.
pub proof fn law_newest_video_frame_wins(
    p: PainterView,
    updates: Seq<ImageUpdate>,
    key: u64,
    first: u64,
    second: u64,
)
    ensures
        ({
            let a = ImageUpdate::UpdateImage { key, data: first, epoch: None };
            let b = ImageUpdate::UpdateImage { key, data: second, epoch: None };
            let gone = ImageUpdate::DeleteImage { key };
            &&& p.staged(updates.push(a).push(b)).0.video
                == p.staged(updates).0.video.insert(key, second)
            &&& p.staged(updates.push(a).push(b)).1 == p.staged(updates).1
            &&& !p.staged(updates.push(a).push(gone)).0.video.contains_key(key)
        }),
{
    let a = ImageUpdate::UpdateImage { key, data: first, epoch: None };
    let b = ImageUpdate::UpdateImage { key, data: second, epoch: None };
    let gone = ImageUpdate::DeleteImage { key };
    assert(updates.push(a).drop_last() =~= updates);
    assert(updates.push(a).push(b).drop_last() =~= updates.push(a));
    assert(updates.push(a).push(gone).drop_last() =~= updates.push(a));
    assert(p.staged(updates.push(a)).1 =~= p.staged(updates).1);
    assert(p.staged(updates.push(a).push(b)).1 =~= p.staged(updates).1);
    assert(p.staged(updates.push(a).push(b)).0.video =~= p.staged(updates).0.video.insert(
        key,
        second,
    ));
}

/// A video frame that arrives while the painter is busy is owed a composite until one is requested;
/// composites that videos drive are a period apart.
pub proof fn law_video_composites_keep_their_pace(
    p: PainterView,
    elsewhere: bool,
    period: u64,
    now: u64,
    later: u64,
)
    requires
        p.video_due(period, now),
        now <= later < now + period,
    ensures
        ({
            let (after, composite) = p.video_composite(true, elsewhere, true, period, now);
            &&& after.video_owed == !composite
            &&& composite ==> !after.video_composite(true, false, true, period, later).1
        }),
{
    let (after, composite) = p.video_composite(true, elsewhere, true, period, now);
    if composite {
        assert(!after.video_due(period, later));
    }
}

} // verus!
