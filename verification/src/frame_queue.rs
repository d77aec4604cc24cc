//! The frames that were requested from the renderer and are not ready yet.
use crate::wall_frame::FrameReadyDiagnostic;
use std::collections::VecDeque;
use vstd::prelude::*;

verus! {

/// Why a frame is requested.
#[derive(Clone, Copy, Debug, PartialEq, Eq, Structural)]
pub enum FrameReason {
    /// The scene changed, or what it shows.
    Scene,
    /// Scrolling or zooming.
    Apz,
    AnimatedProperty,
    Testing,
}

/// A requested frame.
#[derive(Clone, Copy, Debug, PartialEq, Eq, Structural)]
pub struct PendingFrameDiagnostic {
    pub local_frame_id: u64,
    pub wall_logical_frame_id: Option<u64>,
    pub requested_at: u64,
    pub wall_requested_at: Option<u64>,
    pub reason: FrameReason,
}

/// The frames under way, oldest first, and what is counted about them.
#[derive(Debug)]
pub struct FrameQueue {
    pub pending_frames: usize,
    pub diagnostics: VecDeque<PendingFrameDiagnostic>,
    pub next_diagnostic_frame_id: u64,
    pub last_ready_local_frame_id: Option<u64>,
    pub last_ready_wall_logical_frame_id: Option<u64>,
    /// Frames that were requested while an older one was pending.
    pub overlapping_frame_request_count: u64,
    /// Frames that became ready though none was pending.
    pub unexpected_frame_ready_count: u64,
}

/// The queue as a value.
#[verifier::ext_equal]
pub struct FrameQueueView {
    pub frames: Seq<PendingFrameDiagnostic>,
    pub last_id: u64,
    pub ready_local: Option<u64>,
    pub ready_wall: Option<u64>,
    pub overlapping: u64,
    pub unexpected: u64,
}

impl View for FrameQueue {
    type V = FrameQueueView;

    open spec fn view(&self) -> FrameQueueView {
        FrameQueueView {
            frames: self.diagnostics@,
            last_id: self.next_diagnostic_frame_id,
            ready_local: self.last_ready_local_frame_id,
            ready_wall: self.last_ready_wall_logical_frame_id,
            overlapping: self.overlapping_frame_request_count,
            unexpected: self.unexpected_frame_ready_count,
        }
    }
}

/// The time from one moment to a later one; none where the order is reversed.
pub open spec fn since(now: u64, start: u64) -> u64 {
    if now >= start {
        (now - start) as u64
    } else {
        0
    }
}

impl FrameQueueView {
    pub open spec fn empty() -> FrameQueueView {
        FrameQueueView {
            frames: Seq::empty(),
            last_id: 0,
            ready_local: None,
            ready_wall: None,
            overlapping: 0,
            unexpected: 0,
        }
    }

    pub open spec fn pending(self) -> nat {
        self.frames.len()
    }

    pub open spec fn requested(
        self,
        wall: Option<u64>,
        wall_at: Option<u64>,
        now: u64,
        reason: FrameReason,
    ) -> FrameQueueView {
        FrameQueueView {
            frames: self.frames.push(
                PendingFrameDiagnostic {
                    local_frame_id: self.last_id.wrapping_add(1),
                    wall_logical_frame_id: wall,
                    requested_at: now,
                    wall_requested_at: wall_at,
                    reason,
                },
            ),
            last_id: self.last_id.wrapping_add(1),
            overlapping: if self.frames.len() > 0 {
                self.overlapping.wrapping_add(1)
            } else {
                self.overlapping
            },
            ..self
        }
    }

    /// The renderer has a frame ready: the oldest one that is pending.
    pub open spec fn ready(self, painter_id: u64, now: u64, need_repaint: bool) -> (
        FrameQueueView,
        Option<FrameReadyDiagnostic>,
    ) {
        if self.frames.len() == 0 {
            (FrameQueueView { unexpected: self.unexpected.wrapping_add(1), ..self }, None)
        } else {
            let frame = self.frames[0];
            (
                FrameQueueView {
                    frames: self.frames.subrange(1, self.frames.len() as int),
                    ready_local: Some(frame.local_frame_id),
                    ready_wall: if frame.wall_logical_frame_id is Some {
                        frame.wall_logical_frame_id
                    } else {
                        self.ready_wall
                    },
                    ..self
                },
                Some(
                    FrameReadyDiagnostic {
                        painter_id,
                        local_frame_id: frame.local_frame_id,
                        wall_logical_frame_id: frame.wall_logical_frame_id,
                        ready_at: now,
                        wait_ns: since(now, frame.requested_at),
                        need_repaint,
                    },
                ),
            )
        }
    }
}

impl FrameQueue {
    /// The count of pending frames is the length of the queue.
    pub open spec fn wf(self) -> bool {
        self.pending_frames == self.diagnostics@.len()
    }

    pub fn new() -> (q: FrameQueue)
        ensures
            q.wf(),
            q@ == FrameQueueView::empty(),
    {
        FrameQueue {
            pending_frames: 0,
            diagnostics: VecDeque::new(),
            next_diagnostic_frame_id: 0,
            last_ready_local_frame_id: None,
            last_ready_wall_logical_frame_id: None,
            overlapping_frame_request_count: 0,
            unexpected_frame_ready_count: 0,
        }
    }

    /// A frame is requested from the renderer.
    pub fn request(
        &mut self,
        wall_logical_frame_id: Option<u64>,
        wall_requested_at: Option<u64>,
        now: u64,
        reason: FrameReason,
    )
        requires
            old(self).wf(),
        ensures
            final(self).wf(),
            final(self)@ == old(self)@.requested(
                wall_logical_frame_id,
                wall_requested_at,
                now,
                reason,
            ),
    {
        let local_frame_id: u64 = self.next_diagnostic_frame_id.wrapping_add(1);
        self.next_diagnostic_frame_id = local_frame_id;
        if self.pending_frames > 0 {
            self.overlapping_frame_request_count = self.overlapping_frame_request_count.wrapping_add(
                1,
            );
        }
        self.diagnostics.push_back(
            PendingFrameDiagnostic {
                local_frame_id,
                wall_logical_frame_id,
                requested_at: now,
                wall_requested_at,
                reason,
            },
        );
        self.pending_frames = self.diagnostics.len();
    }

    /// The renderer reports a frame. `None` where no frame was pending.
    pub fn note_ready(&mut self, painter_id: u64, now: u64, need_repaint: bool) -> (r: Option<
        FrameReadyDiagnostic,
    >)
        requires
            old(self).wf(),
        ensures
            final(self).wf(),
            (final(self)@, r) == old(self)@.ready(painter_id, now, need_repaint),
    {
        match self.diagnostics.pop_front() {
            None => {
                self.unexpected_frame_ready_count = self.unexpected_frame_ready_count.wrapping_add(
                    1,
                );
                None
            },
            Some(frame) => {
                self.pending_frames = self.pending_frames - 1;
                self.last_ready_local_frame_id = Some(frame.local_frame_id);
                if frame.wall_logical_frame_id.is_some() {
                    self.last_ready_wall_logical_frame_id = frame.wall_logical_frame_id;
                }
                Some(
                    FrameReadyDiagnostic {
                        painter_id,
                        local_frame_id: frame.local_frame_id,
                        wall_logical_frame_id: frame.wall_logical_frame_id,
                        ready_at: now,
                        wait_ns: now.saturating_sub(frame.requested_at),
                        need_repaint,
                    },
                )
            },
        }
    }
}

/// Frames become ready in the order in which they were requested: a frame is reported once the
/// frames before it are.
pub proof fn law_frames_are_answered_in_order(
    q: FrameQueueView,
    wall: Option<u64>,
    wall_at: Option<u64>,
    at: u64,
    reason: FrameReason,
    painter_id: u64,
    now: u64,
    need_repaint: bool,
)
    ensures
        ({
            let after = q.requested(wall, wall_at, at, reason);
            let (rest, report) = after.ready(painter_id, now, need_repaint);
            &&& report matches Some(d)
            &&& rest.pending() == q.pending()
            &&& if q.frames.len() == 0 {
                d.local_frame_id == after.last_id && d.wall_logical_frame_id == wall
            } else {
                d.local_frame_id == q.frames[0].local_frame_id && rest.frames
                    == q.frames.subrange(1, q.frames.len() as int).push(after.frames.last())
            }
        }),
{
    let after = q.requested(wall, wall_at, at, reason);
    let (rest, report) = after.ready(painter_id, now, need_repaint);
    if q.frames.len() > 0 {
        assert(rest.frames =~= q.frames.subrange(1, q.frames.len() as int).push(
            after.frames.last(),
        ));
    }
}

} // verus!
