//! What holds of every end of a frame, whatever the host answers.
use vstd::prelude::*;

use crate::dcomp_compositor::DCompNativeCompositor;
use crate::end_frame::{EndFrame, EndFrameStep};
use crate::geometry::DeviceIntRect;
use crate::surface::{
    dense, EndFrameAction, FrameContext, StorageMode, PROMOTE_MIN_AGE_FRAMES, PROMOTE_STREAK,
};
use crate::surface_entry::{
    frames_drawn, frames_in_a_row, lemma_streak_counts_frames, saturating_inc, EndedFrame,
    SurfaceEntry,
};
use crate::tiles::{covers_all, TileIndex};

verus! {

/// What happens at the end of a frame: the compositor says what comes next, or the host reports what
/// came of it.
pub enum EndFrameEvent {
    Step(EndFrameStep),
    FullPresent { id: u64, presented: bool, content_set: bool, partial_ok: bool },
    PartialPresent { id: u64, presented: bool },
    Finish { id: u64 },
    Promotion { id: u64, extent: DeviceIntRect, created: Option<u64> },
    Regeneration { id: u64, extent: DeviceIntRect, created: Option<u64> },
    Demotion { id: u64, seeded: Option<u64> },
}

/// The compositor and the run at one moment.
pub struct EndFrameMoment {
    pub compositor: DCompNativeCompositor,
    pub run: EndFrame,
}

impl EndFrameMoment {
    /// The surface has a flip chain.
    pub open spec fn has_chain(self, id: u64) -> bool {
        self.compositor.surfaces@.contains_key(id)
            && self.compositor.surfaces@[id].storage is SwapChain
    }

    /// The event leads from this moment to the next.
    pub open spec fn leads_to(self, event: EndFrameEvent, next: EndFrameMoment) -> bool {
        let (c, run) = (self.compositor, self.run);
        match event {
            EndFrameEvent::Step(step) => c.stepped(run, step, next.compositor, next.run),
            EndFrameEvent::FullPresent { id, presented, content_set, partial_ok } => {
                &&& self.has_chain(id)
                &&& c.full_presented(
                    run,
                    id,
                    presented,
                    content_set,
                    partial_ok,
                    next.compositor,
                    next.run,
                )
            },
            EndFrameEvent::PartialPresent { id, presented } => {
                &&& self.has_chain(id)
                &&& c.partially_presented(run, id, presented, next.compositor, next.run)
            },
            EndFrameEvent::Finish { id } => {
                &&& c.surface_finished(id, next.compositor)
                &&& next.run == run
            },
            EndFrameEvent::Promotion { id, extent, created } => {
                &&& c.surfaces@.contains_key(id)
                &&& c.promotion_settled(id, extent, created, next.compositor)
                &&& next.run == run
            },
            EndFrameEvent::Regeneration { id, extent, created } => {
                &&& self.has_chain(id)
                &&& c.regeneration_settled(id, extent, created, next.compositor)
                &&& next.run == run
            },
            EndFrameEvent::Demotion { id, seeded } => {
                &&& c.surfaces@.contains_key(id)
                &&& c.demotion_settled(run, id, seeded, next.compositor)
                &&& next.run == run
            },
        }
    }

    /// A flip chain for this surface is asked for.
    pub open spec fn promises(self, id: u64) -> bool {
        exists|k: int|
            0 <= k < self.run.promote@.len() && (#[trigger] self.run.promote@[k]).0 == id
    }
}

/// A chain that was made, and a surface that was seeded, were asked for by the step before.
pub open spec fn answers(before: EndFrameEvent, event: EndFrameEvent) -> bool {
    match event {
        EndFrameEvent::Promotion { id, extent, .. } => before matches EndFrameEvent::Step(
            EndFrameStep::MakeChain { id: i, extent: e, .. },
        ) && i == id && e == extent,
        EndFrameEvent::Demotion { id, .. } => before matches EndFrameEvent::Step(
            EndFrameStep::Demote { id: i, .. },
        ) && i == id,
        _ => true,
    }
}

/// The end of a frame, from its start: each event leads from one moment to the next.
pub open spec fn end_of_frame(moments: Seq<EndFrameMoment>, events: Seq<EndFrameEvent>) -> bool {
    &&& moments.len() == events.len() + 1
    &&& moments[0].run.begun(moments[0].compositor)
    &&& forall|i: int|
        0 <= i < events.len() ==> moments[i].leads_to(#[trigger] events[i], moments[i + 1])
    &&& forall|i: int|
        0 < i < events.len() ==> answers(events[i - 1], #[trigger] events[i])
    &&& events.len() > 0 ==> !(events[0] is Promotion) && !(events[0] is Demotion)
}

/// A virtual surface that may become a flip chain at the end of this frame: its window is not being
/// resized, surfaces may become flip chains, it is opaque and dense, it is not in its cooldown, it
/// is old enough, every tile of it was drawn in full, and so often enough in a row.
pub open spec fn earned(e: SurfaceEntry, ctx: FrameContext) -> bool {
    &&& !ctx.resize_active
    &&& ctx.mode == StorageMode::Hybrid
    &&& e.is_opaque
    &&& ctx.frame_counter >= e.promote_blocked_until
    &&& covers_all(e.frame_coverage@, e.tiles@)
    &&& e.promote_streak + 1 >= PROMOTE_STREAK
    &&& drawn_frames_after(e) > PROMOTE_MIN_AGE_FRAMES
    &&& e.extent() is Some
    &&& dense(e.tiles.tiles@, e.tile_size, e.extent()->0)
}

/// In how many frames the surface was drawn, this one among them.
pub open spec fn drawn_frames_after(e: SurfaceEntry) -> u32 {
    if e.frame_coverage@ != Set::<TileIndex>::empty() || e.frame_drawn_partial {
        saturating_inc(e.drawn_frames)
    } else {
        e.drawn_frames
    }
}

/// How a virtual surface stands at one moment: untouched until its turn; after that still virtual
/// and not to be promoted, unless it has earned it.
spec fn stands(first: EndFrameMoment, m: EndFrameMoment, id: u64, turn: int) -> bool {
    let e = first.compositor.surfaces@[id];
    &&& m.run.ids@ == first.run.ids@
    &&& m.run.mode == first.run.mode
    &&& m.run.resize_active == first.run.resize_active
    &&& m.compositor.frame_counter == first.compositor.frame_counter
    &&& m.compositor.has_factory == first.compositor.has_factory
    &&& m.compositor.surfaces@.contains_key(id)
    &&& if m.run.next_id <= turn {
        m.compositor.surfaces@[id] == e && !m.promises(id)
    } else {
        earned(e, first.run.context(first.compositor)) || (
        m.compositor.surfaces@[id].storage is Virtual && !m.promises(id))
    }
}

/// A step keeps how the surface stands.
proof fn lemma_step_keeps(
    first: EndFrameMoment,
    m: EndFrameMoment,
    step: EndFrameStep,
    next: EndFrameMoment,
    id: u64,
    turn: int,
)
    requires
        first.run.ids@.no_duplicates(),
        0 <= turn < first.run.ids@.len(),
        first.run.ids@[turn] == id,
        first.compositor.surfaces@.contains_key(id),
        first.compositor.surfaces@[id].storage is Virtual,
        first.compositor.surfaces@[id].promote_streak < u32::MAX,
        stands(first, m, id, turn),
        m.leads_to(EndFrameEvent::Step(step), next),
    ensures
        stands(first, next, id, turn),
{
    let (c, run) = (m.compositor, m.run);
    let e = first.compositor.surfaces@[id];
    let ctx = first.run.context(first.compositor);
    if run.next_id < run.ids@.len() {
        let here = run.ids@[run.next_id as int];
        if c.surfaces@.contains_key(here) {
            if let EndFrameStep::Surface { id: i, action } = step {
                let passed = EndFrame { next_id: (run.next_id + 1) as usize, ..run };
                assert(run.next_id < run.ids.len());
                assert(passed.queued(here, action, next.run));
                if here == id {
                    assert(run.next_id == turn);
                    assert(e.planned(run.context(c), action, next.compositor.surfaces@[id]));
                    if let EndFrameAction::Promote(x) = action {
                        assert(earned(e, ctx));
                    } else {
                        assert(next.run.promote@ == run.promote@);
                        assert(next.compositor.surfaces@[id].storage is Virtual);
                        assert(!next.promises(id));
                    }
                } else {
                    assert(run.next_id != turn);
                    if next.promises(id) && !m.promises(id) {
                        let k = choose|k: int|
                            0 <= k < next.run.promote@.len() && (#[trigger] next.run.promote@[k]).0
                                == id;
                        assert(m.run.promote@[k].0 == id);
                    }
                }
            }
        } else {
            assert(run.next_id < run.ids.len());
            assert(here != id);
            assert(run.next_id != turn);
            assert(next.promises(id) == m.promises(id));
        }
    } else {
        assert(run.next_id > turn);
        assert(next.run.promote@ == run.promote@);
        assert(next.promises(id) == m.promises(id));
    }
}

/// So does an answer of the host.
proof fn lemma_answer_keeps(
    first: EndFrameMoment,
    m: EndFrameMoment,
    event: EndFrameEvent,
    next: EndFrameMoment,
    id: u64,
    turn: int,
)
    requires
        first.compositor.surfaces@.contains_key(id),
        first.compositor.surfaces@[id].storage is Virtual,
        stands(first, m, id, turn),
        m.leads_to(event, next),
        !(event is Step),
        event matches EndFrameEvent::Promotion { id: i, .. } && i == id ==> earned(
            first.compositor.surfaces@[id],
            first.run.context(first.compositor),
        ) && m.run.next_id > turn,
        event matches EndFrameEvent::Demotion { id: i, .. } && i == id ==> m.has_chain(id),
    ensures
        stands(first, next, id, turn),
{
    assert(next.run.promote@ == m.run.promote@);
    assert(next.promises(id) == m.promises(id));
    match event {
        EndFrameEvent::Promotion { id: i, extent, created } => {
            if i != id {
                assert(next.compositor.surfaces@[id] == m.compositor.surfaces@[id]);
            }
        },
        EndFrameEvent::Demotion { id: i, seeded } => {
            if i != id {
                assert(next.compositor.surfaces@[id] == m.compositor.surfaces@[id]);
            }
        },
        EndFrameEvent::Regeneration { id: i, .. } => {
            if i != id {
                assert(next.compositor.surfaces@[id] == m.compositor.surfaces@[id]);
            }
        },
        _ => {},
    }
}

proof fn lemma_stands(
    moments: Seq<EndFrameMoment>,
    events: Seq<EndFrameEvent>,
    at: int,
    id: u64,
    turn: int,
)
    requires
        end_of_frame(moments, events),
        0 <= at <= events.len(),
        0 <= turn < moments[0].run.ids@.len(),
        moments[0].run.ids@[turn] == id,
        moments[0].compositor.surfaces@.contains_key(id),
        moments[0].compositor.surfaces@[id].storage is Virtual,
        moments[0].compositor.surfaces@[id].promote_streak < u32::MAX,
    ensures
        stands(moments[0], moments[at], id, turn),
    decreases at,
{
    let first = moments[0];
    if at > 0 {
        let m = moments[at - 1];
        let event = events[at - 1];
        lemma_stands(moments, events, at - 1, id, turn);
        assert(m.leads_to(event, moments[at]));
        if let EndFrameEvent::Step(step) = event {
            lemma_step_keeps(first, m, step, moments[at], id, turn);
        } else {
            if event is Promotion || event is Demotion {
                assert(at - 1 > 0);
                let asked = moments[at - 2];
                lemma_stands(moments, events, at - 2, id, turn);
                assert(answers(events[at - 2], events[at - 1]));
                assert(asked.leads_to(events[at - 2], m));
                if let EndFrameEvent::Promotion { id: i, extent, created } = event {
                    if i == id {
                        assert(asked.run.promote@[asked.run.next_promote as int].0 == id);
                        assert(asked.promises(id));
                        assert(asked.run.next_id >= asked.run.ids@.len());
                    }
                }
            }
            lemma_answer_keeps(first, m, event, moments[at], id, turn);
        }
    }
}

/// A virtual surface has a flip chain after the end of a frame only where it has earned it, whatever
/// the host answered. This is then at least the third frame in a row in which
/// every tile was drawn in full outside of the cooldown, and the surface was drawn in more frames
/// than the least age, those before the ones in `past` among them. `past` are the ends of the frames
/// before, from where the surface was made or came back from a flip chain.
pub proof fn law_end_frame_promotes_what_earned_it(
    past: Seq<EndedFrame>,
    moments: Seq<EndFrameMoment>,
    events: Seq<EndFrameEvent>,
    id: u64,
)
    requires
        end_of_frame(moments, events),
        moments[0].compositor.surfaces@.contains_key(id),
        moments[0].compositor.surfaces@[id].storage is Virtual,
        moments[0].compositor.surfaces@[id].promote_streak < u32::MAX,
        frames_in_a_row(past),
        ({
            let e = moments[0].compositor.surfaces@[id];
            if past.len() > 0 {
                &&& e.promote_streak == past.last().after.promote_streak
                &&& e.drawn_frames == past.last().after.drawn_frames
            } else {
                e.promote_streak == 0
            }
        }),
        moments.last().compositor.surfaces@[id].storage is SwapChain,
    ensures
        ({
            let e = moments[0].compositor.surfaces@[id];
            let ctx = moments[0].run.context(moments[0].compositor);
            &&& earned(e, ctx)
            &&& past.len() + 1 >= PROMOTE_STREAK
            &&& forall|i: int|
                past.len() + 1 - PROMOTE_STREAK <= i < past.len() ==> (#[trigger] past[i]).counts()
            &&& past.len() > 0 ==> past[0].before.drawn_frames + frames_drawn(past) + 1
                > PROMOTE_MIN_AGE_FRAMES
        }),
{
    let first = moments[0];
    let e = first.compositor.surfaces@[id];
    assert(first.run.ids@.to_set().contains(id));
    let turn = choose|k: int| 0 <= k < first.run.ids@.len() && first.run.ids@[k] == id;
    lemma_stands(moments, events, events.len() as int, id, turn);
    assert(moments.last() == moments[events.len() as int]);
    if past.len() > 0 {
        lemma_streak_counts_frames(past);
    }
}

} // verus!
