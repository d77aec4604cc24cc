//! When carets blink and animations are woken, and what holds of animations in all cases.
use crate::web_content_animation::{
    covering, elapsed, has_key, held_exactly, held_with, not_live, sample_in, AnimationView, CaretAnimation,
    CaretValue, HeldView, PaintAnimationKind, PaintAnimationSegment, PipelineAnimations,
    PipelineView, Sample, MAX_HELD_PAINT_VALUES,
};
use vstd::prelude::*;

verus! {

/// The timers of a painter's animations.
#[derive(Clone, Copy, Debug, PartialEq, Eq, Structural)]
pub struct WebContentAnimator {
    pub caret_visible: bool,
    pub timer_scheduled: bool,
    /// The blink timer fired and the carets have not blinked yet.
    pub need_update: bool,
    pub paint_animation_wake_scheduled: bool,
}

/// The animations of several pipelines after their carets blinked, and the colors.
pub open spec fn all_blinked(list: Seq<PipelineView>, visible: bool) -> (
    Seq<PipelineView>,
    Seq<CaretValue>,
)
    decreases list.len(),
{
    if list.len() == 0 {
        (Seq::empty(), Seq::empty())
    } else {
        let (rest, colors) = all_blinked(list.drop_last(), visible);
        let p = list.last();
        match p.caret {
            None => (rest.push(p), colors),
            Some(caret) => match caret.blinked(visible) {
                (next, Some(value)) => (
                    rest.push(PipelineView { caret: Some(next), ..p }),
                    colors.push(value),
                ),
                (_, None) => (rest.push(PipelineView { caret: None, ..p }), colors),
            },
        }
    }
}

pub open spec fn pipeline_views(list: Seq<PipelineAnimations>) -> Seq<PipelineView> {
    list.map_values(|p: PipelineAnimations| p@)
}

impl WebContentAnimator {
    pub fn new() -> (a: WebContentAnimator)
        ensures
            a == (WebContentAnimator {
                caret_visible: true,
                timer_scheduled: false,
                need_update: false,
                paint_animation_wake_scheduled: false,
            }),
    {
        WebContentAnimator {
            caret_visible: true,
            timer_scheduled: false,
            need_update: false,
            paint_animation_wake_scheduled: false,
        }
    }

    /// Asks for another turn of the painter soon. The answer says whether the host queues a timer:
    /// not while one is queued.
    pub fn wake_for_paint_animation(&mut self) -> (queue: bool)
        ensures
            queue == !old(self).paint_animation_wake_scheduled,
            *final(self) == (WebContentAnimator {
                paint_animation_wake_scheduled: true,
                ..*old(self)
            }),
    {
        if self.paint_animation_wake_scheduled {
            return false;
        }
        self.paint_animation_wake_scheduled = true;
        true
    }

    /// The timer that was queued for the next turn fired.
    pub fn paint_animation_woken(&mut self)
        ensures
            *final(self) == (WebContentAnimator {
                paint_animation_wake_scheduled: false,
                ..*old(self)
            }),
    {
        self.paint_animation_wake_scheduled = false;
    }

    /// Asks for the blink timer. The answer says whether the host queues it: where carets blink and
    /// none is queued.
    pub fn schedule_timer_if_necessary(&mut self, carets_blink: bool) -> (queue: bool)
        ensures
            queue == (carets_blink && !old(self).timer_scheduled),
            *final(self) == (WebContentAnimator {
                timer_scheduled: old(self).timer_scheduled || queue,
                ..*old(self)
            }),
    {
        if self.timer_scheduled {
            return false;
        }
        if !carets_blink {
            return false;
        }
        self.timer_scheduled = true;
        true
    }

    /// The blink timer fired.
    pub fn blink_timer_fired(&mut self)
        ensures
            *final(self) == (WebContentAnimator { need_update: true, ..*old(self) }),
    {
        self.need_update = true;
    }

    /// Lets the carets of these pipelines blink, if the timer fired. Handed back are the colors, if
    /// any caret still blinks, and whether the host queues the timer again. When all have stopped,
    /// the next one starts visible.
    pub fn update(
        &mut self,
        pipelines: &mut Vec<PipelineAnimations>,
        carets_blink: bool,
    ) -> (r: (Option<Vec<CaretValue>>, bool))
        requires
            forall|i: int| 0 <= i < old(pipelines)@.len() ==> (#[trigger] old(pipelines)@[i]).wf(),
        ensures
            forall|i: int|
                0 <= i < final(pipelines)@.len() ==> (#[trigger] final(pipelines)@[i]).wf(),
            ({
                let (after, colors) = all_blinked(
                    pipeline_views(old(pipelines)@),
                    old(self).caret_visible,
                );
                if !old(self).need_update {
                    &&& r.0 is None
                    &&& !r.1
                    &&& *final(self) == *old(self)
                    &&& final(pipelines)@ == old(pipelines)@
                } else {
                    &&& pipeline_views(final(pipelines)@) == after
                    &&& r.0 is Some <==> colors.len() > 0
                    &&& r.0 matches Some(list) ==> list@ == colors
                    &&& r.1 == (colors.len() > 0 && carets_blink)
                    &&& *final(self) == (WebContentAnimator {
                        caret_visible: if colors.len() > 0 {
                            !old(self).caret_visible
                        } else {
                            true
                        },
                        timer_scheduled: r.1,
                        need_update: false,
                        ..*old(self)
                    })
                }
            }),
    {
        if !self.need_update {
            return (None, false);
        }
        let ghost src = pipeline_views(pipelines@);
        let mut colors: Vec<CaretValue> = Vec::new();
        let mut i: usize = 0;
        proof {
            assert(src.take(0) =~= Seq::<PipelineView>::empty());
        }
        while i < pipelines.len()
            invariant
                i <= pipelines@.len(),
                pipelines@.len() == src.len(),
                *self == *old(self),
                forall|k: int| 0 <= k < pipelines@.len() ==> (#[trigger] pipelines@[k]).wf(),
                forall|k: int| i <= k < pipelines@.len() ==> (#[trigger] pipelines@[k])@ == src[k],
                pipeline_views(pipelines@).take(i as int) == all_blinked(
                    src.take(i as int),
                    self.caret_visible,
                ).0,
                colors@ == all_blinked(src.take(i as int), self.caret_visible).1,
            decreases pipelines@.len() - i,
        {
            let ghost before = pipelines@;
            proof {
                assert(src.take(i + 1).drop_last() =~= src.take(i as int));
            }
            let value = pipelines[i].update(self.caret_visible);
            if let Some(value) = value {
                colors.push(value);
            }
            proof {
                assert(pipelines@ =~= before.update(i as int, pipelines@[i as int]));
                assert(pipeline_views(pipelines@).take(i + 1) =~= pipeline_views(before).take(
                    i as int,
                ).push(pipelines@[i as int]@));
            }
            i = i + 1;
        }
        proof {
            assert(src.take(i as int) =~= src);
            assert(pipeline_views(pipelines@).take(i as int) =~= pipeline_views(pipelines@));
        }
        self.timer_scheduled = false;
        self.need_update = false;
        if colors.len() == 0 {
            self.caret_visible = true;
            return (None, false);
        }
        self.caret_visible = !self.caret_visible;
        let queue: bool = self.schedule_timer_if_necessary(carets_blink);
        (Some(colors), queue)
    }
}

proof fn lemma_covering_last(s: Seq<PaintAnimationSegment>, t: int, from: int)
    requires
        0 <= from < s.len(),
        forall|i: int| 0 <= i < s.len() ==> (#[trigger] s[i]).end <= t,
    ensures
        covering(s, t, from) == s.len() - 1,
    decreases s.len() - from,
{
    if from < s.len() - 1 {
        lemma_covering_last(s, t, from + 1);
    }
}

/// The value that an animation stops at is the end of its last segment, all of the way, where its
/// segments run on to that end.
pub proof fn law_animation_stops_at_its_end(a: AnimationView)
    requires
        a.segments.len() > 0,
        a.ends_at() is Some,
        forall|i: int|
            0 <= i < a.segments.len() ==> (#[trigger] a.segments[i]).end <= a.segments.last().end,
        a.segments[0].start < a.segments.last().end,
    ensures
        a.final_sample() == Some(sample_in(a.key, a.segments.last(), a.segments.last().end as int)),
        a.final_sample()->0.num == a.final_sample()->0.den,
{
    let end = a.segments.last().end as int;
    let at = a.ends_at()->0;
    assert(elapsed(a.zero, at) == end);
    lemma_covering_last(a.segments, end, 0);
}

/// The last value of an animation that is over is held, so that the next transaction carries it: it
/// is among what is appended wherever nothing live drives its key.
pub proof fn law_finished_animation_keeps_its_value(held: HeldView, a: AnimationView, v: Sample, live: Seq<Sample>)
    requires
        held.wf(),
        a.final_sample() == Some(v),
        !has_key(live, v.key),
    ensures
        ({
            let after = held.settled(a);
            let list = match a.kind {
                PaintAnimationKind::Opacity => after.floats,
                PaintAnimationKind::Transform => after.transforms,
            };
            not_live(list, live).contains(v)
        }),
{
    let before = match a.kind {
        PaintAnimationKind::Opacity => held.floats,
        PaintAnimationKind::Transform => held.transforms,
    };
    let list = held_with(before, v);
    if has_key(before, v.key) {
        let i = choose|i: int| 0 <= i < before.len() && (#[trigger] before[i]).key == v.key;
        assert(list[i] == v);
    } else {
        assert(list[list.len() - 1] == v);
    }
    lemma_filter_has(list, |x: Sample| !has_key(live, x.key), v);
}

/// Filtering keeps exactly the values that the test holds of.
pub proof fn lemma_filter_has(s: Seq<Sample>, keep: spec_fn(Sample) -> bool, v: Sample)
    ensures
        s.filter(keep).contains(v) <==> s.contains(v) && keep(v),
    decreases s.len(),
{
    reveal(Seq::filter);
    if s.len() > 0 {
        let rest = s.drop_last();
        lemma_filter_has(rest, keep, v);
        let f = rest.filter(keep);
        if rest.contains(v) {
            let i = choose|i: int| 0 <= i < rest.len() && rest[i] == v;
            assert(s[i] == v);
        }
        if s.contains(v) && v != s.last() {
            let i = choose|i: int| 0 <= i < s.len() && s[i] == v;
            assert(rest[i] == v);
        }
        if f.contains(v) {
            let i = choose|i: int| 0 <= i < f.len() && f[i] == v;
            assert(f.push(s.last())[i] == v);
        }
        if v == s.last() {
            assert(s[s.len() - 1] == v);
            assert(f.push(s.last())[f.len() as int] == v);
        }
        if f.push(s.last()).contains(v) && v != s.last() {
            let i = choose|i: int| 0 <= i < f.push(s.last()).len() && f.push(s.last())[i] == v;
            assert(f[i] == v);
        }
    }
}

/// A held value never stands beside a live one of the same key: the live one wins.
pub proof fn law_live_value_wins(held: Seq<Sample>, live: Seq<Sample>, v: Sample)
    requires
        not_live(held, live).contains(v),
    ensures
        held.contains(v),
        !has_key(live, v.key),
{
    lemma_filter_has(held, |x: Sample| !has_key(live, x.key), v);
}

/// Holding a value again replaces it; the number of held values does not grow. It never grows past
/// the limit.
pub proof fn law_holding_again_replaces(list: Seq<Sample>, a: Sample, b: Sample)
    requires
        a.key == b.key,
        list.len() <= MAX_HELD_PAINT_VALUES,
    ensures
        held_with(held_with(list, a), b).len() == held_with(list, a).len(),
        held_with(list, a).len() <= MAX_HELD_PAINT_VALUES,
        held_with(held_with(list, a), b).contains(b),
{
    let once = held_with(list, a);
    let at = if has_key(list, a.key) {
        choose|i: int| 0 <= i < list.len() && (#[trigger] list[i]).key == a.key
    } else {
        once.len() - 1
    };
    assert(once[at].key == b.key);
    assert(held_with(once, b)[at] == b);
}

/// Holding a value touches nothing but its own place. Keys stay distinct and the limit is kept. A key
/// that is held keeps its place and gets the new value; a new one goes to the end, and only where
/// the list is full the oldest makes room. The values of the other kind stay as they are.
pub proof fn law_holding_changes_one_value(
    held: HeldView,
    kind: PaintAnimationKind,
    other: PaintAnimationKind,
    v: Sample,
)
    requires
        held.wf(),
        other != kind,
    ensures
        held.with(kind, v).wf(),
        held.with(kind, v).of_kind(other) == held.of_kind(other),
        held_exactly(held.of_kind(kind), v, held.with(kind, v).of_kind(kind)),
{
    let list = held.of_kind(kind);
    let after = held.with(kind, v).of_kind(kind);
    if has_key(list, v.key) {
        assert forall|a: int, b: int| 0 <= a < b < after.len() implies (#[trigger] after[a]).key
            != (#[trigger] after[b]).key by {
            assert(list[a].key != list[b].key);
        }
    } else {
        let shift: int = if list.len() >= MAX_HELD_PAINT_VALUES {
            1
        } else {
            0
        };
        assert(list.remove(0) =~= list.drop_first());
        assert forall|a: int, b: int| 0 <= a < b < after.len() implies (#[trigger] after[a]).key
            != (#[trigger] after[b]).key by {
            assert(after[a] == list[a + shift]);
            if b < after.len() - 1 {
                assert(after[b] == list[b + shift]);
            }
        }
    }
}

/// A new display list takes back the held values that it drives again, and no others.
pub proof fn law_new_list_reclaims_only_what_it_drives(
    held: HeldView,
    incoming: Seq<(PaintAnimationKind, u64)>,
    v: Sample,
)
    ensures
        held.pruned(incoming).floats.contains(v) <==> held.floats.contains(v)
            && !incoming.contains((PaintAnimationKind::Opacity, v.key)),
        held.pruned(incoming).transforms.contains(v) <==> held.transforms.contains(v)
            && !incoming.contains((PaintAnimationKind::Transform, v.key)),
    decreases incoming.len(),
{
    if incoming.len() > 0 {
        let rest = incoming.drop_last();
        let (kind, key) = incoming.last();
        law_new_list_reclaims_only_what_it_drives(held, rest, v);
        let mid = held.pruned(rest);
        lemma_filter_has(mid.floats, |x: Sample| x.key != key, v);
        lemma_filter_has(mid.transforms, |x: Sample| x.key != key, v);
        lemma_last_pair(incoming, (PaintAnimationKind::Opacity, v.key));
        lemma_last_pair(incoming, (PaintAnimationKind::Transform, v.key));
    }
}

proof fn lemma_last_pair(
    s: Seq<(PaintAnimationKind, u64)>,
    v: (PaintAnimationKind, u64),
)
    requires
        s.len() > 0,
    ensures
        s.contains(v) <==> s.drop_last().contains(v) || s.last() == v,
{
    let rest = s.drop_last();
    if rest.contains(v) {
        let i = choose|i: int| 0 <= i < rest.len() && rest[i] == v;
        assert(s[i] == v);
    }
    if s.last() == v {
        assert(s[s.len() - 1] == v);
    }
    if s.contains(v) && s.last() != v {
        let i = choose|i: int| 0 <= i < s.len() && s[i] == v;
        assert(rest[i] == v);
    }
}

/// The caret after a number of blinks, visible or not by turns.
pub open spec fn after_blinks(c: CaretAnimation, visible: bool, n: nat) -> CaretAnimation
    decreases n,
{
    if n == 0 {
        c
    } else {
        after_blinks(c.blinked(visible).0, !visible, (n - 1) as nat)
    }
}

/// A caret blinks as often as it was to, and then no more; the last blink leaves it visible.
pub proof fn law_caret_stops_visible(c: CaretAnimation, visible: bool)
    ensures
        after_blinks(c, visible, c.remaining_blink_count as nat).remaining_blink_count == 0,
        after_blinks(c, visible, c.remaining_blink_count as nat).blinked(visible).1 is None,
        c.remaining_blink_count == 1 ==> c.blinked(visible).1 == Some(
            CaretValue { key: c.key, color: Some(c.color) },
        ),
    decreases c.remaining_blink_count,
{
    if c.remaining_blink_count > 0 {
        law_caret_stops_visible(c.blinked(visible).0, !visible);
    }
}

} // verus!
