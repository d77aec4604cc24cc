//! What an animation shows when, in terms of its segments and the clock.
use vstd::prelude::*;

use crate::web_content_animation::{
    anchored, covering, driven, has_key, held_with, not_live, samples_of, AnimationView,
    CaretValue, HeldView, PaintAnimation, PaintAnimationKind,
    PaintAnimationSegment, PipelineView, Sample, MAX_HELD_PAINT_VALUES,
};
use crate::web_content_animator::{all_blinked, lemma_filter_has};

verus! {

/// The segments follow one another in time: none ends before it starts, the first one lasts, and
/// none starts before the one before it has ended.
pub open spec fn follow_one_another(s: Seq<PaintAnimationSegment>) -> bool {
    &&& s.len() > 0
    &&& s[0].start < s[0].end
    &&& forall|i: int| 0 <= i < s.len() ==> (#[trigger] s[i]).start <= s[i].end
    &&& forall|i: int, j: int|
        0 <= i < j < s.len() ==> (#[trigger] s[i]).end <= (#[trigger] s[j]).start
}

/// The search from a place on stops at the first segment that the time has not passed.
proof fn lemma_covering(s: Seq<PaintAnimationSegment>, t: int, from: int, i: int)
    requires
        0 <= from <= i < s.len(),
        forall|j: int| from <= j < i ==> (#[trigger] s[j]).end <= t,
        i == s.len() - 1 || t < s[i].end,
    ensures
        covering(s, t, from) == i,
    decreases i - from,
{
    if from < i {
        assert(s[from].end <= t);
        lemma_covering(s, t, from + 1, i);
    }
}

/// A time within a segment is sampled in that segment, however many there are: between the values of
/// that segment, with its easing, and as far along as the time has come in it.
pub proof fn law_time_is_sampled_in_its_segment(a: AnimationView, now: u64, i: int)
    requires
        follow_one_another(a.segments),
        0 <= i < a.segments.len(),
        now >= a.zero,
        a.segments[i].start <= now - a.zero < a.segments[i].end,
    ensures
        a.sample(now) is Some,
        ({
            let v = a.sample(now)->0;
            let s = a.segments[i];
            &&& v.key == a.key
            &&& v.from == s.from
            &&& v.to == s.to
            &&& v.easing == s.easing
            &&& v.num == now - a.zero - s.start
            &&& v.den == s.end - s.start
            &&& 0 <= v.num < v.den
        }),
{
    let t = now - a.zero;
    let s = a.segments;
    assert forall|j: int| 0 <= j < i implies (#[trigger] s[j]).end <= t by {
        assert(s[j].end <= s[i].start);
    }
    if i > 0 {
        assert(s[0].end <= t);
    }
    lemma_covering(s, t, 0, i);
}

/// Before its first segment an animation stands at that segment's beginning; between two segments at
/// the beginning of the later one; and from its end on at the end of the last one. Its clock does
/// not run before its zero.
pub proof fn law_time_between_segments(a: AnimationView, now: u64, i: int)
    requires
        follow_one_another(a.segments),
        0 <= i < a.segments.len(),
    ensures
        now < a.zero ==> a.sample(now) == a.sample(a.zero),
        now >= a.zero && now - a.zero < a.segments[0].start ==> a.sample(now)->0.from
            == a.segments[0].from && a.sample(now)->0.to == a.segments[0].to && a.sample(now)->0.num
            < 0 && a.sample(now)->0.den > 0,
        now >= a.zero && 0 < i && a.segments[i - 1].end <= now - a.zero < a.segments[i].start
            ==> a.sample(now)->0.from == a.segments[i].from && a.sample(now)->0.to
            == a.segments[i].to && a.sample(now)->0.easing == a.segments[i].easing && a.sample(
            now,
        )->0.num < 0,
        now >= a.zero && now - a.zero >= a.segments.last().end ==> a.sample(now)->0.from
            == a.segments.last().from && a.sample(now)->0.to == a.segments.last().to && a.sample(
            now,
        )->0.num >= a.sample(now)->0.den,
{
    let s = a.segments;
    let t = now - a.zero;
    if now >= a.zero && 0 < i && s[i - 1].end <= t < s[i].start {
        assert forall|j: int| 0 <= j < i implies (#[trigger] s[j]).end <= t by {
            if j < i - 1 {
                assert(s[j].end <= s[i - 1].start);
            }
        }
        assert(s[0].end <= t);
        lemma_covering(s, t, 0, i);
    }
    if now >= a.zero && t >= s.last().end {
        let n = s.len() - 1;
        assert forall|j: int| 0 <= j < n implies (#[trigger] s[j]).end <= t by {
            assert(s[j].end <= s[n].start);
        }
        if n > 0 {
            assert(s[0].end <= s[n].start);
        }
        lemma_covering(s, t, 0, n);
    }
}

/// An animation runs exactly until the end of its last segment, and stops at the value that this
/// segment leads to, all of the way.
pub proof fn law_animation_runs_to_its_end(a: AnimationView, now: u64)
    requires
        follow_one_another(a.segments),
        a.segments.last().end >= 0,
        a.zero + a.segments.last().end <= u64::MAX,
    ensures
        a.running(now) <==> 0 < a.segments.last().end && now < a.zero + a.segments.last().end,
        a.final_sample() is Some,
        ({
            let v = a.final_sample()->0;
            &&& v.key == a.key
            &&& v.from == a.segments.last().from
            &&& v.to == a.segments.last().to
            &&& v.easing == a.segments.last().easing
            &&& v.num == v.den
        }),
{
    let end = (a.zero + a.segments.last().end) as u64;
    law_time_between_segments(a, end, 0);
    let s = a.segments;
    let n = s.len() - 1;
    let t = s.last().end as int;
    assert forall|j: int| 0 <= j < n implies (#[trigger] s[j]).end <= t by {
        assert(s[j].end <= s[n].start);
    }
    if n > 0 {
        assert(s[0].end <= s[n].start);
    }
    lemma_covering(s, t, 0, n);
}

/// Every animation of a kind that runs is sampled, once, and nothing else is.
pub proof fn law_running_animations_are_sampled(
    list: Seq<AnimationView>,
    kind: PaintAnimationKind,
    now: u64,
)
    ensures
        forall|i: int|
            0 <= i < list.len() && (#[trigger] list[i]).kind == kind && list[i].running(now)
                ==> samples_of(list, kind, now).contains(list[i].sample(now)->0),
        forall|v: Sample| #[trigger]
            samples_of(list, kind, now).contains(v) ==> exists|i: int|
                0 <= i < list.len() && (#[trigger] list[i]).kind == kind && list[i].running(now)
                    && list[i].sample(now) == Some(v),
        samples_of(list, kind, now).len() == list.filter(
            |a: AnimationView| a.kind == kind && a.running(now),
        ).len(),
    decreases list.len(),
{
    reveal(Seq::filter);
    let all = samples_of(list, kind, now);
    if list.len() > 0 {
        let front = list.drop_last();
        law_running_animations_are_sampled(front, kind, now);
        let before = samples_of(front, kind, now);
        assert forall|i: int|
            0 <= i < list.len() && (#[trigger] list[i]).kind == kind && list[i].running(
                now,
            ) implies all.contains(list[i].sample(now)->0) by {
            if i < front.len() {
                assert(front[i] == list[i]);
                let k = choose|k: int| 0 <= k < before.len() && before[k] == list[i].sample(now)->0;
                assert(all[k] == before[k]);
            } else {
                assert(all.last() == list[i].sample(now)->0);
            }
        }
        assert forall|v: Sample| #[trigger] all.contains(v) implies exists|i: int|
            0 <= i < list.len() && (#[trigger] list[i]).kind == kind && list[i].running(now)
                && list[i].sample(now) == Some(v) by {
            let k = choose|k: int| 0 <= k < all.len() && all[k] == v;
            if k < before.len() {
                assert(before.contains(before[k]));
                let i = choose|i: int|
                    0 <= i < front.len() && (#[trigger] front[i]).kind == kind && front[i].running(
                        now,
                    ) && front[i].sample(now) == Some(v);
                assert(list[i] == front[i]);
            } else {
                assert(list[list.len() - 1].sample(now) == Some(v));
            }
        }
    }
}

/// Holding a value puts it among the held ones and takes nothing else away, but for the oldest one where
/// as many are held as may be.
pub proof fn law_held_value_is_there(list: Seq<Sample>, v: Sample, w: Sample)
    requires
        list.contains(w),
        w.key != v.key,
    ensures
        held_with(list, v).contains(v),
        has_key(list, v.key) || list.len() < MAX_HELD_PAINT_VALUES || list[0] != w ==> held_with(
            list,
            v,
        ).contains(w),
        forall|i: int|
            0 <= i < held_with(list, v).len() && (#[trigger] held_with(list, v)[i]).key == v.key
                ==> held_with(list, v)[i] == v || !has_key(list, v.key),
        has_key(list, v.key) ==> held_with(list, v).len() == list.len(),
        !has_key(list, v.key) && list.len() < MAX_HELD_PAINT_VALUES ==> held_with(list, v).len()
            == list.len() + 1,
        list.len() == MAX_HELD_PAINT_VALUES ==> held_with(list, v).len() == MAX_HELD_PAINT_VALUES,
{
    let after = held_with(list, v);
    let k = choose|k: int| 0 <= k < list.len() && list[k] == w;
    if has_key(list, v.key) {
        let i = choose|i: int| 0 <= i < list.len() && (#[trigger] list[i]).key == v.key;
        assert(after[i] == v);
        assert(after[k] == w);
    } else {
        assert(after[after.len() - 1] == v);
        if list.len() < MAX_HELD_PAINT_VALUES {
            assert(after[k] == w);
        } else if list[0] != w {
            assert(after[k - 1] == w);
        }
    }
}

/// The last value of every animation that is over is held, under its kind, as long as as many can be held:
/// the last one of those that drive the same key. Animations that run leave nothing.
pub proof fn law_every_finished_animation_is_held(
    held: HeldView,
    list: Seq<AnimationView>,
    now: u64,
    i: int,
    v: Sample,
)
    requires
        held.wf(),
        0 <= i < list.len(),
        !list[i].running(now),
        list[i].final_sample() == Some(v),
        held.of_kind(list[i].kind).len() + list.len() <= MAX_HELD_PAINT_VALUES,
        forall|j: int|
            i < j < list.len() ==> (#[trigger] list[j]).key != list[i].key || list[j].kind
                != list[i].kind,
        forall|j: int|
            0 <= j < list.len() ==> ((#[trigger] list[j]).final_sample() matches Some(w) ==> w.key
                == list[j].key),
    ensures
        held.all_settled(list, now).of_kind(list[i].kind).contains(v),
    decreases list.len(),
{
    let front = list.drop_last();
    let last = list.last();
    let mid = held.all_settled(front, now);
    let kind = list[i].kind;
    lemma_settled_grows(held, front, now, kind);
    let before = mid.of_kind(kind);
    if i < front.len() {
        assert forall|j: int| 0 <= j < front.len() implies ((
        #[trigger] front[j]).final_sample() matches Some(w) ==> w.key == front[j].key) by {
            assert(list[j] == front[j]);
        }
        assert(front[i] == list[i]);
        assert forall|j: int| i < j < front.len() implies (#[trigger] front[j]).key != front[i].key
            || front[j].kind != front[i].kind by {
            assert(list[j] == front[j]);
        }
        law_every_finished_animation_is_held(held, front, now, i, v);
        assert(list[list.len() - 1] == last);
        assert(v.key == list[i].key);
        if !last.running(now) {
            if let Some(w) = last.final_sample() {
                if last.kind == kind {
                    assert(w.key != v.key);
                    law_held_value_is_there(before, w, v);
                }
            }
        }
    } else {
        assert(list[i] == last);
        let after = held_with(before, v);
        if has_key(before, v.key) {
            let k = choose|k: int| 0 <= k < before.len() && (#[trigger] before[k]).key == v.key;
            assert(after[k] == v);
        } else {
            assert(after[after.len() - 1] == v);
        }
    }
}

proof fn lemma_settled_grows(
    held: HeldView,
    list: Seq<AnimationView>,
    now: u64,
    kind: PaintAnimationKind,
)
    ensures
        held.all_settled(list, now).of_kind(kind).len() <= held.of_kind(kind).len() + list.len(),
    decreases list.len(),
{
    if list.len() > 0 {
        lemma_settled_grows(held, list.drop_last(), now, kind);
    }
}

/// Animations that run leave the held values as they are.
pub proof fn law_running_animation_holds_nothing(held: HeldView, list: Seq<AnimationView>, now: u64)
    requires
        forall|i: int| 0 <= i < list.len() ==> (#[trigger] list[i]).running(now),
    ensures
        held.all_settled(list, now) == held,
    decreases list.len(),
{
    if list.len() > 0 {
        let front = list.drop_last();
        assert forall|i: int| 0 <= i < front.len() implies (#[trigger] front[i]).running(now) by {
            assert(list[i] == front[i]);
        }
        law_running_animation_holds_nothing(held, front, now);
        assert(list[list.len() - 1].running(now));
    }
}

/// What is sent holds each held value that nothing live stands for, and no held value beside a live
/// one.
pub proof fn law_held_values_are_sent(held: Seq<Sample>, live: Seq<Sample>, v: Sample)
    ensures
        not_live(held, live).contains(v) <==> held.contains(v) && forall|i: int|
            0 <= i < live.len() ==> (#[trigger] live[i]).key != v.key,
{
    lemma_filter_has(held, |x: Sample| !has_key(live, x.key), v);
}

/// An animation that came with a display list goes by the painter's clock: its timeline reads zero at its
/// offset from the moment at which the list came. One that would have begun before the clock did
/// begins at that moment. Everything else is taken over.
pub proof fn law_animation_starts_at_its_offset(a: PaintAnimation, received_at: u64, now: u64)
    requires
        received_at + a.offset_from_display_list <= u64::MAX,
    ensures
        ({
            let v = anchored(a, received_at);
            &&& v.kind == a.kind && v.key == a.key && v.segments == a.segments@ && v.complete
                == a.complete
            &&& received_at + a.offset_from_display_list >= 0 ==> v.zero == received_at
                + a.offset_from_display_list
            &&& received_at + a.offset_from_display_list < 0 ==> v.zero == received_at
        }),
{
}

/// What a list of animations drives is the kind and key of each of them.
pub proof fn law_driven_names_each_animation(list: Seq<PaintAnimation>, i: int)
    requires
        0 <= i < list.len(),
    ensures
        driven(list).len() == list.len(),
        driven(list)[i] == (list[i].kind, list[i].key),
{
}

/// Every caret that still blinks blinks once: it counts down by one, and shows its color where carets are
/// visible now, and at its last blink; else it shows none. One that is done is forgotten. Nothing else
/// of the pipelines changes.
pub proof fn law_carets_blink_once(list: Seq<PipelineView>, visible: bool)
    ensures
        all_blinked(list, visible).0.len() == list.len(),
        all_blinked(list, visible).1.len() <= list.len(),
        forall|i: int|
            #![trigger list[i]]
            #![trigger all_blinked(list, visible).0[i]]
            0 <= i < list.len() ==> {
                let after = all_blinked(list, visible).0[i];
                &&& after.paint == list[i].paint && after.held == list[i].held
                &&& list[i].caret is None ==> after.caret is None
                &&& list[i].caret matches Some(c) ==> if c.remaining_blink_count == 0 {
                    after.caret is None
                } else {
                    after.caret matches Some(d) && d.key == c.key && d.color == c.color
                        && d.remaining_blink_count == c.remaining_blink_count - 1
                }
            },
        forall|i: int|
            0 <= i < list.len() && (#[trigger] list[i]).caret is Some
                && list[i].caret->0.remaining_blink_count > 0 ==> all_blinked(
                list,
                visible,
            ).1.contains(
                CaretValue {
                    key: list[i].caret->0.key,
                    color: if visible || list[i].caret->0.remaining_blink_count == 1 {
                        Some(list[i].caret->0.color)
                    } else {
                        None
                    },
                },
            ),
        forall|k: int|
            0 <= k < all_blinked(list, visible).1.len() ==> shows_a_caret(
                list,
                #[trigger] all_blinked(list, visible).1[k],
            ),
    decreases list.len(),
{
    if list.len() > 0 {
        let front = list.drop_last();
        law_carets_blink_once(front, visible);
        let (rest, colors) = all_blinked(front, visible);
        let (after, all) = all_blinked(list, visible);
        assert forall|i: int|
            0 <= i < list.len() && (#[trigger] list[i]).caret is Some
                && list[i].caret->0.remaining_blink_count > 0 implies all.contains(
            CaretValue {
                key: list[i].caret->0.key,
                color: if visible || list[i].caret->0.remaining_blink_count == 1 {
                    Some(list[i].caret->0.color)
                } else {
                    None
                },
            },
        ) by {
            if i < front.len() {
                assert(front[i] == list[i]);
                let want = CaretValue {
                    key: list[i].caret->0.key,
                    color: if visible || list[i].caret->0.remaining_blink_count == 1 {
                        Some(list[i].caret->0.color)
                    } else {
                        None
                    },
                };
                let k = choose|k: int| 0 <= k < colors.len() && colors[k] == want;
                assert(all[k] == want);
            } else {
                assert(all[all.len() - 1].key == list[i].caret->0.key);
            }
        }
        assert forall|k: int| 0 <= k < all.len() implies shows_a_caret(list, #[trigger] all[k]) by {
            if k < colors.len() {
                assert(all[k] == colors[k]);
                let i = choose|i: int|
                    0 <= i < front.len() && (#[trigger] front[i]).caret is Some
                        && front[i].caret->0.key == colors[k].key;
                assert(list[i] == front[i]);
            } else {
                assert(list[list.len() - 1].caret->0.key == all[k].key);
            }
        }
        assert forall|i: int| #![trigger list[i]]
            #![trigger after[i]]
            0 <= i < list.len() implies {
            &&& after[i].paint == list[i].paint && after[i].held == list[i].held
            &&& list[i].caret is None ==> after[i].caret is None
            &&& list[i].caret matches Some(c) ==> if c.remaining_blink_count == 0 {
                after[i].caret is None
            } else {
                after[i].caret matches Some(d) && d.key == c.key && d.color == c.color
                    && d.remaining_blink_count == c.remaining_blink_count - 1
            }
        } by {
            if i < front.len() {
                assert(front[i] == list[i]);
                assert(after[i] == rest[i]);
            }
        }
    }
}

/// The color is that of some pipeline's caret.
pub open spec fn shows_a_caret(list: Seq<PipelineView>, v: CaretValue) -> bool {
    exists|i: int|
        0 <= i < list.len() && (#[trigger] list[i]).caret is Some && list[i].caret->0.key == v.key
}

} // verus!
