//! Animations that the painter plays on its own, and the blinking caret.
//!
//! Layout says how a property moves, segment by segment. Until the next display list comes, the
//! painter samples the segments by its own clock. Once an animation has run out, its last value is
//! held: a transaction that does not carry it would set the property back to where the animation
//! began.
//!
//! Values and easings are handles of the host; a sample says between which two values the property
//! stands and how far it has come. Times are nanoseconds.
use vstd::prelude::*;

verus! {

/// How many values of stopped animations a pipeline holds at most, for each kind of property.
pub const MAX_HELD_PAINT_VALUES: usize = 512;

/// How long a caret blinks, in milliseconds.
pub const CARET_BLINK_TIMEOUT_MS: u64 = 30_000;

#[derive(Clone, Copy, Debug, PartialEq, Eq, Structural)]
pub enum PaintAnimationKind {
    Opacity,
    Transform,
}

/// One segment of an animation, on the animation's own timeline.
#[derive(Clone, Copy, Debug, PartialEq, Eq, Structural)]
pub struct PaintAnimationSegment {
    pub start: i64,
    pub end: i64,
    pub from: u64,
    pub to: u64,
    pub easing: u64,
}

/// An animation as a display list brings it. Its timeline reads zero at an offset from the moment
/// at which the list comes.
#[derive(Debug)]
pub struct PaintAnimation {
    pub kind: PaintAnimationKind,
    pub key: u64,
    pub segments: Vec<PaintAnimationSegment>,
    pub offset_from_display_list: i64,
    pub complete: bool,
}

/// An animation by the painter's clock.
#[derive(Debug)]
pub struct ActivePaintAnimation {
    pub kind: PaintAnimationKind,
    pub key: u64,
    pub segments: Vec<PaintAnimationSegment>,
    /// When its timeline reads zero.
    pub zero: u64,
    pub complete: bool,
}

/// Where a property stands: the part `num / den` of the way between two values, before easing; all
/// of the way where `den` is not positive.
#[derive(Clone, Copy, Debug, PartialEq, Eq, Structural)]
pub struct Sample {
    pub key: u64,
    pub from: u64,
    pub to: u64,
    pub easing: u64,
    pub num: i128,
    pub den: i128,
}

/// An animation as a value.
#[verifier::ext_equal]
pub struct AnimationView {
    pub kind: PaintAnimationKind,
    pub key: u64,
    pub segments: Seq<PaintAnimationSegment>,
    pub zero: u64,
    pub complete: bool,
}

impl View for ActivePaintAnimation {
    type V = AnimationView;

    open spec fn view(&self) -> AnimationView {
        AnimationView {
            kind: self.kind,
            key: self.key,
            segments: self.segments@,
            zero: self.zero,
            complete: self.complete,
        }
    }
}

/// The time on an animation's timeline, which does not run before its zero.
pub open spec fn elapsed(zero: u64, now: u64) -> int {
    if now >= zero {
        now - zero
    } else {
        0
    }
}

/// The first segment from a position on that the time has not passed; the last one where it has
/// passed all.
pub open spec fn covering(s: Seq<PaintAnimationSegment>, t: int, from: int) -> int
    decreases s.len() - from,
{
    if from >= s.len() - 1 || t < s[from].end {
        from
    } else {
        covering(s, t, from + 1)
    }
}

/// The segment that covers a time: the first where the time is not past its start.
pub open spec fn segment_at(s: Seq<PaintAnimationSegment>, t: int) -> int {
    if t <= s[0].start {
        0
    } else {
        covering(s, t, 0)
    }
}

/// Where a property stands within a segment.
pub open spec fn sample_in(key: u64, s: PaintAnimationSegment, t: int) -> Sample {
    Sample {
        key,
        from: s.from,
        to: s.to,
        easing: s.easing,
        num: (t - s.start) as i128,
        den: (s.end - s.start) as i128,
    }
}

impl AnimationView {
    pub open spec fn running(self, now: u64) -> bool {
        self.segments.len() > 0 && elapsed(self.zero, now) < self.segments.last().end
    }

    /// The moment at which its timeline runs out.
    pub open spec fn ends_at(self) -> Option<u64> {
        if self.segments.len() == 0 || self.segments.last().end < 0 || self.zero
            + self.segments.last().end > u64::MAX {
            None
        } else {
            Some((self.zero + self.segments.last().end) as u64)
        }
    }

    pub open spec fn sample(self, now: u64) -> Option<Sample> {
        if self.segments.len() == 0 {
            None
        } else {
            let t = elapsed(self.zero, now);
            Some(sample_in(self.key, self.segments[segment_at(self.segments, t)], t))
        }
    }

    /// The value that it stops at.
    pub open spec fn final_sample(self) -> Option<Sample> {
        match self.ends_at() {
            Some(end) => self.sample(end),
            None => None,
        }
    }
}

/// A list holds a value for the key.
pub open spec fn has_key(list: Seq<Sample>, key: u64) -> bool {
    exists|i: int| 0 <= i < list.len() && (#[trigger] list[i]).key == key
}

/// No key stands twice.
pub open spec fn distinct_keys(list: Seq<Sample>) -> bool {
    forall|i: int, j: int|
        0 <= i < j < list.len() ==> (#[trigger] list[i]).key != (#[trigger] list[j]).key
}

/// The list with a value held: in place of the one of its key, or at the end, where the oldest
/// makes room once the list is full.
pub open spec fn held_with(list: Seq<Sample>, v: Sample) -> Seq<Sample> {
    if has_key(list, v.key) {
        list.map_values(
            |x: Sample|
                if x.key == v.key {
                    v
                } else {
                    x
                },
        )
    } else if list.len() >= MAX_HELD_PAINT_VALUES {
        list.remove(0).push(v)
    } else {
        list.push(v)
    }
}

/// Keys are distinct and the limit is kept; a key that is held keeps its place, and only its value
/// changes; a new one is the last, and the others keep their order, but for the oldest where the
/// list was full.
pub open spec fn held_exactly(before: Seq<Sample>, v: Sample, after: Seq<Sample>) -> bool {
    &&& distinct_keys(after)
    &&& after.len() <= MAX_HELD_PAINT_VALUES
    &&& if has_key(before, v.key) {
        &&& after.len() == before.len()
        &&& forall|i: int|
            0 <= i < before.len() ==> (#[trigger] after[i]) == (if before[i].key == v.key {
                v
            } else {
                before[i]
            })
    } else if before.len() < MAX_HELD_PAINT_VALUES {
        after == before.push(v)
    } else {
        after == before.drop_first().push(v)
    }
}

/// The held values as a value.
#[verifier::ext_equal]
pub struct HeldView {
    pub floats: Seq<Sample>,
    pub transforms: Seq<Sample>,
}

impl HeldView {
    pub open spec fn wf(self) -> bool {
        &&& distinct_keys(self.floats)
        &&& distinct_keys(self.transforms)
        &&& self.floats.len() <= MAX_HELD_PAINT_VALUES
        &&& self.transforms.len() <= MAX_HELD_PAINT_VALUES
    }

    /// The values that are held of one kind.
    pub open spec fn of_kind(self, kind: PaintAnimationKind) -> Seq<Sample> {
        match kind {
            PaintAnimationKind::Opacity => self.floats,
            PaintAnimationKind::Transform => self.transforms,
        }
    }

    pub open spec fn with(self, kind: PaintAnimationKind, v: Sample) -> HeldView {
        match kind {
            PaintAnimationKind::Opacity => HeldView { floats: held_with(self.floats, v), ..self },
            PaintAnimationKind::Transform => HeldView {
                transforms: held_with(self.transforms, v),
                ..self
            },
        }
    }

    /// The held values once an animation that is over left its last one.
    pub open spec fn settled(self, a: AnimationView) -> HeldView {
        match a.final_sample() {
            Some(v) => self.with(a.kind, v),
            None => self,
        }
    }

    /// The same for each of the animations that is over.
    pub open spec fn all_settled(self, list: Seq<AnimationView>, now: u64) -> HeldView
        decreases list.len(),
    {
        if list.len() == 0 {
            self
        } else {
            let rest = self.all_settled(list.drop_last(), now);
            if list.last().running(now) {
                rest
            } else {
                rest.settled(list.last())
            }
        }
    }

    pub open spec fn without(self, kind: PaintAnimationKind, key: u64) -> HeldView {
        match kind {
            PaintAnimationKind::Opacity => HeldView {
                floats: self.floats.filter(|x: Sample| x.key != key),
                ..self
            },
            PaintAnimationKind::Transform => HeldView {
                transforms: self.transforms.filter(|x: Sample| x.key != key),
                ..self
            },
        }
    }

    /// The held values without those that these animations drive again.
    pub open spec fn pruned(self, incoming: Seq<(PaintAnimationKind, u64)>) -> HeldView
        decreases incoming.len(),
    {
        if incoming.len() == 0 {
            self
        } else {
            self.pruned(incoming.drop_last()).without(incoming.last().0, incoming.last().1)
        }
    }
}

/// The samples of the animations of a kind that run, in order.
pub open spec fn samples_of(list: Seq<AnimationView>, kind: PaintAnimationKind, now: u64) -> Seq<
    Sample,
>
    decreases list.len(),
{
    if list.len() == 0 {
        Seq::empty()
    } else {
        let rest = samples_of(list.drop_last(), kind, now);
        let a = list.last();
        if a.kind == kind && a.running(now) {
            match a.sample(now) {
                Some(v) => rest.push(v),
                None => rest,
            }
        } else {
            rest
        }
    }
}

/// The held values that no live value stands for.
pub open spec fn not_live(held: Seq<Sample>, live: Seq<Sample>) -> Seq<Sample> {
    held.filter(|x: Sample| !has_key(live, x.key))
}

/// The list is the end of the other one, backwards, with so many entries.
pub open spec fn backwards<A>(list: Seq<A>, src: Seq<A>, n: int) -> bool {
    &&& list.len() == n
    &&& forall|k: int| 0 <= k < n ==> #[trigger] list[k] == src[src.len() - 1 - k]
}

fn contains_key(list: &[Sample], key: u64) -> (b: bool)
    ensures
        b == has_key(list@, key),
{
    let mut i: usize = 0;
    while i < list.len()
        invariant
            i <= list@.len(),
            forall|k: int| 0 <= k < i ==> (#[trigger] list@[k]).key != key,
        decreases list@.len() - i,
    {
        if list[i].key == key {
            return true;
        }
        i = i + 1;
    }
    false
}

/// Holds a value: in place of the one of its key, or at the end.
fn hold(list: &mut Vec<Sample>, value: Sample)
    requires
        distinct_keys(old(list)@),
        old(list)@.len() <= MAX_HELD_PAINT_VALUES,
    ensures
        final(list)@ == held_with(old(list)@, value),
        held_exactly(old(list)@, value, final(list)@),
        distinct_keys(final(list)@),
        final(list)@.len() <= MAX_HELD_PAINT_VALUES,
{
    let ghost before = list@;
    let mut i: usize = 0;
    while i < list.len()
        invariant
            i <= list@.len(),
            list@ == before,
            before == old(list)@,
            distinct_keys(before),
            before.len() <= MAX_HELD_PAINT_VALUES,
            forall|k: int| 0 <= k < i ==> (#[trigger] list@[k]).key != value.key,
        decreases list@.len() - i,
    {
        if list[i].key == value.key {
            list.set(i, value);
            proof {
                assert(has_key(before, value.key));
                assert(list@ =~= held_with(before, value));
            }
            return ;
        }
        i = i + 1;
    }
    assert(!has_key(before, value.key));
    if list.len() >= MAX_HELD_PAINT_VALUES {
        let _ = list.remove(0);
    }
    list.push(value);
    proof {
        assert(list@ =~= held_with(before, value));
        assert(before.len() >= MAX_HELD_PAINT_VALUES ==> list@ =~= before.drop_first().push(value));
        assert forall|a: int, b: int| 0 <= a < b < list@.len() implies (#[trigger] list@[a]).key
            != (#[trigger] list@[b]).key by {
            let shift: int = if before.len() >= MAX_HELD_PAINT_VALUES {
                1
            } else {
                0
            };
            assert(list@[a] == before[a + shift]);
            if b < list@.len() - 1 {
                assert(list@[b] == before[b + shift]);
            }
        }
    }
}

/// Takes the value of a key out.
fn drop_key(list: &mut Vec<Sample>, key: u64)
    requires
        distinct_keys(old(list)@),
    ensures
        final(list)@ == old(list)@.filter(|x: Sample| x.key != key),
        distinct_keys(final(list)@),
        final(list)@.len() <= old(list)@.len(),
{
    let ghost keep = |x: Sample| x.key != key;
    let mut out: Vec<Sample> = Vec::new();
    let mut i: usize = 0;
    proof {
        reveal(Seq::filter);
        assert(list@.take(0) =~= Seq::<Sample>::empty());
    }
    while i < list.len()
        invariant
            i <= list@.len(),
            list@ == old(list)@,
            distinct_keys(list@),
            keep == (|x: Sample| x.key != key),
            out@ == list@.take(i as int).filter(keep),
            out@.len() <= i,
            distinct_keys(out@),
            forall|k: int| #![trigger out@[k]]
                0 <= k < out@.len() ==> exists|l: int| 0 <= l < i && list@[l].key == out@[k].key,
        decreases list@.len() - i,
    {
        proof {
            reveal(Seq::filter);
            assert(list@.take(i + 1).drop_last() =~= list@.take(i as int));
        }
        let ghost sofar = out@;
        if list[i].key != key {
            let value = list[i];
            out.push(value);
            proof {
                assert forall|a: int, b: int| 0 <= a < b < out@.len() implies (
                #[trigger] out@[a]).key != (#[trigger] out@[b]).key by {
                    if b == sofar.len() {
                        let l = choose|l: int| 0 <= l < i && list@[l].key == sofar[a].key;
                        assert(list@[l].key != list@[i as int].key);
                        assert(out@[a] == sofar[a]);
                    } else {
                        assert(out@[a] == sofar[a] && out@[b] == sofar[b]);
                    }
                }
                assert forall|k: int| #![trigger out@[k]]
                    0 <= k < out@.len() implies exists|l: int|
                    0 <= l < i + 1 && list@[l].key == out@[k].key by {
                    if k == sofar.len() {
                        assert(list@[i as int].key == out@[k].key);
                    } else {
                        assert(out@[k] == sofar[k]);
                    }
                }
            }
        }
        i = i + 1;
    }
    assert(list@.take(i as int) =~= list@);
    *list = out;
}

/// Appends the held values that no live value stands for, and says how many.
fn append_not_live(live: &mut Vec<Sample>, held: &[Sample]) -> (n: usize)
    requires
        distinct_keys(held@),
    ensures
        final(live)@ == old(live)@ + not_live(held@, old(live)@),
        n == not_live(held@, old(live)@).len(),
{
    let ghost before = live@;
    let ghost keep = |x: Sample| !has_key(before, x.key);
    let mut appended: usize = 0;
    let mut i: usize = 0;
    proof {
        reveal(Seq::filter);
        assert(held@.take(0) =~= Seq::<Sample>::empty());
        assert(live@ =~= before + held@.take(0).filter(keep));
    }
    while i < held.len()
        invariant
            i <= held@.len(),
            distinct_keys(held@),
            before == old(live)@,
            keep == (|x: Sample| !has_key(before, x.key)),
            live@ == before + held@.take(i as int).filter(keep),
            appended == held@.take(i as int).filter(keep).len(),
            appended <= i,
            forall|k: int| #![trigger held@.take(i as int).filter(keep)[k]]
                0 <= k < held@.take(i as int).filter(keep).len() ==> exists|l: int|
                    0 <= l < i && held@[l].key == held@.take(i as int).filter(keep)[k].key,
        decreases held@.len() - i,
    {
        let ghost sofar = held@.take(i as int).filter(keep);
        proof {
            reveal(Seq::filter);
            assert(held@.take(i + 1).drop_last() =~= held@.take(i as int));
        }
        let value = held[i];
        let there: bool = contains_key(live, value.key);
        proof {
            if has_key(before, value.key) {
                let k = choose|k: int|
                    0 <= k < before.len() && (#[trigger] before[k]).key == value.key;
                assert(live@[k].key == value.key);
            }
            if has_key(live@, value.key) {
                let k = choose|k: int| 0 <= k < live@.len() && (#[trigger] live@[k]).key
                    == value.key;
                if k < before.len() {
                    assert(before[k].key == value.key);
                } else {
                    assert(live@[k] == sofar[k - before.len()]);
                    let l = choose|l: int|
                        0 <= l < i && held@[l].key == sofar[k - before.len()].key;
                    assert(held@[l].key != held@[i as int].key);
                    assert(false);
                }
            }
        }
        if !there {
            live.push(value);
            appended = appended + 1;
            proof {
                assert(live@ =~= before + sofar.push(value));
            }
        }
        proof {
            let now = held@.take(i + 1).filter(keep);
            assert forall|k: int| #![trigger now[k]]
                0 <= k < now.len() implies exists|l: int|
                0 <= l < i + 1 && held@[l].key == now[k].key by {
                if k < sofar.len() {
                    assert(now[k] == sofar[k]);
                } else {
                    assert(held@[i as int].key == now[k].key);
                }
            }
        }
        i = i + 1;
    }
    assert(held@.take(i as int) =~= held@);
    appended
}

impl ActivePaintAnimation {
    fn running(&self, now: u64) -> (b: bool)
        ensures
            b == self@.running(now),
    {
        let n: usize = self.segments.len();
        if n == 0 {
            return false;
        }
        let t: u64 = now.saturating_sub(self.zero);
        (t as i128) < (self.segments[n - 1].end as i128)
    }

    /// Where the property stands.
    fn sample(&self, now: u64) -> (r: Option<Sample>)
        ensures
            r == self@.sample(now),
    {
        let n: usize = self.segments.len();
        if n == 0 {
            return None;
        }
        let t: i128 = now.saturating_sub(self.zero) as i128;
        let mut at: usize = 0;
        if t > self.segments[0].start as i128 {
            while at + 1 < n && t >= self.segments[at].end as i128
                invariant
                    at < n == self.segments@.len(),
                    covering(self.segments@, t as int, at as int) == covering(
                        self.segments@,
                        t as int,
                        0,
                    ),
                decreases n - at,
            {
                at = at + 1;
            }
        }
        let s = self.segments[at];
        Some(
            Sample {
                key: self.key,
                from: s.from,
                to: s.to,
                easing: s.easing,
                num: t - s.start as i128,
                den: s.end as i128 - s.start as i128,
            },
        )
    }

    /// The value that the animation stops at. It is sampled at its very end: past the end an easing
    /// is not defined.
    fn sample_final(&self) -> (r: Option<Sample>)
        ensures
            r == self@.final_sample(),
    {
        let n: usize = self.segments.len();
        if n == 0 {
            return None;
        }
        let end: i64 = self.segments[n - 1].end;
        if end < 0 {
            return None;
        }
        match self.zero.checked_add(end as u64) {
            Some(at) => self.sample(at),
            None => None,
        }
    }
}

/// The last values of the animations that are over.
#[derive(Debug)]
pub struct HeldPaintValues {
    pub floats: Vec<Sample>,
    pub transforms: Vec<Sample>,
}

impl View for HeldPaintValues {
    type V = HeldView;

    open spec fn view(&self) -> HeldView {
        HeldView { floats: self.floats@, transforms: self.transforms@ }
    }
}

impl HeldPaintValues {
    /// Holds a value of an opacity: in place of the one of its key, or at the end, where the oldest
    /// one makes room once as many are held as may be.
    pub fn hold_float(&mut self, value: Sample)
        requires
            old(self)@.wf(),
        ensures
            final(self)@.wf(),
            final(self)@ == old(self)@.with(PaintAnimationKind::Opacity, value),
            held_exactly(old(self)@.floats, value, final(self)@.floats),
            final(self)@.transforms == old(self)@.transforms,
    {
        hold(&mut self.floats, value);
    }

    /// Holds a value of a transform, in the same way.
    pub fn hold_transform(&mut self, value: Sample)
        requires
            old(self)@.wf(),
        ensures
            final(self)@.wf(),
            final(self)@ == old(self)@.with(PaintAnimationKind::Transform, value),
            held_exactly(old(self)@.transforms, value, final(self)@.transforms),
            final(self)@.floats == old(self)@.floats,
    {
        hold(&mut self.transforms, value);
    }
}

/// The caret of a pipeline, and how often it still blinks.
#[derive(Clone, Copy, Debug, PartialEq, Eq, Structural)]
pub struct CaretAnimation {
    pub key: u64,
    pub color: u64,
    pub remaining_blink_count: u64,
}

/// The color of a caret: its own, or none.
#[derive(Clone, Copy, Debug, PartialEq, Eq, Structural)]
pub struct CaretValue {
    pub key: u64,
    pub color: Option<u64>,
}

impl CaretAnimation {
    pub open spec fn blinked(self, visible: bool) -> (CaretAnimation, Option<CaretValue>) {
        if self.remaining_blink_count == 0 {
            (self, None)
        } else {
            let left = (self.remaining_blink_count - 1) as u64;
            (
                CaretAnimation { remaining_blink_count: left, ..self },
                Some(
                    CaretValue {
                        key: self.key,
                        color: if visible || left == 0 {
                            Some(self.color)
                        } else {
                            None
                        },
                    },
                ),
            )
        }
    }

    /// The caret blinks once more, if it still does. The last blink leaves it visible.
    pub fn update(&mut self, caret_visible: bool) -> (r: Option<CaretValue>)
        ensures
            (*final(self), r) == old(self).blinked(caret_visible),
    {
        if self.remaining_blink_count == 0 {
            return None;
        }
        self.remaining_blink_count = self.remaining_blink_count - 1;
        let color: Option<u64> = if caret_visible || self.remaining_blink_count == 0 {
            Some(self.color)
        } else {
            None
        };
        Some(CaretValue { key: self.key, color })
    }
}

/// The animations of one pipeline.
#[derive(Debug)]
pub struct PipelineAnimations {
    pub caret: Option<CaretAnimation>,
    pub paint: Vec<ActivePaintAnimation>,
    pub held: HeldPaintValues,
}

/// The animations of a pipeline as a value.
#[verifier::ext_equal]
pub struct PipelineView {
    pub caret: Option<CaretAnimation>,
    pub paint: Seq<AnimationView>,
    pub held: HeldView,
}

pub open spec fn animation_views(list: Seq<ActivePaintAnimation>) -> Seq<AnimationView> {
    list.map_values(|a: ActivePaintAnimation| a@)
}

impl View for PipelineAnimations {
    type V = PipelineView;

    open spec fn view(&self) -> PipelineView {
        PipelineView {
            caret: self.caret,
            paint: animation_views(self.paint@),
            held: self.held@,
        }
    }
}

/// An animation that came with a display list, by the painter's clock.
pub open spec fn anchored(a: PaintAnimation, received_at: u64) -> AnimationView {
    AnimationView {
        kind: a.kind,
        key: a.key,
        segments: a.segments@,
        zero: if received_at + a.offset_from_display_list >= 0 {
            (received_at + a.offset_from_display_list) as u64
        } else {
            received_at
        },
        complete: a.complete,
    }
}

/// What the animations drive.
pub open spec fn driven(list: Seq<PaintAnimation>) -> Seq<(PaintAnimationKind, u64)> {
    list.map_values(|a: PaintAnimation| (a.kind, a.key))
}

impl PipelineView {
    pub open spec fn running(self, now: u64) -> Seq<AnimationView> {
        self.paint.filter(|a: AnimationView| a.running(now))
    }
}

impl PipelineAnimations {
    pub open spec fn wf(self) -> bool {
        self.held@.wf()
    }

    pub fn new() -> (p: PipelineAnimations)
        ensures
            p.wf(),
            p@ == (PipelineView {
                caret: None,
                paint: Seq::empty(),
                held: HeldView { floats: Seq::empty(), transforms: Seq::empty() },
            }),
    {
        let p = PipelineAnimations {
            caret: None,
            paint: Vec::new(),
            held: HeldPaintValues { floats: Vec::new(), transforms: Vec::new() },
        };
        assert(animation_views(p.paint@) =~= Seq::<AnimationView>::empty());
        p
    }

    /// Samples every animation that runs, behind what is there, and says whether any does. One that
    /// is over is sampled no more; its last value is held.
    pub fn update_paint_animations(
        &mut self,
        now: u64,
        floats: &mut Vec<Sample>,
        transforms: &mut Vec<Sample>,
    ) -> (playing: bool)
        requires
            old(self).wf(),
        ensures
            final(self).wf(),
            final(self)@ == (PipelineView {
                paint: old(self)@.running(now),
                held: old(self)@.held.all_settled(old(self)@.paint, now),
                ..old(self)@
            }),
            final(floats)@ == old(floats)@ + samples_of(
                old(self)@.paint,
                PaintAnimationKind::Opacity,
                now,
            ),
            final(transforms)@ == old(transforms)@ + samples_of(
                old(self)@.paint,
                PaintAnimationKind::Transform,
                now,
            ),
            playing == (old(self)@.running(now).len() > 0),
    {
        let ghost all = self@.paint;
        let ghost held0 = self@.held;
        let ghost test = |a: AnimationView| a.running(now);
        let mut before: Vec<ActivePaintAnimation> = Vec::new();
        core::mem::swap(&mut before, &mut self.paint);
        let ghost src = before@;
        let mut rest: Vec<ActivePaintAnimation> = Vec::new();
        while before.len() > 0
            invariant
                before@.len() <= src.len(),
                before@ == src.take(before@.len() as int),
                backwards(rest@, src, src.len() - before@.len()),
            decreases before@.len(),
        {
            let ghost b = before@;
            if let Some(animation) = before.pop() {
                proof {
                    assert(animation == src[b.len() - 1]);
                    assert(before@ =~= src.take(b.len() - 1));
                }
                rest.push(animation);
            }
        }
        let mut kept: Vec<ActivePaintAnimation> = Vec::new();
        let ghost mut done: int = 0;
        proof {
            reveal(Seq::filter);
            assert(all.take(0) =~= Seq::<AnimationView>::empty());
            assert(animation_views(kept@) =~= Seq::<AnimationView>::empty());
            assert(all =~= animation_views(src));
            assert(floats@ =~= old(floats)@ + samples_of(
                all.take(0),
                PaintAnimationKind::Opacity,
                now,
            ));
            assert(transforms@ =~= old(transforms)@ + samples_of(
                all.take(0),
                PaintAnimationKind::Transform,
                now,
            ));
        }
        while rest.len() > 0
            invariant
                0 <= done <= src.len(),
                backwards(rest@, src, src.len() - done),
                all == animation_views(src),
                test == (|a: AnimationView| a.running(now)),
                held0.all_settled(all.take(done), now) == self.held@,
                self.held@.wf(),
                self.caret == old(self).caret,
                animation_views(kept@) == all.take(done).filter(test),
                floats@ == old(floats)@ + samples_of(
                    all.take(done),
                    PaintAnimationKind::Opacity,
                    now,
                ),
                transforms@ == old(transforms)@ + samples_of(
                    all.take(done),
                    PaintAnimationKind::Transform,
                    now,
                ),
            decreases rest@.len(),
        {
            let ghost r = rest@;
            let ghost k0 = kept@;
            let ghost f0 = floats@;
            let ghost t0 = transforms@;
            proof {
                reveal(Seq::filter);
                assert(all.take(done + 1).drop_last() =~= all.take(done));
                assert(r[r.len() - 1] == src[done]);
            }
            if let Some(animation) = rest.pop() {
                proof {
                    assert(animation == src[done]);
                    assert(all.take(done + 1).last() == animation@);
                }
                if animation.running(now) {
                    if let Some(value) = animation.sample(now) {
                        match animation.kind {
                            PaintAnimationKind::Opacity => {
                                floats.push(value);
                            },
                            PaintAnimationKind::Transform => {
                                transforms.push(value);
                            },
                        }
                    }
                    kept.push(animation);
                    proof {
                        assert(animation_views(kept@) =~= animation_views(k0).push(animation@));
                    }
                } else {
                    if let Some(value) = animation.sample_final() {
                        match animation.kind {
                            PaintAnimationKind::Opacity => {
                                self.held.hold_float(value);
                            },
                            PaintAnimationKind::Transform => {
                                self.held.hold_transform(value);
                            },
                        }
                    }
                }
                proof {
                    assert(floats@ =~= old(floats)@ + samples_of(
                        all.take(done + 1),
                        PaintAnimationKind::Opacity,
                        now,
                    ));
                    assert(transforms@ =~= old(transforms)@ + samples_of(
                        all.take(done + 1),
                        PaintAnimationKind::Transform,
                        now,
                    ));
                    done = done + 1;
                }
            }
        }
        assert(all.take(done) =~= all);
        self.paint = kept;
        proof {
            assert(animation_views(kept@).len() == kept@.len());
        }
        self.paint.len() > 0
    }

    /// Appends the held values whose keys nothing animates now, and says how many. Nothing is sent
    /// for their sake alone.
    pub fn append_held_paint_values(
        &self,
        floats: &mut Vec<Sample>,
        transforms: &mut Vec<Sample>,
    ) -> (n: usize)
        requires
            self.wf(),
        ensures
            final(floats)@ == old(floats)@ + not_live(self@.held.floats, old(floats)@),
            final(transforms)@ == old(transforms)@ + not_live(
                self@.held.transforms,
                old(transforms)@,
            ),
            n == not_live(self@.held.floats, old(floats)@).len() + not_live(
                self@.held.transforms,
                old(transforms)@,
            ).len(),
    {
        let ghost f = not_live(self@.held.floats, floats@);
        let ghost t = not_live(self@.held.transforms, transforms@);
        proof {
            lemma_filter_len(self@.held.floats, |x: Sample| !has_key(floats@, x.key));
            lemma_filter_len(self@.held.transforms, |x: Sample| !has_key(transforms@, x.key));
        }
        let a: usize = append_not_live(floats, &self.held.floats);
        let b: usize = append_not_live(transforms, &self.held.transforms);
        a + b
    }

    pub fn has_paint_animations(&self) -> (b: bool)
        ensures
            b == (self@.paint.len() > 0),
    {
        self.paint.len() > 0
    }

    /// Takes in what a new display list animates, in place of what was played before. Held values
    /// that the list drives again are dropped, and no others: the scene that is on screen may still
    /// use them.
    pub fn install_paint_animations(&mut self, incoming: Vec<PaintAnimation>, received_at: u64)
        requires
            old(self).wf(),
            forall|i: int|
                0 <= i < incoming@.len() ==> received_at + (
                #[trigger] incoming@[i]).offset_from_display_list <= u64::MAX,
        ensures
            final(self).wf(),
            final(self)@ == (PipelineView {
                paint: incoming@.map_values(|a: PaintAnimation| anchored(a, received_at)),
                held: old(self)@.held.pruned(driven(incoming@)),
                ..old(self)@
            }),
    {
        let ghost src = incoming@;
        let ghost held0 = self@.held;
        let mut incoming = incoming;
        let mut rest: Vec<PaintAnimation> = Vec::new();
        while incoming.len() > 0
            invariant
                incoming@.len() <= src.len(),
                incoming@ == src.take(incoming@.len() as int),
                backwards(rest@, src, src.len() - incoming@.len()),
            decreases incoming@.len(),
        {
            let ghost b = incoming@;
            if let Some(animation) = incoming.pop() {
                proof {
                    assert(animation == src[b.len() - 1]);
                    assert(incoming@ =~= src.take(b.len() - 1));
                }
                rest.push(animation);
            }
        }
        let mut out: Vec<ActivePaintAnimation> = Vec::new();
        let ghost mut done: int = 0;
        proof {
            assert(driven(src).take(0) =~= Seq::<(PaintAnimationKind, u64)>::empty());
            assert(animation_views(out@) =~= src.map_values(
                |a: PaintAnimation| anchored(a, received_at),
            ).take(0));
        }
        while rest.len() > 0
            invariant
                0 <= done <= src.len(),
                backwards(rest@, src, src.len() - done),
                forall|i: int|
                    0 <= i < src.len() ==> received_at + (
                    #[trigger] src[i]).offset_from_display_list <= u64::MAX,
                self.held@.wf(),
                self.caret == old(self).caret,
                self.held@ == held0.pruned(driven(src).take(done)),
                animation_views(out@) == src.map_values(
                    |a: PaintAnimation| anchored(a, received_at),
                ).take(done),
            decreases rest@.len(),
        {
            let ghost r = rest@;
            let ghost o0 = out@;
            proof {
                assert(r[r.len() - 1] == src[done]);
                assert(driven(src).take(done + 1).drop_last() =~= driven(src).take(done));
            }
            if let Some(animation) = rest.pop() {
                proof {
                    assert(animation == src[done]);
                }
                match animation.kind {
                    PaintAnimationKind::Opacity => {
                        drop_key(&mut self.held.floats, animation.key);
                    },
                    PaintAnimationKind::Transform => {
                        drop_key(&mut self.held.transforms, animation.key);
                    },
                }
                let zero: u64;
                if animation.offset_from_display_list <= 0 {
                    let back: u64 = (0 - animation.offset_from_display_list as i128) as u64;
                    zero = match received_at.checked_sub(back) {
                        Some(at) => at,
                        None => received_at,
                    };
                } else {
                    zero = received_at + animation.offset_from_display_list as u64;
                }
                let active = ActivePaintAnimation {
                    kind: animation.kind,
                    key: animation.key,
                    segments: animation.segments,
                    zero,
                    complete: animation.complete,
                };
                proof {
                    assert(active@ == anchored(animation, received_at));
                }
                out.push(active);
                proof {
                    let want = src.map_values(|a: PaintAnimation| anchored(a, received_at));
                    assert(want[done] == active@);
                    assert(animation_views(out@) =~= animation_views(o0).push(active@));
                    assert(want.take(done + 1) =~= want.take(done).push(active@));
                    done = done + 1;
                }
            }
        }
        proof {
            assert(driven(src).take(done) =~= driven(src));
            assert(src.map_values(|a: PaintAnimation| anchored(a, received_at)).take(done)
                =~= src.map_values(|a: PaintAnimation| anchored(a, received_at)));
        }
        self.paint = out;
    }

    /// The caret of the pipeline blinks once more. One that is done is forgotten.
    pub fn update(&mut self, caret_visible: bool) -> (r: Option<CaretValue>)
        requires
            old(self).wf(),
        ensures
            final(self).wf(),
            match old(self)@.caret {
                None => r is None && final(self)@ == old(self)@,
                Some(caret) => r == caret.blinked(caret_visible).1 && final(self)@ == (
                PipelineView {
                    caret: if r is Some {
                        Some(caret.blinked(caret_visible).0)
                    } else {
                        None
                    },
                    ..old(self)@
                }),
            },
    {
        match self.caret {
            None => None,
            Some(mut caret) => {
                let r = caret.update(caret_visible);
                if r.is_some() {
                    self.caret = Some(caret);
                } else {
                    self.caret = None;
                }
                r
            },
        }
    }

    /// A display list comes, with a caret or without. Where carets blink, with this time between
    /// blinks, the caret starts to blink anew; the answer says whether the blink timer is needed.
    pub fn handle_new_display_list(
        &mut self,
        caret: Option<(u64, u64)>,
        blink_time_ms: Option<u64>,
    ) -> (needs_timer: bool)
        requires
            old(self).wf(),
            blink_time_ms != Some(0u64),
        ensures
            final(self).wf(),
            final(self)@ == (PipelineView {
                caret: match blink_time_ms {
                    None => old(self)@.caret,
                    Some(ms) => match caret {
                        Some((key, color)) => Some(
                            CaretAnimation {
                                key,
                                color,
                                remaining_blink_count: CARET_BLINK_TIMEOUT_MS / ms,
                            },
                        ),
                        None => None,
                    },
                },
                ..old(self)@
            }),
            needs_timer == (blink_time_ms is Some && caret is Some),
    {
        let ms: u64 = match blink_time_ms {
            None => {
                return false;
            },
            Some(ms) => ms,
        };
        match caret {
            Some((key, color)) => {
                self.caret = Some(
                    CaretAnimation {
                        key,
                        color,
                        remaining_blink_count: CARET_BLINK_TIMEOUT_MS / ms,
                    },
                );
                true
            },
            None => {
                self.caret = None;
                false
            },
        }
    }
}

proof fn lemma_filter_len(s: Seq<Sample>, keep: spec_fn(Sample) -> bool)
    ensures
        s.filter(keep).len() <= s.len(),
    decreases s.len(),
{
    reveal(Seq::filter);
    if s.len() > 0 {
        lemma_filter_len(s.drop_last(), keep);
    }
}

} // verus!
