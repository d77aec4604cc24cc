//! Exact region arithmetic on lists of rectangles.
//!
//! A region is a list of rectangles and stands for the pixels that lie in any of them. The
//! subtraction is exact: a difference that is too wide would leave stale pixels behind, and one
//! that is too narrow would overwrite new content with old.
use vstd::prelude::*;

use crate::geometry::{DeviceIntPoint, DeviceIntRect};

verus! {

/// Whether the pixel `(x, y)` lies in some rectangle of the list.
pub open spec fn region_has(rects: Seq<DeviceIntRect>, x: int, y: int) -> bool {
    exists|i: int| 0 <= i < rects.len() && (#[trigger] rects[i]).has(x, y)
}

/// No rectangle of the list is empty.
pub open spec fn all_solid(rects: Seq<DeviceIntRect>) -> bool {
    forall|i: int| 0 <= i < rects.len() ==> !(#[trigger] rects[i]).empty()
}

/// No pixel lies in two rectangles of the list.
pub open spec fn disjoint(rects: Seq<DeviceIntRect>) -> bool {
    forall|i: int, j: int, x: int, y: int|
        0 <= i < j < rects.len() ==> !(#[trigger] rects[i].has(x, y) && #[trigger] rects[j].has(
            x,
            y,
        ))
}

/// The list with its empty rectangles left out.
pub open spec fn solid_part(rects: Seq<DeviceIntRect>) -> Seq<DeviceIntRect>
    decreases rects.len(),
{
    if rects.len() == 0 {
        rects
    } else if rects.last().empty() {
        solid_part(rects.drop_last())
    } else {
        solid_part(rects.drop_last()).push(rects.last())
    }
}

/// The rectangle as a list of one, or no rectangle where `keep` is false.
pub open spec fn only_if(keep: bool, rect: DeviceIntRect) -> Seq<DeviceIntRect> {
    if keep {
        seq![rect]
    } else {
        seq![]
    }
}

pub open spec fn rect_of(x0: i32, y0: i32, x1: i32, y1: i32) -> DeviceIntRect {
    DeviceIntRect { min: DeviceIntPoint { x: x0, y: y0 }, max: DeviceIntPoint { x: x1, y: y1 } }
}

/// What is left of `minuend` without `sub`: the band above the common part, the band below it,
/// and the pieces to its left and right.
pub open spec fn bands(minuend: DeviceIntRect, sub: DeviceIntRect) -> Seq<DeviceIntRect> {
    let ix = minuend.meet(sub);
    if ix.empty() {
        seq![minuend]
    } else {
        only_if(
            minuend.min.y < ix.min.y,
            rect_of(minuend.min.x, minuend.min.y, minuend.max.x, ix.min.y),
        ) + only_if(
            ix.max.y < minuend.max.y,
            rect_of(minuend.min.x, ix.max.y, minuend.max.x, minuend.max.y),
        ) + only_if(
            minuend.min.x < ix.min.x,
            rect_of(minuend.min.x, ix.min.y, ix.min.x, ix.max.y),
        ) + only_if(
            ix.max.x < minuend.max.x,
            rect_of(ix.max.x, ix.min.y, minuend.max.x, ix.max.y),
        )
    }
}

/// Every rectangle of the list replaced by its bands without `sub`.
pub open spec fn without(rects: Seq<DeviceIntRect>, sub: DeviceIntRect) -> Seq<DeviceIntRect>
    decreases rects.len(),
{
    if rects.len() == 0 {
        seq![]
    } else {
        without(rects.drop_last(), sub) + bands(rects.last(), sub)
    }
}

/// The solid part of `minuend` with each rectangle of `subs` taken away in turn.
pub open spec fn without_all(
    minuend: Seq<DeviceIntRect>,
    subs: Seq<DeviceIntRect>,
) -> Seq<DeviceIntRect>
    decreases subs.len(),
{
    if subs.len() == 0 {
        solid_part(minuend)
    } else {
        without(without_all(minuend, subs.drop_last()), subs.last())
    }
}

/// The bounding rectangle of a list that is not empty.
pub open spec fn bounding(rects: Seq<DeviceIntRect>) -> DeviceIntRect
    recommends
        rects.len() > 0,
    decreases rects.len(),
{
    if rects.len() <= 1 {
        rects[0]
    } else {
        bounding(rects.drop_last()).join(rects.last())
    }
}

/// A list over the limit collapses to its bounding rectangle.
pub open spec fn collapsed(rects: Seq<DeviceIntRect>, limit: int) -> Seq<DeviceIntRect> {
    if rects.len() <= limit {
        rects
    } else {
        seq![bounding(rects)]
    }
}

/// The parts of the rectangles inside `full`, without those that lie outside it.
pub open spec fn clipped_to(rects: Seq<DeviceIntRect>, full: DeviceIntRect) -> Seq<DeviceIntRect>
    decreases rects.len(),
{
    if rects.len() == 0 {
        seq![]
    } else if rects.last().meet(full).empty() {
        clipped_to(rects.drop_last(), full)
    } else {
        clipped_to(rects.drop_last(), full).push(rects.last().meet(full))
    }
}

proof fn lemma_region_add(a: Seq<DeviceIntRect>, b: Seq<DeviceIntRect>, x: int, y: int)
    ensures
        region_has(a + b, x, y) <==> region_has(a, x, y) || region_has(b, x, y),
{
    if region_has(a, x, y) {
        let i = choose|i: int| 0 <= i < a.len() && (#[trigger] a[i]).has(x, y);
        assert((a + b)[i].has(x, y));
    }
    if region_has(b, x, y) {
        let i = choose|i: int| 0 <= i < b.len() && (#[trigger] b[i]).has(x, y);
        assert((a + b)[a.len() + i].has(x, y));
    }
    if region_has(a + b, x, y) {
        let i = choose|i: int| 0 <= i < (a + b).len() && (#[trigger] (a + b)[i]).has(x, y);
        if i < a.len() {
            assert(a[i].has(x, y));
        } else {
            assert(b[i - a.len()].has(x, y));
        }
    }
}

proof fn lemma_only_if(keep: bool, rect: DeviceIntRect, x: int, y: int)
    ensures
        region_has(only_if(keep, rect), x, y) <==> keep && rect.has(x, y),
{
    if keep && rect.has(x, y) {
        assert(only_if(keep, rect)[0].has(x, y));
    }
}

/// The bands hold exactly the pixels of the minuend that the subtrahend does not hold.
pub proof fn law_bands_are_exact(minuend: DeviceIntRect, sub: DeviceIntRect, x: int, y: int)
    ensures
        region_has(bands(minuend, sub), x, y) <==> minuend.has(x, y) && !sub.has(x, y),
{
    let ix = minuend.meet(sub);
    if ix.empty() {
        assert(!ix.has(x, y));
        assert(bands(minuend, sub)[0] == minuend);
    } else {
        let top = only_if(
            minuend.min.y < ix.min.y,
            rect_of(minuend.min.x, minuend.min.y, minuend.max.x, ix.min.y),
        );
        let bottom = only_if(
            ix.max.y < minuend.max.y,
            rect_of(minuend.min.x, ix.max.y, minuend.max.x, minuend.max.y),
        );
        let left = only_if(
            minuend.min.x < ix.min.x,
            rect_of(minuend.min.x, ix.min.y, ix.min.x, ix.max.y),
        );
        let right = only_if(
            ix.max.x < minuend.max.x,
            rect_of(ix.max.x, ix.min.y, minuend.max.x, ix.max.y),
        );
        lemma_only_if(
            minuend.min.y < ix.min.y,
            rect_of(minuend.min.x, minuend.min.y, minuend.max.x, ix.min.y),
            x,
            y,
        );
        lemma_only_if(
            ix.max.y < minuend.max.y,
            rect_of(minuend.min.x, ix.max.y, minuend.max.x, minuend.max.y),
            x,
            y,
        );
        lemma_only_if(
            minuend.min.x < ix.min.x,
            rect_of(minuend.min.x, ix.min.y, ix.min.x, ix.max.y),
            x,
            y,
        );
        lemma_only_if(
            ix.max.x < minuend.max.x,
            rect_of(ix.max.x, ix.min.y, minuend.max.x, ix.max.y),
            x,
            y,
        );
        lemma_region_add(top, bottom, x, y);
        lemma_region_add(top + bottom, left, x, y);
        lemma_region_add(top + bottom + left, right, x, y);
    }
}

/// The bands of a solid minuend are solid and pairwise disjoint, and at most four.
pub proof fn law_bands_are_disjoint(minuend: DeviceIntRect, sub: DeviceIntRect)
    ensures
        bands(minuend, sub).len() <= 4,
        disjoint(bands(minuend, sub)),
        !minuend.empty() ==> all_solid(bands(minuend, sub)),
{
}

proof fn lemma_without_exact(rects: Seq<DeviceIntRect>, sub: DeviceIntRect, x: int, y: int)
    ensures
        region_has(without(rects, sub), x, y) <==> region_has(rects, x, y) && !sub.has(x, y),
    decreases rects.len(),
{
    if rects.len() > 0 {
        lemma_without_exact(rects.drop_last(), sub, x, y);
        law_bands_are_exact(rects.last(), sub, x, y);
        lemma_region_add(without(rects.drop_last(), sub), bands(rects.last(), sub), x, y);
        lemma_region_add(rects.drop_last(), seq![rects.last()], x, y);
        lemma_only_if(true, rects.last(), x, y);
        assert(rects.drop_last() + seq![rects.last()] =~= rects);
    }
}

proof fn lemma_without_disjoint(rects: Seq<DeviceIntRect>, sub: DeviceIntRect)
    requires
        disjoint(rects),
    ensures
        disjoint(without(rects, sub)),
    decreases rects.len(),
{
    if rects.len() > 0 {
        let front = rects.drop_last();
        let a = without(front, sub);
        let b = bands(rects.last(), sub);
        assert(disjoint(front));
        lemma_without_disjoint(front, sub);
        law_bands_are_disjoint(rects.last(), sub);
        assert forall|i: int, j: int, x: int, y: int| 0 <= i < j < (a + b).len() implies !(
        #[trigger] (a + b)[i].has(x, y) && #[trigger] (a + b)[j].has(x, y)) by {
            if (a + b)[i].has(x, y) && (a + b)[j].has(x, y) {
                if j < a.len() {
                    assert(a[i].has(x, y) && a[j].has(x, y));
                } else if i >= a.len() {
                    assert(b[i - a.len()].has(x, y) && b[j - a.len()].has(x, y));
                } else {
                    assert(a[i].has(x, y));
                    assert(b[j - a.len()].has(x, y));
                    lemma_without_exact(front, sub, x, y);
                    law_bands_are_exact(rects.last(), sub, x, y);
                    let k = choose|k: int| 0 <= k < front.len() && (#[trigger] front[k]).has(x, y);
                    assert(rects[k].has(x, y));
                    assert(rects[rects.len() - 1].has(x, y));
                }
            }
        }
    }
}

proof fn lemma_without_solid(rects: Seq<DeviceIntRect>, sub: DeviceIntRect)
    requires
        all_solid(rects),
    ensures
        all_solid(without(rects, sub)),
    decreases rects.len(),
{
    if rects.len() > 0 {
        lemma_without_solid(rects.drop_last(), sub);
        law_bands_are_disjoint(rects.last(), sub);
    }
}

proof fn lemma_solid_part(rects: Seq<DeviceIntRect>, x: int, y: int)
    ensures
        all_solid(solid_part(rects)),
        region_has(solid_part(rects), x, y) <==> region_has(rects, x, y),
    decreases rects.len(),
{
    if rects.len() > 0 {
        let front = rects.drop_last();
        lemma_solid_part(front, x, y);
        lemma_region_add(front, seq![rects.last()], x, y);
        lemma_only_if(true, rects.last(), x, y);
        assert(front + seq![rects.last()] =~= rects);
        lemma_region_add(solid_part(front), seq![rects.last()], x, y);
        assert(solid_part(front) + seq![rects.last()] =~= solid_part(front).push(rects.last()));
    }
}

proof fn lemma_solid_part_disjoint(rects: Seq<DeviceIntRect>)
    requires
        disjoint(rects),
    ensures
        disjoint(solid_part(rects)),
    decreases rects.len(),
{
    if rects.len() > 0 {
        let front = rects.drop_last();
        assert(disjoint(front));
        lemma_solid_part_disjoint(front);
        let s = solid_part(front);
        let t = s.push(rects.last());
        assert forall|i: int, j: int, x: int, y: int| 0 <= i < j < t.len() implies !(
        #[trigger] t[i].has(x, y) && #[trigger] t[j].has(x, y)) by {
            if t[i].has(x, y) && t[j].has(x, y) && j == s.len() {
                assert(s[i].has(x, y));
                lemma_solid_part(front, x, y);
                let k = choose|k: int| 0 <= k < front.len() && (#[trigger] front[k]).has(x, y);
                assert(rects[k].has(x, y));
                assert(rects[rects.len() - 1].has(x, y));
            } else if t[i].has(x, y) && t[j].has(x, y) {
                assert(s[i].has(x, y) && s[j].has(x, y));
            }
        }
    }
}

/// Region subtraction is exact: the difference holds a pixel exactly where the minuend holds it
/// and the subtrahend does not. No rectangle of it is empty.
pub proof fn law_region_difference(
    minuend: Seq<DeviceIntRect>,
    subs: Seq<DeviceIntRect>,
    x: int,
    y: int,
)
    ensures
        region_has(without_all(minuend, subs), x, y) <==> region_has(minuend, x, y) && !region_has(
            subs,
            x,
            y,
        ),
        all_solid(without_all(minuend, subs)),
    decreases subs.len(),
{
    if subs.len() == 0 {
        lemma_solid_part(minuend, x, y);
    } else {
        let front = subs.drop_last();
        law_region_difference(minuend, front, x, y);
        lemma_without_exact(without_all(minuend, front), subs.last(), x, y);
        lemma_without_solid(without_all(minuend, front), subs.last());
        lemma_region_add(front, seq![subs.last()], x, y);
        lemma_only_if(true, subs.last(), x, y);
        assert(front + seq![subs.last()] =~= subs);
    }
}

/// Subtracting from a list of pairwise disjoint rectangles gives pairwise disjoint rectangles.
pub proof fn law_difference_stays_disjoint(
    minuend: Seq<DeviceIntRect>,
    subs: Seq<DeviceIntRect>,
)
    requires
        disjoint(minuend),
    ensures
        disjoint(without_all(minuend, subs)),
    decreases subs.len(),
{
    if subs.len() == 0 {
        lemma_solid_part_disjoint(minuend);
    } else {
        law_difference_stays_disjoint(minuend, subs.drop_last());
        lemma_without_disjoint(without_all(minuend, subs.drop_last()), subs.last());
    }
}

/// The bounding rectangle holds every pixel of the list: collapsing a list only widens it.
pub proof fn law_bounding_covers(rects: Seq<DeviceIntRect>, x: int, y: int)
    requires
        rects.len() > 0,
        region_has(rects, x, y),
    ensures
        bounding(rects).has(x, y),
    decreases rects.len(),
{
    let i = choose|i: int| 0 <= i < rects.len() && (#[trigger] rects[i]).has(x, y);
    if rects.len() > 1 && i < rects.len() - 1 {
        assert(rects.drop_last()[i].has(x, y));
        law_bounding_covers(rects.drop_last(), x, y);
    }
}

/// Collapsing an oversized list keeps every pixel of it.
pub proof fn law_collapse_only_widens(rects: Seq<DeviceIntRect>, limit: int, x: int, y: int)
    requires
        limit >= 0,
        region_has(rects, x, y),
    ensures
        region_has(collapsed(rects, limit), x, y),
        collapsed(rects, limit).len() <= limit || collapsed(rects, limit).len() == 1,
{
    if rects.len() > limit {
        law_bounding_covers(rects, x, y);
        assert(collapsed(rects, limit)[0].has(x, y));
    }
}

/// The pieces of `minuend` outside `sub`: at most four bands.
pub fn subtract_rect(minuend: DeviceIntRect, sub: DeviceIntRect) -> (out: Vec<DeviceIntRect>)
    ensures
        out@ == bands(minuend, sub),
{
    let ix = match minuend.intersection(&sub) {
        Some(ix) => ix,
        None => {
            let mut out: Vec<DeviceIntRect> = Vec::new();
            out.push(minuend);
            return out;
        },
    };
    let mut out: Vec<DeviceIntRect> = Vec::new();
    if minuend.min.y < ix.min.y {
        out.push(
            DeviceIntRect::new(
                DeviceIntPoint::new(minuend.min.x, minuend.min.y),
                DeviceIntPoint::new(minuend.max.x, ix.min.y),
            ),
        );
    }
    if ix.max.y < minuend.max.y {
        out.push(
            DeviceIntRect::new(
                DeviceIntPoint::new(minuend.min.x, ix.max.y),
                DeviceIntPoint::new(minuend.max.x, minuend.max.y),
            ),
        );
    }
    if minuend.min.x < ix.min.x {
        out.push(
            DeviceIntRect::new(
                DeviceIntPoint::new(minuend.min.x, ix.min.y),
                DeviceIntPoint::new(ix.min.x, ix.max.y),
            ),
        );
    }
    if ix.max.x < minuend.max.x {
        out.push(
            DeviceIntRect::new(
                DeviceIntPoint::new(ix.max.x, ix.min.y),
                DeviceIntPoint::new(minuend.max.x, ix.max.y),
            ),
        );
    }
    out
}

/// Takes every rectangle of `subtrahend` away in turn. Empty and inverted rectangles vanish.
pub fn region_subtract(
    minuend: &[DeviceIntRect],
    subtrahend: &[DeviceIntRect],
) -> (out: Vec<DeviceIntRect>)
    ensures
        out@ == without_all(minuend@, subtrahend@),
        forall|x: int, y: int|
            region_has(out@, x, y) <==> region_has(minuend@, x, y) && !region_has(
                subtrahend@,
                x,
                y,
            ),
        all_solid(out@),
{
    let mut acc: Vec<DeviceIntRect> = Vec::new();
    let mut i: usize = 0;
    while i < minuend.len()
        invariant
            i <= minuend.len(),
            acc@ == solid_part(minuend@.take(i as int)),
        decreases minuend.len() - i,
    {
        proof {
            assert(minuend@.take(i + 1).drop_last() =~= minuend@.take(i as int));
        }
        if !minuend[i].is_empty() {
            acc.push(minuend[i]);
        }
        i = i + 1;
    }
    proof {
        assert(minuend@.take(minuend@.len() as int) =~= minuend@);
        assert(subtrahend@.take(0).len() == 0);
    }
    let mut s: usize = 0;
    while s < subtrahend.len()
        invariant
            s <= subtrahend.len(),
            acc@ == without_all(minuend@, subtrahend@.take(s as int)),
        decreases subtrahend.len() - s,
    {
        let sub = subtrahend[s];
        let mut next: Vec<DeviceIntRect> = Vec::new();
        let mut k: usize = 0;
        proof {
            assert(acc@.take(0).len() == 0);
        }
        while k < acc.len()
            invariant
                k <= acc.len(),
                next@ == without(acc@.take(k as int), sub),
            decreases acc.len() - k,
        {
            let mut pieces = subtract_rect(acc[k], sub);
            next.append(&mut pieces);
            proof {
                assert(acc@.take(k + 1).drop_last() =~= acc@.take(k as int));
            }
            k = k + 1;
        }
        proof {
            assert(acc@.take(acc@.len() as int) =~= acc@);
            assert(subtrahend@.take(s + 1).drop_last() =~= subtrahend@.take(s as int));
        }
        acc = next;
        s = s + 1;
    }
    proof {
        assert(subtrahend@.take(subtrahend@.len() as int) =~= subtrahend@);
        assert forall|x: int, y: int|
            region_has(acc@, x, y) <==> region_has(minuend@, x, y) && !region_has(
                subtrahend@,
                x,
                y,
            ) by {
            law_region_difference(minuend@, subtrahend@, x, y);
        }
        law_region_difference(minuend@, subtrahend@, 0, 0);
    }
    acc
}

/// The bounding rectangle of the list, `None` for the empty list.
pub fn bounding_union(rects: &[DeviceIntRect]) -> (r: Option<DeviceIntRect>)
    ensures
        r == (if rects@.len() == 0 { None::<DeviceIntRect> } else { Some(bounding(rects@)) }),
{
    if rects.len() == 0 {
        return None;
    }
    let mut acc = rects[0];
    let mut i: usize = 1;
    proof {
        assert(rects@.take(1)[0] == rects@[0]);
    }
    while i < rects.len()
        invariant
            1 <= i <= rects.len(),
            acc == bounding(rects@.take(i as int)),
        decreases rects.len() - i,
    {
        proof {
            assert(rects@.take(i + 1).drop_last() =~= rects@.take(i as int));
        }
        acc = acc.union(&rects[i]);
        i = i + 1;
    }
    proof {
        assert(rects@.take(rects@.len() as int) =~= rects@);
    }
    Some(acc)
}

/// A list longer than `limit` collapses to its bounding rectangle, so that it cannot grow
/// without bound; a list within the limit is handed back as it is.
pub fn collapse_dirty_if_oversized(rects: Vec<DeviceIntRect>, limit: usize) -> (out: Vec<
    DeviceIntRect,
>)
    ensures
        out@ == collapsed(rects@, limit as int),
{
    if rects.len() <= limit {
        return rects;
    }
    let mut out: Vec<DeviceIntRect> = Vec::new();
    match bounding_union(rects.as_slice()) {
        Some(union) => {
            out.push(union);
        },
        None => {},
    }
    out
}

/// Clipping keeps exactly the pixels inside `full`.
pub proof fn law_clipping_is_exact(
    rects: Seq<DeviceIntRect>,
    full: DeviceIntRect,
    x: int,
    y: int,
)
    ensures
        region_has(clipped_to(rects, full), x, y) <==> region_has(rects, x, y) && full.has(x, y),
    decreases rects.len(),
{
    if rects.len() > 0 {
        let front = rects.drop_last();
        let last = rects.last().meet(full);
        law_clipping_is_exact(front, full, x, y);
        lemma_region_add(front, seq![rects.last()], x, y);
        lemma_only_if(true, rects.last(), x, y);
        assert(front + seq![rects.last()] =~= rects);
        lemma_region_add(clipped_to(front, full), seq![last], x, y);
        lemma_only_if(true, last, x, y);
        assert(clipped_to(front, full) + seq![last] =~= clipped_to(front, full).push(last));
    }
}

/// Clips each rectangle to `full` and leaves out those that lie outside it.
pub fn clip_rects(rects: &[DeviceIntRect], full: DeviceIntRect) -> (out: Vec<DeviceIntRect>)
    ensures
        out@ == clipped_to(rects@, full),
{
    let mut out: Vec<DeviceIntRect> = Vec::new();
    let mut i: usize = 0;
    while i < rects.len()
        invariant
            i <= rects@.len(),
            out@ == clipped_to(rects@.take(i as int), full),
        decreases rects@.len() - i,
    {
        proof {
            assert(rects@.take(i + 1).drop_last() =~= rects@.take(i as int));
        }
        match rects[i].intersection(&full) {
            Some(r) => {
                out.push(r);
            },
            None => {},
        }
        i = i + 1;
    }
    assert(rects@.take(rects@.len() as int) =~= rects@);
    out
}

} // verus!
