//! Laws of what is measured: the samples of a picture that was read back, the counts of a window of
//! time, and the sizes of a report.

use crate::debug_options::{option_bits, WebRenderDebugOption};
use crate::memory_report::{total, PainterMemory};
use crate::profile::{most_first, total_of, FrameReasonTally, PresentCadence};
use crate::readback::{
    drawn_samples, is_greatest_alpha, is_least_alpha, is_whole, lit_count, pixel_at, whole_samples,
    DrawnPart, Pixel,
};
use vstd::prelude::*;

verus! {

/// A pixel has four bytes, in rows from the first: red, green, blue and how opaque it is. One outside the
/// picture is the nearest inside it.
pub proof fn law_pixels_lie_in_rows(bytes: Seq<u8>, width: int, height: int, x: int, y: int)
    requires
        width > 0,
        height > 0,
    ensures
        0 <= x < width && 0 <= y < height ==> {
            let p = pixel_at(bytes, width, height, x, y);
            let at = 4 * (y * width + x);
            p.r == bytes[at] && p.g == bytes[at + 1] && p.b == bytes[at + 2] && p.a == bytes[at + 3]
        },
        x < 0 ==> pixel_at(bytes, width, height, x, y) == pixel_at(bytes, width, height, 0, y),
        x >= width ==> pixel_at(bytes, width, height, x, y) == pixel_at(
            bytes,
            width,
            height,
            width - 1,
            y,
        ),
        y < 0 ==> pixel_at(bytes, width, height, x, y) == pixel_at(bytes, width, height, x, 0),
        y >= height ==> pixel_at(bytes, width, height, x, y) == pixel_at(
            bytes,
            width,
            height,
            x,
            height - 1,
        ),
{
}

/// The drawn part is sampled eight by eight, from its origin on, at even steps; one without a size at its
/// origin alone.
pub proof fn law_drawn_part_is_sampled_evenly(bytes: Seq<u8>, part: DrawnPart, i: int, j: int)
    requires
        0 <= i < 8,
        0 <= j < 8,
    ensures
        drawn_samples(bytes, part).len() == 64,
        part.dirty_width >= 1 && part.dirty_height >= 1 ==> drawn_samples(bytes, part)[8 * j + i]
            == pixel_at(
            bytes,
            part.width as int,
            part.height as int,
            part.offset_x + i * part.dirty_width / 8,
            part.offset_y + j * part.dirty_height / 8,
        ),
        part.dirty_width < 1 && part.dirty_height < 1 ==> drawn_samples(bytes, part)[8 * j + i]
            == pixel_at(
            bytes,
            part.width as int,
            part.height as int,
            part.offset_x as int,
            part.offset_y as int,
        ),
{
    let k = 8 * j + i;
    assert(k % 8 == i && k / 8 == j);
    assert(i * 1 / 8 == 0 && j * 1 / 8 == 0);
}

/// The whole picture is sampled thirty-two by thirty-two, from one corner to the other, at even steps.
pub proof fn law_whole_picture_is_sampled_evenly(bytes: Seq<u8>, part: DrawnPart, i: int, j: int)
    requires
        0 <= i < 32,
        0 <= j < 32,
    ensures
        whole_samples(bytes, part).len() == 1024,
        whole_samples(bytes, part)[32 * j + i] == pixel_at(
            bytes,
            part.width as int,
            part.height as int,
            i * (part.width - 1) / 31,
            j * (part.height - 1) / 31,
        ),
        part.width >= 1 && part.height >= 1 ==> whole_samples(bytes, part)[0] == pixel_at(
            bytes,
            part.width as int,
            part.height as int,
            0,
            0,
        ) && whole_samples(bytes, part)[1023] == pixel_at(
            bytes,
            part.width as int,
            part.height as int,
            part.width - 1,
            part.height - 1,
        ),
{
    let k = 32 * j + i;
    assert(k % 32 == i && k / 32 == j);
    assert(1023int % 32 == 31 && 1023int / 32 == 31);
    let (w, h) = (part.width - 1, part.height - 1);
    assert(31 * w / 31 == w && 31 * h / 31 == h);
    assert(0 * w / 31 == 0 && 0 * h / 31 == 0);
}

/// Lit pixels are those with some color, and each is counted.
pub proof fn law_lit_pixels_are_counted(s: Seq<Pixel>, p: Pixel)
    ensures
        p.lit() <==> p.r > 0 || p.g > 0 || p.b > 0,
        lit_count(s.push(p)) == lit_count(s) + (if p.r > 0 || p.g > 0 || p.b > 0 {
            1int
        } else {
            0
        }),
        lit_count(Seq::empty()) == 0,
{
    assert(s.push(p).drop_last() =~= s);
}

/// The least and the greatest alpha bound all of them, and are among them.
pub proof fn law_alpha_bounds(s: Seq<Pixel>, low: u8, high: u8, p: Pixel)
    requires
        is_least_alpha(s, low),
        is_greatest_alpha(s, high),
        s.contains(p),
    ensures
        low <= p.a <= high,
        exists|q: Pixel| #[trigger] s.contains(q) && q.a == low,
        exists|q: Pixel| #[trigger] s.contains(q) && q.a == high,
{
    let k = choose|k: int| 0 <= k < s.len() && (#[trigger] s[k]).a == low;
    let l = choose|l: int| 0 <= l < s.len() && (#[trigger] s[l]).a == high;
    assert(s.contains(s[k]) && s.contains(s[l]));
}

/// A picture is whole where it has a size and bytes for each of its pixels.
pub proof fn law_whole_picture_has_all_its_bytes(bytes: Seq<u8>, part: DrawnPart)
    ensures
        is_whole(bytes, part) <==> part.width >= 1 && part.height >= 1 && 4 * (part.width
            * part.height) <= bytes.len(),
{
    let a = part.width * part.height;
    assert(part.width * part.height * 4 == 4 * a);
}

/// The longest gap is the longest that was seen, with the one that ends now.
pub proof fn law_longest_gap_is_kept(c: PresentCadence, now: u64)
    ensures
        c.longest_gap(now) >= c.max_gap_ns,
        c.last is Some && now >= c.last->0 ==> c.longest_gap(now) >= now - c.last->0 && (c.longest_gap(
            now,
        ) == c.max_gap_ns || c.longest_gap(now) == now - c.last->0),
        c.last is None || now < c.last->0 ==> c.longest_gap(now) == c.max_gap_ns,
        c.start is Some ==> c.window_start(now) == c.start->0,
        c.start is None ==> c.window_start(now) == now,
        crate::profile::WINDOW_NS == 1_000_000_000,
        crate::profile::RENDER_GAP_NS == 100_000_000,
        crate::profile::SLOW_RENDER_NS == 16_000_000,
{
}

/// Places are counted each for itself.
pub proof fn law_places_are_counted_apart(t: FrameReasonTally, place: u64, other: u64)
    ensures
        t.counted(place).contains_key(place),
        t.counts@.contains_key(place) ==> t.counted(place)[place] == t.counts@[place].wrapping_add(
            1,
        ),
        !t.counts@.contains_key(place) ==> t.counted(place)[place] == 1,
        other != place ==> (t.counted(place).contains_key(other) <==> t.counts@.contains_key(other))
            && (t.counts@.contains_key(other) ==> t.counted(place)[other] == t.counts@[other]),
{
}

/// The total of a list takes in each of its counts; a list with the most first has none after a smaller one.
pub proof fn law_counts_add_up(s: Seq<(u64, u64)>, e: (u64, u64), i: int, j: int)
    ensures
        total_of(s.push(e)) == total_of(s).wrapping_add(e.1),
        total_of(Seq::empty()) == 0,
        most_first(s) && 0 <= i <= j < s.len() ==> s[j].1 <= s[i].1,
{
    assert(s.push(e).drop_last() =~= s);
    if most_first(s) && 0 <= i < j < s.len() {
        assert(s[i].1 >= s[j].1);
    }
}

/// The total of a kind takes in each painter.
pub proof fn law_memory_adds_up(
    painters: Seq<PainterMemory>,
    p: PainterMemory,
    kind: spec_fn(PainterMemory) -> usize,
)
    ensures
        total(painters.push(p), kind) == total(painters, kind) + kind(p),
        total(Seq::empty(), kind) == 0,
{
    assert(painters.push(p).drop_last() =~= painters);
}

/// The profiler is shown with the times and the samples of the graphics processor; the other two are one
/// view each.
pub proof fn law_debug_views_have_their_bits()
    ensures
        option_bits(WebRenderDebugOption::Profiler) == 1 + 8 + 16,
        option_bits(WebRenderDebugOption::RenderTargetDebug) == 2,
        option_bits(WebRenderDebugOption::TextureCacheDebug) == 4,
{
}

} // verus!
