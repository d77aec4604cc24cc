//! What the pixels of a tile that was just drawn look like: a diagnosis of tiles that stay black.
use vstd::prelude::*;

verus! {

/// A pixel, eight bits each.
#[derive(Clone, Copy, Debug, PartialEq, Eq, Structural)]
pub struct Pixel {
    pub r: u8,
    pub g: u8,
    pub b: u8,
    pub a: u8,
}

impl Pixel {
    pub open spec fn lit(self) -> bool {
        self.r != 0 || self.g != 0 || self.b != 0
    }
}

/// The points per side of the grid over what was drawn.
pub const GRID: i64 = 8;

/// The points per side of the grid over the whole texture.
pub const SCAN: i64 = 32;

/// Which part of a texture was drawn.
#[derive(Clone, Copy, Debug, PartialEq, Eq, Structural)]
pub struct DrawnPart {
    pub width: i32,
    pub height: i32,
    pub offset_x: i32,
    pub offset_y: i32,
    pub dirty_width: i32,
    pub dirty_height: i32,
}

/// What the samples say.
#[derive(Clone, Copy, Debug, PartialEq, Eq, Structural)]
pub struct ReadbackStats {
    pub alpha_min: u8,
    pub alpha_max: u8,
    /// The points of the drawn part that are not black.
    pub rgb_nonzero: u32,
    /// The points of the whole texture that are not black.
    pub whole_rgb_nonzero: u32,
    pub whole_alpha_max: u8,
}

/// The answer to a readback.
#[derive(Clone, Copy, Debug, PartialEq, Eq, Structural)]
pub enum Readback {
    /// The texture has no pixels.
    Empty,
    /// Fewer bytes came back than the texture has.
    Short,
    Stats(ReadbackStats),
}

pub open spec fn clamped(v: int, top: int) -> int {
    if v < 0 {
        0
    } else if v > top {
        top
    } else {
        v
    }
}

/// The pixel at a point; a point outside the texture stands for the nearest one inside.
pub open spec fn pixel_at(bytes: Seq<u8>, width: int, height: int, x: int, y: int) -> Pixel {
    let at = (clamped(y, height - 1) * width + clamped(x, width - 1)) * 4;
    Pixel { r: bytes[at], g: bytes[at + 1], b: bytes[at + 2], a: bytes[at + 3] }
}

pub open spec fn at_least_one(v: int) -> int {
    if v < 1 {
        1
    } else {
        v
    }
}

/// The samples of the drawn part, row by row.
pub open spec fn drawn_samples(bytes: Seq<u8>, part: DrawnPart) -> Seq<Pixel> {
    Seq::new(
        64,
        |k: int|
            pixel_at(
                bytes,
                part.width as int,
                part.height as int,
                part.offset_x + (k % 8) * at_least_one(part.dirty_width as int) / 8,
                part.offset_y + (k / 8) * at_least_one(part.dirty_height as int) / 8,
            ),
    )
}

/// The samples of the whole texture, row by row.
pub open spec fn whole_samples(bytes: Seq<u8>, part: DrawnPart) -> Seq<Pixel> {
    Seq::new(
        1024,
        |k: int|
            pixel_at(
                bytes,
                part.width as int,
                part.height as int,
                (k % 32) * (part.width - 1) / 31,
                (k / 32) * (part.height - 1) / 31,
            ),
    )
}

pub open spec fn lit_count(s: Seq<Pixel>) -> nat
    decreases s.len(),
{
    if s.len() == 0 {
        0
    } else {
        lit_count(s.drop_last()) + (if s.last().lit() {
            1nat
        } else {
            0nat
        })
    }
}

/// The least alpha of the samples.
pub open spec fn is_least_alpha(s: Seq<Pixel>, a: u8) -> bool {
    &&& forall|k: int| 0 <= k < s.len() ==> a <= (#[trigger] s[k]).a
    &&& s.len() > 0 ==> exists|k: int| 0 <= k < s.len() && (#[trigger] s[k]).a == a
}

/// The greatest alpha of the samples.
pub open spec fn is_greatest_alpha(s: Seq<Pixel>, a: u8) -> bool {
    &&& forall|k: int| 0 <= k < s.len() ==> (#[trigger] s[k]).a <= a
    &&& s.len() > 0 ==> exists|k: int| 0 <= k < s.len() && (#[trigger] s[k]).a == a
}

/// Whether the bytes are all of the texture.
pub open spec fn is_whole(bytes: Seq<u8>, part: DrawnPart) -> bool {
    &&& part.width > 0
    &&& part.height > 0
    &&& bytes.len() >= part.width * part.height * 4
}

fn read_pixel(bytes: &[u8], width: i32, height: i32, x: i64, y: i64) -> (p: Pixel)
    requires
        width > 0,
        height > 0,
        bytes@.len() >= width * height * 4,
    ensures
        p == pixel_at(bytes@, width as int, height as int, x as int, y as int),
{
    let w: i64 = width as i64;
    let h: i64 = height as i64;
    let cx: i64 = if x < 0 {
        0
    } else if x > w - 1 {
        w - 1
    } else {
        x
    };
    let cy: i64 = if y < 0 {
        0
    } else if y > h - 1 {
        h - 1
    } else {
        y
    };
    proof {
        assert(0 <= cy * w && cy * w + w <= w * h && w * h <= 0x3fff_ffff_0000_0001)
            by (nonlinear_arith)
            requires
                0 <= cy <= h - 1,
                0 < w <= 0x7fff_ffff,
                0 < h <= 0x7fff_ffff,
        ;
        assert((cy * w + cx) * 4 + 4 <= w * h * 4) by (nonlinear_arith)
            requires
                cy * w + w <= w * h,
                cx <= w - 1,
        ;
    }
    let at: usize = ((cy * w + cx) as u64 * 4) as usize;
    Pixel { r: bytes[at], g: bytes[at + 1], b: bytes[at + 2], a: bytes[at + 3] }
}

/// The `i`th of `parts` steps along a length.
fn step_along(i: i64, length: i64, parts: i64) -> (r: i64)
    requires
        0 <= i < 32,
        0 <= length <= 0x7fff_ffff,
        0 < parts,
    ensures
        r == i * length / (parts as int),
        0 <= r <= 32 * 0x7fff_ffff,
{
    proof {
        assert(0 <= i * length <= 32 * 0x7fff_ffff) by (nonlinear_arith)
            requires
                0 <= i < 32,
                0 <= length <= 0x7fff_ffff,
        ;
        let whole: int = i * length;
        assert(0 <= whole / (parts as int) <= whole) by (nonlinear_arith)
            requires
                0 <= whole,
                0 < parts,
        ;
    }
    i * length / parts
}

/// What the samples so far say.
#[derive(Clone, Copy)]
struct Seen {
    low: u8,
    high: u8,
    lit: u32,
}

impl Seen {
    spec fn of(self, s: Seq<Pixel>) -> bool {
        &&& self.lit == lit_count(s)
        &&& forall|k: int| 0 <= k < s.len() ==> self.low <= (#[trigger] s[k]).a <= self.high
        &&& s.len() == 0 ==> self.low == 255 && self.high == 0
        &&& s.len() > 0 ==> exists|k: int| 0 <= k < s.len() && (#[trigger] s[k]).a == self.low
        &&& s.len() > 0 ==> exists|k: int| 0 <= k < s.len() && (#[trigger] s[k]).a == self.high
    }

    fn add_pixel(self, p: Pixel, Ghost(s): Ghost<Seq<Pixel>>) -> (r: Seen)
        requires
            self.of(s),
            self.lit < u32::MAX,
        ensures
            r.of(s.push(p)),
            r.lit <= self.lit + 1,
    {
        let low: u8 = if p.a < self.low {
            p.a
        } else {
            self.low
        };
        let high: u8 = if p.a > self.high {
            p.a
        } else {
            self.high
        };
        let lit: u32 = if p.r != 0 || p.g != 0 || p.b != 0 {
            self.lit + 1
        } else {
            self.lit
        };
        let r = Seen { low, high, lit };
        proof {
            let t = s.push(p);
            assert(t.drop_last() =~= s);
            assert(t[s.len() as int] == p);
            if s.len() > 0 {
                let i = choose|k: int| 0 <= k < s.len() && (#[trigger] s[k]).a == self.low;
                let j = choose|k: int| 0 <= k < s.len() && (#[trigger] s[k]).a == self.high;
                assert(t[i] == s[i]);
                assert(t[j] == s[j]);
            }
            assert forall|k: int| 0 <= k < t.len() implies low <= (#[trigger] t[k]).a <= high by {
                if k < s.len() {
                    assert(t[k] == s[k]);
                }
            }
        }
        r
    }
}

/// Samples the pixels of a texture: a grid over what was drawn, and one over all of it, which finds
/// what is drawn elsewhere in the texture.
pub fn readback_stats(bytes: &[u8], part: DrawnPart) -> (r: Readback)
    ensures
        match r {
            Readback::Empty => part.width <= 0 || part.height <= 0,
            Readback::Short => part.width > 0 && part.height > 0 && !is_whole(bytes@, part),
            Readback::Stats(stats) => {
                &&& is_whole(bytes@, part)
                &&& is_least_alpha(drawn_samples(bytes@, part), stats.alpha_min)
                &&& is_greatest_alpha(drawn_samples(bytes@, part), stats.alpha_max)
                &&& stats.rgb_nonzero == lit_count(drawn_samples(bytes@, part))
                &&& stats.whole_rgb_nonzero == lit_count(whole_samples(bytes@, part))
                &&& is_greatest_alpha(whole_samples(bytes@, part), stats.whole_alpha_max)
            },
        },
{
    if part.width <= 0 || part.height <= 0 {
        return Readback::Empty;
    }
    let w: i64 = part.width as i64;
    let h: i64 = part.height as i64;
    proof {
        assert(0 < w * h <= 0x3fff_ffff_0000_0001) by (nonlinear_arith)
            requires
                0 < w <= 0x7fff_ffff,
                0 < h <= 0x7fff_ffff,
        ;
    }
    let need: u64 = (w * h) as u64 * 4;
    if (bytes.len() as u64) < need {
        return Readback::Short;
    }
    let dw: i64 = if part.dirty_width < 1 {
        1
    } else {
        part.dirty_width as i64
    };
    let dh: i64 = if part.dirty_height < 1 {
        1
    } else {
        part.dirty_height as i64
    };
    let ghost drawn = drawn_samples(bytes@, part);
    let mut seen = Seen { low: 255, high: 0, lit: 0 };
    let mut k: i64 = 0;
    assert(drawn.take(0) =~= Seq::<Pixel>::empty());
    while k < GRID * GRID
        invariant
            0 <= k <= 64,
            w == part.width,
            h == part.height,
            is_whole(bytes@, part),
            dw == at_least_one(part.dirty_width as int),
            dh == at_least_one(part.dirty_height as int),
            drawn == drawn_samples(bytes@, part),
            seen.of(drawn.take(k as int)),
            seen.lit <= k,
        decreases 64 - k,
    {
        let x: i64 = part.offset_x as i64 + step_along(k % GRID, dw, GRID);
        let y: i64 = part.offset_y as i64 + step_along(k / GRID, dh, GRID);
        let p = read_pixel(bytes, part.width, part.height, x, y);
        seen = seen.add_pixel(p, Ghost(drawn.take(k as int)));
        proof {
            assert(drawn[k as int] == p);
            assert(drawn.take(k + 1) =~= drawn.take(k as int).push(p));
        }
        k = k + 1;
    }
    assert(drawn.take(64) =~= drawn);
    let ghost whole = whole_samples(bytes@, part);
    let mut all = Seen { low: 255, high: 0, lit: 0 };
    let mut n: i64 = 0;
    assert(whole.take(0) =~= Seq::<Pixel>::empty());
    while n < SCAN * SCAN
        invariant
            0 <= n <= 1024,
            w == part.width,
            h == part.height,
            is_whole(bytes@, part),
            whole == whole_samples(bytes@, part),
            all.of(whole.take(n as int)),
            all.lit <= n,
        decreases 1024 - n,
    {
        let x: i64 = step_along(n % SCAN, w - 1, SCAN - 1);
        let y: i64 = step_along(n / SCAN, h - 1, SCAN - 1);
        let p = read_pixel(bytes, part.width, part.height, x, y);
        all = all.add_pixel(p, Ghost(whole.take(n as int)));
        proof {
            assert(whole[n as int] == p);
            assert(whole.take(n + 1) =~= whole.take(n as int).push(p));
        }
        n = n + 1;
    }
    assert(whole.take(1024) =~= whole);
    Readback::Stats(
        ReadbackStats {
            alpha_min: seen.low,
            alpha_max: seen.high,
            rgb_nonzero: seen.lit,
            whole_rgb_nonzero: all.lit,
            whole_alpha_max: all.high,
        },
    )
}

} // verus!
