//! Turning the planes of a video frame into colors.
use vstd::prelude::*;

verus! {

/// How the planes hold a frame.
#[derive(Clone, Copy, Debug, PartialEq, Eq, Structural)]
pub enum VideoLeaseFormat {
    /// Three planes of eight bits.
    I420,
    /// A plane of eight bits and one with both chroma parts.
    Nv12,
    /// Three planes of ten bits, in the lower bits of sixteen.
    I420_10,
    /// Two planes of ten bits, in the upper bits of sixteen.
    P010,
}

#[derive(Clone, Copy, Debug, PartialEq, Eq, Structural)]
pub enum VideoLeaseColorSpace {
    Rec601,
    Rec709,
    Rec2020,
}

#[derive(Clone, Copy, Debug, PartialEq, Eq, Structural)]
pub enum VideoLeaseColorRange {
    Limited,
    Full,
}

/// A fraction.
#[derive(Clone, Copy, Debug, PartialEq, Eq, Structural)]
pub struct Ratio {
    pub num: i64,
    pub den: i64,
}

/// The coefficients of a conversion. Those of the matrix are in parts of a hundred thousand.
#[derive(Clone, Copy, Debug, PartialEq, Eq, Structural)]
pub struct ConvertParams {
    pub y_coef: i64,
    pub rv: i64,
    pub gu: i64,
    pub gv: i64,
    pub bu: i64,
    pub y_off: Ratio,
    /// What brings a sample of the format to the range from nought to one.
    pub rescale: Ratio,
    pub interleaved_uv: bool,
}

/// The unit of the matrix coefficients.
pub const COEF_UNIT: i64 = 100_000;

/// The coefficients of a color space and range: of luma, of the red chroma in red, of the blue
/// chroma in green, of the red chroma in green and of the blue chroma in blue.
pub open spec fn matrix(space: VideoLeaseColorSpace, range: VideoLeaseColorRange) -> (
    int,
    int,
    int,
    int,
    int,
) {
    match (space, range) {
        (VideoLeaseColorSpace::Rec601, VideoLeaseColorRange::Limited) => (
            116438,
            159603,
            -39176,
            -81297,
            201723,
        ),
        (VideoLeaseColorSpace::Rec709, VideoLeaseColorRange::Limited) => (
            116438,
            179274,
            -21325,
            -53291,
            211240,
        ),
        (VideoLeaseColorSpace::Rec2020, VideoLeaseColorRange::Limited) => (
            116438,
            167867,
            -18733,
            -65042,
            214177,
        ),
        (VideoLeaseColorSpace::Rec601, VideoLeaseColorRange::Full) => (
            100000,
            140200,
            -34414,
            -71414,
            177200,
        ),
        (VideoLeaseColorSpace::Rec709, VideoLeaseColorRange::Full) => (
            100000,
            157480,
            -18733,
            -46813,
            185560,
        ),
        (VideoLeaseColorSpace::Rec2020, VideoLeaseColorRange::Full) => (
            100000,
            147460,
            -16455,
            -57135,
            188140,
        ),
    }
}

pub open spec fn rescale_of(format: VideoLeaseFormat) -> Ratio {
    match format {
        VideoLeaseFormat::I420 => Ratio { num: 1, den: 1 },
        VideoLeaseFormat::Nv12 => Ratio { num: 1, den: 1 },
        VideoLeaseFormat::I420_10 => Ratio { num: 65535, den: 1023 },
        VideoLeaseFormat::P010 => Ratio { num: 65535, den: 65472 },
    }
}

/// The coefficients for a format, a color space and a range.
pub fn yuv_rgb_params(
    format: VideoLeaseFormat,
    space: VideoLeaseColorSpace,
    range: VideoLeaseColorRange,
) -> (p: ConvertParams)
    ensures
        (p.y_coef as int, p.rv as int, p.gu as int, p.gv as int, p.bu as int) == matrix(
            space,
            range,
        ),
        p.y_off == (match range {
            VideoLeaseColorRange::Limited => Ratio { num: 16, den: 255 },
            VideoLeaseColorRange::Full => Ratio { num: 0, den: 1 },
        }),
        p.rescale == rescale_of(format),
        p.interleaved_uv == (format == VideoLeaseFormat::Nv12 || format == VideoLeaseFormat::P010),
{
    let (y_coef, rv, gu, gv, bu): (i64, i64, i64, i64, i64) = match (space, range) {
        (VideoLeaseColorSpace::Rec601, VideoLeaseColorRange::Limited) => (
            116438,
            159603,
            -39176,
            -81297,
            201723,
        ),
        (VideoLeaseColorSpace::Rec709, VideoLeaseColorRange::Limited) => (
            116438,
            179274,
            -21325,
            -53291,
            211240,
        ),
        (VideoLeaseColorSpace::Rec2020, VideoLeaseColorRange::Limited) => (
            116438,
            167867,
            -18733,
            -65042,
            214177,
        ),
        (VideoLeaseColorSpace::Rec601, VideoLeaseColorRange::Full) => (
            100000,
            140200,
            -34414,
            -71414,
            177200,
        ),
        (VideoLeaseColorSpace::Rec709, VideoLeaseColorRange::Full) => (
            100000,
            157480,
            -18733,
            -46813,
            185560,
        ),
        (VideoLeaseColorSpace::Rec2020, VideoLeaseColorRange::Full) => (
            100000,
            147460,
            -16455,
            -57135,
            188140,
        ),
    };
    let y_off = match range {
        VideoLeaseColorRange::Limited => Ratio { num: 16, den: 255 },
        VideoLeaseColorRange::Full => Ratio { num: 0, den: 1 },
    };
    let rescale = match format {
        VideoLeaseFormat::I420 => Ratio { num: 1, den: 1 },
        VideoLeaseFormat::Nv12 => Ratio { num: 1, den: 1 },
        VideoLeaseFormat::I420_10 => Ratio { num: 65535, den: 1023 },
        VideoLeaseFormat::P010 => Ratio { num: 65535, den: 65472 },
    };
    let interleaved_uv: bool = match format {
        VideoLeaseFormat::Nv12 => true,
        VideoLeaseFormat::P010 => true,
        _ => false,
    };
    ConvertParams { y_coef, rv, gu, gv, bu, y_off, rescale, interleaved_uv }
}

/// The buffer that the shader reads, row by row.
#[derive(Clone, Copy, Debug)]
pub struct ConvertBuffer {
    pub mat_r: [Ratio; 4],
    pub mat_g: [Ratio; 4],
    pub mat_b: [Ratio; 4],
    pub offs: [Ratio; 4],
    pub misc: [Ratio; 4],
}

pub open spec fn coef(n: i64) -> Ratio {
    Ratio { num: n, den: COEF_UNIT }
}

pub open spec fn whole(n: i64) -> Ratio {
    Ratio { num: n, den: 1 }
}

impl ConvertParams {
    /// The rows in the order in which the shader reads them.
    pub fn to_cbuffer(&self) -> (b: ConvertBuffer)
        ensures
            b.mat_r@ == seq![coef(self.y_coef), whole(0), coef(self.rv), whole(0)],
            b.mat_g@ == seq![coef(self.y_coef), coef(self.gu), coef(self.gv), whole(0)],
            b.mat_b@ == seq![coef(self.y_coef), coef(self.bu), whole(0), whole(0)],
            b.offs@ == seq![self.y_off, Ratio { num: 1, den: 2 }, Ratio { num: 1, den: 2 }, whole(
                0,
            )],
            b.misc@ == seq![self.rescale, whole(if self.interleaved_uv {
                1
            } else {
                0
            }), whole(0), whole(0)],
    {
        let zero = Ratio { num: 0, den: 1 };
        let half = Ratio { num: 1, den: 2 };
        let y = Ratio { num: self.y_coef, den: COEF_UNIT };
        let rv = Ratio { num: self.rv, den: COEF_UNIT };
        let gu = Ratio { num: self.gu, den: COEF_UNIT };
        let gv = Ratio { num: self.gv, den: COEF_UNIT };
        let bu = Ratio { num: self.bu, den: COEF_UNIT };
        let one: i64 = if self.interleaved_uv {
            1
        } else {
            0
        };
        let b = ConvertBuffer {
            mat_r: [y, zero, rv, zero],
            mat_g: [y, gu, gv, zero],
            mat_b: [y, bu, zero, zero],
            offs: [self.y_off, half, half, zero],
            misc: [self.rescale, Ratio { num: one, den: 1 }, zero, zero],
        };
        proof {
            assert(b.mat_r@ =~= seq![coef(self.y_coef), whole(0), coef(self.rv), whole(0)]);
            assert(b.mat_g@ =~= seq![
                coef(self.y_coef),
                coef(self.gu),
                coef(self.gv),
                whole(0),
            ]);
            assert(b.mat_b@ =~= seq![coef(self.y_coef), coef(self.bu), whole(0), whole(0)]);
            assert(b.offs@ =~= seq![
                self.y_off,
                Ratio { num: 1, den: 2 },
                Ratio { num: 1, den: 2 },
                whole(0),
            ]);
            assert(b.misc@ =~= seq![self.rescale, whole(one), whole(0), whole(0)]);
        }
        b
    }
}

/// How many planes of a lease are drawn from: as many as it says, three at most. `Err` names the
/// first of them that is missing.
pub fn usable_planes(plane_count: usize, present: &[bool]) -> (r: Result<usize, usize>)
    requires
        present@.len() == 3,
    ensures
        ({
            let n: int = if plane_count < 3 {
                plane_count as int
            } else {
                3
            };
            match r {
                Ok(k) => k == n && forall|i: int| 0 <= i < n ==> present@[i],
                Err(i) => i < n && !present@[i as int] && forall|j: int|
                    0 <= j < i ==> present@[j],
            }
        }),
{
    let n: usize = if plane_count < 3 {
        plane_count
    } else {
        3
    };
    let mut i: usize = 0;
    while i < n
        invariant
            i <= n <= 3,
            n == plane_count || n == 3 <= plane_count,
            present@.len() == 3,
            forall|j: int| 0 <= j < i ==> present@[j],
        decreases n - i,
    {
        if !present[i] {
            return Err(i);
        }
        i = i + 1;
    }
    Ok(n)
}

/// Whether the pass's own context state is active for several conversions in a row.
#[derive(Clone, Copy, Debug, PartialEq, Eq, Structural)]
pub struct ConvertBatch {
    pub active: bool,
}

impl ConvertBatch {
    /// Opens the batch. The answer says whether the state is swapped in: not where it is.
    pub fn begin_batch(&mut self) -> (swap: bool)
        ensures
            swap == !old(self).active,
            final(self).active,
    {
        if self.active {
            return false;
        }
        self.active = true;
        true
    }

    /// Closes the batch. The answer says whether the state before it is restored: only where the
    /// batch is open.
    pub fn end_batch(&mut self) -> (restore: bool)
        ensures
            restore == old(self).active,
            !final(self).active,
    {
        if !self.active {
            return false;
        }
        self.active = false;
        true
    }

    /// Whether a conversion swaps the state in and out itself and binds everything: outside a
    /// batch. Within one, that was done when it was opened.
    pub fn convert_swaps_itself(&self) -> (b: bool)
        ensures
            b == !self.active,
    {
        !self.active
    }
}

/// The brightest luma of a range is white and the darkest is black, within half a step of an
/// eight-bit color, in every color space.
pub proof fn law_range_ends_are_white_and_black(
    space: VideoLeaseColorSpace,
    range: VideoLeaseColorRange,
)
    ensures
        ({
            let m = matrix(space, range);
            let (black, white): (int, int) = match range {
                VideoLeaseColorRange::Limited => (16, 235),
                VideoLeaseColorRange::Full => (0, 255),
            };
            let off: int = match range {
                VideoLeaseColorRange::Limited => 16,
                VideoLeaseColorRange::Full => 0,
            };
            &&& m.0 * (black - off) == 0
            &&& 255 * COEF_UNIT - COEF_UNIT / 2 < m.0 * (white - off) < 255 * COEF_UNIT + COEF_UNIT
                / 2
        }),
{
}

/// A ten-bit sample at its brightest comes to one, whichever half of its sixteen bits it stands in.
pub proof fn law_brightest_ten_bit_sample_is_one()
    ensures
        rescale_of(VideoLeaseFormat::I420_10).num * 1023 == rescale_of(
            VideoLeaseFormat::I420_10,
        ).den * 65535,
        rescale_of(VideoLeaseFormat::P010).num * (1023 * 64) == rescale_of(
            VideoLeaseFormat::P010,
        ).den * 65535,
{
}

/// The matrix inverts the luma weights of the color space. With the weights `kr`, `kg` and `kb` of red,
/// green and blue, in parts of ten thousand, and the ranges of luma and chroma, in steps of
/// 255, each coefficient lies within one unit of what the weights give: the red chroma gives
/// `2 (1 - kr)` of red, the blue chroma `2 (1 - kb)` of blue, and green is what is left of luma.
pub proof fn law_matrix_inverts_the_luma_weights(
    space: VideoLeaseColorSpace,
    range: VideoLeaseColorRange,
)
    by (nonlinear_arith)
    ensures
        ({
            let (y, rv, gu, gv, bu) = matrix(space, range);
            let (kr, kb): (int, int) = match space {
                VideoLeaseColorSpace::Rec601 => (2990, 1140),
                VideoLeaseColorSpace::Rec709 => (2126, 722),
                VideoLeaseColorSpace::Rec2020 => (2627, 593),
            };
            let kg = 10_000 - kr - kb;
            let (luma, chroma): (int, int) = match range {
                VideoLeaseColorRange::Limited => (219, 224),
                VideoLeaseColorRange::Full => (255, 255),
            };
            &&& -luma <= y * luma - 255 * COEF_UNIT <= luma
            &&& -chroma * 10_000 <= rv * chroma * 10_000 - 2 * (10_000 - kr) * 255 * COEF_UNIT
                <= chroma * 10_000
            &&& -chroma * 10_000 <= bu * chroma * 10_000 - 2 * (10_000 - kb) * 255 * COEF_UNIT
                <= chroma * 10_000
            &&& -chroma * kg * 10_000 <= gu * chroma * kg * 10_000 + 2 * kb * (10_000 - kb) * 255
                * COEF_UNIT <= chroma * kg * 10_000
            &&& -chroma * kg * 10_000 <= gv * chroma * kg * 10_000 + 2 * kr * (10_000 - kr) * 255
                * COEF_UNIT <= chroma * kg * 10_000
        }),
{
}

/// Red, green and blue come back as themselves: turned into luma and chroma by the weights of the color
/// space and back by the matrix, each part of them is off by less than a sixth of a step of eight
/// bits. The matrix is linear, so every mixture of them is off by less than half a step.
pub proof fn law_primaries_come_back(space: VideoLeaseColorSpace, range: VideoLeaseColorRange)
    by (nonlinear_arith)
    ensures
        ({
            let (y, rv, gu, gv, bu) = matrix(space, range);
            let (kr, kb): (int, int) = match space {
                VideoLeaseColorSpace::Rec601 => (2990, 1140),
                VideoLeaseColorSpace::Rec709 => (2126, 722),
                VideoLeaseColorSpace::Rec2020 => (2627, 593),
            };
            let kg = 10_000 - kr - kb;
            let (luma, chroma): (int, int) = match range {
                VideoLeaseColorRange::Limited => (219, 224),
                VideoLeaseColorRange::Full => (255, 255),
            };
            let (nr, nb) = (2 * (10_000 - kr), 2 * (10_000 - kb));
            let step = COEF_UNIT * 10_000;
            // What one part of red, green or blue gives in red, in blue and in green.
            let red_in_red = luma * y * kr * nr + chroma * rv * (10_000 - kr) * 10_000;
            let green_in_red = luma * y * kg * nr - chroma * rv * kg * 10_000;
            let blue_in_red = luma * y * kb * nr - chroma * rv * kb * 10_000;
            let red_in_blue = luma * y * kr * nb - chroma * bu * kr * 10_000;
            let green_in_blue = luma * y * kg * nb - chroma * bu * kg * 10_000;
            let blue_in_blue = luma * y * kb * nb + chroma * bu * (10_000 - kb) * 10_000;
            let red_in_green = luma * y * kr * nr * nb - chroma * gu * kr * 10_000 * nr + chroma
                * gv * (10_000 - kr) * 10_000 * nb;
            let green_in_green = luma * y * kg * nr * nb - chroma * gu * kg * 10_000 * nr - chroma
                * gv * kg * 10_000 * nb;
            let blue_in_green = luma * y * kb * nr * nb + chroma * gu * (10_000 - kb) * 10_000 * nr
                - chroma * gv * kb * 10_000 * nb;
            &&& -step * nr < 6 * (red_in_red - 255 * step * nr) < step * nr
            &&& -step * nr < 6 * green_in_red < step * nr
            &&& -step * nr < 6 * blue_in_red < step * nr
            &&& -step * nb < 6 * red_in_blue < step * nb
            &&& -step * nb < 6 * green_in_blue < step * nb
            &&& -step * nb < 6 * (blue_in_blue - 255 * step * nb) < step * nb
            &&& -step * nr * nb < 6 * red_in_green < step * nr * nb
            &&& -step * nr * nb < 6 * (green_in_green - 255 * step * nr * nb) < step * nr * nb
            &&& -step * nr * nb < 6 * blue_in_green < step * nr * nb
        }),
{
}

/// A sample of eight bits fills its range as it is, and a sample of ten bits comes to the part of the
/// range that its number says, whichever half of its sixteen bits it stands in.
pub proof fn law_samples_fill_the_range(n: int)
    by (nonlinear_arith)
    ensures
        ({
            let (eight, two) = (rescale_of(VideoLeaseFormat::I420), rescale_of(VideoLeaseFormat::Nv12));
            let low = rescale_of(VideoLeaseFormat::I420_10);
            let high = rescale_of(VideoLeaseFormat::P010);
            &&& eight.num == eight.den && two.num == two.den && eight.den > 0 && two.den > 0
            &&& low.den > 0 && n * low.num * 1023 == n * low.den * 65535
            &&& high.den > 0 && (n * 64) * high.num * 1023 == n * high.den * 65535
        }),
{
}

/// A coefficient is so many hundred-thousandths; a whole number is itself.
pub proof fn law_coefficients_are_hundred_thousandths(n: i64)
    ensures
        coef(n).num == n && coef(n).den == 100_000,
        whole(n).num == n && whole(n).den == 1,
{
}

} // verus!
