//! What the settings mean: the values that the host reads are text and integers, checked here.
use crate::geometry::DeviceIntSize;
use crate::surface::StorageMode;
use crate::text::{
    chars_of, equal_but_for_case, equal_chars, lower_all, lowered, number, parse_i32,
    same_but_for_case, trim, trimmed,
};
use vstd::prelude::*;

verus! {

/// A switch is on where its value is a one or the word true.
pub open spec fn switched_on(value: Seq<char>) -> bool {
    value == "1"@ || same_but_for_case(value, "true"@)
}

/// Whether a switch is on. Without a value it is off.
pub fn switch_is_on(value: Option<&str>) -> (b: bool)
    ensures
        b == (value matches Some(v) && switched_on(v@)),
{
    match value {
        None => false,
        Some(v) => {
            let chars = chars_of(v);
            let one = chars_of("1");
            let word = chars_of("true");
            equal_chars(&chars, &one) || equal_but_for_case(&chars, &word)
        },
    }
}

/// How often an owed acknowledgement is withheld for fault testing: never where the setting is
/// absent or not positive.
pub fn canvas_ack_skips(raw: Option<i64>) -> (n: u64)
    ensures
        n == (match raw {
            Some(v) => if v > 0 {
                v as u64
            } else {
                0
            },
            None => 0,
        }),
{
    match raw {
        Some(v) if v > 0 => v as u64,
        _ => 0,
    }
}

/// Whether surfaces may become flip chains: not where the setting is the word surface.
pub fn storage_mode(value: Option<&str>) -> (m: StorageMode)
    ensures
        m == (if value matches Some(v) && same_but_for_case(v@, "surface"@) {
            StorageMode::SurfaceOnly
        } else {
            StorageMode::Hybrid
        }),
{
    match value {
        None => StorageMode::Hybrid,
        Some(v) => {
            let chars = chars_of(v);
            let word = chars_of("surface");
            if equal_but_for_case(&chars, &word) {
                StorageMode::SurfaceOnly
            } else {
                StorageMode::Hybrid
            }
        },
    }
}

/// The position of the first `x` at or after a position; the length where there is none.
pub open spec fn next_x(s: Seq<char>, from: int) -> int
    decreases s.len() - from,
{
    if from >= s.len() || s[from] == 'x' {
        from
    } else {
        next_x(s, from + 1)
    }
}

/// The two numbers of a size such as `1920x1080`: what stands before the first `x`, and between
/// it and the next one or the end.
pub open spec fn written_size(s: Seq<char>) -> Option<DeviceIntSize> {
    let a = next_x(s, 0);
    if a >= s.len() {
        None
    } else {
        let b = next_x(s, a + 1);
        match (number(trimmed(s.subrange(0, a))), number(trimmed(s.subrange(a + 1, b)))) {
            (Some(w), Some(h)) => if w > 0 && h > 0 {
                Some(DeviceIntSize { width: w, height: h })
            } else {
                None
            },
            _ => None,
        }
    }
}

/// The size of a picture tile that a setting asks for. Nothing asks for the renderer's own; the
/// word display asks for the size of the window, where that is known; else the setting writes a
/// size.
pub open spec fn wr_tile_size(value: Seq<char>, surface: DeviceIntSize) -> Option<DeviceIntSize> {
    let t = trimmed(value);
    if t.len() == 0 {
        None
    } else if same_but_for_case(t, "display"@) {
        if surface.width > 0 && surface.height > 0 {
            Some(surface)
        } else {
            None
        }
    } else {
        written_size(lowered(t))
    }
}

/// The position of the first `x` at or after a position.
fn find_x(s: &[char], from: usize) -> (p: usize)
    requires
        from <= s@.len(),
    ensures
        p == next_x(s@, from as int),
        from <= p <= s@.len(),
{
    let mut i: usize = from;
    while i < s.len() && s[i] != 'x'
        invariant
            from <= i <= s@.len(),
            next_x(s@, i as int) == next_x(s@, from as int),
        decreases s@.len() - i,
    {
        i = i + 1;
    }
    i
}

/// The characters from one position up to another.
fn part(s: &[char], from: usize, to: usize) -> (out: Vec<char>)
    requires
        from <= to <= s@.len(),
    ensures
        out@ == s@.subrange(from as int, to as int),
{
    let mut out: Vec<char> = Vec::new();
    let mut i: usize = from;
    while i < to
        invariant
            from <= i <= to <= s@.len(),
            out@ == s@.subrange(from as int, i as int),
        decreases to - i,
    {
        out.push(s[i]);
        i = i + 1;
        assert(out@ =~= s@.subrange(from as int, i as int));
    }
    out
}

/// The number in a part of the text, white space around it aside.
fn part_number(s: &[char], from: usize, to: usize) -> (r: Option<i32>)
    requires
        from <= to <= s@.len(),
    ensures
        r == number(trimmed(s@.subrange(from as int, to as int))),
{
    let chars = part(s, from, to);
    let inner = trim(&chars);
    parse_i32(&inner)
}

/// The size of a picture tile that the setting asks for.
pub fn resolve_wr_tile_size(value: &str, surface: DeviceIntSize) -> (r: Option<DeviceIntSize>)
    ensures
        r == wr_tile_size(value@, surface),
{
    let chars = chars_of(value);
    let inner = trim(&chars);
    if inner.len() == 0 {
        return None;
    }
    let word = chars_of("display");
    if equal_but_for_case(&inner, &word) {
        if surface.width <= 0 || surface.height <= 0 {
            return None;
        }
        return Some(surface);
    }
    let low = lower_all(&inner);
    let a: usize = find_x(&low, 0);
    if a >= low.len() {
        return None;
    }
    let b: usize = find_x(&low, a + 1);
    match (part_number(&low, 0, a), part_number(&low, a + 1, b)) {
        (Some(w), Some(h)) if w > 0 && h > 0 => Some(DeviceIntSize { width: w, height: h }),
        _ => None,
    }
}

/// Whether a setting of the tile size is worth a complaint: it says something, and what it says
/// is neither the word display nor a size.
pub fn tile_size_is_malformed(value: &str, surface: DeviceIntSize) -> (b: bool)
    ensures
        b == (wr_tile_size(value@, surface) is None && trimmed(value@).len() > 0
            && !same_but_for_case(trimmed(value@), "display"@)),
{
    let chars = chars_of(value);
    let inner = trim(&chars);
    let word = chars_of("display");
    resolve_wr_tile_size(value, surface).is_none() && inner.len() > 0 && !equal_but_for_case(
        &inner,
        &word,
    )
}

/// The size that the renderer gives its picture tiles by itself.
pub const DEFAULT_TILE_WIDTH: i32 = 1024;

pub const DEFAULT_TILE_HEIGHT: i32 = 512;

/// A tile size other than the steady one: sending it makes the renderer throw its tiles away.
pub fn alternate_tile_size(steady: Option<DeviceIntSize>) -> (r: DeviceIntSize)
    ensures
        r == alternate_size(steady),
{
    let (w, h): (i32, i32) = match steady {
        Some(s) => (s.width, s.height),
        None => (DEFAULT_TILE_WIDTH, DEFAULT_TILE_HEIGHT),
    };
    if w == 512 && h == 512 {
        DeviceIntSize { width: 1024, height: 512 }
    } else {
        DeviceIntSize { width: 512, height: 512 }
    }
}

/// The size of the tiles in the steady state.
pub open spec fn effective_size(steady: Option<DeviceIntSize>) -> DeviceIntSize {
    match steady {
        Some(s) => s,
        None => DeviceIntSize { width: DEFAULT_TILE_WIDTH, height: DEFAULT_TILE_HEIGHT },
    }
}

pub open spec fn alternate_size(steady: Option<DeviceIntSize>) -> DeviceIntSize {
    let e = effective_size(steady);
    if e.width == 512 && e.height == 512 {
        DeviceIntSize { width: 1024, height: 512 }
    } else {
        DeviceIntSize { width: 512, height: 512 }
    }
}

/// The alternate size always differs from the steady one, so that a change to it, and the change
/// back, each rebuild the tiles.
pub proof fn law_alternate_size_differs(steady: Option<DeviceIntSize>)
    ensures
        alternate_size(steady) != effective_size(steady),
{
}

/// A tile size that comes out of the setting is never empty.
pub proof fn law_tile_size_is_solid(value: Seq<char>, surface: DeviceIntSize)
    ensures
        wr_tile_size(value, surface) matches Some(s) ==> s.width > 0 && s.height > 0,
{
}

/// How many workers the renderer gets: one for each processor, or the fallback where their number
/// is not known, but never more than the limit, which is at least one. The two settings are taken
/// as they are cast.
pub fn worker_thread_count(available: Option<usize>, fallback: usize, limit: i64) -> (n: usize)
    requires
        limit <= usize::MAX,
    ensures
        ({
            let wanted = match available {
                Some(k) => k,
                None => fallback,
            };
            let most = if limit > 1 {
                limit as int
            } else {
                1
            };
            n == (if wanted <= most {
                wanted as int
            } else {
                most
            })
        }),
{
    let wanted: usize = match available {
        Some(k) => k,
        None => fallback,
    };
    let most: usize = if limit > 1 {
        limit as usize
    } else {
        1
    };
    if wanted <= most {
        wanted
    } else {
        most
    }
}

/// Whether textures are uploaded at once: so with ANGLE, else through a pixel buffer.
pub fn uploads_immediately(gl_renderer: &str) -> (b: bool)
    ensures
        b == (gl_renderer@.len() >= "ANGLE"@.len() && gl_renderer@.take("ANGLE"@.len() as int)
            == "ANGLE"@),
{
    let chars = chars_of(gl_renderer);
    let word = chars_of("ANGLE");
    if chars.len() < word.len() {
        return false;
    }
    let start = part(&chars, 0, word.len());
    assert(start@ =~= gl_renderer@.take("ANGLE"@.len() as int));
    equal_chars(&start, &word)
}

/// The rate of the paint timer where the setting is out of range.
pub const DEFAULT_REFRESH_HZ: i64 = 120;

/// The rate of the paint timer: the setting where it lies from one to a thousand.
pub open spec fn refresh_hz(raw: i64) -> i64 {
    if 1 <= raw <= 1000 {
        raw
    } else {
        DEFAULT_REFRESH_HZ
    }
}

/// A second divided by the rate, to the nearest nanosecond.
pub open spec fn timer_period(raw_hz: i64) -> u64 {
    ((1_000_000_000 + refresh_hz(raw_hz) / 2) / refresh_hz(raw_hz) as int) as u64
}

/// The period of the paint timer in nanoseconds: a second divided by the rate, to the nearest
/// nanosecond.
pub fn paint_timer_period_ns(raw_hz: i64) -> (ns: u64)
    ensures
        ns == timer_period(raw_hz),
        ({
            let hz = refresh_hz(raw_hz);
            &&& 2 * 1_000_000_000 - hz < 2 * hz * ns
            &&& 2 * hz * ns <= 2 * 1_000_000_000 + hz
        }),
        1_000_000 <= ns <= 1_000_000_000,
{
    let hz: u64 = if 1 <= raw_hz && raw_hz <= 1000 {
        raw_hz as u64
    } else {
        120
    };
    let n: u64 = 1_000_000_000 + hz / 2;
    let ns: u64 = n / hz;
    proof {
        vstd::arithmetic::div_mod::lemma_fundamental_div_mod(n as int, hz as int);
        let r = n as int % hz as int;
        assert(hz * ns == n - r);
        assert(0 <= r < hz);
        assert(2 * hz * ns == 2 * (n - r)) by (nonlinear_arith)
            requires
                hz * ns == n - r,
        ;
        assert(ns >= 1_000_000) by (nonlinear_arith)
            requires
                hz * ns == n - r,
                0 <= r < hz,
                hz <= 1000,
                n >= 1_000_000_000,
        ;
        assert(ns <= 1_000_000_000) by (nonlinear_arith)
            requires
                hz * ns == n - r,
                0 <= r < hz,
                1 <= hz <= 1000,
                n == 1_000_000_000 + hz / 2,
        ;
    }
    ns
}

/// The period of the paint timer. The setting is read once: all who need the period get the same
/// one, whatever the setting becomes.
#[derive(Clone, Copy, Debug, PartialEq, Eq, Structural)]
pub struct PaintTimer {
    pub period_ns: Option<u64>,
}

impl PaintTimer {
    /// A timer whose setting has not been read yet.
    pub fn new() -> (t: PaintTimer)
        ensures
            t == (PaintTimer { period_ns: None }),
    {
        PaintTimer { period_ns: None }
    }

    /// The period that is given where the setting reads so.
    pub open spec fn given(self, raw_hz: i64) -> u64 {
        match self.period_ns {
            Some(ns) => ns,
            None => timer_period(raw_hz),
        }
    }

    /// The timer after the period was asked for.
    pub open spec fn asked(self, raw_hz: i64) -> PaintTimer {
        PaintTimer { period_ns: Some(self.given(raw_hz)) }
    }

    /// The timer after the period was asked for again and again.
    pub open spec fn asked_all(self, settings: Seq<i64>) -> PaintTimer
        decreases settings.len(),
    {
        if settings.len() == 0 {
            self
        } else {
            self.asked_all(settings.drop_last()).asked(settings.last())
        }
    }

    /// The period in nanoseconds. The first call reads the setting; each later one gives what the
    /// first one gave.
    pub fn paint_timer_period(&mut self, raw_hz: i64) -> (ns: u64)
        ensures
            ns == old(self).given(raw_hz),
            *final(self) == old(self).asked(raw_hz),
    {
        let ns: u64 = match self.period_ns {
            Some(ns) => ns,
            None => paint_timer_period_ns(raw_hz),
        };
        self.period_ns = Some(ns);
        ns
    }
}

/// The first period is kept: whatever the setting has become since, and however often the period was
/// asked for, it is a second divided by the rate of the first reading.
pub proof fn law_first_period_is_kept(first: i64, since: Seq<i64>, now: i64)
    ensures
        ({
            let timer = PaintTimer { period_ns: None }.asked(first).asked_all(since);
            timer.given(now) == timer_period(first)
        }),
    decreases since.len(),
{
    if since.len() > 0 {
        law_first_period_is_kept(first, since.drop_last(), since.last());
    }
}

} // verus!
