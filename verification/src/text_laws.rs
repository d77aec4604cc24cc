//! Laws of what is read from text: numbers, sizes and switches, and the signatures that are
//! compared.

use crate::geometry::DeviceIntSize;
use crate::scroll_signature::{at_most, joined, pipeline_text, pipeline_texts, signature, text_order, texts};
use crate::settings::{
    alternate_size, effective_size, next_x, refresh_hz, switched_on, timer_period, wr_tile_size,
    written_size, PaintTimer,
};
use crate::text::{
    all_digits, digits_value, lower, lowered, number, same_but_for_case, trimmed, white_space,
    without_leading, without_trailing,
};
use crate::wall_metadata::{alike, without_signature};
use vstd::prelude::*;

verus! {

/// Blanks and line ends are white space; no other character of ASCII that is printed is.
pub proof fn law_what_is_white(c: char)
    ensures
        white_space(' ') && white_space('\t') && white_space('\n') && white_space('\r'),
        '!' <= c <= '~' ==> !white_space(c),
{
}

proof fn lemma_leading(s: Seq<char>) -> (n: int)
    ensures
        0 <= n <= s.len(),
        without_leading(s) == s.subrange(n, s.len() as int),
        forall|i: int| 0 <= i < n ==> white_space(#[trigger] s[i]),
        n < s.len() ==> !white_space(s[n]),
    decreases s.len(),
{
    if s.len() > 0 && white_space(s[0]) {
        let rest = s.drop_first();
        let n = lemma_leading(rest);
        assert forall|i: int| 0 <= i < n + 1 implies white_space(#[trigger] s[i]) by {
            if i > 0 {
                assert(rest[i - 1] == s[i]);
            }
        }
        assert(rest.subrange(n, rest.len() as int) =~= s.subrange(n + 1, s.len() as int));
        n + 1
    } else {
        assert(s.subrange(0, s.len() as int) =~= s);
        0
    }
}

proof fn lemma_trailing(s: Seq<char>) -> (n: int)
    ensures
        0 <= n <= s.len(),
        without_trailing(s) == s.subrange(0, n),
        forall|i: int| n <= i < s.len() ==> white_space(#[trigger] s[i]),
        n > 0 ==> !white_space(s[n - 1]),
    decreases s.len(),
{
    if s.len() > 0 && white_space(s.last()) {
        let rest = s.drop_last();
        let n = lemma_trailing(rest);
        assert forall|i: int| n <= i < s.len() implies white_space(#[trigger] s[i]) by {
            if i < rest.len() {
                assert(rest[i] == s[i]);
            }
        }
        assert(rest.subrange(0, n) =~= s.subrange(0, n));
        n
    } else {
        assert(s.subrange(0, s.len() as int) =~= s);
        s.len() as int
    }
}

/// Trimming takes the white space from both ends, all of it and nothing else.
pub proof fn law_trimming_takes_the_white_ends(s: Seq<char>) -> (r: (int, int))
    ensures
        0 <= r.0 <= r.1 <= s.len(),
        trimmed(s) == s.subrange(r.0, r.1),
        forall|i: int| 0 <= i < r.0 ==> white_space(#[trigger] s[i]),
        forall|i: int| r.1 <= i < s.len() ==> white_space(#[trigger] s[i]),
        r.0 < r.1 ==> !white_space(s[r.0]) && !white_space(s[r.1 - 1]),
{
    let a = lemma_leading(s);
    let mid = without_leading(s);
    let n = lemma_trailing(mid);
    assert(mid.subrange(0, n) =~= s.subrange(a, a + n));
    assert forall|i: int| a + n <= i < s.len() implies white_space(#[trigger] s[i]) by {
        assert(mid[i - a] == s[i]);
    }
    if n > 0 {
        assert(mid[n - 1] == s[a + n - 1]);
        if n < mid.len() || n > 0 {
            assert(mid[0] == s[a]);
        }
    }
    (a, a + n)
}

/// Capitals have their small letters thirty-two places on; nothing else changes. Texts are the same but for
/// case where each letter is.
pub proof fn law_small_letters(c: char, a: Seq<char>, b: Seq<char>, i: int)
    requires
        a.len() == b.len(),
    ensures
        'A' <= c <= 'Z' ==> lower(c) as u32 == c as u32 + 32,
        !('A' <= c <= 'Z') ==> lower(c) == c,
        lowered(a).len() == a.len(),
        0 <= i < a.len() ==> lowered(a)[i] == lower(a[i]),
        same_but_for_case(a, b) && 0 <= i < a.len() ==> lower(a[i]) == lower(b[i]),
        (forall|k: int| 0 <= k < a.len() ==> lower(#[trigger] a[k]) == lower(b[k]))
            ==> same_but_for_case(a, b),
{
    if same_but_for_case(a, b) && 0 <= i < a.len() {
        assert(lowered(a)[i] == lowered(b)[i]);
    }
    if forall|k: int| 0 <= k < a.len() ==> lower(#[trigger] a[k]) == lower(b[k]) {
        assert forall|k: int| 0 <= k < a.len() implies lowered(a)[k] == lowered(b)[k] by {
            assert(lower(a[k]) == lower(b[k]));
        }
        assert(lowered(a) =~= lowered(b));
    }
}

/// Each digit counts ten times what stands after it.
pub proof fn law_digits_are_decimal(s: Seq<char>, c: char)
    requires
        '0' <= c <= '9',
    ensures
        digits_value(s.push(c)) == 10 * digits_value(s) + (c as u32 - 48),
        digits_value(Seq::empty()) == 0,
{
    assert(s.push(c).drop_last() =~= s);
}

/// A number is a sign, or none, and digits, and fits; anything else is none.
pub proof fn law_numbers_are_signed_digits(s: Seq<char>)
    ensures
        ({
            let v = digits_value(s);
            let solid = s.len() > 0 && forall|i: int| 0 <= i < s.len() ==> '0' <= #[trigger] s[i] <= '9';
            let minus = seq!['-'] + s;
            let plus = seq!['+'] + s;
            &&& solid && 0 <= v <= 0x7fff_ffff ==> number(s) == Some(v as i32) && number(plus) == Some(
                v as i32,
            )
            &&& solid && 0 <= v <= 0x8000_0000 ==> number(minus) == Some((-v) as i32)
            &&& solid && v > 0x7fff_ffff ==> number(s) is None && number(plus) is None
            &&& solid && v > 0x8000_0000 ==> number(minus) is None
            &&& !solid ==> number(minus) is None && number(plus) is None
            &&& !solid && (s.len() == 0 || (s[0] != '-' && s[0] != '+')) ==> number(s) is None
        }),
{
    let minus = seq!['-'] + s;
    let plus = seq!['+'] + s;
    assert(minus.drop_first() =~= s);
    assert(plus.drop_first() =~= s);
    assert(minus[0] == '-' && plus[0] == '+');
    let solid = s.len() > 0 && forall|i: int| 0 <= i < s.len() ==> '0' <= #[trigger] s[i] <= '9';
    if solid {
        assert('0' <= s[0] <= '9');
        assert(all_digits(s));
    } else if s.len() > 0 {
        let i = choose|i: int| 0 <= i < s.len() && !('0' <= #[trigger] s[i] <= '9');
        assert(!crate::text::digit(s[i]));
        assert(!all_digits(s));
    }
}

proof fn lemma_next_x(s: Seq<char>, from: int, n: int)
    requires
        0 <= from <= n <= s.len(),
        forall|i: int| from <= i < n ==> #[trigger] s[i] != 'x',
        n < s.len() ==> s[n] == 'x',
    ensures
        next_x(s, from) == n,
    decreases n - from,
{
    if from < n {
        assert(s[from] != 'x');
        lemma_next_x(s, from + 1, n);
    }
}

/// A size is a width, an `x` and a height, both positive numbers, with white space round them as it comes; a
/// second `x` ends the height.
pub proof fn law_size_is_width_x_height(a: Seq<char>, b: Seq<char>, rest: Seq<char>)
    requires
        forall|i: int| 0 <= i < a.len() ==> #[trigger] a[i] != 'x',
        forall|i: int| 0 <= i < b.len() ==> #[trigger] b[i] != 'x',
    ensures
        ({
            let s = a + seq!['x'] + b;
            let t = s + seq!['x'] + rest;
            let w = number(trimmed(a));
            let h = number(trimmed(b));
            let solid = w is Some && h is Some && w->0 > 0 && h->0 > 0;
            &&& solid ==> written_size(s) == Some(DeviceIntSize { width: w->0, height: h->0 })
                && written_size(t) == Some(DeviceIntSize { width: w->0, height: h->0 })
            &&& !solid ==> written_size(s) is None && written_size(t) is None
            &&& written_size(a) is None
        }),
{
    let s = a + seq!['x'] + b;
    let t = s + seq!['x'] + rest;
    let n = a.len() as int;
    let m = n + 1 + b.len();
    assert forall|i: int| 0 <= i < n implies #[trigger] s[i] != 'x' by {
        assert(s[i] == a[i]);
    }
    assert forall|i: int| n + 1 <= i < m implies #[trigger] s[i] != 'x' by {
        assert(s[i] == b[i - n - 1]);
    }
    assert forall|i: int| 0 <= i < n implies #[trigger] t[i] != 'x' by {
        assert(t[i] == a[i]);
    }
    assert forall|i: int| n + 1 <= i < m implies #[trigger] t[i] != 'x' by {
        assert(t[i] == b[i - n - 1]);
    }
    assert(s[n] == 'x' && t[n] == 'x' && t[m] == 'x');
    lemma_next_x(s, 0, n);
    lemma_next_x(s, n + 1, m);
    lemma_next_x(t, 0, n);
    lemma_next_x(t, n + 1, m);
    lemma_next_x(a, 0, n);
    assert(s.subrange(0, n) =~= a && t.subrange(0, n) =~= a);
    assert(s.subrange(n + 1, m) =~= b && t.subrange(n + 1, m) =~= b);
}

/// The tile size that is set: none where nothing is, that of the surface where that is asked for and it has
/// one, and else the one that is written.
pub proof fn law_tile_size_is_as_set(value: Seq<char>, surface: DeviceIntSize)
    ensures
        ({
            let t = trimmed(value);
            let display = same_but_for_case(t, seq!['d', 'i', 's', 'p', 'l', 'a', 'y']);
            let solid = surface.width > 0 && surface.height > 0;
            &&& t.len() == 0 ==> wr_tile_size(value, surface) is None
            &&& display && solid ==> wr_tile_size(value, surface) == Some(surface)
            &&& display && !solid ==> wr_tile_size(value, surface) is None
            &&& t.len() > 0 && !display ==> wr_tile_size(value, surface) == written_size(lowered(t))
        }),
{
    reveal_strlit("display");
    assert("display"@ =~= seq!['d', 'i', 's', 'p', 'l', 'a', 'y']);
    let t = trimmed(value);
    if t.len() == 0 && same_but_for_case(t, seq!['d', 'i', 's', 'p', 'l', 'a', 'y']) {
        assert(lowered(t).len() == 0);
        assert(lowered(seq!['d', 'i', 's', 'p', 'l', 'a', 'y']).len() == 7);
    }
}

/// A switch is on for a one and for the word for it, in small letters or capitals, and for nothing else.
pub proof fn law_switch_is_on_for_one_and_true(value: Seq<char>)
    ensures
        switched_on(value) <==> (value.len() == 1 && value[0] == '1') || (value.len() == 4 && (
        value[0] == 't' || value[0] == 'T') && (value[1] == 'r' || value[1] == 'R') && (value[2]
            == 'u' || value[2] == 'U') && (value[3] == 'e' || value[3] == 'E')),
{
    reveal_strlit("1");
    reveal_strlit("true");
    let word = "true"@;
    assert("1"@ =~= seq!['1']);
    assert(word =~= seq!['t', 'r', 'u', 'e']);
    if value.len() == 1 && value[0] == '1' {
        assert(value =~= seq!['1']);
    }
    if same_but_for_case(value, word) {
        assert(lowered(value).len() == lowered(word).len());
        assert(value.len() == 4);
        assert(lowered(value)[0] == lowered(word)[0]);
        assert(lowered(value)[1] == lowered(word)[1]);
        assert(lowered(value)[2] == lowered(word)[2]);
        assert(lowered(value)[3] == lowered(word)[3]);
    }
    if value.len() == 4 && (value[0] == 't' || value[0] == 'T') && (value[1] == 'r' || value[1]
        == 'R') && (value[2] == 'u' || value[2] == 'U') && (value[3] == 'e' || value[3] == 'E') {
        assert(lowered(value) =~= lowered(word));
    }
}

/// Without a tile size the renderer uses tiles of one thousand and twenty-four by five hundred and twelve;
/// the other size is five hundred and twelve each way, unless that is the one in use.
pub proof fn law_tile_sizes(steady: Option<DeviceIntSize>)
    ensures
        steady is Some ==> effective_size(steady) == steady->0,
        steady is None ==> effective_size(steady).width == 1024 && effective_size(steady).height == 512,
        alternate_size(steady) == (DeviceIntSize { width: 512, height: 512 }) || alternate_size(
            steady,
        ) == (DeviceIntSize { width: 1024, height: 512 }),
        alternate_size(steady).width == 1024 <==> steady is Some && steady->0.width == 512
            && steady->0.height == 512,
{
}

/// The period of the timer is that of the rate, to the nearest nanosecond; a rate outside one to a thousand
/// counts as a hundred and twenty.
pub proof fn law_timer_period_is_that_of_the_rate(raw: i64)
    ensures
        1 <= raw <= 1000 ==> refresh_hz(raw) == raw,
        raw < 1 || raw > 1000 ==> refresh_hz(raw) == 120,
        2 * (timer_period(raw) * refresh_hz(raw) - 1_000_000_000) <= refresh_hz(raw),
        2 * (1_000_000_000 - timer_period(raw) * refresh_hz(raw)) <= refresh_hz(raw),
{
    let hz = refresh_hz(raw) as int;
    let a = 1_000_000_000 + hz / 2;
    vstd::arithmetic::div_mod::lemma_fundamental_div_mod(a, hz);
    vstd::arithmetic::div_mod::lemma_mod_bound(a, hz);
    let q = a / hz;
    assert(0 <= q <= a) by (nonlinear_arith)
        requires
            q == a / hz,
            hz >= 1,
            a >= 0,
    ;
    assert(timer_period(raw) == q);
    assert(hz * q == q * hz) by (nonlinear_arith);
}

/// The period that was given once is given again, whatever is set since.
pub proof fn law_period_is_given_once(t: PaintTimer, raw: i64, other: i64)
    ensures
        t.period_ns is Some ==> t.given(raw) == t.period_ns->0,
        t.period_ns is None ==> t.given(raw) == timer_period(raw),
        t.asked(raw).given(other) == t.given(raw),
{
}

/// Texts are ordered letter by letter: the first that differs decides, and a text comes before one that goes
/// on after it.
pub proof fn law_first_difference_decides(a: Seq<char>, b: Seq<char>, k: int)
    requires
        0 <= k <= a.len(),
        k <= b.len(),
        forall|i: int| 0 <= i < k ==> #[trigger] a[i] == b[i],
    ensures
        k < a.len() && k < b.len() && a[k] < b[k] ==> at_most(a, b) && !at_most(b, a),
        k == a.len() ==> at_most(a, b),
        k == a.len() && k < b.len() ==> !at_most(b, a),
    decreases k,
{
    if k > 0 {
        let (x, y) = (a.drop_first(), b.drop_first());
        assert forall|i: int| 0 <= i < k - 1 implies #[trigger] x[i] == y[i] by {
            assert(a[i + 1] == b[i + 1]);
        }
        assert(a[0] == b[0]);
        law_first_difference_decides(x, y, k - 1);
        if k < a.len() && k < b.len() {
            assert(x[k - 1] == a[k] && y[k - 1] == b[k]);
        }
    }
}

/// Parts are joined in their order, with the separator between each two.
pub proof fn law_parts_are_joined_in_order(parts: Seq<Seq<char>>, p: Seq<char>, between: Seq<char>)
    ensures
        parts.len() > 0 ==> joined(parts.push(p), between) == joined(parts, between) + between + p,
        parts.len() == 0 ==> joined(parts.push(p), between) == p,
        joined(Seq::empty(), between).len() == 0,
{
    assert(parts.push(p).drop_last() =~= parts);
}

/// A pipeline is written as its name and, in brackets, its nodes in order; a signature as its pipelines in
/// order.
pub proof fn law_signature_is_written_in_order(
    pipelines: Seq<(String, Vec<String>)>,
    one: (String, Vec<String>),
    sorted_nodes: Seq<Seq<char>>,
    sorted: Seq<Seq<char>>,
)
    requires
        sorted_nodes == texts(one.1@).sort_by(text_order()),
        sorted == pipeline_texts(pipelines).sort_by(text_order()),
    ensures
        pipeline_text(one) == one.0@ + seq!['['] + joined(sorted_nodes, seq![';']) + seq![']'],
        signature(pipelines) == joined(sorted, seq!['|']),
        texts(one.1@).len() == one.1@.len(),
        forall|i: int| 0 <= i < one.1@.len() ==> #[trigger] texts(one.1@)[i] == one.1@[i]@,
        pipeline_texts(pipelines).len() == pipelines.len(),
        forall|i: int|
            0 <= i < pipelines.len() ==> #[trigger] pipeline_texts(pipelines)[i] == pipeline_text(
                pipelines[i],
            ),
{
    reveal_strlit("[");
    reveal_strlit("]");
    reveal_strlit(";");
    reveal_strlit("|");
    assert("["@ =~= seq!['[']);
    assert("]"@ =~= seq![']']);
    assert(";"@ =~= seq![';']);
    assert("|"@ =~= seq!['|']);
}

/// The targets without a signature are named in their order; the others are alike where no two of them
/// differ.
pub proof fn law_targets_without_a_signature_are_named(
    targets: Seq<(u64, Option<String>)>,
    t: (u64, Option<String>),
    i: int,
    j: int,
)
    ensures
        t.1 is None ==> without_signature(targets.push(t)) == without_signature(targets).push(t.0),
        t.1 is Some ==> without_signature(targets.push(t)) == without_signature(targets),
        without_signature(Seq::empty()).len() == 0,
        alike(targets) && 0 <= i < targets.len() && 0 <= j < targets.len() && targets[i].1 is Some
            && targets[j].1 is Some ==> targets[i].1->0@ == targets[j].1->0@,
        !alike(targets) ==> exists|a: int, b: int|
            0 <= a < targets.len() && 0 <= b < targets.len() && (#[trigger] targets[a]).1 is Some && (
            #[trigger] targets[b]).1 is Some && targets[a].1->0@ != targets[b].1->0@,
{
    assert(targets.push(t).drop_last() =~= targets);
    if alike(targets) && 0 <= i < targets.len() && 0 <= j < targets.len() {
        if i < j {
            assert(targets[i].1 is Some && targets[j].1 is Some ==> targets[i].1->0@
                == targets[j].1->0@);
        } else if j < i {
            assert(targets[j].1 is Some && targets[i].1 is Some ==> targets[j].1->0@
                == targets[i].1->0@);
        }
    }
}

} // verus!
