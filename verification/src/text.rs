//! Numeric text: validation of order-entry quantity and price fields, and
//! compact decimal rendering of volumes.
//!
//! Quantity text is a positive decimal integer that fits in `u32`; price
//! text is parseable positive numeric text: an optional plus, a mantissa
//! of digits with at most one dot, and an optional exponent, with some
//! mantissa digit nonzero. Volume is rendered as plain digits below a
//! thousand, and as a one-decimal "K" or "M" figure above, rounding half
//! away from zero.

use vstd::prelude::*;
use vstd::arithmetic::div_mod::{
    lemma_div_is_ordered,
    lemma_div_multiples_vanish_fancy,
    lemma_fundamental_div_mod,
    lemma_mod_bound,
};
use vstd::string::StrSliceExecFns;
use vstd::string::StringExecFns;

verus! {

pub open spec fn is_digit_char(c: char) -> bool {
    48 <= c as u32 <= 57
}

pub open spec fn digit_val(c: char) -> int {
    c as u32 - 48
}

pub open spec fn digits_only(s: Seq<char>) -> bool {
    forall|i: int| 0 <= i < s.len() ==> is_digit_char(#[trigger] s[i])
}

/// Whether some digit in `s[from..to]` is nonzero.
pub open spec fn nonzero_digit_in(s: Seq<char>, from: int, to: int) -> bool {
    exists|k: int| from <= k < to && is_digit_char(#[trigger] s[k]) && s[k] != '0'
}

pub open spec fn has_nonzero_digit(s: Seq<char>) -> bool {
    nonzero_digit_in(s, 0, s.len() as int)
}

/// The number a digit string denotes, most significant digit first.
pub open spec fn dec_value(s: Seq<char>) -> int
    decreases s.len(),
{
    if s.len() == 0 {
        0
    } else {
        dec_value(s.drop_last()) * 10 + digit_val(s.last())
    }
}

/// Quantity text: one or more digits denoting a positive number that fits
/// in `u32`.
pub open spec fn valid_quantity_text(s: Seq<char>) -> bool {
    s.len() >= 1 && digits_only(s) && 0 < dec_value(s) <= u32::MAX as int
}

pub open spec fn is_exp_char(c: char) -> bool {
    c == 'e' || c == 'E'
}

pub open spec fn is_sign_char(c: char) -> bool {
    c == '+' || c == '-'
}

/// Index of the first exponent marker (`e` or `E`), or the length when
/// there is none.
pub open spec fn exp_marker_index(s: Seq<char>) -> int
    decreases s.len(),
{
    if s.len() == 0 {
        0
    } else if is_exp_char(s[0]) {
        0
    } else {
        1 + exp_marker_index(s.subrange(1, s.len() as int))
    }
}

/// Mantissa text: digits with at most one dot among them, and at least one
/// digit — so `5`, `5.`, `.5` and `5.5`, but not `.` or the empty text.
pub open spec fn valid_mantissa_text(m: Seq<char>) -> bool {
    &&& forall|i: int| 0 <= i < m.len() ==> is_digit_char(#[trigger] m[i]) || m[i] == '.'
    &&& exists|i: int| 0 <= i < m.len() && is_digit_char(#[trigger] m[i])
    &&& forall|i: int, j: int|
        0 <= i < j < m.len() ==> !((#[trigger] m[i]) == '.' && (#[trigger] m[j]) == '.')
}

/// Exponent text, after the marker: an optional sign, then one or more
/// digits.
pub open spec fn valid_exponent_text(x: Seq<char>) -> bool {
    let d = if x.len() > 0 && is_sign_char(x[0]) {
        x.subrange(1, x.len() as int)
    } else {
        x
    };
    d.len() >= 1 && digits_only(d)
}

/// Price text stripped of an optional leading plus. A leading minus stays:
/// negative prices are not valid.
pub open spec fn price_number_text(s: Seq<char>) -> Seq<char> {
    if s.len() > 0 && s[0] == '+' {
        s.subrange(1, s.len() as int)
    } else {
        s
    }
}

/// Price text: parseable positive numeric text — an optional plus, a
/// mantissa of digits with at most one dot, and an optional exponent,
/// with some mantissa digit nonzero so that the value is positive.
pub open spec fn valid_price_text(s: Seq<char>) -> bool {
    let t = price_number_text(s);
    let p = exp_marker_index(t);
    &&& valid_mantissa_text(t.subrange(0, p))
    &&& (p == t.len() || valid_exponent_text(t.subrange(p + 1, t.len() as int)))
    &&& has_nonzero_digit(t.subrange(0, p))
}

/// `exp_marker_index` returns `p` when nothing before `p` is a marker and
/// `p` is one or the end.
proof fn lemma_exp_marker_index_at(s: Seq<char>, p: int)
    requires
        0 <= p <= s.len(),
        forall|k: int| 0 <= k < p ==> !is_exp_char(#[trigger] s[k]),
        p < s.len() ==> is_exp_char(s[p]),
    ensures
        exp_marker_index(s) == p,
    decreases s.len(),
{
    if s.len() != 0 && p > 0 {
        let tail = s.subrange(1, s.len() as int);
        assert(!is_exp_char(s[0]));
        assert forall|k: int| 0 <= k < p - 1 implies !is_exp_char(#[trigger] tail[k]) by {
            assert(tail[k] == s[k + 1]);
        }
        assert(p - 1 < tail.len() ==> is_exp_char(tail[p - 1]));
        lemma_exp_marker_index_at(tail, p - 1);
    }
}

proof fn lemma_dec_value_nonneg(s: Seq<char>)
    requires
        digits_only(s),
    ensures
        dec_value(s) >= 0,
    decreases s.len(),
{
    if s.len() > 0 {
        assert(digits_only(s.drop_last()));
        lemma_dec_value_nonneg(s.drop_last());
    }
}

proof fn lemma_dec_value_prefix_step(s: Seq<char>, i: int)
    requires
        0 <= i < s.len(),
    ensures
        dec_value(s.subrange(0, i + 1)) == dec_value(s.subrange(0, i)) * 10 + digit_val(s[i]),
{
    let p = s.subrange(0, i + 1);
    assert(p.drop_last() =~= s.subrange(0, i));
    assert(p.last() == s[i]);
}

/// Extending a digit string can only grow the number it denotes.
proof fn lemma_dec_value_monotone(s: Seq<char>, i: int)
    requires
        0 <= i <= s.len(),
        digits_only(s),
    ensures
        dec_value(s.subrange(0, i)) <= dec_value(s),
    decreases s.len() - i,
{
    if i == s.len() {
        assert(s.subrange(0, i) =~= s);
    } else {
        lemma_dec_value_prefix_step(s, i);
        let v = dec_value(s.subrange(0, i));
        assert(digits_only(s.subrange(0, i)));
        lemma_dec_value_nonneg(s.subrange(0, i));
        assert(v <= v * 10 + digit_val(s[i]));
        lemma_dec_value_monotone(s, i + 1);
    }
}

/// Parses quantity text: `Some` exactly on valid quantity text, carrying
/// the number the digits denote.
pub fn parse_quantity(s: &str) -> (r: Option<u32>)
    ensures
        r is Some <==> valid_quantity_text(s@),
        r is Some ==> r->0 == dec_value(s@),
{
    let n = s.unicode_len();
    if n == 0 {
        return None;
    }
    let mut acc: u64 = 0;
    let mut i: usize = 0;
    while i < n
        invariant
            0 <= i <= n,
            n == s@.len(),
            digits_only(s@.subrange(0, i as int)),
            acc == dec_value(s@.subrange(0, i as int)),
            acc <= u32::MAX,
        decreases n - i,
    {
        let c = s.get_char(i);
        if (c as u32) < 48 || (c as u32) > 57 {
            proof {
                assert(!is_digit_char(s@[i as int]));
                assert(!digits_only(s@)) by {
                    assert(!is_digit_char(s@[i as int]));
                }
            }
            return None;
        }
        let d: u64 = (c as u32 - 48) as u64;
        proof {
            lemma_dec_value_prefix_step(s@, i as int);
        }
        acc = acc * 10 + d;
        i = i + 1;
        if acc > u32::MAX as u64 {
            proof {
                assert(digits_only(s@.subrange(0, i as int)));
                if digits_only(s@) {
                    lemma_dec_value_monotone(s@, i as int);
                }
            }
            return None;
        }
    }
    proof {
        assert(s@.subrange(0, n as int) =~= s@);
    }
    if acc == 0 {
        None
    } else {
        Some(acc as u32)
    }
}

/// First index at or after `from` whose character is not a digit (the
/// length when all of the rest are digits); `nonzero` reports whether a
/// nonzero digit was passed on the way.
fn first_non_digit_at(s: &str, from: usize) -> (r: (usize, bool))
    requires
        from <= s@.len(),
    ensures
        from <= r.0 <= s@.len(),
        forall|k: int| from <= k < r.0 ==> is_digit_char(#[trigger] s@[k]),
        r.0 < s@.len() ==> !is_digit_char(s@[r.0 as int]),
        r.1 == nonzero_digit_in(s@, from as int, r.0 as int),
{
    let n = s.unicode_len();
    let mut i = from;
    let mut nonzero = false;
    while i < n
        invariant
            from <= i <= n,
            n == s@.len(),
            forall|k: int| from <= k < i ==> is_digit_char(#[trigger] s@[k]),
            nonzero == nonzero_digit_in(s@, from as int, i as int),
        decreases n - i,
    {
        let c = s.get_char(i);
        if (c as u32) < 48 || (c as u32) > 57 {
            return (i, nonzero);
        }
        if (c as u32) != 48 {
            nonzero = true;
        }
        i = i + 1;
    }
    (i, nonzero)
}

/// First index at or after `from` whose character is an exponent marker,
/// or the length when none is.
fn exp_marker_at(s: &str, from: usize) -> (r: usize)
    requires
        from <= s@.len(),
    ensures
        from <= r <= s@.len(),
        forall|k: int| from <= k < r ==> !is_exp_char(#[trigger] s@[k]),
        r < s@.len() ==> is_exp_char(s@[r as int]),
{
    let n = s.unicode_len();
    let mut i = from;
    while i < n
        invariant
            from <= i <= n,
            n == s@.len(),
            forall|k: int| from <= k < i ==> !is_exp_char(#[trigger] s@[k]),
        decreases n - i,
    {
        let c = s.get_char(i);
        proof {
            assert('e' as u32 == 101 && 'E' as u32 == 69);
        }
        if (c as u32) == 101 || (c as u32) == 69 {
            return i;
        }
        i = i + 1;
    }
    i
}

/// Checks price text: an optional plus, a mantissa of digits with at most
/// one dot and at least one of them nonzero, and an optional exponent.
#[verifier::rlimit(50)]
pub fn is_valid_price_text(s: &str) -> (r: bool)
    ensures
        r == valid_price_text(s@),
{
    let n = s.unicode_len();
    let mut start: usize = 0;
    if n > 0 {
        let c0 = s.get_char(0);
        proof {
            assert('+' as u32 == 43);
        }
        if (c0 as u32) == 43 {
            start = 1;
        }
    }
    let ghost t = price_number_text(s@);
    proof {
        assert(t =~= s@.subrange(start as int, n as int));
        assert(t == s@.subrange(start as int, n as int));
        assert forall|k: int| 0 <= k < t.len() implies t[k] == s@[k + start] by {}
    }
    // the split point: everything up to the first exponent marker is the
    // mantissa
    let marker = exp_marker_at(s, start);
    let ghost p = marker as int - start as int;
    proof {
        lemma_exp_marker_index_at(t, p);
        assert(exp_marker_index(t) == p);
    }
    let ghost m = t.subrange(0, p);
    let mut i = start;
    let mut seen_digit = false;
    let mut seen_nonzero = false;
    let mut seen_dot = false;
    while i < marker
        invariant
            start <= i <= marker,
            marker <= n,
            n == s@.len(),
            t == s@.subrange(start as int, n as int),
            t == price_number_text(s@),
            p == exp_marker_index(t),
            m == t.subrange(0, p),
            p == marker as int - start as int,
            forall|k: int| 0 <= k < i - start ==> is_digit_char(#[trigger] m[k]) || m[k] == '.',
            seen_digit == (exists|k: int| 0 <= k < i - start && is_digit_char(#[trigger] m[k])),
            seen_nonzero == nonzero_digit_in(m, 0, i - start),
            seen_dot == (exists|k: int| 0 <= k < i - start && (#[trigger] m[k]) == '.'),
            forall|k1: int, k2: int|
                0 <= k1 < k2 < i - start ==> !((#[trigger] m[k1]) == '.' && (#[trigger] m[k2])
                    == '.'),
        decreases marker - i,
    {
        let c = s.get_char(i);
        proof {
            assert(m[i - start] == s@[i as int]);
        }
        if 48 <= (c as u32) && (c as u32) <= 57 {
            seen_digit = true;
            if (c as u32) != 48 {
                proof {
                    assert('0' as u32 == 48);
                }
                seen_nonzero = true;
            }
        } else if (c as u32) == 46 {
            proof {
                assert('.' as u32 == 46);
            }
            if seen_dot {
                proof {
                    let k1 = choose|k: int| 0 <= k < i - start && (#[trigger] m[k]) == '.';
                    assert(m[i - start] == '.');
                    assert(0 <= k1 < i - start < m.len());
                    assert(!valid_mantissa_text(m));
                    assert(!valid_price_text(s@));
                }
                return false;
            }
            seen_dot = true;
        } else {
            proof {
                assert('.' as u32 == 46);
                assert(0 <= i - start < m.len());
                assert(!(is_digit_char(m[i - start]) || m[i - start] == '.'));
                assert(!valid_mantissa_text(m));
                assert(!valid_price_text(s@));
            }
            return false;
        }
        i = i + 1;
    }
    // the whole mantissa is scanned: it must hold a digit and a nonzero one
    proof {
        assert(m.len() == p);
        assert(has_nonzero_digit(m) == nonzero_digit_in(m, 0, p));
    }
    if !seen_digit {
        return false;
    }
    if !seen_nonzero {
        return false;
    }
    proof {
        assert(valid_mantissa_text(m));
    }
    if marker == n {
        return true;
    }
    // an exponent follows the marker: an optional sign, then digits
    let ghost x = t.subrange(p + 1, t.len() as int);
    proof {
        assert forall|k: int| 0 <= k < x.len() implies x[k] == s@[k + marker + 1] by {}
    }
    let mut j = marker + 1;
    if j < n {
        let cs = s.get_char(j);
        proof {
            assert('+' as u32 == 43 && '-' as u32 == 45);
        }
        if (cs as u32) == 43 || (cs as u32) == 45 {
            j = j + 1;
        }
    }
    let ghost d = if x.len() > 0 && is_sign_char(x[0]) {
        x.subrange(1, x.len() as int)
    } else {
        x
    };
    proof {
        assert(d =~= s@.subrange(j as int, n as int));
        assert(d == s@.subrange(j as int, n as int));
    }
    if j == n {
        // no exponent digits at all
        return false;
    }
    let (digits_end, _) = first_non_digit_at(s, j);
    if digits_end < n {
        proof {
            assert(d[digits_end - j] == s@[digits_end as int]);
            assert(!digits_only(d));
        }
        return false;
    }
    proof {
        assert forall|k: int| 0 <= k < d.len() implies is_digit_char(#[trigger] d[k]) by {
            assert(d[k] == s@[k + j]);
        }
    }
    true
}

/// Checks quantity text: one or more digits, positive, within `u32`.
pub fn is_valid_quantity_text(s: &str) -> (r: bool)
    ensures
        r == valid_quantity_text(s@),
{
    parse_quantity(s).is_some()
}

/// Order-entry gate: the quantity and price fields both hold valid
/// positive numeric text.
pub fn validate_trade_inputs(qty: &str, price: &str) -> (r: bool)
    ensures
        r == (valid_quantity_text(qty@) && valid_price_text(price@)),
{
    let q = is_valid_quantity_text(qty);
    let p = is_valid_price_text(price);
    q && p
}

/// The digit character for a value below ten.
pub open spec fn digit_char_of(d: int) -> char {
    if d == 0 {
        '0'
    } else if d == 1 {
        '1'
    } else if d == 2 {
        '2'
    } else if d == 3 {
        '3'
    } else if d == 4 {
        '4'
    } else if d == 5 {
        '5'
    } else if d == 6 {
        '6'
    } else if d == 7 {
        '7'
    } else if d == 8 {
        '8'
    } else {
        '9'
    }
}

/// The decimal rendering of a number, most significant digit first.
pub open spec fn dec_str(n: nat) -> Seq<char>
    decreases n,
{
    if n < 10 {
        seq![digit_char_of(n as int)]
    } else {
        dec_str(n / 10).push(digit_char_of((n % 10) as int))
    }
}

/// The one-character text of a value below ten.
pub(crate) fn digit_str(d: u64) -> (r: &'static str)
    requires
        d < 10,
    ensures
        r@ =~= seq![digit_char_of(d as int)],
{
    proof {
        reveal_strlit("0");
        reveal_strlit("1");
        reveal_strlit("2");
        reveal_strlit("3");
        reveal_strlit("4");
        reveal_strlit("5");
        reveal_strlit("6");
        reveal_strlit("7");
        reveal_strlit("8");
        reveal_strlit("9");
    }
    if d == 0 {
        "0"
    } else if d == 1 {
        "1"
    } else if d == 2 {
        "2"
    } else if d == 3 {
        "3"
    } else if d == 4 {
        "4"
    } else if d == 5 {
        "5"
    } else if d == 6 {
        "6"
    } else if d == 7 {
        "7"
    } else if d == 8 {
        "8"
    } else {
        "9"
    }
}

/// Renders a number in decimal.
pub fn u64_dec_string(n: u64) -> (r: String)
    ensures
        r@ == dec_str(n as nat),
    decreases n,
{
    if n < 10 {
        String::from_str(digit_str(n))
    } else {
        let mut s = u64_dec_string(n / 10);
        s.append(digit_str(n % 10));
        proof {
            assert(s@ =~= dec_str(n as nat));
        }
        s
    }
}

/// `v / d`, rounded to the nearest integer with halves rounded up.
pub open spec fn round_div(v: int, d: int) -> int {
    (v + d / 2) / d
}

/// The compact volume figure: plain digits below a thousand; above, the
/// value in thousandths ("K") or millionths ("M") with one decimal digit,
/// rounded half up.
pub open spec fn spec_format_volume(v: u64) -> Seq<char> {
    if v >= 1_000_000 {
        let t = round_div(v as int, 100_000);
        dec_str((t / 10) as nat) + seq!['.', digit_char_of(t % 10), 'M']
    } else if v >= 1_000 {
        let t = round_div(v as int, 100);
        dec_str((t / 10) as nat) + seq!['.', digit_char_of(t % 10), 'K']
    } else {
        dec_str(v as nat)
    }
}

/// `v/d + (v%d >= d/2)` computes the rounded quotient without overflowing.
proof fn lemma_round_div_parts(v: int, d: int)
    requires
        v >= 0,
        d >= 2,
        d % 2 == 0,
    ensures
        round_div(v, d) == v / d + if v % d >= d / 2 {
            1int
        } else {
            0int
        },
{
    let q = v / d;
    let r = v % d;
    lemma_fundamental_div_mod(v, d);
    lemma_mod_bound(v, d);
    lemma_div_is_ordered(0, v, d);
    if r >= d / 2 {
        assert(v + d / 2 == d * (q + 1) + (r - d / 2)) by {
            assert(d * (q + 1) == d * q + d) by (nonlinear_arith);
        }
        lemma_div_multiples_vanish_fancy(q + 1, r - d / 2, d);
    } else {
        assert(v + d / 2 == d * q + (r + d / 2));
        lemma_div_multiples_vanish_fancy(q, r + d / 2, d);
    }
}

/// Renders a volume the way the market-data row shows it: "1.3M", "1.5K",
/// or plain digits.
pub fn format_volume(volume: u64) -> (r: String)
    ensures
        r@ == spec_format_volume(volume),
{
    if volume >= 1_000_000 {
        let t = volume / 100_000 + if volume % 100_000 >= 50_000 {
            1
        } else {
            0
        };
        proof {
            lemma_round_div_parts(volume as int, 100_000);
        }
        let mut s = u64_dec_string(t / 10);
        s.append(".");
        s.append(digit_str(t % 10));
        s.append("M");
        proof {
            reveal_strlit(".");
            reveal_strlit("M");
            assert(s@ =~= spec_format_volume(volume));
        }
        s
    } else if volume >= 1_000 {
        let t = volume / 100 + if volume % 100 >= 50 {
            1
        } else {
            0
        };
        proof {
            lemma_round_div_parts(volume as int, 100);
        }
        let mut s = u64_dec_string(t / 10);
        s.append(".");
        s.append(digit_str(t % 10));
        s.append("K");
        proof {
            reveal_strlit(".");
            reveal_strlit("K");
            assert(s@ =~= spec_format_volume(volume));
        }
        s
    } else {
        u64_dec_string(volume)
    }
}

} // verus!
