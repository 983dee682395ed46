use vstd::prelude::*;
use vstd::slice::slice_subrange;

verus! {

pub open spec fn is_digit(b: u8) -> bool {
    48 <= b <= 57
}

pub open spec fn all_digits(s: Seq<u8>) -> bool {
    forall|i: int| 0 <= i < s.len() ==> is_digit(#[trigger] s[i])
}

pub open spec fn is_sign(b: u8) -> bool {
    b == 43 || b == 45
}

pub open spec fn is_exp_mark(b: u8) -> bool {
    b == 101 || b == 69
}

/// An ASCII byte folded to lower case.
pub open spec fn lower(b: u8) -> u8 {
    if 65 <= b <= 90 { (b + 32) as u8 } else { b }
}

/// `s` spells the lower-case `word` in any mix of cases.
pub open spec fn spells(s: Seq<u8>, word: Seq<u8>) -> bool {
    s.len() == word.len() && forall|i: int| 0 <= i < s.len() ==> lower(#[trigger] s[i]) == word[i]
}

pub open spec fn word_inf() -> Seq<u8> {
    seq![105u8, 110, 102]
}

pub open spec fn word_infinity() -> Seq<u8> {
    seq![105u8, 110, 102, 105, 110, 105, 116, 121]
}

pub open spec fn word_nan() -> Seq<u8> {
    seq![110u8, 97, 110]
}

/// `inf`, `infinity` or `nan`, in any case.
pub open spec fn is_special(s: Seq<u8>) -> bool {
    spells(s, word_inf()) || spells(s, word_infinity()) || spells(s, word_nan())
}

/// Digits with at most one decimal point, and at least one digit.
pub open spec fn is_mantissa(m: Seq<u8>) -> bool {
    (m.len() > 0 && all_digits(m)) || exists|d: int|
        0 <= d < m.len() && m.len() >= 2 && #[trigger] m[d] == 46 && all_digits(m.subrange(0, d))
            && all_digits(m.subrange(d + 1, m.len() as int))
}

/// `e` or `E`, an optional sign, and at least one digit.
pub open spec fn is_exponent(x: Seq<u8>) -> bool {
    x.len() >= 2 && is_exp_mark(x[0]) && if is_sign(x[1]) {
        x.len() >= 3 && all_digits(x.subrange(2, x.len() as int))
    } else {
        all_digits(x.subrange(1, x.len() as int))
    }
}

/// A mantissa, then an optional exponent.
pub open spec fn is_decimal(b: Seq<u8>) -> bool {
    exists|e: int|
        0 <= e <= b.len() && is_mantissa(#[trigger] b.subrange(0, e)) && (e == b.len()
            || is_exponent(b.subrange(e, b.len() as int)))
}

/// `s` without its leading sign, if it has one.
pub open spec fn unsigned_part(s: Seq<u8>) -> Seq<u8> {
    if s.len() > 0 && is_sign(s[0]) { s.subrange(1, s.len() as int) } else { s }
}

/// The text of a decimal floating-point number: an optional sign, then a
/// decimal number or one of `inf`, `infinity`, `nan`.
pub open spec fn is_number_text(s: Seq<u8>) -> bool {
    is_special(unsigned_part(s)) || is_decimal(unsigned_part(s))
}

fn all_digits_in(s: &[u8]) -> (r: bool)
    ensures
        r == all_digits(s@),
{
    let mut i: usize = 0;
    while i < s.len()
        invariant
            i <= s.len(),
            all_digits(s@.subrange(0, i as int)),
        decreases s.len() - i,
    {
        if s[i] < 48 || s[i] > 57 {
            assert(!is_digit(s@[i as int]));
            return false;
        }
        assert(s@.subrange(0, i + 1)[i as int] == s@[i as int]);
        i = i + 1;
    }
    assert(s@.subrange(0, i as int) =~= s@);
    true
}

/// The first index in `s` holding `a` or `b`, or the length.
fn find_either(s: &[u8], a: u8, b: u8) -> (r: usize)
    ensures
        r <= s.len(),
        forall|i: int| 0 <= i < r ==> s@[i] != a && s@[i] != b,
        r < s.len() ==> s@[r as int] == a || s@[r as int] == b,
{
    let mut i: usize = 0;
    while i < s.len()
        invariant
            i <= s.len(),
            forall|k: int| 0 <= k < i ==> s@[k] != a && s@[k] != b,
        decreases s.len() - i,
    {
        if s[i] == a || s[i] == b {
            return i;
        }
        i = i + 1;
    }
    i
}

proof fn lemma_mantissa_bytes(m: Seq<u8>)
    requires
        is_mantissa(m),
    ensures
        forall|i: int| 0 <= i < m.len() ==> is_digit(#[trigger] m[i]) || m[i] == 46,
{
    if !(m.len() > 0 && all_digits(m)) {
        let d = choose|d: int|
            0 <= d < m.len() && m.len() >= 2 && #[trigger] m[d] == 46 && all_digits(
                m.subrange(0, d),
            ) && all_digits(m.subrange(d + 1, m.len() as int));
        assert forall|i: int| 0 <= i < m.len() implies is_digit(#[trigger] m[i]) || m[i] == 46 by {
            if i < d {
                assert(m.subrange(0, d)[i] == m[i]);
            } else if i > d {
                assert(m.subrange(d + 1, m.len() as int)[i - d - 1] == m[i]);
            }
        }
    }
}

fn check_mantissa(m: &[u8]) -> (r: bool)
    ensures
        r == is_mantissa(m@),
{
    let q = find_either(m, 46, 46);
    if q == m.len() {
        let r = m.len() > 0 && all_digits_in(m);
        proof {
            if !r && is_mantissa(m@) {
                let d = choose|d: int|
                    0 <= d < m@.len() && m@.len() >= 2 && #[trigger] m@[d] == 46 && all_digits(
                        m@.subrange(0, d),
                    ) && all_digits(m@.subrange(d + 1, m@.len() as int));
                assert(m@[d] != 46);
            }
        }
        r
    } else {
        let head = slice_subrange(m, 0, q);
        let tail = slice_subrange(m, q + 1, m.len());
        let r = m.len() >= 2 && all_digits_in(head) && all_digits_in(tail);
        proof {
            assert(!is_digit(m@[q as int]));
            if r {
                assert(m@[q as int] == 46);
            }
            if !r && is_mantissa(m@) {
                let d = choose|d: int|
                    0 <= d < m@.len() && m@.len() >= 2 && #[trigger] m@[d] == 46 && all_digits(
                        m@.subrange(0, d),
                    ) && all_digits(m@.subrange(d + 1, m@.len() as int));
                if d > q {
                    assert(m@.subrange(0, d)[q as int] == m@[q as int]);
                }
                assert(d == q);
            }
        }
        r
    }
}

fn check_exponent(x: &[u8]) -> (r: bool)
    ensures
        r == is_exponent(x@),
{
    if x.len() < 2 || !(x[0] == 101 || x[0] == 69) {
        return false;
    }
    if x[1] == 43 || x[1] == 45 {
        x.len() >= 3 && all_digits_in(slice_subrange(x, 2, x.len()))
    } else {
        all_digits_in(slice_subrange(x, 1, x.len()))
    }
}

fn lower_byte(b: u8) -> (r: u8)
    ensures
        r == lower(b),
{
    if 65 <= b && b <= 90 {
        b + 32
    } else {
        b
    }
}

fn spells_word(s: &[u8], word: &[u8]) -> (r: bool)
    ensures
        r == spells(s@, word@),
{
    if s.len() != word.len() {
        return false;
    }
    let mut i: usize = 0;
    while i < s.len()
        invariant
            i <= s.len(),
            s.len() == word.len(),
            forall|k: int| 0 <= k < i ==> lower(#[trigger] s@[k]) == word@[k],
        decreases s.len() - i,
    {
        if lower_byte(s[i]) != word[i] {
            return false;
        }
        i = i + 1;
    }
    true
}

fn check_special(s: &[u8]) -> (r: bool)
    ensures
        r == is_special(s@),
{
    let inf: [u8; 3] = [105, 110, 102];
    let infinity: [u8; 8] = [105, 110, 102, 105, 110, 105, 116, 121];
    let nan: [u8; 3] = [110, 97, 110];
    assert(inf@ =~= word_inf());
    assert(infinity@ =~= word_infinity());
    assert(nan@ =~= word_nan());
    spells_word(s, &inf) || spells_word(s, &infinity) || spells_word(s, &nan)
}

fn check_decimal(b: &[u8]) -> (r: bool)
    ensures
        r == is_decimal(b@),
{
    let p = find_either(b, 101, 69);
    let mant = slice_subrange(b, 0, p);
    let r = if check_mantissa(mant) {
        p == b.len() || check_exponent(slice_subrange(b, p, b.len()))
    } else {
        false
    };
    proof {
        if r {
            assert(is_mantissa(b@.subrange(0, p as int)));
        }
        if !r && is_decimal(b@) {
            let e = choose|e: int|
                0 <= e <= b@.len() && is_mantissa(#[trigger] b@.subrange(0, e)) && (e == b@.len()
                    || is_exponent(b@.subrange(e, b@.len() as int)));
            lemma_mantissa_bytes(b@.subrange(0, e));
            if e < b@.len() {
                assert(b@.subrange(e, b@.len() as int)[0] == b@[e]);
            }
            if p < e {
                assert(b@.subrange(0, e)[p as int] == b@[p as int]);
            }
            if e < p {
                assert(false);
            }
            assert(e == p);
        }
    }
    r
}

/// Whether a field is the text of a decimal floating-point number.
pub fn is_number_field(s: &[u8]) -> (r: bool)
    ensures
        r == is_number_text(s@),
{
    let body = if s.len() > 0 && (s[0] == 43 || s[0] == 45) {
        slice_subrange(s, 1, s.len())
    } else {
        s
    };
    check_special(body) || check_decimal(body)
}

} // verus!
