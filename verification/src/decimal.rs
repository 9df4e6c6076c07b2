//! Fixed-point decimal values parsed from locale-formatted strings
//! (`.` as thousands separator, `,` as decimal point).
//!
//! Parsing first removes every `.`, then turns `,` into `.`, and then reads
//! the result as a plain decimal number.  A string that does not read as a
//! number after this transform yields zero: degradation, not an error.

use vstd::prelude::*;

verus! {

/// A decimal number represented exactly: the value is
/// `mantissa / 10^scale`, negated when `negative` holds.
#[derive(Clone, Copy, PartialEq, Eq, Structural, Debug)]
pub struct Decimal {
    pub negative: bool,
    pub mantissa: u64,
    pub scale: usize,
}

pub open spec fn is_digit(c: char) -> bool {
    48 <= c as u32 && c as u32 <= 57
}

pub open spec fn digit_val(c: char) -> nat {
    (c as u32 - 48) as nat
}

/// The locale transform: every `.` removed, every `,` turned into `.`.
pub open spec fn locale_transform(s: Seq<char>) -> Seq<char>
    decreases s.len(),
{
    if s.len() == 0 {
        Seq::empty()
    } else {
        let rest = locale_transform(s.drop_last());
        if s.last() == '.' {
            rest
        } else if s.last() == ',' {
            rest.push('.')
        } else {
            rest.push(s.last())
        }
    }
}

/// The transformed string without its optional leading sign.
pub open spec fn number_body(t: Seq<char>) -> Seq<char> {
    if t.len() > 0 && (t[0] == '+' || t[0] == '-') {
        t.drop_first()
    } else {
        t
    }
}

pub open spec fn has_neg_sign(t: Seq<char>) -> bool {
    t.len() > 0 && t[0] == '-'
}

pub open spec fn all_number_chars(b: Seq<char>) -> bool {
    forall|i: int| 0 <= i < b.len() ==> is_digit(#[trigger] b[i]) || b[i] == '.'
}

pub open spec fn count_dots(b: Seq<char>) -> nat
    decreases b.len(),
{
    if b.len() == 0 {
        0
    } else {
        count_dots(b.drop_last()) + if b.last() == '.' { 1nat } else { 0nat }
    }
}

pub open spec fn count_digits(b: Seq<char>) -> nat
    decreases b.len(),
{
    if b.len() == 0 {
        0
    } else {
        count_digits(b.drop_last()) + if is_digit(b.last()) { 1nat } else { 0nat }
    }
}

/// The digits of `b` read as one integer, the decimal point ignored.
pub open spec fn mantissa_of(b: Seq<char>) -> nat
    decreases b.len(),
{
    if b.len() == 0 {
        0
    } else {
        let rest = mantissa_of(b.drop_last());
        if b.last() == '.' {
            rest
        } else {
            rest * 10 + digit_val(b.last())
        }
    }
}

pub open spec fn has_dot(b: Seq<char>) -> bool {
    exists|i: int| 0 <= i < b.len() && b[i] == '.'
}

/// How many characters stand after the decimal point.
pub open spec fn scale_of(b: Seq<char>) -> nat
    decreases b.len(),
{
    if b.len() == 0 {
        0
    } else if !has_dot(b) {
        0
    } else if b.last() == '.' {
        0
    } else {
        scale_of(b.drop_last()) + 1
    }
}

/// A well-formed number body: nonempty, only digits and at most one dot,
/// and at least one digit.
pub open spec fn wf_number(b: Seq<char>) -> bool {
    &&& b.len() > 0
    &&& all_number_chars(b)
    &&& count_dots(b) <= 1
    &&& count_digits(b) >= 1
}

impl Decimal {
    /// The zero value, produced whenever a source string fails to parse.
    pub open spec fn spec_zero() -> Decimal {
        Decimal { negative: false, mantissa: 0, scale: 0 }
    }

    pub fn zero() -> (r: Decimal)
        ensures
            r == Decimal::spec_zero(),
    {
        Decimal { negative: false, mantissa: 0, scale: 0 }
    }
}

/// What parsing a locale-formatted decimal string yields: the exact value
/// when the transformed string is a well-formed number whose mantissa fits,
/// and zero otherwise.
pub open spec fn spec_parse_decimal(s: Seq<char>) -> Decimal {
    let t = locale_transform(s);
    let b = number_body(t);
    if wf_number(b) && mantissa_of(b) <= u64::MAX {
        Decimal {
            negative: has_neg_sign(t) && mantissa_of(b) > 0,
            mantissa: mantissa_of(b) as u64,
            scale: scale_of(b) as usize,
        }
    } else {
        Decimal::spec_zero()
    }
}

/// A string with no recognizable digit after the locale transform parses
/// to zero rather than failing.
pub proof fn lemma_no_digits_zero(s: Seq<char>)
    requires
        count_digits(number_body(locale_transform(s))) == 0,
    ensures
        spec_parse_decimal(s) == Decimal::spec_zero(),
{
}

fn exec_is_digit(c: char) -> (r: bool)
    ensures
        r == is_digit(c),
{
    let u: u32 = c as u32;
    48 <= u && u <= 57
}

/// Parse a locale-formatted decimal string (`.` thousands separator,
/// `,` decimal point) into an exact decimal value; a string that does not
/// read as a number yields zero rather than an error.
pub fn parse_decimal(s: &str) -> (r: Decimal)
    ensures
        r == spec_parse_decimal(s@),
{
    let n: usize = s.unicode_len();
    let mut t: Vec<char> = Vec::new();
    for i in 0..n
        invariant
            n == s@.len(),
            t@ == locale_transform(s@.take(i as int)),
    {
        let c = s.get_char(i);
        proof {
            assert(s@.take(i + 1).drop_last() =~= s@.take(i as int));
            assert(s@.take(i + 1).last() == c);
        }
        if c == '.' {
        } else if c == ',' {
            t.push('.');
        } else {
            t.push(c);
        }
    }
    proof {
        assert(s@.take(n as int) =~= s@);
    }
    let ghost tv = t@;
    let (neg, start): (bool, usize) = if t.len() > 0 && (t[0] == '-' || t[0] == '+') {
        (t[0] == '-', 1)
    } else {
        (false, 0)
    };
    let ghost b = number_body(tv);
    proof {
        assert(b =~= tv.subrange(start as int, tv.len() as int));
        assert(neg == has_neg_sign(tv));
    }
    let len: usize = t.len();
    let mut mant: u64 = 0;
    let mut frac: usize = 0;
    let mut digits: usize = 0;
    let mut seen_dot: bool = false;
    let mut ok: bool = true;
    let mut overflow: bool = false;
    let mut i: usize = start;
    while i < len
        invariant
            start <= i <= len,
            len == tv.len(),
            t@ == tv,
            b == number_body(tv),
            b =~= tv.subrange(start as int, tv.len() as int),
            ok == (all_number_chars(tv.subrange(start as int, i as int)) && count_dots(
                tv.subrange(start as int, i as int),
            ) <= 1),
            seen_dot == has_dot(tv.subrange(start as int, i as int)),
            digits == count_digits(tv.subrange(start as int, i as int)),
            ok ==> overflow == (mantissa_of(tv.subrange(start as int, i as int)) > u64::MAX),
            ok && !overflow ==> mant == mantissa_of(tv.subrange(start as int, i as int)),
            ok && !seen_dot ==> scale_of(tv.subrange(start as int, i as int)) == 0,
            ok && seen_dot ==> frac == scale_of(tv.subrange(start as int, i as int)),
            !seen_dot ==> frac == 0,
        decreases len - i,
    {
        let ghost p = tv.subrange(start as int, i as int);
        let ghost p2 = tv.subrange(start as int, i + 1);
        proof {
            assert(p2.drop_last() =~= p);
            assert(p2.last() == tv[i as int]);
            assert(forall|j: int| 0 <= j < p.len() ==> #[trigger] p2[j] == p[j]);
            count_digits_le_len(p);
            scale_le_len(p);
            has_dot_count(p);
            if seen_dot {
                let j = choose|j: int| 0 <= j < p.len() && p[j] == '.';
                assert(p2[j] == '.');
                assert(has_dot(p2));
            }
            if !all_number_chars(p) {
                let j = choose|j: int| 0 <= j < p.len() && !(is_digit(p[j]) || p[j] == '.');
                assert(!(is_digit(p2[j]) || p2[j] == '.'));
                assert(!all_number_chars(p2));
            }
        }
        let c = t[i];
        if c == '.' {
            if seen_dot {
                ok = false;
            }
            seen_dot = true;
            proof {
                assert(p2[p2.len() - 1] == '.');
                assert(has_dot(p2));
                if ok {
                    assert(all_number_chars(p2));
                }
            }
        } else if exec_is_digit(c) {
            let d: u64 = (c as u32 - 48) as u64;
            proof {
                assert(d == digit_val(c));
                if !seen_dot {
                    assert(!has_dot(p2)) by {
                        assert(forall|j: int| 0 <= j < p2.len() ==> #[trigger] p2[j] != '.');
                    }
                }
                if ok {
                    assert(all_number_chars(p2));
                }
            }
            if !overflow {
                if mant <= (u64::MAX - d) / 10 {
                    proof {
                        assert(mant * 10 + d <= u64::MAX) by (nonlinear_arith)
                            requires
                                mant <= (u64::MAX - d) / 10,
                                d <= 9,
                        ;
                    }
                    mant = mant * 10 + d;
                } else {
                    proof {
                        assert(mant * 10 + d > u64::MAX) by (nonlinear_arith)
                            requires
                                mant > (u64::MAX - d) / 10,
                                d <= 9,
                        ;
                    }
                    overflow = true;
                }
            } else {
                proof {
                    if ok {
                        assert(mantissa_of(p) * 10 + digit_val(c) > u64::MAX) by (nonlinear_arith)
                            requires
                                mantissa_of(p) > u64::MAX,
                        ;
                    }
                }
            }
            digits = digits + 1;
            if seen_dot && ok {
                frac = frac + 1;
            }
        } else {
            ok = false;
            proof {
                if !seen_dot {
                    assert(!has_dot(p2)) by {
                        assert(forall|j: int| 0 <= j < p2.len() ==> #[trigger] p2[j] != '.');
                    }
                }
                assert(p2[p2.len() - 1] == c);
                assert(!all_number_chars(p2));
            }
        }
        i = i + 1;
    }
    proof {
        assert(tv.subrange(start as int, len as int) == b);
    }
    if ok && digits >= 1 && !overflow {
        Decimal { negative: neg && mant > 0, mantissa: mant, scale: if seen_dot { frac } else { 0 } }
    } else {
        proof {
            if digits == 0 {
                assert(count_digits(b) == 0);
            }
        }
        Decimal { negative: false, mantissa: 0, scale: 0 }
    }
}

proof fn has_dot_count(b: Seq<char>)
    ensures
        has_dot(b) <==> count_dots(b) >= 1,
    decreases b.len(),
{
    if b.len() > 0 {
        has_dot_count(b.drop_last());
        if has_dot(b) && b.last() != '.' {
            let j = choose|j: int| 0 <= j < b.len() && b[j] == '.';
            assert(b.drop_last()[j] == '.');
            assert(has_dot(b.drop_last()));
        }
        if has_dot(b.drop_last()) {
            let j = choose|j: int| 0 <= j < b.len() - 1 && b.drop_last()[j] == '.';
            assert(b[j] == '.');
            assert(has_dot(b));
        }
        if b.last() == '.' {
            assert(b[b.len() - 1] == '.');
            assert(has_dot(b));
        }
    }
}

proof fn count_digits_le_len(b: Seq<char>)
    ensures
        count_digits(b) <= b.len(),
    decreases b.len(),
{
    if b.len() > 0 {
        count_digits_le_len(b.drop_last());
    }
}

proof fn scale_le_len(b: Seq<char>)
    ensures
        scale_of(b) <= b.len(),
    decreases b.len(),
{
    if b.len() > 0 {
        scale_le_len(b.drop_last());
    }
}

} // verus!
