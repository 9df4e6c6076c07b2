//! Character-level text utilities: splitting on a separator, line
//! splitting with `\r\n` handling, string equality and digit formatting.

use vstd::prelude::*;
use vstd::string::StrSliceExecFns;

verus! {

/// Relies on String::push: appends the given character to the end of the
/// string.
#[verifier::external_body]
pub(crate) fn push_char(s: &mut String, c: char)
    ensures
        final(s)@ == old(s)@.push(c),
{
    s.push(c);
}

/// The pieces of `s` between occurrences of `sep`: always at least one
/// piece, empty pieces kept.
pub open spec fn spec_split(s: Seq<char>, sep: char) -> Seq<Seq<char>>
    decreases s.len(),
{
    if s.len() == 0 {
        seq![Seq::<char>::empty()]
    } else {
        let rest = spec_split(s.drop_last(), sep);
        if s.last() == sep {
            rest.push(Seq::<char>::empty())
        } else {
            rest.update(rest.len() - 1, rest.last().push(s.last()))
        }
    }
}

pub proof fn split_nonempty(s: Seq<char>, sep: char)
    ensures
        spec_split(s, sep).len() >= 1,
    decreases s.len(),
{
    if s.len() > 0 {
        split_nonempty(s.drop_last(), sep);
    }
}

/// Split a string on a separator character, keeping empty pieces, as
/// `str::split` does.
pub fn split_char(s: &str, sep: char) -> (parts: Vec<String>)
    ensures
        parts.deep_view() == spec_split(s@, sep),
        parts.len() >= 1,
{
    let n: usize = s.unicode_len();
    let mut done: Vec<String> = Vec::new();
    let mut cur: String = String::new();
    for i in 0..n
        invariant
            n == s@.len(),
            done.deep_view().push(cur@) =~= spec_split(s@.take(i as int), sep),
    {
        let c = s.get_char(i);
        proof {
            assert(s@.take(i + 1).drop_last() =~= s@.take(i as int));
            assert(s@.take(i + 1).last() == c);
            split_nonempty(s@.take(i as int), sep);
        }
        if c == sep {
            done.push(cur);
            cur = String::new();
        } else {
            push_char(&mut cur, c);
        }
    }
    proof {
        assert(s@.take(n as int) =~= s@);
    }
    done.push(cur);
    proof {
        assert(done.deep_view() =~= spec_split(s@, sep));
    }
    done
}

/// A line with one trailing carriage return removed.
pub open spec fn strip_cr(l: Seq<char>) -> Seq<char> {
    if l.len() > 0 && l.last() == '\r' {
        l.drop_last()
    } else {
        l
    }
}

/// The lines of a text, split at `\n` or `\r\n`; a final line terminator
/// produces no extra empty line.  This matches `str::lines`.
pub open spec fn spec_lines(t: Seq<char>) -> Seq<Seq<char>> {
    let ps = spec_split(t, '\n');
    let body = Seq::new((ps.len() - 1) as nat, |i: int| strip_cr(ps[i]));
    if ps.last().len() == 0 {
        body
    } else {
        body.push(ps.last())
    }
}

/// Split a text into its lines, as `str::lines` does.
pub fn split_lines(text: &str) -> (ls: Vec<String>)
    ensures
        ls.deep_view() == spec_lines(text@),
{
    let parts = split_char(text, '\n');
    proof {
        split_nonempty(text@, '\n');
    }
    let mut ls: Vec<String> = Vec::new();
    let m: usize = parts.len() - 1;
    for i in 0..m
        invariant
            m == parts.len() - 1,
            parts.deep_view() == spec_split(text@, '\n'),
            ls.deep_view() =~= Seq::new(i as nat, |j: int| strip_cr(parts.deep_view()[j])),
    {
        let ghost prev = ls.deep_view();
        let li = &parts[i];
        proof {
            assert(li@ == parts.deep_view()[i as int]);
        }
        let len: usize = li.as_str().unicode_len();
        if len > 0 && li.as_str().get_char(len - 1) == '\r' {
            let stripped = li.as_str().substring_char(0, len - 1);
            proof {
                assert(stripped@ =~= strip_cr(li@));
            }
            ls.push(stripped.to_owned());
        } else {
            proof {
                assert(strip_cr(li@) == li@);
            }
            ls.push(li.clone());
        }
        proof {
            assert(ls@.len() == prev.len() + 1);
            assert(ls.deep_view() =~= prev.push(strip_cr(parts.deep_view()[i as int])));
            assert(ls.deep_view() =~= Seq::new((i + 1) as nat, |j: int| strip_cr(parts.deep_view()[j])));
        }
    }
    let lastp = &parts[m];
    if lastp.as_str().unicode_len() > 0 {
        ls.push(lastp.clone());
        proof {
            assert(ls.deep_view() =~= spec_lines(text@));
        }
    } else {
        proof {
            assert(ls.deep_view() =~= spec_lines(text@));
        }
    }
    ls
}

/// Character-for-character string equality.
pub fn str_eq(a: &str, b: &str) -> (r: bool)
    ensures
        r == (a@ == b@),
{
    let na: usize = a.unicode_len();
    let nb: usize = b.unicode_len();
    if na != nb {
        return false;
    }
    for i in 0..na
        invariant
            na == a@.len(),
            na == b@.len(),
            forall|j: int| 0 <= j < i ==> a@[j] == b@[j],
    {
        if a.get_char(i) != b.get_char(i) {
            return false;
        }
    }
    proof {
        assert(a@ =~= b@);
    }
    true
}

pub open spec fn digit_char(d: nat) -> char {
    if d == 0 {
        '0'
    } else if d == 1 {
        '1'
    } else if d == 2 {
        '2'
    } else if d == 3 {
        '3'
    } else if d == 4 {
        '4'
    } else if d == 5 {
        '5'
    } else if d == 6 {
        '6'
    } else if d == 7 {
        '7'
    } else if d == 8 {
        '8'
    } else {
        '9'
    }
}

/// The decimal digits of `n`, most significant first.
pub open spec fn spec_digits(n: nat) -> Seq<char>
    decreases n,
{
    if n < 10 {
        seq![digit_char(n)]
    } else {
        spec_digits(n / 10).push(digit_char(n % 10))
    }
}

fn exec_digit_char(d: u64) -> (c: char)
    requires
        d < 10,
    ensures
        c == digit_char(d as nat),
{
    if d == 0 {
        '0'
    } else if d == 1 {
        '1'
    } else if d == 2 {
        '2'
    } else if d == 3 {
        '3'
    } else if d == 4 {
        '4'
    } else if d == 5 {
        '5'
    } else if d == 6 {
        '6'
    } else if d == 7 {
        '7'
    } else if d == 8 {
        '8'
    } else {
        '9'
    }
}

/// Format an integer in decimal.
pub fn u64_to_string(n: u64) -> (r: String)
    ensures
        r@ == spec_digits(n as nat),
    decreases n,
{
    if n < 10 {
        let mut r = String::new();
        push_char(&mut r, exec_digit_char(n));
        proof {
            assert(r@ =~= spec_digits(n as nat));
        }
        r
    } else {
        let mut r = u64_to_string(n / 10);
        push_char(&mut r, exec_digit_char(n % 10));
        r
    }
}

} // verus!
