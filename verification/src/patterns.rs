//! Fixed text patterns enforced on catalog data, and the shape of number
//! literals carried by the document model.
//!
//! The character classes here are deliberately the ASCII ones: a digit is
//! `0` to `9` and whitespace is the six ASCII separators. A pattern engine
//! whose classes cover all of Unicode would also accept other digit or
//! space characters in the manufacturer fields; catalog identifiers and
//! timestamps are ASCII data, so the narrower class is the intended
//! reading here.
use vstd::prelude::*;
use vstd::string::StrSliceExecFns;

verus! {

/// `c` is one of the ASCII digits `0` to `9`.
pub open spec fn is_digit(c: char) -> bool {
    ('0' as u32) <= (c as u32) && (c as u32) <= ('9' as u32)
}

/// `s` is one or more ASCII digits and nothing else.
pub open spec fn all_digits(s: Seq<char>) -> bool {
    s.len() >= 1 && forall|i: int| 0 <= i < s.len() ==> is_digit(#[trigger] s[i])
}

/// ASCII whitespace, the six separators a pattern's whitespace class names.
pub open spec fn is_space(c: char) -> bool {
    c == ' ' || c == '\t' || c == '\n' || c == '\r' || c == '\u{b}' || c == '\u{c}'
}

/// A timestamp of the shape `YYYY-MM-DD hh:mm:ss` starting at `i`:
/// a year beginning `19` or `20`, a month `01` to `09` or `11`, `12`
/// (a class that also admits a comma after `1`), a day `01` to `31`,
/// whitespace, and a 24-hour clock time.
pub open spec fn datetime_at(s: Seq<char>, i: int) -> bool {
    &&& 0 <= i
    &&& i + 19 <= s.len()
    &&& ((s[i] == '1' && s[i + 1] == '9') || (s[i] == '2' && s[i + 1] == '0'))
    &&& is_digit(s[i + 2])
    &&& is_digit(s[i + 3])
    &&& s[i + 4] == '-'
    &&& ((s[i + 5] == '0' && is_digit(s[i + 6]) && s[i + 6] != '0') || (s[i + 5] == '1' && (s[i
        + 6] == '1' || s[i + 6] == '2' || s[i + 6] == ',')))
    &&& s[i + 7] == '-'
    &&& ((s[i + 8] == '0' && is_digit(s[i + 9]) && s[i + 9] != '0') || ((s[i + 8] == '1' || s[i
        + 8] == '2') && is_digit(s[i + 9])) || (s[i + 8] == '3' && (s[i + 9] == '0' || s[i + 9]
        == '1')))
    &&& is_space(s[i + 10])
    &&& ((s[i + 11] == '0' || s[i + 11] == '1') && is_digit(s[i + 12]) || (s[i + 11] == '2' && (
    ('0' as u32) <= (s[i + 12] as u32) && (s[i + 12] as u32) <= ('3' as u32))))
    &&& s[i + 13] == ':'
    &&& (('0' as u32) <= (s[i + 14] as u32) && (s[i + 14] as u32) <= ('5' as u32))
    &&& is_digit(s[i + 15])
    &&& s[i + 16] == ':'
    &&& (('0' as u32) <= (s[i + 17] as u32) && (s[i + 17] as u32) <= ('5' as u32))
    &&& is_digit(s[i + 18])
}

/// Somewhere in `s` a timestamp of that shape occurs.
pub open spec fn contains_datetime(s: Seq<char>) -> bool {
    exists|i: int| datetime_at(s, i)
}

/// A run of digits with no superfluous leading zero: `0`, or a run that
/// does not start with `0`.
pub open spec fn is_int_part(s: Seq<char>) -> bool {
    all_digits(s) && (s.len() == 1 || s[0] != '0')
}

/// Nothing, or a decimal point followed by at least one digit.
pub open spec fn is_frac_part(s: Seq<char>) -> bool {
    s.len() == 0 || (s[0] == '.' && all_digits(s.drop_first()))
}

/// An unsigned decimal literal: integer part and optional fraction.
pub open spec fn is_unsigned_dec(s: Seq<char>) -> bool {
    exists|i: int|
        1 <= i <= s.len() && is_int_part(#[trigger] s.take(i)) && is_frac_part(s.skip(i))
}

/// A decimal literal: optional minus sign, integer part, optional fraction.
/// This is the exact shape in which the catalog carries its decimal values.
pub open spec fn is_dec_lit(s: Seq<char>) -> bool {
    if s.len() > 0 && s[0] == '-' {
        is_unsigned_dec(s.drop_first())
    } else {
        is_unsigned_dec(s)
    }
}

/// The character for one digit value.
pub open spec fn digit_char(d: int) -> char {
    if d == 0 {
        '0'
    } else if d == 1 {
        '1'
    } else if d == 2 {
        '2'
    } else if d == 3 {
        '3'
    } else if d == 4 {
        '4'
    } else if d == 5 {
        '5'
    } else if d == 6 {
        '6'
    } else if d == 7 {
        '7'
    } else if d == 8 {
        '8'
    } else {
        '9'
    }
}

/// The decimal digits of a non-negative integer, most significant first.
pub open spec fn dec_digits(n: int) -> Seq<char>
    decreases n,
{
    if n < 10 {
        seq![digit_char(n)]
    } else {
        dec_digits(n / 10).push(digit_char(n % 10))
    }
}

/// The decimal literal of an integer.
pub open spec fn int_lit(n: int) -> Seq<char> {
    if n < 0 {
        seq!['-'] + dec_digits(-n)
    } else {
        dec_digits(n)
    }
}

/// One digit as a string slice.
fn digit_str(d: u64) -> (r: &'static str)
    requires
        d < 10,
    ensures
        r@ == seq![digit_char(d as int)],
{
    proof {
        reveal_strlit("0");
        reveal_strlit("1");
        reveal_strlit("2");
        reveal_strlit("3");
        reveal_strlit("4");
        reveal_strlit("5");
        reveal_strlit("6");
        reveal_strlit("7");
        reveal_strlit("8");
        reveal_strlit("9");
    }
    if d == 0 {
        "0"
    } else if d == 1 {
        "1"
    } else if d == 2 {
        "2"
    } else if d == 3 {
        "3"
    } else if d == 4 {
        "4"
    } else if d == 5 {
        "5"
    } else if d == 6 {
        "6"
    } else if d == 7 {
        "7"
    } else if d == 8 {
        "8"
    } else {
        "9"
    }
}

/// Append the decimal digits of `n` to `out`.
fn push_digits(n: u64, out: &mut String)
    ensures
        final(out)@ == old(out)@ + dec_digits(n as int),
    decreases n,
{
    if n >= 10 {
        push_digits(n / 10, out);
        out.append(digit_str(n % 10));
        proof {
            assert(out@ =~= old(out)@ + dec_digits(n as int));
        }
    } else {
        out.append(digit_str(n));
        proof {
            assert(out@ =~= old(out)@ + dec_digits(n as int));
        }
    }
}

/// The decimal literal of an integer, as a string.
pub fn int_to_literal(n: i64) -> (s: String)
    ensures
        s@ == int_lit(n as int),
{
    proof {
        reveal_strlit("-");
    }
    let mut out = String::new();
    let mag: u64;
    if n < 0 {
        out.append("-");
        mag = (-(n as i128)) as u64;
    } else {
        mag = n as u64;
    }
    push_digits(mag, &mut out);
    proof {
        assert(out@ =~= int_lit(n as int));
    }
    out
}

/// Check that `s` is one or more digits.
pub fn check_all_digits(s: &str) -> (b: bool)
    ensures
        b == all_digits(s@),
{
    let n = s.unicode_len();
    if n == 0 {
        return false;
    }
    let mut i: usize = 0;
    while i < n
        invariant
            0 <= i <= n,
            n == s@.len(),
            forall|j: int| 0 <= j < i ==> is_digit(#[trigger] s@[j]),
        decreases n - i,
    {
        let c = s.get_char(i);
        if !(('0' as u32) <= (c as u32) && (c as u32) <= ('9' as u32)) {
            assert(!is_digit(s@[i as int]));
            return false;
        }
        i = i + 1;
    }
    true
}

/// Check one 19-character window against the timestamp shape.
fn check_datetime_at(s: &str, i: usize) -> (b: bool)
    requires
        i + 19 <= s@.len(),
        s@.len() <= usize::MAX,
    ensures
        b == datetime_at(s@, i as int),
{
    let c0 = s.get_char(i);
    let c1 = s.get_char(i + 1);
    let c2 = s.get_char(i + 2);
    let c3 = s.get_char(i + 3);
    let c4 = s.get_char(i + 4);
    let c5 = s.get_char(i + 5);
    let c6 = s.get_char(i + 6);
    let c7 = s.get_char(i + 7);
    let c8 = s.get_char(i + 8);
    let c9 = s.get_char(i + 9);
    let c10 = s.get_char(i + 10);
    let c11 = s.get_char(i + 11);
    let c12 = s.get_char(i + 12);
    let c13 = s.get_char(i + 13);
    let c14 = s.get_char(i + 14);
    let c15 = s.get_char(i + 15);
    let c16 = s.get_char(i + 16);
    let c17 = s.get_char(i + 17);
    let c18 = s.get_char(i + 18);
    ((c0 == '1' && c1 == '9') || (c0 == '2' && c1 == '0')) && digit(c2) && digit(c3) && c4 == '-'
        && ((c5 == '0' && digit(c6) && c6 != '0') || (c5 == '1' && (c6 == '1' || c6 == '2' || c6
        == ','))) && c7 == '-' && ((c8 == '0' && digit(c9) && c9 != '0') || ((c8 == '1' || c8
        == '2') && digit(c9)) || (c8 == '3' && (c9 == '0' || c9 == '1'))) && (c10 == ' ' || c10
        == '\t' || c10 == '\n' || c10 == '\r' || c10 == '\u{b}' || c10 == '\u{c}') && (((c11 == '0'
        || c11 == '1') && digit(c12)) || (c11 == '2' && ('0' as u32) <= (c12 as u32) && (c12
        as u32) <= ('3' as u32))) && c13 == ':' && (('0' as u32) <= (c14 as u32) && (c14 as u32)
        <= ('5' as u32)) && digit(c15) && c16 == ':' && (('0' as u32) <= (c17 as u32) && (c17
        as u32) <= ('5' as u32)) && digit(c18)
}

/// Digit test on one character.
fn digit(c: char) -> (b: bool)
    ensures
        b == is_digit(c),
{
    ('0' as u32) <= (c as u32) && (c as u32) <= ('9' as u32)
}

/// Check that somewhere in `s` a timestamp of the fixed shape occurs,
/// as an unanchored pattern search does.
pub fn check_contains_datetime(s: &str) -> (b: bool)
    ensures
        b == contains_datetime(s@),
{
    let n = s.unicode_len();
    if n < 19 {
        proof {
            assert forall|i: int| !datetime_at(s@, i) by {}
        }
        return false;
    }
    let mut i: usize = 0;
    while i <= n - 19
        invariant
            0 <= i,
            i <= n - 19 + 1,
            n == s@.len(),
            n >= 19,
            forall|j: int| 0 <= j < i ==> !datetime_at(s@, j),
        decreases n - i,
    {
        if check_datetime_at(s, i) {
            return true;
        }
        i = i + 1;
    }
    proof {
        assert forall|j: int| !datetime_at(s@, j) by {
            if 0 <= j < i {
            } else {
            }
        }
    }
    false
}

/// Check that `s` is a decimal literal (optional minus sign, integer part
/// with no superfluous leading zero, optional fraction).
#[verifier::rlimit(60)]
pub fn check_dec_lit(s: &str) -> (b: bool)
    ensures
        b == is_dec_lit(s@),
{
    let n = s.unicode_len();
    let start: usize = if n > 0 && s.get_char(0) == '-' {
        1
    } else {
        0
    };
    let ghost t = if s@.len() > 0 && s@[0] == '-' {
        s@.drop_first()
    } else {
        s@
    };
    proof {
        assert(t =~= s@.skip(start as int));
        assert(t.len() == n - start);
        assert(forall|k: int| 0 <= k < t.len() ==> t[k] == s@[start + k]);
    }
    // measure the run of digits after the sign
    let d = digit_run_end(s, start);
    let run = d - start;
    if run == 0 {
        proof {
            assert forall|i: int| 1 <= i <= t.len() implies !is_int_part(t.take(i)) by {
                assert(t.take(i)[0] == t[0]);
                assert(!is_digit(t[0]));
            }
        }
        return false;
    }
    if run > 1 && s.get_char(start) == '0' {
        proof {
            assert(t[0] == '0');
            assert(is_digit(t[1]));
            assert forall|i: int| 1 <= i <= t.len() implies !(is_int_part(t.take(i))
                && is_frac_part(t.skip(i))) by {
                if i == 1 {
                    assert(t.skip(1)[0] == t[1]);
                    assert(t.skip(1).len() > 0);
                    assert(!is_frac_part(t.skip(1)));
                } else {
                    assert(t.take(i)[0] == t[0]);
                    assert(t.take(i).len() > 1);
                    assert(!is_int_part(t.take(i)));
                }
            }
        }
        return false;
    }
    let ghost rd = (run) as int;
    proof {
        assert forall|k: int| 0 <= k < rd implies is_digit(#[trigger] t[k]) by {
            assert(t[k] == s@[start + k]);
        }
        assert(is_int_part(t.take(rd))) by {
            assert(t.take(rd).len() == rd);
            assert(forall|k: int| 0 <= k < rd ==> #[trigger] t.take(rd)[k] == t[k]);
            if rd > 1 {
                assert(t[0] != '0');
            }
        }
    }
    if d == n {
        proof {
            assert(t.skip(rd).len() == 0);
            assert(is_frac_part(t.skip(rd)));
            assert(is_unsigned_dec(t));
        }
        return true;
    }
    // a fraction must follow: a point and at least one digit
    if !(s.get_char(d) == '.') {
        proof {
            assert(s@[d as int] != '.');
            assert(!is_digit(s@[d as int]));
            assert forall|i: int| 1 <= i <= t.len() implies !(is_int_part(t.take(i))
                && is_frac_part(t.skip(i))) by {
                lemma_split_shapes(t, i, rd);
            }
        }
        return false;
    }
    if d + 1 == n {
        proof {
            assert(s@[d as int] == '.');
            assert forall|i: int| 1 <= i <= t.len() implies !(is_int_part(t.take(i))
                && is_frac_part(t.skip(i))) by {
                lemma_split_shapes(t, i, rd);
            }
        }
        return false;
    }
    let f = digit_run_end(s, d + 1);
    if f < n {
        proof {
            assert(!is_digit(s@[f as int]));
            assert forall|i: int| 1 <= i <= t.len() implies !(is_int_part(t.take(i))
                && is_frac_part(t.skip(i))) by {
                lemma_split_shapes(t, i, rd);
                if i == rd {
                    let fs = t.skip(rd);
                    assert(fs[f - start - rd] == s@[f as int]);
                    assert(!all_digits(fs.drop_first())) by {
                        assert(fs.drop_first()[f - start - rd - 1] == fs[f - start - rd]);
                    }
                }
            }
        }
        return false;
    }
    proof {
        let fs = t.skip(rd);
        assert(fs[0] == s@[d as int]);
        assert(fs[0] == '.');
        assert(all_digits(fs.drop_first())) by {
            assert(fs.drop_first().len() == n - d - 1);
            assert(fs.drop_first().len() >= 1);
            assert forall|k: int| 0 <= k < fs.drop_first().len() implies is_digit(
                #[trigger] fs.drop_first()[k],
            ) by {
                assert(fs.drop_first()[k] == t[rd + 1 + k]);
                assert(t[rd + 1 + k] == s@[start + rd + 1 + k]);
            }
        }
        assert(is_frac_part(fs));
        assert(is_unsigned_dec(t));
    }
    true
}

/// First index at or after `from` that does not hold a digit.
fn digit_run_end(s: &str, from: usize) -> (d: usize)
    requires
        from <= s@.len(),
    ensures
        from <= d <= s@.len(),
        forall|k: int| from <= k < d ==> is_digit(#[trigger] s@[k]),
        d < s@.len() ==> !is_digit(s@[d as int]),
{
    let n = s.unicode_len();
    let mut d: usize = from;
    while d < n
        invariant
            from <= d <= n,
            n == s@.len(),
            forall|k: int| from <= k < d ==> is_digit(#[trigger] s@[k]),
        decreases n - d,
    {
        let c = s.get_char(d);
        if !(('0' as u32) <= (c as u32) && (c as u32) <= ('9' as u32)) {
            return d;
        }
        d = d + 1;
    }
    d
}

/// For a digit run of length `rd` at the start of `t`, a split at any
/// other index than `rd` cannot satisfy the two shape parts; and at `rd`
/// the integer part holds, so only the fraction can fail.
proof fn lemma_split_shapes(t: Seq<char>, i: int, rd: int)
    requires
        1 <= i <= t.len(),
        1 <= rd <= t.len(),
        forall|k: int| 0 <= k < rd ==> is_digit(#[trigger] t[k]),
        rd < t.len() ==> !is_digit(t[rd]),
        is_int_part(t.take(rd)),
    ensures
        i < rd ==> !is_frac_part(t.skip(i)),
        i > rd ==> !is_int_part(t.take(i)),
{
    if i < rd {
        assert(t.skip(i)[0] == t[i]);
        assert(is_digit(t[i]));
        assert(t.skip(i).len() > 0);
    }
    if i > rd {
        assert(t.take(i)[rd] == t[rd]);
        assert(!is_digit(t.take(i)[rd]));
    }
}

} // verus!
