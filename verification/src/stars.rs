//! Star counts as a listing page prints them: `999`, `15,500`, `1.2k`.

use vstd::prelude::*;
use crate::text::chars_of;

verus! {

/// Commas and blanks group the digits of a count and carry no value.
pub open spec fn is_separator(c: char) -> bool {
    c == ',' || c == ' '
}

pub open spec fn is_digit(c: char) -> bool {
    '0' <= c <= '9'
}

pub open spec fn digit_of(c: char) -> int {
    c as u32 - '0' as u32
}

pub open spec fn all_digits(s: Seq<char>) -> bool {
    forall|i: int| 0 <= i < s.len() ==> is_digit(#[trigger] s[i])
}

/// The number that the decimal digits `s` write.
pub open spec fn digits_value(s: Seq<char>) -> int
    decreases s.len(),
{
    if s.len() == 0 {
        0
    } else {
        digits_value(s.drop_last()) * 10 + digit_of(s.last())
    }
}

/// `s` without its separators.
pub open spec fn without_separators(s: Seq<char>) -> Seq<char>
    decreases s.len(),
{
    if s.len() == 0 {
        s
    } else if is_separator(s.last()) {
        without_separators(s.drop_last())
    } else {
        without_separators(s.drop_last()).push(s.last())
    }
}

/// `s` without one leading plus sign, if it begins with one.
pub open spec fn unsigned_part(s: Seq<char>) -> Seq<char> {
    if s.len() > 0 && s[0] == '+' {
        s.drop_first()
    } else {
        s
    }
}

/// Where the first `.` of `s` stands, or the length of `s` if it has none.
pub open spec fn dot_index(s: Seq<char>) -> int
    decreases s.len(),
{
    if s.len() == 0 || s[0] == '.' {
        0
    } else {
        1 + dot_index(s.drop_first())
    }
}

/// The digits before the first `.` of `s`.
pub open spec fn whole_part(s: Seq<char>) -> Seq<char> {
    s.take(dot_index(s))
}

/// The digits behind the first `.` of `s`.
pub open spec fn fraction_part(s: Seq<char>) -> Seq<char> {
    if dot_index(s) < s.len() {
        s.skip(dot_index(s) + 1)
    } else {
        Seq::empty()
    }
}

/// The digit of `frac` at place `i`, zero where `frac` is shorter.
pub open spec fn fraction_digit(frac: Seq<char>, i: int) -> int {
    if 0 <= i < frac.len() {
        digit_of(frac[i])
    } else {
        0
    }
}

/// The first three decimal places of `frac`, read as thousandths.
pub open spec fn thousandths(frac: Seq<char>) -> int {
    fraction_digit(frac, 0) * 100 + fraction_digit(frac, 1) * 10 + fraction_digit(frac, 2)
}

/// `s` writes a decimal number: digits, with at most one `.` among them,
/// and at least one digit.
pub open spec fn is_decimal(s: Seq<char>) -> bool {
    &&& all_digits(whole_part(s))
    &&& all_digits(fraction_part(s))
    &&& whole_part(s).len() + fraction_part(s).len() > 0
}

/// A thousand times the decimal number `s`, rounded down, and at most
/// `u32::MAX`; zero where `s` writes no number.
pub open spec fn thousands_value(s: Seq<char>) -> int {
    let m = unsigned_part(s);
    if is_decimal(m) {
        let v = digits_value(whole_part(m)) * 1000 + thousandths(fraction_part(m));
        if v > u32::MAX {
            u32::MAX as int
        } else {
            v
        }
    } else {
        0
    }
}

/// The whole number `s`; zero where `s` writes none or one above
/// `u32::MAX`.
pub open spec fn plain_value(s: Seq<char>) -> int {
    let m = unsigned_part(s);
    if m.len() > 0 && all_digits(m) && digits_value(m) <= u32::MAX {
        digits_value(m)
    } else {
        0
    }
}

/// The count that `text` prints. Separators are dropped first; a final `k`
/// or `K` multiplies what stands before it by a thousand.
pub open spec fn star_count(text: Seq<char>) -> int {
    let t = without_separators(text);
    if t.len() > 0 && (t.last() == 'k' || t.last() == 'K') {
        thousands_value(t.drop_last())
    } else {
        plain_value(t)
    }
}

pub open spec fn capped(v: int) -> int {
    if v > 0x1_0000_0000 {
        0x1_0000_0000
    } else {
        v
    }
}

pub proof fn lemma_digits_value_nonnegative(s: Seq<char>)
    requires
        all_digits(s),
    ensures
        digits_value(s) >= 0,
    decreases s.len(),
{
    if s.len() > 0 {
        assert(is_digit(s[s.len() - 1]));
        assert forall|i: int| 0 <= i < s.drop_last().len() implies is_digit(
            #[trigger] s.drop_last()[i],
        ) by {
            assert(s.drop_last()[i] == s[i]);
        }
        lemma_digits_value_nonnegative(s.drop_last());
    }
}

/// Reads `v[from..to]` as decimal digits. `None` where another character
/// stands there; else the value, or 2^32 where the value is larger.
fn read_digits(v: &Vec<char>, from: usize, to: usize) -> (r: Option<u64>)
    requires
        from <= to <= v.len(),
    ensures
        r is Some <==> all_digits(v@.subrange(from as int, to as int)),
        r matches Some(x) ==> x == capped(digits_value(v@.subrange(from as int, to as int))),
{
    let mut acc: u64 = 0;
    let mut i: usize = from;
    while i < to
        invariant
            from <= i <= to <= v.len(),
            all_digits(v@.subrange(from as int, i as int)),
            acc == capped(digits_value(v@.subrange(from as int, i as int))),
            0 <= digits_value(v@.subrange(from as int, i as int)),
        decreases to - i,
    {
        let c = v[i];
        let ghost before = v@.subrange(from as int, i as int);
        let ghost after = v@.subrange(from as int, i + 1);
        proof {
            assert(after.drop_last() =~= before);
            assert(after.last() == c);
        }
        if !('0' <= c && c <= '9') {
            proof {
                let whole = v@.subrange(from as int, to as int);
                assert(whole[i - from] == c);
            }
            return None;
        }
        let d: u64 = (c as u32 - '0' as u32) as u64;
        let next: u64 = acc * 10 + d;
        acc = if next > 0x1_0000_0000 {
            0x1_0000_0000
        } else {
            next
        };
        proof {
            assert forall|j: int| 0 <= j < after.len() implies is_digit(#[trigger] after[j]) by {
                if j < before.len() {
                    assert(after[j] == before[j]);
                }
            }
        }
        i += 1;
    }
    Some(acc)
}

/// `v` without its separators.
fn drop_separators(v: &Vec<char>) -> (r: Vec<char>)
    ensures
        r@ == without_separators(v@),
{
    let mut r: Vec<char> = Vec::new();
    let mut i: usize = 0;
    while i < v.len()
        invariant
            i <= v.len(),
            r@ == without_separators(v@.take(i as int)),
        decreases v.len() - i,
    {
        let c = v[i];
        proof {
            assert(v@.take(i + 1).drop_last() =~= v@.take(i as int));
            assert(v@.take(i + 1).last() == c);
        }
        if !(c == ',' || c == ' ') {
            r.push(c);
        }
        i += 1;
    }
    assert(v@.take(v@.len() as int) =~= v@);
    r
}

/// Where the first `.` of `v[from..to]` stands, counted from `from`.
fn find_dot(v: &Vec<char>, from: usize, to: usize) -> (r: usize)
    requires
        from <= to <= v.len(),
    ensures
        r == dot_index(v@.subrange(from as int, to as int)),
        r <= to - from,
{
    let mut i: usize = from;
    while i < to && v[i] != '.'
        invariant
            from <= i <= to <= v.len(),
            dot_index(v@.subrange(from as int, to as int)) == (i - from) + dot_index(
                v@.subrange(i as int, to as int),
            ),
        decreases to - i,
    {
        proof {
            assert(v@.subrange(i as int, to as int).drop_first() =~= v@.subrange(
                i + 1,
                to as int,
            ));
        }
        i += 1;
    }
    i - from
}

fn digit_at(v: &Vec<char>, from: usize, to: usize, i: usize) -> (r: u64)
    requires
        from <= to <= v.len(),
        all_digits(v@.subrange(from as int, to as int)),
        i < 3,
    ensures
        r == fraction_digit(v@.subrange(from as int, to as int), i as int),
        r <= 9,
{
    if i < to - from {
        let c = v[from + i];
        assert(v@.subrange(from as int, to as int)[i as int] == c);
        assert(is_digit(c));
        (c as u32 - '0' as u32) as u64
    } else {
        0
    }
}

/// Parses a star count in the form a listing page prints it.
pub fn parse_number(text: &str) -> (n: u32)
    ensures
        n == star_count(text@),
{
    let raw = chars_of(text);
    let t = drop_separators(&raw);
    let len = t.len();
    if len > 0 && (t[len - 1] == 'k' || t[len - 1] == 'K') {
        let end: usize = len - 1;
        let start: usize = if end > 0 && t[0] == '+' {
            1
        } else {
            0
        };
        let ghost body = t@.drop_last();
        let ghost m = unsigned_part(body);
        proof {
            assert(body =~= t@.subrange(0, end as int));
            assert(m =~= t@.subrange(start as int, end as int));
        }
        let dot = find_dot(&t, start, end);
        let whole_end: usize = start + dot;
        proof {
            assert(whole_part(m) =~= t@.subrange(start as int, whole_end as int));
        }
        let whole = read_digits(&t, start, whole_end);
        let frac_start: usize = if whole_end < end {
            whole_end + 1
        } else {
            end
        };
        proof {
            assert(fraction_part(m) =~= t@.subrange(frac_start as int, end as int));
        }
        let frac = read_digits(&t, frac_start, end);
        match (whole, frac) {
            (Some(w), Some(_f)) => {
                if (whole_end - start) + (end - frac_start) == 0 {
                    return 0;
                }
                proof {
                    lemma_digits_value_nonnegative(whole_part(m));
                }
                if w >= 0x1_0000_0000 {
                    return u32::MAX;
                }
                let d0 = digit_at(&t, frac_start, end, 0);
                let d1 = digit_at(&t, frac_start, end, 1);
                let d2 = digit_at(&t, frac_start, end, 2);
                let v: u64 = w * 1000 + d0 * 100 + d1 * 10 + d2;
                if v > 0xffff_ffff {
                    u32::MAX
                } else {
                    v as u32
                }
            },
            _ => 0,
        }
    } else {
        let start: usize = if len > 0 && t[0] == '+' {
            1
        } else {
            0
        };
        proof {
            assert(unsigned_part(t@) =~= t@.subrange(start as int, len as int));
        }
        if start == len {
            return 0;
        }
        match read_digits(&t, start, len) {
            Some(x) => {
                proof {
                    lemma_digits_value_nonnegative(unsigned_part(t@));
                }
                if x > 0xffff_ffff {
                    0
                } else {
                    x as u32
                }
            },
            None => 0,
        }
    }
}

} // verus!
