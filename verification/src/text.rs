//! Settings and arguments as text: equality, unsigned decimal numbers, white space.

use vstd::prelude::*;
use vstd::string::StrSliceExecFns;

verus! {

/// Tells whether two texts have the same characters.
pub fn same_text(a: &str, b: &str) -> (same: bool)
    ensures
        same == (a@ == b@),
{
    let n: usize = a.unicode_len();
    if b.unicode_len() != n {
        return false;
    }
    let mut i: usize = 0;
    while i < n
        invariant
            i <= n,
            n == a@.len(),
            n == b@.len(),
            forall|j: int| 0 <= j < i ==> a@[j] == b@[j],
        decreases n - i,
    {
        if a.get_char(i) != b.get_char(i) {
            return false;
        }
        i += 1;
    }
    assert(a@ =~= b@);
    true
}

/// Tells whether a setting is present and reads `text`.
pub fn setting_is(setting: Option<&str>, text: &str) -> (yes: bool)
    ensures
        yes == (setting is Some && setting->0@ == text@),
{
    match setting {
        Some(value) => same_text(value, text),
        None => false,
    }
}

pub open spec fn is_digit(c: char) -> bool {
    '0' <= c <= '9'
}

pub open spec fn digit_value(c: char) -> int {
    c as int - '0' as int
}

/// The number that a run of digits denotes.
pub open spec fn digits_value(s: Seq<char>) -> int
    decreases s.len(),
{
    if s.len() == 0 {
        0
    } else {
        digits_value(s.drop_last()) * 10 + digit_value(s.last())
    }
}

pub open spec fn all_digits(s: Seq<char>) -> bool {
    forall|i: int| 0 <= i < s.len() ==> is_digit(#[trigger] s[i])
}

/// The digits behind an optional plus sign.
pub open spec fn unsigned_digits(s: Seq<char>) -> Seq<char> {
    if s.len() > 0 && s[0] == '+' {
        s.subrange(1, s.len() as int)
    } else {
        s
    }
}

/// The number that `s` denotes: digits, at least one, behind an optional plus sign.
pub open spec fn unsigned_value(s: Seq<char>) -> Option<int> {
    let d = unsigned_digits(s);
    if d.len() > 0 && all_digits(d) {
        Some(digits_value(d))
    } else {
        None
    }
}

/// The number that `s` denotes, if it is at most `max`.
pub open spec fn unsigned_at_most(s: Seq<char>, max: int) -> Option<int> {
    match unsigned_value(s) {
        Some(v) => if v <= max {
            Some(v)
        } else {
            None
        },
        None => None,
    }
}

proof fn lemma_prefix_is_smaller(s: Seq<char>, k: int)
    requires
        0 <= k <= s.len(),
        all_digits(s),
    ensures
        0 <= digits_value(s.subrange(0, k)) <= digits_value(s),
    decreases s.len(),
{
    if s.len() == 0 {
        assert(s.subrange(0, k) =~= s);
    } else {
        let t = s.drop_last();
        assert(all_digits(t)) by {
            assert forall|i: int| 0 <= i < t.len() implies is_digit(#[trigger] t[i]) by {
                assert(t[i] == s[i]);
            }
        }
        assert(is_digit(s[s.len() - 1]));
        if k < s.len() {
            lemma_prefix_is_smaller(t, k);
            assert(t.subrange(0, k) =~= s.subrange(0, k));
        } else {
            lemma_prefix_is_smaller(t, t.len() as int);
            assert(t.subrange(0, t.len() as int) =~= t);
            assert(s.subrange(0, k) =~= s);
        }
    }
}

/// The characters of a text.
pub fn chars_of(text: &str) -> (v: Vec<char>)
    ensures
        v@ == text@,
{
    let n: usize = text.unicode_len();
    let mut v: Vec<char> = Vec::new();
    let mut i: usize = 0;
    while i < n
        invariant
            i <= n,
            n == text@.len(),
            v@ == text@.take(i as int),
        decreases n - i,
    {
        v.push(text.get_char(i));
        i += 1;
        assert(v@ =~= text@.take(i as int));
    }
    assert(v@ =~= text@);
    v
}

/// Reads an unsigned number of at most `max`.
pub fn parse_unsigned(text: &str, max: u64) -> (r: Option<u64>)
    ensures
        match unsigned_at_most(text@, max as int) {
            Some(v) => r == Some(v as u64) && v == v as u64,
            None => r is None,
        },
{
    let chars = chars_of(text);
    let n: usize = chars.len();
    assert(chars@.subrange(0, n as int) =~= text@);
    parse_unsigned_in(&chars, 0, n, max)
}

/// Reads an unsigned number of at most `max` from the characters from `lo` up to `hi`.
pub fn parse_unsigned_in(text: &Vec<char>, lo: usize, hi: usize, max: u64) -> (r: Option<u64>)
    requires
        lo <= hi <= text@.len(),
    ensures
        match unsigned_at_most(text@.subrange(lo as int, hi as int), max as int) {
            Some(v) => r == Some(v as u64) && v == v as u64,
            None => r is None,
        },
{
    let start: usize = if lo < hi && text[lo] == '+' {
        lo + 1
    } else {
        lo
    };
    let ghost d = unsigned_digits(text@.subrange(lo as int, hi as int));
    assert(d =~= text@.subrange(start as int, hi as int));
    if start == hi {
        return None;
    }
    let mut i: usize = start;
    let mut value: u128 = 0;
    while i < hi
        invariant
            start <= i <= hi <= text@.len(),
            d == text@.subrange(start as int, hi as int),
            d == unsigned_digits(text@.subrange(lo as int, hi as int)),
            forall|j: int| 0 <= j < i - start ==> is_digit(#[trigger] d[j]),
            value == digits_value(d.subrange(0, i - start)),
            value <= max,
        decreases hi - i,
    {
        let c: char = text[i];
        assert(c == d[i - start]);
        if c < '0' || c > '9' {
            assert(!is_digit(d[i - start]));
            return None;
        }
        let digit: u32 = c as u32 - '0' as u32;
        assert(d.subrange(0, i - start + 1).drop_last() =~= d.subrange(0, i - start));
        assert(is_digit(d[i - start]));
        value = value * 10 + digit as u128;
        i += 1;
        assert(value == digits_value(d.subrange(0, i - start)));
        if value > max as u128 {
            proof {
                if all_digits(d) {
                    lemma_prefix_is_smaller(d, i - start);
                }
            }
            return None;
        }
    }
    assert(d.subrange(0, hi - start) =~= d);
    Some(value as u64)
}

/// A character with the Unicode property White_Space.
pub open spec fn is_white_space(c: char) -> bool {
    let v = c as u32;
    ||| 0x9 <= v <= 0xd
    ||| v == 0x20
    ||| v == 0x85
    ||| v == 0xa0
    ||| v == 0x1680
    ||| 0x2000 <= v <= 0x200a
    ||| v == 0x2028
    ||| v == 0x2029
    ||| v == 0x202f
    ||| v == 0x205f
    ||| v == 0x3000
}

/// Tells whether a character is white space.
pub fn white_space(c: char) -> (yes: bool)
    ensures
        yes == is_white_space(c),
{
    let v: u32 = c as u32;
    (0x9 <= v && v <= 0xd) || v == 0x20 || v == 0x85 || v == 0xa0 || v == 0x1680 || (0x2000 <= v
        && v <= 0x200a) || v == 0x2028 || v == 0x2029 || v == 0x202f || v == 0x205f || v == 0x3000
}

/// The text without white space at its beginning.
pub open spec fn trim_start(s: Seq<char>) -> Seq<char>
    decreases s.len(),
{
    if s.len() > 0 && is_white_space(s[0]) {
        trim_start(s.skip(1))
    } else {
        s
    }
}

/// The text without white space at its end.
pub open spec fn trim_end(s: Seq<char>) -> Seq<char>
    decreases s.len(),
{
    if s.len() > 0 && is_white_space(s.last()) {
        trim_end(s.drop_last())
    } else {
        s
    }
}

/// The text without white space around it.
pub open spec fn trimmed(s: Seq<char>) -> Seq<char> {
    trim_end(trim_start(s))
}

/// Finds the text between `lo` and `hi` without white space around it.
pub fn trim_in(text: &Vec<char>, lo: usize, hi: usize) -> (r: (usize, usize))
    requires
        lo <= hi <= text@.len(),
    ensures
        lo <= r.0 <= r.1 <= hi,
        text@.subrange(r.0 as int, r.1 as int) == trimmed(text@.subrange(lo as int, hi as int)),
{
    let ghost whole = text@.subrange(lo as int, hi as int);
    let mut a: usize = lo;
    while a < hi && white_space(text[a])
        invariant
            lo <= a <= hi <= text@.len(),
            trim_start(whole) == trim_start(text@.subrange(a as int, hi as int)),
        decreases hi - a,
    {
        assert(text@.subrange(a as int, hi as int).skip(1) =~= text@.subrange(a + 1, hi as int));
        a += 1;
    }
    let ghost front = text@.subrange(a as int, hi as int);
    assert(trim_start(whole) == front);
    let mut b: usize = hi;
    while a < b && white_space(text[b - 1])
        invariant
            lo <= a <= b <= hi <= text@.len(),
            trim_end(front) == trim_end(text@.subrange(a as int, b as int)),
        decreases b - a,
    {
        assert(text@.subrange(a as int, b as int).drop_last() =~= text@.subrange(
            a as int,
            b - 1,
        ));
        b -= 1;
    }
    (a, b)
}

/// The parts of a text between its commas.
pub open spec fn comma_parts(s: Seq<char>) -> Seq<Seq<char>>
    decreases s.len(),
{
    if s.len() == 0 {
        seq![Seq::<char>::empty()]
    } else {
        let p = comma_parts(s.drop_last());
        if s.last() == ',' {
            p.push(Seq::empty())
        } else {
            p.update(p.len() - 1, p.last().push(s.last()))
        }
    }
}

pub proof fn lemma_a_text_has_parts(s: Seq<char>)
    ensures
        comma_parts(s).len() > 0,
    decreases s.len(),
{
    if s.len() > 0 {
        lemma_a_text_has_parts(s.drop_last());
    }
}

/// Finds the parts of a text between its commas.
pub fn split_commas(text: &Vec<char>) -> (v: Vec<(usize, usize)>)
    ensures
        v@.len() == comma_parts(text@).len(),
        forall|k: int|
            0 <= k < v@.len() ==> (#[trigger] v@[k]).0 <= v@[k].1 <= text@.len() && text@.subrange(
                v@[k].0 as int,
                v@[k].1 as int,
            ) == comma_parts(text@)[k],
{
    let n: usize = text.len();
    let mut v: Vec<(usize, usize)> = Vec::new();
    let mut start: usize = 0;
    let mut i: usize = 0;
    assert(text@.take(0) =~= Seq::<char>::empty());
    assert(text@.subrange(0, 0) =~= Seq::<char>::empty());
    while i < n
        invariant
            start <= i <= n == text@.len(),
            v@.len() + 1 == comma_parts(text@.take(i as int)).len(),
            comma_parts(text@.take(i as int)).last() == text@.subrange(start as int, i as int),
            forall|k: int|
                0 <= k < v@.len() ==> (#[trigger] v@[k]).0 <= v@[k].1 <= text@.len()
                    && text@.subrange(v@[k].0 as int, v@[k].1 as int) == comma_parts(
                    text@.take(i as int),
                )[k],
        decreases n - i,
    {
        let ghost before = comma_parts(text@.take(i as int));
        assert(text@.take(i + 1).drop_last() =~= text@.take(i as int));
        assert(text@.take(i + 1).last() == text@[i as int]);
        if text[i] == ',' {
            v.push((start, i));
            start = i + 1;
            assert(text@.subrange(i + 1, i + 1) =~= Seq::<char>::empty());
            assert(comma_parts(text@.take(i + 1)) == before.push(Seq::empty()));
        } else {
            assert(text@.subrange(start as int, i + 1) =~= text@.subrange(
                start as int,
                i as int,
            ).push(text@[i as int]));
        }
        i += 1;
    }
    assert(text@.take(n as int) =~= text@);
    v.push((start, n));
    v
}

} // verus!
