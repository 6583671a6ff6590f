//! Character-level helpers shared by the decoders and the argument renderer.

use vstd::prelude::*;

verus! {

/// Relies on `String::push`: appends one character at the end.
#[verifier::external_body]
pub(crate) fn push_char(s: &mut String, c: char)
    ensures
        final(s)@ == old(s)@.push(c),
{
    s.push(c);
}

/// The characters of `s`, in order.
pub fn chars_of(s: &str) -> (r: Vec<char>)
    ensures
        r@ == s@,
{
    let mut out: Vec<char> = Vec::new();
    for c in it: s.chars()
        invariant
            out@ == it.seq().take(it.index() as int),
    {
        out.push(c);
    }
    out
}


/// Whether `c` is an ASCII decimal digit.
pub open spec fn is_digit(c: char) -> bool {
    '0' <= c && c <= '9'
}

/// The number written by the decimal digits `s`, most significant first.
pub open spec fn digits_value(s: Seq<char>) -> int
    decreases s.len(),
{
    if s.len() == 0 {
        0
    } else {
        digits_value(s.drop_last()) * 10 + (s.last() as int - '0' as int)
    }
}

/// The digits of an unsigned number: `s` without its optional leading `+`.
pub open spec fn unsigned_digits(s: Seq<char>) -> Seq<char> {
    if s.len() > 0 && s[0] == '+' {
        s.drop_first()
    } else {
        s
    }
}

/// The value of `s` read as an unsigned decimal number (an optional `+`,
/// then at least one digit), or `None` when `s` is not such a number.
pub open spec fn unsigned_of(s: Seq<char>) -> Option<int> {
    let d = unsigned_digits(s);
    if d.len() > 0 && forall|i: int| 0 <= i < d.len() ==> is_digit(#[trigger] d[i]) {
        Some(digits_value(d))
    } else {
        None
    }
}

/// The value of `s` as a `u32`: `None` unless it is a number that fits.
pub open spec fn u32_of(s: Seq<char>) -> Option<u32> {
    match bounded_of(s, u32::MAX as u64) {
        Some(v) => Some(v as u32),
        None => None,
    }
}

proof fn lemma_digits_value_nonneg(s: Seq<char>)
    requires
        forall|i: int| 0 <= i < s.len() ==> is_digit(#[trigger] s[i]),
    ensures
        digits_value(s) >= 0,
    decreases s.len(),
{
    if s.len() > 0 {
        assert(is_digit(s[s.len() - 1]));
        lemma_digits_value_nonneg(s.drop_last());
    }
}

proof fn lemma_digits_prefix_le(s: Seq<char>, k: int)
    requires
        0 <= k <= s.len(),
        forall|i: int| 0 <= i < s.len() ==> is_digit(#[trigger] s[i]),
    ensures
        digits_value(s.take(k)) <= digits_value(s),
    decreases s.len(),
{
    if k < s.len() {
        let p = s.drop_last();
        assert(forall|i: int| 0 <= i < p.len() ==> is_digit(#[trigger] p[i]) ) by {
            assert forall|i: int| 0 <= i < p.len() implies is_digit(#[trigger] p[i]) by {
                assert(p[i] == s[i]);
            }
        }
        assert(is_digit(s[s.len() - 1]));
        lemma_digits_prefix_le(p, k);
        lemma_digits_value_nonneg(p);
        assert(p.take(k) == s.take(k));
    } else {
        assert(s.take(k) == s);
    }
}

/// The value of `s` as an unsigned number no greater than `max`.
pub open spec fn bounded_of(s: Seq<char>, max: u64) -> Option<u64> {
    match unsigned_of(s) {
        Some(v) => if v <= max {
            Some(v as u64)
        } else {
            None
        },
        None => None,
    }
}

/// The value of `s` as a `u64`: `None` unless it is a number that fits.
pub open spec fn u64_of(s: Seq<char>) -> Option<u64> {
    bounded_of(s, u64::MAX)
}

/// The value of `s` as an `i8`: an optional `+` or `-`, then at least one
/// digit, in range.
pub open spec fn i8_of(s: Seq<char>) -> Option<i8> {
    if s.len() > 0 && s[0] == '-' {
        let d = s.drop_first();
        if d.len() > 0 && (forall|i: int| 0 <= i < d.len() ==> is_digit(#[trigger] d[i]))
            && digits_value(d) <= 128 {
            Some((-digits_value(d)) as i8)
        } else {
            None
        }
    } else {
        match bounded_of(s, 127) {
            Some(v) => Some(v as i8),
            None => None,
        }
    }
}

/// Reads `s[from..to]` as an unsigned decimal number no greater than `max`.
pub fn parse_bounded(s: &Vec<char>, from: usize, to: usize, max: u64) -> (r: Option<u64>)
    requires
        from <= to <= s.len(),
    ensures
        r == bounded_of(s@.subrange(from as int, to as int), max),
        r matches Some(v) ==> v <= max,
{
    let ghost t = s@.subrange(from as int, to as int);
    let mut start = from;
    if from < to && s[from] == '+' {
        start = from + 1;
    }
    let ghost d = s@.subrange(start as int, to as int);
    assert(d == unsigned_digits(t));
    if start == to {
        return None;
    }
    let mut acc: u64 = 0;
    let mut i = start;
    while i < to
        invariant
            from <= start <= i <= to <= s.len(),
            start < to,
            d == s@.subrange(start as int, to as int),
            d == unsigned_digits(t),
            t == s@.subrange(from as int, to as int),
            forall|k: int| 0 <= k < i - start ==> is_digit(#[trigger] d[k]),
            acc == digits_value(d.take(i - start)),
            acc <= max,
        decreases to - i,
    {
        let c = s[i];
        assert(d[i - start] == c);
        if !('0' <= c && c <= '9') {
            assert(!is_digit(d[i - start]));
            return None;
        }
        let digit = (c as u32 - '0' as u32) as u128;
        assert(d.take(i - start + 1).drop_last() == d.take(i - start));
        assert(d.take(i - start + 1).last() == c);
        assert(digits_value(d.take(i - start + 1)) == acc * 10 + digit);
        let next: u128 = acc as u128 * 10 + digit;
        if next > max as u128 {
            proof {
                if forall|k: int| 0 <= k < d.len() ==> is_digit(#[trigger] d[k]) {
                    lemma_digits_prefix_le(d, i - start + 1);
                }
            }
            return None;
        }
        acc = next as u64;
        i = i + 1;
    }
    assert(d.take(i - start) == d);
    Some(acc)
}

/// Reads `s[from..to]` as an unsigned decimal number that fits a `u32`.
pub fn parse_u32(s: &Vec<char>, from: usize, to: usize) -> (r: Option<u32>)
    requires
        from <= to <= s.len(),
    ensures
        r == u32_of(s@.subrange(from as int, to as int)),
{
    match parse_bounded(s, from, to, 4294967295u64) {
        Some(v) => Some(v as u32),
        None => None,
    }
}

/// Reads `s[from..to]` as a decimal number that fits an `i8`.
pub fn parse_i8(s: &Vec<char>, from: usize, to: usize) -> (r: Option<i8>)
    requires
        from <= to <= s.len(),
    ensures
        r == i8_of(s@.subrange(from as int, to as int)),
{
    let ghost t = s@.subrange(from as int, to as int);
    if from < to && s[from] == '-' {
        assert(t.drop_first() == s@.subrange(from + 1, to as int));
        if from + 1 < to && s[from + 1] == '+' {
            assert(!is_digit(t.drop_first()[0]));
            return None;
        }
        assert(unsigned_digits(t.drop_first()) == t.drop_first());
        proof {
            let d = t.drop_first();
            if forall|i: int| 0 <= i < d.len() ==> is_digit(#[trigger] d[i]) {
                lemma_digits_value_nonneg(d);
            }
        }
        match parse_bounded(s, from + 1, to, 128) {
            Some(v) => {
                let r: i8 = if v == 128 {
                    -128i8
                } else {
                    -(v as i8)
                };
                Some(r)
            },
            None => None,
        }
    } else {
        match parse_bounded(s, from, to, 127) {
            Some(v) => Some(v as i8),
            None => None,
        }
    }
}

/// The first index at or after `from` where `s` holds `c`.
pub open spec fn find_from(s: Seq<char>, c: char, from: int) -> Option<int>
    decreases s.len() - from,
{
    if from < 0 || from >= s.len() {
        None
    } else if s[from] == c {
        Some(from)
    } else {
        find_from(s, c, from + 1)
    }
}

/// Finds the first `c` in `s` at or after `from`.
pub fn find_char(s: &Vec<char>, from: usize, c: char) -> (r: Option<usize>)
    ensures
        match r {
            Some(i) => find_from(s@, c, from as int) == Some(i as int) && from <= i < s.len(),
            None => find_from(s@, c, from as int) is None,
        },
{
    let mut i = from;
    while i < s.len()
        invariant
            from <= i,
            find_from(s@, c, from as int) == find_from(s@, c, i as int),
        decreases s.len() - i,
    {
        if s[i] == c {
            return Some(i);
        }
        i = i + 1;
    }
    None
}


/// Whether `a` and `b` hold the same text.
pub fn same_text(a: &str, b: &str) -> (r: bool)
    ensures
        r == (a@ == b@),
{
    let x = chars_of(a);
    let y = chars_of(b);
    if x.len() != y.len() {
        return false;
    }
    let mut i: usize = 0;
    while i < x.len()
        invariant
            x@ == a@,
            y@ == b@,
            x.len() == y.len(),
            i <= x.len(),
            forall|k: int| 0 <= k < i ==> x@[k] == y@[k],
        decreases x.len() - i,
    {
        if x[i] != y[i] {
            return false;
        }
        i = i + 1;
    }
    assert(x@ == y@);
    true
}

} // verus!
