//! Byte-level scanning: separators, decimal numbers and substring search.
use vstd::prelude::*;
use vstd::string::StringExecFns;

verus! {

/// `a` followed by `b`.
pub(crate) fn concat(a: &str, b: &str) -> (r: String)
    ensures
        r@ == a@ + b@,
{
    StringExecFns::concat(a.to_owned(), b)
}

/// An ASCII decimal digit.
pub open spec fn is_digit(b: u8) -> bool {
    48 <= b <= 57
}

/// A non-empty run of ASCII decimal digits.
pub open spec fn all_digits(s: Seq<u8>) -> bool {
    s.len() > 0 && forall|i: int| 0 <= i < s.len() ==> is_digit(#[trigger] s[i])
}

/// The number written by the digits of `s`, most significant first.
pub open spec fn digits_value(s: Seq<u8>) -> nat
    decreases s.len(),
{
    if s.len() == 0 {
        0
    } else {
        digits_value(s.drop_last()) * 10 + (s.last() - 48) as nat
    }
}

/// The value of `s` read as an unsigned 64-bit decimal number, if it is one.
pub open spec fn decimal_u64(s: Seq<u8>) -> Option<u64> {
    if all_digits(s) && digits_value(s) <= u64::MAX {
        Some(digits_value(s) as u64)
    } else {
        None
    }
}

/// Position of the first `b` in `s`, or `s.len()` when there is none.
pub open spec fn index_of_byte(s: Seq<u8>, b: u8) -> nat
    decreases s.len(),
{
    if s.len() == 0 {
        0
    } else if s[0] == b {
        0
    } else {
        1 + index_of_byte(s.drop_first(), b)
    }
}

/// The pieces of `s` between occurrences of `sep`; always at least one.
pub open spec fn split_on(s: Seq<u8>, sep: u8) -> Seq<Seq<u8>>
    decreases s.len(),
{
    let i = index_of_byte(s, sep);
    if i >= s.len() {
        seq![s]
    } else {
        seq![s.take(i as int)] + split_on(s.skip(i + 1 as int), sep)
    }
}

/// `pat` occurs in `s` starting at `i`.
pub open spec fn occurs_at(s: Seq<u8>, pat: Seq<u8>, i: int) -> bool {
    0 <= i && i + pat.len() <= s.len() && s.subrange(i, i + pat.len()) == pat
}

/// The first position at or after `from` where `pat` occurs in `s`.
pub open spec fn find_from(s: Seq<u8>, pat: Seq<u8>, from: int) -> Option<int> {
    if exists|i: int|
        from <= i && occurs_at(s, pat, i) && forall|j: int| from <= j < i ==> !occurs_at(s, pat, j) {
        let i = choose|i: int| from <= i && occurs_at(s, pat, i) && forall|j: int|
            from <= j < i ==> !occurs_at(s, pat, j);
        Some(i)
    } else {
        None
    }
}

pub proof fn lemma_index_of_byte_bound(s: Seq<u8>, b: u8)
    ensures
        index_of_byte(s, b) <= s.len(),
        index_of_byte(s, b) < s.len() ==> s[index_of_byte(s, b) as int] == b,
        forall|j: int| 0 <= j < index_of_byte(s, b) ==> s[j] != b,
    decreases s.len(),
{
    if s.len() > 0 && s[0] != b {
        lemma_index_of_byte_bound(s.drop_first(), b);
        assert forall|j: int| 0 <= j < index_of_byte(s, b) implies s[j] != b by {
            if j > 0 {
                assert(s[j] == s.drop_first()[j - 1]);
            }
        }
    }
}

pub proof fn lemma_split_on_nonempty(s: Seq<u8>, sep: u8)
    ensures
        split_on(s, sep).len() >= 1,
{
    reveal_with_fuel(split_on, 1);
}

/// Splitting from a segment start yields that segment, then the rest.
pub proof fn lemma_split_on_step(s: Seq<u8>, sep: u8, start: int, end: int)
    requires
        0 <= start <= s.len(),
        end == start + index_of_byte(s.skip(start), sep),
    ensures
        end <= s.len(),
        end < s.len() ==> s[end] == sep,
        forall|j: int| start <= j < end ==> s[j] != sep,
        end < s.len() ==> split_on(s.skip(start), sep) == seq![s.subrange(start, end)] + split_on(
            s.skip(end + 1),
            sep,
        ),
        end == s.len() ==> split_on(s.skip(start), sep) == seq![s.subrange(start, end)],
{
    let t = s.skip(start);
    lemma_index_of_byte_bound(t, sep);
    assert forall|j: int| start <= j < end implies s[j] != sep by {
        assert(s[j] == t[j - start]);
    }
    if end < s.len() {
        assert(s[end] == t[end - start]);
        assert(t.take(end - start) == s.subrange(start, end));
        assert(t.skip(end - start + 1) == s.skip(end + 1));
    } else {
        assert(t == s.subrange(start, end));
    }
}

proof fn lemma_digits_value_prefix(s: Seq<u8>, k: int)
    requires
        0 <= k <= s.len(),
    ensures
        digits_value(s.take(k)) <= digits_value(s),
    decreases s.len(),
{
    if k < s.len() {
        lemma_digits_value_prefix(s.drop_last(), k);
        assert(s.drop_last().take(k) == s.take(k));
    } else {
        assert(s.take(k) == s);
    }
}

/// Position of the first `b` in `s` at or after `from`, or `s.len()`.
pub fn find_byte(s: &[u8], from: usize, b: u8) -> (r: usize)
    requires
        from <= s@.len(),
    ensures
        r == from + index_of_byte(s@.skip(from as int), b),
{
    let mut i: usize = from;
    while i < s.len()
        invariant
            from <= i <= s@.len(),
            index_of_byte(s@.skip(from as int), b) == (i - from) + index_of_byte(
                s@.skip(i as int),
                b,
            ),
        decreases s@.len() - i,
    {
        if s[i] == b {
            return i;
        }
        assert(s@.skip(i as int).drop_first() == s@.skip(i + 1));
        i = i + 1;
    }
    i
}

/// Reads `s[start..end]` as an unsigned 64-bit decimal number.
pub fn parse_decimal(s: &[u8], start: usize, end: usize) -> (r: Option<u64>)
    requires
        start <= end <= s@.len(),
    ensures
        r == decimal_u64(s@.subrange(start as int, end as int)),
{
    let ghost whole = s@.subrange(start as int, end as int);
    if start == end {
        return None;
    }
    let mut acc: u64 = 0;
    let mut i: usize = start;
    while i < end
        invariant
            start <= i <= end <= s@.len(),
            whole == s@.subrange(start as int, end as int),
            all_digits(whole.take(i - start)) || i == start,
            acc as nat == digits_value(whole.take(i - start)),
        decreases end - i,
    {
        let d = s[i];
        assert(whole.take(i + 1 - start).drop_last() == whole.take(i - start));
        if d < 48 || d > 57 {
            assert(whole[i - start] == d);
            assert(!all_digits(whole));
            return None;
        }
        let v = (d - 48) as u64;
        if acc > (u64::MAX - v) / 10 {
            proof {
                lemma_digits_value_prefix(whole, i + 1 - start);
            }
            return None;
        }
        acc = acc * 10 + v;
        i = i + 1;
    }
    assert(whole.take(end - start) == whole);
    Some(acc)
}

pub proof fn lemma_find_from_in_bounds(s: Seq<u8>, pat: Seq<u8>, from: int, i: int)
    requires
        find_from(s, pat, from) == Some(i),
    ensures
        from <= i,
        i + pat.len() <= s.len(),
        occurs_at(s, pat, i),
{
}

proof fn lemma_find_from_first(s: Seq<u8>, pat: Seq<u8>, from: int, i: int)
    requires
        from <= i,
        occurs_at(s, pat, i),
        forall|j: int| from <= j < i ==> !occurs_at(s, pat, j),
    ensures
        find_from(s, pat, from) == Some(i),
{
    let k = choose|k: int| from <= k && occurs_at(s, pat, k) && forall|j: int|
        from <= j < k ==> !occurs_at(s, pat, j);
    assert(from <= k && occurs_at(s, pat, k));
    if k < i {
        assert(!occurs_at(s, pat, k));
    }
    if i < k {
        assert(!occurs_at(s, pat, i));
    }
}

/// `pat` occurs in `s` at `i`, compared byte by byte.
fn matches_at(s: &[u8], pat: &[u8], i: usize) -> (r: bool)
    ensures
        r == occurs_at(s@, pat@, i as int),
{
    if pat.len() > s.len() || i > s.len() - pat.len() {
        return false;
    }
    let n = s.len();
    let mut k: usize = 0;
    while k < pat.len()
        invariant
            n == s@.len(),
            i + pat@.len() <= s@.len(),
            k <= pat@.len(),
            forall|j: int| 0 <= j < k ==> s@[i + j] == pat@[j],
        decreases pat@.len() - k,
    {
        assert(i + k < s@.len());
        if s[i + k] != pat[k] {
            assert(s@.subrange(i as int, i + pat@.len())[k as int] != pat@[k as int]);
            return false;
        }
        k = k + 1;
    }
    assert(s@.subrange(i as int, i + pat@.len()) == pat@);
    true
}

/// The first position at or after `from` where `pat` occurs in `s`.
pub fn find_pattern(s: &[u8], pat: &[u8], from: usize) -> (r: Option<usize>)
    ensures
        r matches Some(i) ==> find_from(s@, pat@, from as int) == Some(i as int),
        r is None ==> find_from(s@, pat@, from as int) is None,
{
    let mut i: usize = from;
    while i <= s.len()
        invariant
            from <= i,
            forall|j: int| from <= j < i ==> !occurs_at(s@, pat@, j),
        decreases s@.len() + 1 - i,
    {
        if matches_at(s, pat, i) {
            proof {
                lemma_find_from_first(s@, pat@, from as int, i as int);
            }
            return Some(i);
        }
        if i == s.len() {
            assert forall|j: int| from <= j implies !occurs_at(s@, pat@, j) by {
                if j > i {
                    assert(j + pat@.len() > s@.len());
                }
            }
            return None;
        }
        i = i + 1;
    }
    None
}

} // verus!
