//! The two textual time encodings of the pages: clock notation (`H:MM:SS`,
//! `M:SS` or `SS`) and a plain count of milliseconds.
use core::time::Duration;
use vstd::prelude::*;
use vstd::string::StringSliceAdditionalSpecFns;

use crate::text::{decimal_u64, find_byte, lemma_split_on_nonempty, lemma_split_on_step, parse_decimal, split_on};

verus! {

/// The duration that `Duration::from_millis` builds from `ms`.
pub uninterp spec fn duration_of_millis(ms: u64) -> Duration;

/// Relies on `core::time::Duration::from_millis`, which never panics: the
/// result depends on `millis` alone.
pub assume_specification[ core::time::Duration::from_millis ](millis: u64) -> (r: Duration)
    ensures
        r == duration_of_millis(millis),
;

/// Relies on `Duration`'s `Clone`, which copies the value: it is `Copy`.
pub assume_specification[ <core::time::Duration as Clone>::clone ](d: &Duration) -> (r: Duration)
    ensures
        r == *d,
;

pub const COLON: u8 = 58;

/// Seconds written by clock segments, most significant first: each step
/// multiplies what came before by sixty and adds the next segment.
pub open spec fn clock_value(segs: Seq<Seq<u8>>) -> Option<nat>
    decreases segs.len(),
{
    if segs.len() == 0 {
        Some(0)
    } else {
        match (clock_value(segs.drop_last()), decimal_u64(segs.last())) {
            (Some(a), Some(v)) => Some(a * 60 + v as nat),
            _ => None,
        }
    }
}

/// Seconds written in clock notation: one to three colon-separated decimal
/// numbers, hours first.
pub open spec fn colon_seconds(s: Seq<u8>) -> Option<nat> {
    let segs = split_on(s, COLON);
    if segs.len() <= 3 {
        clock_value(segs)
    } else {
        None
    }
}

/// Milliseconds written in clock notation, when they fit in 64 bits.
pub open spec fn colon_millis(s: Seq<u8>) -> Option<u64> {
    match colon_seconds(s) {
        Some(t) => if t * 1000 <= u64::MAX {
            Some((t * 1000) as u64)
        } else {
            None
        },
        None => None,
    }
}

proof fn lemma_clock_prefix(p: Seq<Seq<u8>>, q: Seq<Seq<u8>>)
    requires
        clock_value(p + q) is Some,
    ensures
        clock_value(p) is Some,
        clock_value(p)->0 <= clock_value(p + q)->0,
    decreases q.len(),
{
    if q.len() == 0 {
        assert(p + q == p);
    } else {
        assert((p + q).drop_last() == p + q.drop_last());
        lemma_clock_prefix(p, q.drop_last());
    }
}

/// Converts clock notation (`3:33`, `1:00:00`, `42`) into a duration.
///
/// Fails when a segment is not a decimal number, when there are more than
/// three segments, or when the milliseconds do not fit in 64 bits.
pub fn colon_to_duration(text: &str) -> (r: Option<Duration>)
    ensures
        r == (match colon_millis(text.spec_bytes()) {
            Some(ms) => Some(duration_of_millis(ms)),
            None => None,
        }),
{
    let b = text.as_bytes();
    let ghost s = b@;
    assert(s == text.spec_bytes());
    let ghost whole = split_on(s, COLON);
    let ghost mut done: Seq<Seq<u8>> = seq![];
    let mut acc: u128 = 0;
    let mut count: usize = 0;
    let mut start: usize = 0;
    assert(s.skip(0) == s);
    loop
        invariant
            start <= s.len(),
            s == b@,
            s == text.spec_bytes(),
            whole == split_on(s, COLON),
            whole == done + split_on(s.skip(start as int), COLON),
            count == done.len(),
            count <= 3,
            clock_value(done) == Some(acc as nat),
            acc * 1000 <= u64::MAX,
        decreases s.len() - start,
    {
        let end = find_byte(b, start, COLON);
        proof {
            lemma_split_on_step(s, COLON, start as int, end as int);
        }
        let ghost seg = s.subrange(start as int, end as int);
        let ghost rest = if end < s.len() {
            split_on(s.skip(end + 1), COLON)
        } else {
            Seq::<Seq<u8>>::empty()
        };
        proof {
            assert(split_on(s.skip(start as int), COLON) == seq![seg] + rest);
            assert(whole == done.push(seg) + rest);
            assert(done.push(seg).drop_last() == done);
        }
        if count == 3 {
            proof {
                if end < s.len() {
                    lemma_split_on_nonempty(s.skip(end + 1), COLON);
                }
                assert(whole.len() > 3);
                assert(colon_seconds(s) is None);
                assert(colon_millis(s) is None);
            }
            return None;
        }
        let v = match parse_decimal(b, start, end) {
            Some(v) => v,
            None => {
                proof {
                    assert(done.push(seg).last() == seg);
                    assert(clock_value(done.push(seg)) is None);
                    if clock_value(whole) is Some {
                        lemma_clock_prefix(done.push(seg), rest);
                    }
                    assert(colon_millis(s) is None);
                }
                return None;
            },
        };
        let next = acc * 60 + v as u128;
        proof {
            done = done.push(seg);
        }
        count = count + 1;
        if next * 1000 > u64::MAX as u128 {
            proof {
                assert(done.last() == seg);
                assert(clock_value(done) == Some(next as nat));
                if clock_value(whole) is Some {
                    lemma_clock_prefix(done, rest);
                }
                assert(colon_millis(s) is None);
            }
            return None;
        }
        acc = next;
        if end == b.len() {
            assert(rest.len() == 0);
            assert(whole == done);
            let ms = (acc * 1000) as u64;
            return Some(Duration::from_millis(ms));
        }
        start = end + 1;
    }
}

/// Converts a decimal count of milliseconds into a duration.
pub fn ms_to_duration(text: &str) -> (r: Option<Duration>)
    ensures
        r == (match decimal_u64(text.spec_bytes()) {
            Some(ms) => Some(duration_of_millis(ms)),
            None => None,
        }),
{
    let b = text.as_bytes();
    assert(b@.subrange(0, b@.len() as int) == b@);
    match parse_decimal(b, 0, b.len()) {
        Some(ms) => Some(Duration::from_millis(ms)),
        None => None,
    }
}

} // verus!
