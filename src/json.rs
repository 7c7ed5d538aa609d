//! An untyped JSON tree and its navigation by slash-delimited paths.
use vstd::prelude::*;
use vstd::utf8::encode_utf8;

use crate::error::{ParseFailure, Parsing};
use crate::text::{decimal_u64, find_byte, parse_decimal, split_on};

verus! {

/// serde_json's untyped value, carried only while it is turned into [`Json`].
#[verifier::external_type_specification]
#[verifier::external_body]
pub struct ExValue(serde_json::Value);

/// A parsed JSON value. An object's members are listed with each key once;
/// a lookup takes the first member with the key.
#[derive(Debug, PartialEq, Eq)]
pub enum Json {
    Null,
    Bool(bool),
    /// A number, as its decimal text.
    Number(String),
    Str(String),
    Array(Vec<Json>),
    Object(Vec<(String, Json)>),
}

/// The tree that serde_json reads from `bytes`, or `None` when they are not
/// one JSON text.
pub uninterp spec fn json_of_bytes(bytes: Seq<u8>) -> Option<Json>;

/// Rewrites serde_json's tree as a [`Json`], variant for variant; the
/// conversion half of [`parse_json`], which alone calls it.
#[verifier::external_body]
fn from_value(v: serde_json::Value) -> Json {
    match v {
        serde_json::Value::Null => Json::Null,
        serde_json::Value::Bool(b) => Json::Bool(b),
        serde_json::Value::Number(n) => Json::Number(n.to_string()),
        serde_json::Value::String(s) => Json::Str(s),
        serde_json::Value::Array(a) => Json::Array(a.into_iter().map(from_value).collect()),
        serde_json::Value::Object(m) => Json::Object(
            m.into_iter().map(|(k, x)| (k, from_value(x))).collect(),
        ),
    }
}

/// Relies on `serde_json::from_slice::<serde_json::Value>`, which reads one
/// JSON text or fails: the result depends on the bytes alone. Object members
/// come out in the order of serde_json's map: sorted by key, and a key that
/// repeats keeps its last value.
#[verifier::external_body]
pub(crate) fn parse_json(bytes: &[u8]) -> (r: Option<Json>)
    ensures
        r == json_of_bytes(bytes@),
{
    serde_json::from_slice::<serde_json::Value>(bytes).ok().map(from_value)
}

pub const SLASH: u8 = 47;

pub const ZERO: u8 = 48;

/// The value of the first member of `entries` whose key is spelled `key`.
pub open spec fn key_lookup(entries: Seq<(String, Json)>, key: Seq<u8>) -> Option<Json>
    decreases entries.len(),
{
    if entries.len() == 0 {
        None
    } else if encode_utf8(entries[0].0@) == key {
        Some(entries[0].1)
    } else {
        key_lookup(entries.drop_first(), key)
    }
}

/// One level down: a member of an object by key, or an element of an array
/// by decimal index written without leading zeros.
pub open spec fn step(v: Json, seg: Seq<u8>) -> Option<Json> {
    match v {
        Json::Object(entries) => key_lookup(entries@, seg),
        Json::Array(items) => match decimal_u64(seg) {
            Some(i) => if i < items@.len() && (seg.len() == 1 || seg[0] != ZERO) {
                Some(items@[i as int])
            } else {
                None
            },
            None => None,
        },
        _ => None,
    }
}

/// Descends through `segs` in order, stopping at the first that is absent.
pub open spec fn walk(v: Json, segs: Seq<Seq<u8>>) -> Option<Json>
    decreases segs.len(),
{
    if segs.len() == 0 {
        Some(v)
    } else {
        match step(v, segs[0]) {
            Some(c) => walk(c, segs.drop_first()),
            None => None,
        }
    }
}

/// The value at `path` (`/a/0/b`) below `v`; the empty path names `v`.
///
/// Segments are matched as written: unlike a JSON pointer, `~0` and `~1`
/// are not unescaped, so a key holding `/` cannot be reached.
pub open spec fn resolve(v: Json, path: Seq<u8>) -> Option<Json> {
    if path.len() == 0 {
        Some(v)
    } else if path[0] != SLASH {
        None
    } else {
        walk(v, split_on(path.drop_first(), SLASH))
    }
}

/// The value at the path spelled `path` below `v`.
pub open spec fn at(v: Json, path: Seq<char>) -> Option<Json> {
    resolve(v, encode_utf8(path))
}

/// The string at the path spelled `path` below `v`, if there is one.
pub open spec fn str_at(v: Json, path: Seq<char>) -> Option<Seq<char>> {
    match at(v, path) {
        Some(Json::Str(s)) => Some(s@),
        _ => None,
    }
}

/// The string at `path` below `v`, or a missing element naming `path`.
pub open spec fn need(v: Json, path: Seq<char>) -> Result<Seq<char>, ParseFailure> {
    match str_at(v, path) {
        Some(s) => Ok(s),
        None => Err(ParseFailure::MissingElement(path)),
    }
}

/// `a` equals `s[start..end]`.
fn bytes_equal(a: &[u8], s: &[u8], start: usize, end: usize) -> (r: bool)
    requires
        start <= end <= s@.len(),
    ensures
        r == (a@ == s@.subrange(start as int, end as int)),
{
    if a.len() != end - start {
        return false;
    }
    let mut k: usize = 0;
    while k < a.len()
        invariant
            a@.len() == end - start,
            start <= end <= s@.len(),
            k <= a@.len(),
            forall|j: int| 0 <= j < k ==> a@[j] == s@[start + j],
        decreases a@.len() - k,
    {
        if a[k] != s[start + k] {
            assert(s@.subrange(start as int, end as int)[k as int] != a@[k as int]);
            return false;
        }
        k = k + 1;
    }
    assert(a@ == s@.subrange(start as int, end as int));
    true
}

/// One level down from `v` by the segment `s[start..end]`.
fn step_exec<'a>(v: &'a Json, s: &[u8], start: usize, end: usize) -> (r: Option<&'a Json>)
    requires
        start <= end <= s@.len(),
    ensures
        r matches Some(c) ==> step(*v, s@.subrange(start as int, end as int)) == Some(*c),
        r is None ==> step(*v, s@.subrange(start as int, end as int)) is None,
{
    let ghost seg = s@.subrange(start as int, end as int);
    match v {
        Json::Object(entries) => {
            let mut i: usize = 0;
            assert(entries@.skip(0) == entries@);
            while i < entries.len()
                invariant
                    i <= entries@.len(),
                    *v == Json::Object(*entries),
                    seg == s@.subrange(start as int, end as int),
                    start <= end <= s@.len(),
                    key_lookup(entries@, seg) == key_lookup(entries@.skip(i as int), seg),
                decreases entries@.len() - i,
            {
                let ks = entries[i].0.as_str();
                let key = ks.as_bytes();
                assert(key@ == encode_utf8(entries@[i as int].0@));
                assert(entries@.skip(i as int).drop_first() == entries@.skip(i + 1));
                assert(entries@.skip(i as int)[0] == entries@[i as int]);
                if bytes_equal(key, s, start, end) {
                    return Some(&entries[i].1);
                }
                i = i + 1;
            }
            None
        },
        Json::Array(items) => {
            if end - start > 1 && s[start] == ZERO {
                return None;
            }
            match parse_decimal(s, start, end) {
                Some(n) => {
                    if n < items.len() as u64 {
                        Some(&items[n as usize])
                    } else {
                        None
                    }
                },
                None => None,
            }
        },
        _ => None,
    }
}

/// The value at `path` below `v`, or `None` at the first absent segment.
pub fn pointer<'a>(v: &'a Json, path: &str) -> (r: Option<&'a Json>)
    ensures
        r matches Some(c) ==> at(*v, path@) == Some(*c),
        r is None ==> at(*v, path@) is None,
{
    let b = path.as_bytes();
    let ghost p = b@;
    if b.len() == 0 {
        return Some(v);
    }
    if b[0] != SLASH {
        return None;
    }
    let ghost s = p.drop_first();
    assert(s == p.skip(1));
    let mut cur: &Json = v;
    let mut start: usize = 1;
    let ghost mut segs = split_on(s, SLASH);
    loop
        invariant
            1 <= start <= p.len(),
            p == b@,
            p == encode_utf8(path@),
            p.len() > 0 && p[0] == SLASH,
            s == p.drop_first(),
            segs == split_on(p.skip(start as int), SLASH),
            resolve(*v, p) == walk(*cur, segs),
        decreases p.len() - start,
    {
        let end = find_byte(b, start, SLASH);
        proof {
            crate::text::lemma_split_on_step(p, SLASH, start as int, end as int);
        }
        let next = step_exec(cur, b, start, end);
        match next {
            None => {
                return None;
            },
            Some(c) => {
                assert(segs[0] == p.subrange(start as int, end as int));
                assert(walk(*cur, segs) == walk(*c, segs.drop_first()));
                cur = c;
                if end == b.len() {
                    assert(segs.drop_first().len() == 0);
                    return Some(cur);
                }
                start = end + 1;
                proof {
                    segs = segs.drop_first();
                }
            },
        }
    }
}

/// The string at `path` below `v`; otherwise a missing element naming `path`.
pub fn string_at(v: &Json, path: &str) -> (r: Result<String, Parsing>)
    ensures
        match r {
            Ok(x) => need(*v, path@) == Ok::<Seq<char>, ParseFailure>(x@),
            Err(e) => need(*v, path@) == Err::<Seq<char>, ParseFailure>(e@),
        },
{
    match pointer(v, path) {
        Some(Json::Str(s)) => Ok(s.clone()),
        _ => Err(Parsing::MissingElement(path.to_owned())),
    }
}

} // verus!
