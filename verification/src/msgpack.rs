//! The msgpack value model the extractors walk, and lookups by key.

use vstd::prelude::*;

verus! {

/// A decoded msgpack value, holding as plain values what the extractors read.
///
/// `Int` holds the integer when it fits in an `i64` (`None` for an unsigned
/// value above `i64::MAX`), `Str` holds the text when the bytes are valid
/// UTF-8, and `Float` stands for either float width: no extractor reads one.
pub enum MsgValue {
    Nil,
    Bool(bool),
    Int(Option<i64>),
    Float,
    Str(Option<String>),
    Bin(Vec<u8>),
    Array(Vec<MsgValue>),
    Dict(Vec<(MsgValue, MsgValue)>),
    Ext(i8, Vec<u8>),
}

/// Whether a map key is the string `key`.
pub open spec fn key_is(k: MsgValue, key: Seq<char>) -> bool {
    match k {
        MsgValue::Str(Some(s)) => s@ == key,
        _ => false,
    }
}

/// The value of the first entry whose key is `key`.
pub open spec fn lookup(entries: Seq<(MsgValue, MsgValue)>, key: Seq<char>) -> Option<MsgValue>
    decreases entries.len(),
{
    if entries.len() == 0 {
        None
    } else if key_is(entries[0].0, key) {
        Some(entries[0].1)
    } else {
        lookup(entries.drop_first(), key)
    }
}

/// The entries of `key`'s value, when that value is a map.
pub open spec fn spec_map_get(entries: Seq<(MsgValue, MsgValue)>, key: Seq<char>) -> Option<Seq<(MsgValue, MsgValue)>> {
    match lookup(entries, key) {
        Some(MsgValue::Dict(m)) => Some(m@),
        _ => None,
    }
}

/// The integer held by `v`, when it is one that fits in an `i64`.
pub open spec fn spec_val_i64(v: MsgValue) -> Option<i64> {
    match v {
        MsgValue::Int(n) => n,
        _ => None,
    }
}

/// `key`'s value as an `i64`.
pub open spec fn spec_get_i64(entries: Seq<(MsgValue, MsgValue)>, key: Seq<char>) -> Option<i64> {
    match lookup(entries, key) {
        Some(v) => spec_val_i64(v),
        None => None,
    }
}

/// The elements of `key`'s value, when that value is an array.
pub open spec fn spec_get_array(entries: Seq<(MsgValue, MsgValue)>, key: Seq<char>) -> Option<Seq<MsgValue>> {
    match lookup(entries, key) {
        Some(MsgValue::Array(a)) => Some(a@),
        _ => None,
    }
}

/// The entries of `v`, when it is a map.
pub open spec fn spec_as_dict(v: MsgValue) -> Option<Seq<(MsgValue, MsgValue)>> {
    match v {
        MsgValue::Dict(m) => Some(m@),
        _ => None,
    }
}

/// The elements of an optional array, or none.
pub open spec fn array_or_empty(a: Option<Seq<MsgValue>>) -> Seq<MsgValue> {
    match a {
        Some(s) => s,
        None => Seq::empty(),
    }
}

/// `f` applied to each element in order, keeping the `Some` results.
pub open spec fn filter_map<A, B>(s: Seq<A>, f: spec_fn(A) -> Option<B>) -> Seq<B>
    decreases s.len(),
{
    if s.len() == 0 {
        Seq::empty()
    } else {
        let rest = filter_map(s.drop_last(), f);
        match f(s.last()) {
            Some(b) => rest.push(b),
            None => rest,
        }
    }
}

/// One more element of a prefix adds at most `f`'s result for it.
pub proof fn lemma_filter_map_take<A, B>(s: Seq<A>, f: spec_fn(A) -> Option<B>, i: int)
    requires
        0 <= i < s.len(),
    ensures
        filter_map(s.take(i + 1), f) == match f(s[i]) {
            Some(b) => filter_map(s.take(i), f).push(b),
            None => filter_map(s.take(i), f),
        },
{
    assert(s.take(i + 1).drop_last() =~= s.take(i));
    assert(s.take(i + 1).last() == s[i]);
}

proof fn lemma_lookup_step(entries: Seq<(MsgValue, MsgValue)>, key: Seq<char>, i: int)
    requires
        0 <= i < entries.len(),
        !key_is(entries[i].0, key),
    ensures
        lookup(entries.skip(i), key) == lookup(entries.skip(i + 1), key),
{
    assert(entries.skip(i).drop_first() =~= entries.skip(i + 1));
}

/// Index of the first entry whose key is `key`.
fn find_key(entries: &[(MsgValue, MsgValue)], key: &String) -> (r: Option<usize>)
    ensures
        match r {
            Some(i) => i < entries@.len() && key_is(entries@[i as int].0, key@)
                && lookup(entries@, key@) == Some(entries@[i as int].1),
            None => lookup(entries@, key@) is None,
        },
{
    let n = entries.len();
    let mut i: usize = 0;
    assert(entries@.skip(0) =~= entries@);
    while i < n
        invariant
            0 <= i <= n,
            n == entries@.len(),
            lookup(entries@, key@) == lookup(entries@.skip(i as int), key@),
        decreases n - i,
    {
        let hit = match &entries[i].0 {
            MsgValue::Str(Some(s)) => s.eq(key),
            _ => false,
        };
        assert(hit == key_is(entries@[i as int].0, key@));
        if hit {
            assert(entries@.skip(i as int)[0] == entries@[i as int]);
            return Some(i);
        }
        proof {
            lemma_lookup_step(entries@, key@, i as int);
        }
        i = i + 1;
    }
    None
}

/// The entries of `key`'s value, when that value is a map.
pub fn map_get<'a>(entries: &'a [(MsgValue, MsgValue)], key: &str) -> (r: Option<&'a [(MsgValue, MsgValue)]>)
    ensures
        match r {
            Some(m) => spec_map_get(entries@, key@) == Some(m@),
            None => spec_map_get(entries@, key@) is None,
        },
{
    let k = key.to_owned();
    match find_key(entries, &k) {
        Some(i) => match &entries[i].1 {
            MsgValue::Dict(m) => Some(m.as_slice()),
            _ => None,
        },
        None => None,
    }
}


/// `key`'s value as an `i64`.
pub fn get_i64(entries: &[(MsgValue, MsgValue)], key: &str) -> (r: Option<i64>)
    ensures
        r == spec_get_i64(entries@, key@),
{
    let k = key.to_owned();
    match find_key(entries, &k) {
        Some(i) => val_i64(&entries[i].1),
        None => None,
    }
}

/// The elements of `key`'s value, when that value is an array.
pub fn get_array<'a>(entries: &'a [(MsgValue, MsgValue)], key: &str) -> (r: Option<&'a [MsgValue]>)
    ensures
        match r {
            Some(a) => spec_get_array(entries@, key@) == Some(a@),
            None => spec_get_array(entries@, key@) is None,
        },
{
    let k = key.to_owned();
    match find_key(entries, &k) {
        Some(i) => match &entries[i].1 {
            MsgValue::Array(a) => Some(a.as_slice()),
            _ => None,
        },
        None => None,
    }
}

/// The integer held by `v`, when it is one that fits in an `i64`.
pub fn val_i64(v: &MsgValue) -> (r: Option<i64>)
    ensures
        r == spec_val_i64(*v),
{
    match v {
        MsgValue::Int(n) => *n,
        _ => None,
    }
}

/// The value that `rmpv::decode::read_value` reads from the front of `bytes`,
/// as the library's value; `None` where rmpv reports an error.
pub uninterp spec fn msgpack_decode(bytes: Seq<u8>) -> Option<MsgValue>;

#[verifier::external_type_specification]
#[verifier::external_body]
pub struct ExRmpvValue(rmpv::Value);

/// Converts an `rmpv::Value` variant for variant: an integer by
/// `Integer::as_i64`, a string by `Utf8String::into_str`, both float widths to
/// `Float`. Nothing is stated of the result: rmpv's value is opaque here.
#[verifier::external_body]
fn from_rmpv(v: rmpv::Value) -> MsgValue {
    match v {
        rmpv::Value::Nil => MsgValue::Nil,
        rmpv::Value::Boolean(b) => MsgValue::Bool(b),
        rmpv::Value::Integer(n) => MsgValue::Int(n.as_i64()),
        rmpv::Value::String(s) => MsgValue::Str(s.into_str()),
        rmpv::Value::Binary(b) => MsgValue::Bin(b),
        rmpv::Value::Array(a) => MsgValue::Array(a.into_iter().map(from_rmpv).collect()),
        rmpv::Value::Map(m) => MsgValue::Dict(m.into_iter().map(|(k, x)| (from_rmpv(k), from_rmpv(x))).collect()),
        rmpv::Value::Ext(t, b) => MsgValue::Ext(t, b),
        _ => MsgValue::Float,
    }
}

/// Calls `rmpv::decode::read_value` on `bytes` and converts what it reads.
/// The contract names the result: the same bytes decode to the same value.
#[verifier::external_body]
fn decode_msgpack(bytes: &[u8]) -> (r: Option<MsgValue>)
    ensures
        r == msgpack_decode(bytes@),
{
    rmpv::decode::read_value(&mut &bytes[..]).ok().map(from_rmpv)
}

/// What a response body decodes to: the whole body, or else the body after a
/// 4-byte prefix.
pub open spec fn spec_parse_msgpack(bytes: Seq<u8>) -> Option<MsgValue> {
    match msgpack_decode(bytes) {
        Some(v) => Some(v),
        None => if bytes.len() >= 4 {
            msgpack_decode(bytes.subrange(4, bytes.len() as int))
        } else {
            None
        },
    }
}

/// Decodes a response body, first as a whole and then past a 4-byte prefix.
pub fn parse_msgpack(bytes: &[u8]) -> (r: Option<MsgValue>)
    ensures
        r == spec_parse_msgpack(bytes@),
{
    match decode_msgpack(bytes) {
        Some(v) => Some(v),
        None => {
            if bytes.len() >= 4 {
                let (_, rest) = bytes.split_at(4);
                decode_msgpack(rest)
            } else {
                None
            }
        },
    }
}

} // verus!
