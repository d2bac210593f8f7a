//! Messages exchanged with the Python script controller over its request
//! socket: CBOR maps from text to text.

use std::collections::BTreeMap;
use vstd::prelude::*;
use vstd::utf8::encode_utf8;

verus! {

/// The text entries of a message: key and value of each entry.
pub open spec fn entries_view(entries: Seq<(String, String)>) -> Seq<(Seq<char>, Seq<char>)> {
    entries.map_values(|e: (String, String)| (e.0@, e.1@))
}

/// Strict lexicographic order of texts by code point (the order of `String`).
pub open spec fn text_lt(a: Seq<char>, b: Seq<char>) -> bool
    decreases a.len(),
{
    if a.len() == 0 {
        b.len() > 0
    } else if b.len() == 0 {
        false
    } else if a[0] != b[0] {
        a[0] < b[0]
    } else {
        text_lt(a.drop_first(), b.drop_first())
    }
}

/// Keys in strictly ascending order: the order in which a map holds them.
pub open spec fn keys_ascending(entries: Seq<(Seq<char>, Seq<char>)>) -> bool {
    forall|i: int, j: int|
        0 <= i < j < entries.len() ==> text_lt(#[trigger] entries[i].0, #[trigger] entries[j].0)
}

/// The big-endian bytes of the lowest `width` bytes of `n`.
pub open spec fn be_bytes(n: nat, width: nat) -> Seq<u8>
    decreases width,
{
    if width == 0 {
        Seq::empty()
    } else {
        be_bytes(n / 256, (width - 1) as nat).push((n % 256) as u8)
    }
}

/// CBOR head of a data item of major type `major` and argument `n`, in its
/// shortest form.
pub open spec fn cbor_head(major: u8, n: nat) -> Seq<u8> {
    let m = (major * 32) as int;
    if n <= 23 {
        seq![(m + n) as u8]
    } else if n <= 0xff {
        seq![(m + 24) as u8] + be_bytes(n, 1)
    } else if n <= 0xffff {
        seq![(m + 25) as u8] + be_bytes(n, 2)
    } else if n <= 0xffff_ffff {
        seq![(m + 26) as u8] + be_bytes(n, 4)
    } else {
        seq![(m + 27) as u8] + be_bytes(n, 8)
    }
}

/// CBOR text string: head of major type 3 with the UTF-8 length, then the
/// UTF-8 bytes.
pub open spec fn cbor_text(s: Seq<char>) -> Seq<u8> {
    cbor_head(3, encode_utf8(s).len()) + encode_utf8(s)
}

/// The CBOR items of the entries, key then value, in order.
pub open spec fn cbor_entries(entries: Seq<(Seq<char>, Seq<char>)>) -> Seq<u8>
    decreases entries.len(),
{
    if entries.len() == 0 {
        Seq::empty()
    } else {
        cbor_entries(entries.drop_last()) + cbor_text(entries.last().0) + cbor_text(
            entries.last().1,
        )
    }
}

/// CBOR map of definite length (major type 5) holding the entries in order.
pub open spec fn cbor_text_map(entries: Seq<(Seq<char>, Seq<char>)>) -> Seq<u8> {
    cbor_head(5, entries.len()) + cbor_entries(entries)
}

/// What `serde_cbor::from_slice` decodes from `bytes` as a map from text to
/// text, its entries in ascending key order; `None` where it fails.
pub uninterp spec fn cbor_decode_text_map(bytes: Seq<u8>) -> Option<Seq<(Seq<char>, Seq<char>)>>;

/// Serializes the entries, as a `BTreeMap<String, String>`, with
/// `serde_cbor::to_vec`. The keys come in ascending order, so the map holds
/// the entries in the given order, and serde_cbor writes a definite-length
/// map: its head, then each key and value as a text string. Serialization
/// into a `Vec` does not fail.
#[verifier::external_body]
fn encode_text_map(entries: &Vec<(String, String)>) -> (bytes: Vec<u8>)
    requires
        keys_ascending(entries_view(entries@)),
    ensures
        bytes@ == cbor_text_map(entries_view(entries@)),
{
    let map: BTreeMap<String, String> = entries.iter().cloned().collect();
    match serde_cbor::to_vec(&map) {
        Ok(bytes) => bytes,
        Err(_) => Vec::new(),
    }
}

/// Decodes `bytes` with `serde_cbor::from_slice` into a
/// `BTreeMap<String, String>` and lists its entries. The contract claims
/// that the result is the named decoding of `bytes` and, as a `BTreeMap`
/// iterates, holds distinct keys in ascending order; what the decoder
/// accepts is left to the name.
#[verifier::external_body]
fn decode_text_map(bytes: &[u8]) -> (r: Option<Vec<(String, String)>>)
    ensures
        match r {
            Some(entries) => cbor_decode_text_map(bytes@) == Some(entries_view(entries@))
                && keys_ascending(entries_view(entries@)),
            None => cbor_decode_text_map(bytes@) is None,
        },
{
    match serde_cbor::from_slice::<BTreeMap<String, String>>(bytes) {
        Ok(map) => Some(map.into_iter().collect()),
        Err(_) => None,
    }
}


/// A request of the script controller: `{"type": kind, "value": value}`.
pub open spec fn request_entries(kind: Seq<char>, value: Seq<char>) -> Seq<
    (Seq<char>, Seq<char>),
> {
    seq![("type"@, kind), ("value"@, value)]
}

/// A request that sets a variable: `{"type": "set", "value": value, "var": var}`.
pub open spec fn set_entries(var: Seq<char>, value: Seq<char>) -> Seq<(Seq<char>, Seq<char>)> {
    seq![("type"@, "set"@), ("value"@, value), ("var"@, var)]
}

/// Encodes the request `{"type": kind, "value": value}`.
pub fn encode_request(kind: &str, value: &str) -> (bytes: Vec<u8>)
    ensures
        bytes@ == cbor_text_map(request_entries(kind@, value@)),
{
    let mut entries: Vec<(String, String)> = Vec::new();
    entries.push(("type".to_owned(), kind.to_owned()));
    entries.push(("value".to_owned(), value.to_owned()));
    proof {
        reveal_strlit("type");
        reveal_strlit("value");
        assert(entries_view(entries@) =~= request_entries(kind@, value@));
        assert(text_lt("type"@, "value"@));
    }
    encode_text_map(&entries)
}

/// The request for the controller state: `{"type": "get", "value": "state"}`.
pub fn get_state_request() -> (bytes: Vec<u8>)
    ensures
        bytes@ == cbor_text_map(request_entries("get"@, "state"@)),
{
    encode_request("get", "state")
}

/// The request for the script settings: `{"type": "get", "value": "settings"}`.
pub fn get_settings_request() -> (bytes: Vec<u8>)
    ensures
        bytes@ == cbor_text_map(request_entries("get"@, "settings"@)),
{
    encode_request("get", "settings")
}

/// The request that pauses the script loop: `{"type": "action", "value": "pause"}`.
pub fn pause() -> (bytes: Vec<u8>)
    ensures
        bytes@ == cbor_text_map(request_entries("action"@, "pause"@)),
{
    encode_request("action", "pause")
}

/// The request that resumes the script loop: `{"type": "action", "value": "unpause"}`.
pub fn unpause() -> (bytes: Vec<u8>)
    ensures
        bytes@ == cbor_text_map(request_entries("action"@, "unpause"@)),
{
    encode_request("action", "unpause")
}

/// The request that sets the script variable `var` to `value`.
pub fn set_request(var: &str, value: &str) -> (bytes: Vec<u8>)
    ensures
        bytes@ == cbor_text_map(set_entries(var@, value@)),
{
    let mut entries: Vec<(String, String)> = Vec::new();
    entries.push(("type".to_owned(), "set".to_owned()));
    entries.push(("value".to_owned(), value.to_owned()));
    entries.push(("var".to_owned(), var.to_owned()));
    proof {
        reveal_strlit("type");
        reveal_strlit("value");
        reveal_strlit("var");
        assert(entries_view(entries@) =~= set_entries(var@, value@));
        assert(text_lt("type"@, "value"@));
        reveal_with_fuel(text_lt, 4);
        assert(text_lt("value"@, "var"@));
        assert(text_lt("type"@, "var"@));
    }
    encode_text_map(&entries)
}

/// The entries of a controller reply, with distinct keys in ascending order;
/// `None` where it is no CBOR map of texts.
pub fn decode_reply(reply: &[u8]) -> (r: Option<Vec<(String, String)>>)
    ensures
        match r {
            Some(entries) => cbor_decode_text_map(reply@) == Some(entries_view(entries@))
                && keys_ascending(entries_view(entries@)),
            None => cbor_decode_text_map(reply@) is None,
        },
{
    decode_text_map(reply)
}

} // verus!
