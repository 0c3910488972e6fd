//! The binary layout of messages: little-endian fixed-width integers, byte
//! strings and lists behind a 64-bit length, text as UTF-8, and each variant of
//! a message behind a 32-bit tag. Every layout is given as an encoder on
//! mathematical values together with the parser that undoes it, and the two
//! are proved to be inverse to each other.

use vstd::prelude::*;
use vstd::bytes::*;
use vstd::utf8::*;
use crate::message::TabView;

verus! {

/// Reads a little-endian `u16` from the front of `s`.
pub open spec fn parse_u16(s: Seq<u8>) -> Option<(u16, Seq<u8>)> {
    if s.len() >= 2 {
        Some((spec_u16_from_le_bytes(s.subrange(0, 2)), s.skip(2)))
    } else {
        None
    }
}

/// Reads a little-endian `u32` from the front of `s`.
pub open spec fn parse_u32(s: Seq<u8>) -> Option<(u32, Seq<u8>)> {
    if s.len() >= 4 {
        Some((spec_u32_from_le_bytes(s.subrange(0, 4)), s.skip(4)))
    } else {
        None
    }
}

/// Reads a little-endian `u64` from the front of `s`.
pub open spec fn parse_u64(s: Seq<u8>) -> Option<(u64, Seq<u8>)> {
    if s.len() >= 8 {
        Some((spec_u64_from_le_bytes(s.subrange(0, 8)), s.skip(8)))
    } else {
        None
    }
}

/// The parser reads a `u16` back from its encoding, and leaves over exactly what
/// follows the encoding.
pub proof fn lemma_parse_u16(v: u16, rest: Seq<u8>)
    ensures
        parse_u16(spec_u16_to_le_bytes(v) + rest) == Some((v, rest)),
{
    lemma_auto_spec_u16_to_from_le_bytes();
    let w = spec_u16_to_le_bytes(v);
    assert((w + rest).subrange(0, 2) =~= w);
    assert((w + rest).skip(2) =~= rest);
}

/// Whatever the parser reads from `s` as a `u16`, `s` is its encoding followed by
/// what the parser left over.
pub proof fn lemma_parse_u16_sound(s: Seq<u8>)
    requires
        parse_u16(s) is Some,
    ensures
        s == spec_u16_to_le_bytes(parse_u16(s).unwrap().0) + parse_u16(s).unwrap().1,
{
    lemma_auto_spec_u16_to_from_le_bytes();
    assert(s =~= s.subrange(0, 2) + s.skip(2));
}

/// The parser reads a `u32` back from its encoding, and leaves over exactly what
/// follows the encoding.
pub proof fn lemma_parse_u32(v: u32, rest: Seq<u8>)
    ensures
        parse_u32(spec_u32_to_le_bytes(v) + rest) == Some((v, rest)),
{
    lemma_auto_spec_u32_to_from_le_bytes();
    let w = spec_u32_to_le_bytes(v);
    assert((w + rest).subrange(0, 4) =~= w);
    assert((w + rest).skip(4) =~= rest);
}

/// Whatever the parser reads from `s` as a `u32`, `s` is its encoding followed by
/// what the parser left over.
pub proof fn lemma_parse_u32_sound(s: Seq<u8>)
    requires
        parse_u32(s) is Some,
    ensures
        s == spec_u32_to_le_bytes(parse_u32(s).unwrap().0) + parse_u32(s).unwrap().1,
{
    lemma_auto_spec_u32_to_from_le_bytes();
    assert(s =~= s.subrange(0, 4) + s.skip(4));
}

/// The parser reads a `u64` back from its encoding, and leaves over exactly what
/// follows the encoding.
pub proof fn lemma_parse_u64(v: u64, rest: Seq<u8>)
    ensures
        parse_u64(spec_u64_to_le_bytes(v) + rest) == Some((v, rest)),
{
    lemma_auto_spec_u64_to_from_le_bytes();
    let w = spec_u64_to_le_bytes(v);
    assert((w + rest).subrange(0, 8) =~= w);
    assert((w + rest).skip(8) =~= rest);
}

/// Whatever the parser reads from `s` as a `u64`, `s` is its encoding followed by
/// what the parser left over.
pub proof fn lemma_parse_u64_sound(s: Seq<u8>)
    requires
        parse_u64(s) is Some,
    ensures
        s == spec_u64_to_le_bytes(parse_u64(s).unwrap().0) + parse_u64(s).unwrap().1,
{
    lemma_auto_spec_u64_to_from_le_bytes();
    assert(s =~= s.subrange(0, 8) + s.skip(8));
}

/// A byte string on the wire: its length as a `u64`, then the bytes.
pub open spec fn wire_bytes(d: Seq<u8>) -> Seq<u8> {
    spec_u64_to_le_bytes(d.len() as u64) + d
}

/// Reads a length-prefixed byte string from the front of `s`.
pub open spec fn parse_bytes(s: Seq<u8>) -> Option<(Seq<u8>, Seq<u8>)> {
    match parse_u64(s) {
        Some((n, s1)) => if n <= s1.len() {
            Some((s1.take(n as int), s1.skip(n as int)))
        } else {
            None
        },
        None => None,
    }
}

/// The parser reads a byte string back from its encoding, and leaves over exactly what
/// follows the encoding.
pub proof fn lemma_parse_bytes(d: Seq<u8>, rest: Seq<u8>)
    requires
        d.len() <= u64::MAX,
    ensures
        parse_bytes(wire_bytes(d) + rest) == Some((d, rest)),
{
    let n = d.len() as u64;
    lemma_parse_u64(n, d + rest);
    assert(wire_bytes(d) + rest =~= spec_u64_to_le_bytes(n) + (d + rest));
    assert((d + rest).take(n as int) =~= d);
    assert((d + rest).skip(n as int) =~= rest);
}

/// Whatever the parser reads from `s` as a byte string, `s` is its encoding followed by
/// what the parser left over.
pub proof fn lemma_parse_bytes_sound(s: Seq<u8>)
    requires
        parse_bytes(s) is Some,
    ensures
        parse_bytes(s).unwrap().0.len() <= u64::MAX,
        s == wire_bytes(parse_bytes(s).unwrap().0) + parse_bytes(s).unwrap().1,
{
    lemma_parse_u64_sound(s);
    let (n, s1) = parse_u64(s).unwrap();
    let (d, rest) = parse_bytes(s).unwrap();
    assert(s1 =~= d + rest);
    assert(s =~= wire_bytes(d) + rest);
}

/// Whether the UTF-8 form of `c` has a length that a `u64` can hold.
pub open spec fn text_fits(c: Seq<char>) -> bool {
    encode_utf8(c).len() <= u64::MAX
}

/// Text on the wire: its UTF-8 bytes as a byte string.
pub open spec fn wire_text(c: Seq<char>) -> Seq<u8> {
    wire_bytes(encode_utf8(c))
}

/// Reads length-prefixed UTF-8 text from the front of `s`.
pub open spec fn parse_text(s: Seq<u8>) -> Option<(Seq<char>, Seq<u8>)> {
    match parse_bytes(s) {
        Some((b, rest)) => if valid_utf8(b) {
            Some((decode_utf8(b), rest))
        } else {
            None
        },
        None => None,
    }
}

/// The parser reads text back from its encoding, and leaves over exactly what
/// follows the encoding.
pub proof fn lemma_parse_text(c: Seq<char>, rest: Seq<u8>)
    requires
        text_fits(c),
    ensures
        parse_text(wire_text(c) + rest) == Some((c, rest)),
{
    lemma_parse_bytes(encode_utf8(c), rest);
    encode_utf8_valid_utf8(c);
    encode_utf8_decode_utf8(c);
}

/// Whatever the parser reads from `s` as text, `s` is its encoding followed by
/// what the parser left over.
pub proof fn lemma_parse_text_sound(s: Seq<u8>)
    requires
        parse_text(s) is Some,
    ensures
        text_fits(parse_text(s).unwrap().0),
        s == wire_text(parse_text(s).unwrap().0) + parse_text(s).unwrap().1,
{
    lemma_parse_bytes_sound(s);
    decode_utf8_encode_utf8(parse_bytes(s).unwrap().0);
}

/// A tab descriptor on the wire: its id, then its name.
pub open spec fn wire_tab(t: TabView) -> Seq<u8> {
    spec_u16_to_le_bytes(t.id) + wire_text(t.name)
}

/// Reads one tab descriptor from the front of `s`.
pub open spec fn parse_tab(s: Seq<u8>) -> Option<(TabView, Seq<u8>)> {
    match parse_u16(s) {
        Some((id, s1)) => match parse_text(s1) {
            Some((name, s2)) => Some((TabView { id, name }, s2)),
            None => None,
        },
        None => None,
    }
}

/// The parser reads a tab descriptor back from its encoding, and leaves over exactly what
/// follows the encoding.
pub proof fn lemma_parse_tab(t: TabView, rest: Seq<u8>)
    requires
        text_fits(t.name),
    ensures
        parse_tab(wire_tab(t) + rest) == Some((t, rest)),
{
    lemma_parse_u16(t.id, wire_text(t.name) + rest);
    lemma_parse_text(t.name, rest);
    assert(wire_tab(t) + rest =~= spec_u16_to_le_bytes(t.id) + (wire_text(t.name) + rest));
}

/// Whatever the parser reads from `s` as a tab descriptor, `s` is its encoding followed by
/// what the parser left over.
pub proof fn lemma_parse_tab_sound(s: Seq<u8>)
    requires
        parse_tab(s) is Some,
    ensures
        text_fits(parse_tab(s).unwrap().0.name),
        s == wire_tab(parse_tab(s).unwrap().0) + parse_tab(s).unwrap().1,
{
    lemma_parse_u16_sound(s);
    let (id, s1) = parse_u16(s).unwrap();
    lemma_parse_text_sound(s1);
    let (t, rest) = parse_tab(s).unwrap();
    assert(s =~= wire_tab(t) + rest);
}

/// Whether every name in `ts` fits.
pub open spec fn tabs_fit(ts: Seq<TabView>) -> bool {
    forall|i: int| 0 <= i < ts.len() ==> text_fits(#[trigger] ts[i].name)
}

/// Tab descriptors one after the other, in order.
pub open spec fn wire_tab_items(ts: Seq<TabView>) -> Seq<u8>
    decreases ts.len(),
{
    if ts.len() == 0 {
        Seq::empty()
    } else {
        wire_tab_items(ts.drop_last()) + wire_tab(ts.last())
    }
}

/// Reads `n` tab descriptors from the front of `s`.
pub open spec fn parse_tab_items(s: Seq<u8>, n: nat) -> Option<(Seq<TabView>, Seq<u8>)>
    decreases n,
{
    if n == 0 {
        Some((Seq::empty(), s))
    } else {
        match parse_tab_items(s, (n - 1) as nat) {
            Some((ts, s1)) => match parse_tab(s1) {
                Some((t, s2)) => Some((ts.push(t), s2)),
                None => None,
            },
            None => None,
        }
    }
}

/// The parser reads tab descriptors back from its encoding, and leaves over exactly what
/// follows the encoding.
pub proof fn lemma_parse_tab_items(ts: Seq<TabView>, rest: Seq<u8>)
    requires
        tabs_fit(ts),
    ensures
        parse_tab_items(wire_tab_items(ts) + rest, ts.len()) == Some((ts, rest)),
    decreases ts.len(),
{
    if ts.len() > 0 {
        let front = ts.drop_last();
        let t = ts.last();
        lemma_parse_tab_items(front, wire_tab(t) + rest);
        lemma_parse_tab(t, rest);
        assert(wire_tab_items(ts) + rest =~= wire_tab_items(front) + (wire_tab(t) + rest));
        assert(front.push(t) =~= ts);
    } else {
        assert(wire_tab_items(ts) + rest =~= rest);
        assert(ts =~= Seq::empty());
    }
}

/// Whatever the parser reads from `s` as tab descriptors, `s` is its encoding followed by
/// what the parser left over.
pub proof fn lemma_parse_tab_items_sound(s: Seq<u8>, n: nat)
    requires
        parse_tab_items(s, n) is Some,
    ensures
        parse_tab_items(s, n).unwrap().0.len() == n,
        tabs_fit(parse_tab_items(s, n).unwrap().0),
        s == wire_tab_items(parse_tab_items(s, n).unwrap().0) + parse_tab_items(s, n).unwrap().1,
    decreases n,
{
    if n > 0 {
        lemma_parse_tab_items_sound(s, (n - 1) as nat);
        let (front, s1) = parse_tab_items(s, (n - 1) as nat).unwrap();
        lemma_parse_tab_sound(s1);
        let (t, rest) = parse_tab(s1).unwrap();
        let ts = front.push(t);
        assert(ts.drop_last() =~= front);
        assert(s =~= wire_tab_items(ts) + rest);
    } else {
        assert(s =~= wire_tab_items(Seq::empty()) + s);
    }
}

/// Once the items cannot be read, asking for more of them cannot succeed.
pub proof fn lemma_parse_tab_items_stays_none(s: Seq<u8>, k: nat, n: nat)
    requires
        parse_tab_items(s, k) is None,
        k <= n,
    ensures
        parse_tab_items(s, n) is None,
    decreases n,
{
    if k < n {
        lemma_parse_tab_items_stays_none(s, k, (n - 1) as nat);
    }
}

/// A list of tab descriptors on the wire: their number as a `u64`, then each.
pub open spec fn wire_tabs(ts: Seq<TabView>) -> Seq<u8> {
    spec_u64_to_le_bytes(ts.len() as u64) + wire_tab_items(ts)
}

/// Reads a counted list of tab descriptors from the front of `s`.
pub open spec fn parse_tabs(s: Seq<u8>) -> Option<(Seq<TabView>, Seq<u8>)> {
    match parse_u64(s) {
        Some((n, s1)) => parse_tab_items(s1, n as nat),
        None => None,
    }
}

/// The parser reads a list of tab descriptors back from its encoding, and leaves over exactly what
/// follows the encoding.
pub proof fn lemma_parse_tabs(ts: Seq<TabView>, rest: Seq<u8>)
    requires
        ts.len() <= u64::MAX,
        tabs_fit(ts),
    ensures
        parse_tabs(wire_tabs(ts) + rest) == Some((ts, rest)),
{
    lemma_parse_u64(ts.len() as u64, wire_tab_items(ts) + rest);
    lemma_parse_tab_items(ts, rest);
    assert(wire_tabs(ts) + rest =~= spec_u64_to_le_bytes(ts.len() as u64) + (wire_tab_items(ts)
        + rest));
}

/// Whatever the parser reads from `s` as a list of tab descriptors, `s` is its encoding followed by
/// what the parser left over.
pub proof fn lemma_parse_tabs_sound(s: Seq<u8>)
    requires
        parse_tabs(s) is Some,
    ensures
        parse_tabs(s).unwrap().0.len() <= u64::MAX,
        tabs_fit(parse_tabs(s).unwrap().0),
        s == wire_tabs(parse_tabs(s).unwrap().0) + parse_tabs(s).unwrap().1,
{
    lemma_parse_u64_sound(s);
    let (n, s1) = parse_u64(s).unwrap();
    lemma_parse_tab_items_sound(s1, n as nat);
    let (ts, rest) = parse_tabs(s).unwrap();
    assert(s =~= wire_tabs(ts) + rest);
}

} // verus!
