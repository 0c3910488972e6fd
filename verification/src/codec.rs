//! Writing messages to bytes and reading them back, each step held to the
//! layout that `wire` and `layout` define.

use vstd::prelude::*;
use vstd::bytes::*;
use vstd::slice::*;
use vstd::utf8::*;
use crate::layout::{
    decode_request, decode_response, law_request_decodes_only_encodings,
    law_request_round_trip, law_response_decodes_only_encodings, law_response_round_trip,
    parse_channel, parse_request, parse_response, request_fits, response_fits, wire_request,
    wire_response, TAG_AUTH, TAG_CHUNK, TAG_CREATE_TAB, TAG_LIST_TABS, TAG_STDERR, TAG_STDIN,
    TAG_STDOUT, TAG_TAB_LIST, TAG_TAB_UPDATE,
};
use crate::message::{
    tab_views, Chunk, ChunkType, CreateTabMetadata, Request, RequestView, Response, ResponseView,
    StdinChunk, TabId, TabMetadata,
};
use crate::wire::{
    lemma_parse_tab_items_stays_none, parse_bytes, parse_tab, parse_tab_items, parse_tabs,
    parse_text, parse_u16, parse_u32, parse_u64, tabs_fit, text_fits, wire_bytes, wire_tab,
    wire_tab_items, wire_tabs, wire_text,
};

verus! {

/// A value that has a binary encoding.
pub trait Wire: View + Sized {
    /// Whether every length inside `v` can be written down.
    spec fn fits(v: Self::V) -> bool;

    /// The bytes that stand for `v`.
    spec fn encoding(v: Self::V) -> Seq<u8>;

    /// The value that `s` stands for, if it stands for one.
    spec fn decoding(s: Seq<u8>) -> Option<Self::V>;

    /// Decoding undoes encoding.
    proof fn round_trip(v: Self::V)
        requires
            Self::fits(v),
        ensures
            Self::decoding(Self::encoding(v)) == Some(v),
    ;

    /// Bytes decode to a value exactly when they are the encoding of that
    /// value: whatever encodes no value is refused.
    proof fn decodes_only_encodings(s: Seq<u8>, v: Self::V)
        ensures
            Self::decoding(s) == Some(v) <==> Self::fits(v) && Self::encoding(v) == s,
    ;

    /// Encodes the value.
    fn to_bytes(&self) -> (out: Vec<u8>)
        ensures
            Self::fits(self@),
            out@ == Self::encoding(self@),
    ;

    /// Decodes a value from `bytes`, all of them.
    fn from_bytes(bytes: &[u8]) -> (r: Option<Self>)
        ensures
            match Self::decoding(bytes@) {
                Some(v) => r is Some && r.unwrap()@ == v,
                None => r is None,
            },
    ;
}

/// Whether `r` is what reading at `pos` in `bytes` gives, where `parsed` is
/// what the layout reads from the bytes at and after `pos`.
pub open spec fn reads<T: View>(
    bytes: Seq<u8>,
    pos: usize,
    parsed: Option<(T::V, Seq<u8>)>,
    r: Option<(T, usize)>,
) -> bool {
    match parsed {
        Some((v, rest)) => {
            &&& r is Some
            &&& r.unwrap().0@ == v
            &&& pos <= r.unwrap().1 <= bytes.len()
            &&& bytes.skip(r.unwrap().1 as int) == rest
        },
        None => r is None,
    }
}

/// Appends a `u16`, low byte first.
fn put_u16(out: &mut Vec<u8>, v: u16)
    ensures
        final(out)@ == old(out)@ + spec_u16_to_le_bytes(v),
{
    let mut b = u16_to_le_bytes(v);
    out.append(&mut b);
}

/// Appends a `u32`, low byte first.
fn put_u32(out: &mut Vec<u8>, v: u32)
    ensures
        final(out)@ == old(out)@ + spec_u32_to_le_bytes(v),
{
    let mut b = u32_to_le_bytes(v);
    out.append(&mut b);
}

/// Appends a `u64`, low byte first.
fn put_u64(out: &mut Vec<u8>, v: u64)
    ensures
        final(out)@ == old(out)@ + spec_u64_to_le_bytes(v),
{
    let mut b = u64_to_le_bytes(v);
    out.append(&mut b);
}

/// Appends a byte string behind its length.
fn put_bytes(out: &mut Vec<u8>, d: &[u8])
    ensures
        d@.len() <= u64::MAX,
        final(out)@ == old(out)@ + wire_bytes(d@),
{
    put_u64(out, d.len() as u64);
    let mut copy = slice_to_vec(d);
    out.append(&mut copy);
    assert(out@ =~= old(out)@ + wire_bytes(d@));
}

/// Appends text as UTF-8 behind its length in bytes.
fn put_text(out: &mut Vec<u8>, s: &String)
    ensures
        text_fits(s@),
        final(out)@ == old(out)@ + wire_text(s@),
{
    put_bytes(out, s.as_str().as_bytes());
}

/// Appends a tab descriptor.
fn put_tab(out: &mut Vec<u8>, t: &TabMetadata)
    ensures
        text_fits(t@.name),
        final(out)@ == old(out)@ + wire_tab(t@),
{
    put_u16(out, t.id.0);
    put_text(out, &t.name);
    assert(out@ =~= old(out)@ + wire_tab(t@));
}

/// Appends a list of tab descriptors behind their number.
fn put_tabs(out: &mut Vec<u8>, tabs: &Vec<TabMetadata>)
    ensures
        tabs@.len() <= u64::MAX,
        tabs_fit(tab_views(tabs@)),
        final(out)@ == old(out)@ + wire_tabs(tab_views(tabs@)),
{
    let ghost views = tab_views(tabs@);
    put_u64(out, tabs.len() as u64);
    let ghost start = out@;
    let mut i: usize = 0;
    assert(out@ =~= start + wire_tab_items(views.take(0)));
    while i < tabs.len()
        invariant
            i <= tabs@.len(),
            views == tab_views(tabs@),
            tabs_fit(views.take(i as int)),
            out@ == start + wire_tab_items(views.take(i as int)),
        decreases tabs@.len() - i,
    {
        let ghost before = out@;
        put_tab(out, &tabs[i]);
        proof {
            let next = views.take(i + 1);
            assert(next.drop_last() =~= views.take(i as int));
            assert(next.last() == tabs@[i as int]@);
            assert(out@ =~= start + wire_tab_items(next));
        }
        i += 1;
    }
    proof {
        assert(views.take(i as int) =~= views);
        assert(out@ =~= old(out)@ + wire_tabs(views));
    }
}

/// Reads a `u16` at `pos`, and gives the position behind it.
fn take_u16(bytes: &[u8], pos: usize) -> (r: Option<(u16, usize)>)
    requires
        pos <= bytes@.len(),
    ensures
        reads(bytes@, pos, parse_u16(bytes@.skip(pos as int)), r),
{
    if bytes.len() - pos < 2 {
        return None;
    }
    let v = u16_from_le_bytes(slice_subrange(bytes, pos, pos + 2));
    proof {
        let s = bytes@.skip(pos as int);
        assert(s.subrange(0, 2) =~= bytes@.subrange(pos as int, pos + 2));
        assert(s.skip(2) =~= bytes@.skip(pos + 2));
    }
    Some((v, pos + 2))
}

/// Reads a `u32` at `pos`, and gives the position behind it.
fn take_u32(bytes: &[u8], pos: usize) -> (r: Option<(u32, usize)>)
    requires
        pos <= bytes@.len(),
    ensures
        reads(bytes@, pos, parse_u32(bytes@.skip(pos as int)), r),
{
    if bytes.len() - pos < 4 {
        return None;
    }
    let v = u32_from_le_bytes(slice_subrange(bytes, pos, pos + 4));
    proof {
        let s = bytes@.skip(pos as int);
        assert(s.subrange(0, 4) =~= bytes@.subrange(pos as int, pos + 4));
        assert(s.skip(4) =~= bytes@.skip(pos + 4));
    }
    Some((v, pos + 4))
}

/// Reads a `u64` at `pos`, and gives the position behind it.
fn take_u64(bytes: &[u8], pos: usize) -> (r: Option<(u64, usize)>)
    requires
        pos <= bytes@.len(),
    ensures
        reads(bytes@, pos, parse_u64(bytes@.skip(pos as int)), r),
{
    if bytes.len() - pos < 8 {
        return None;
    }
    let v = u64_from_le_bytes(slice_subrange(bytes, pos, pos + 8));
    proof {
        let s = bytes@.skip(pos as int);
        assert(s.subrange(0, 8) =~= bytes@.subrange(pos as int, pos + 8));
        assert(s.skip(8) =~= bytes@.skip(pos + 8));
    }
    Some((v, pos + 8))
}

/// Reads a byte string at `pos`, and gives the position behind it.
fn take_bytes(bytes: &[u8], pos: usize) -> (r: Option<(Vec<u8>, usize)>)
    requires
        pos <= bytes@.len(),
    ensures
        reads(bytes@, pos, parse_bytes(bytes@.skip(pos as int)), r),
{
    match take_u64(bytes, pos) {
        None => None,
        Some((n, start)) => {
            if n > (bytes.len() - start) as u64 {
                return None;
            }
            let end: usize = start + n as usize;
            let data = slice_to_vec(slice_subrange(bytes, start, end));
            proof {
                let s1 = bytes@.skip(start as int);
                assert(s1.take(n as int) =~= bytes@.subrange(start as int, end as int));
                assert(s1.skip(n as int) =~= bytes@.skip(end as int));
            }
            Some((data, end))
        },
    }
}

/// `String::from_utf8` of std: the text that `bytes` spell in UTF-8, and none
/// exactly when they are not well-formed UTF-8.
#[verifier::external_body]
fn text_from_utf8(bytes: Vec<u8>) -> (r: Option<String>)
    ensures
        match r {
            Some(s) => valid_utf8(bytes@) && s@ == decode_utf8(bytes@),
            None => !valid_utf8(bytes@),
        },
{
    match String::from_utf8(bytes) {
        Ok(s) => Some(s),
        Err(_) => None,
    }
}

/// Reads text at `pos`, and gives the position behind it.
fn take_text(bytes: &[u8], pos: usize) -> (r: Option<(String, usize)>)
    requires
        pos <= bytes@.len(),
    ensures
        reads(bytes@, pos, parse_text(bytes@.skip(pos as int)), r),
{
    match take_bytes(bytes, pos) {
        None => None,
        Some((raw, next)) => match text_from_utf8(raw) {
            None => None,
            Some(s) => Some((s, next)),
        },
    }
}

/// Reads a tab descriptor at `pos`, and gives the position behind it.
fn take_tab(bytes: &[u8], pos: usize) -> (r: Option<(TabMetadata, usize)>)
    requires
        pos <= bytes@.len(),
    ensures
        reads(bytes@, pos, parse_tab(bytes@.skip(pos as int)), r),
{
    match take_u16(bytes, pos) {
        None => None,
        Some((id, next1)) => match take_text(bytes, next1) {
            None => None,
            Some((name, next2)) => Some((TabMetadata { id: TabId(id), name }, next2)),
        },
    }
}

/// Reads a counted list of tab descriptors at `pos`, and gives the position
/// behind it.
fn take_tabs(bytes: &[u8], pos: usize) -> (r: Option<(Vec<TabMetadata>, usize)>)
    requires
        pos <= bytes@.len(),
    ensures
        match parse_tabs(bytes@.skip(pos as int)) {
            Some((v, rest)) => {
                &&& r is Some
                &&& tab_views(r.unwrap().0@) == v
                &&& pos <= r.unwrap().1 <= bytes@.len()
                &&& bytes@.skip(r.unwrap().1 as int) == rest
            },
            None => r is None,
        },
{
    match take_u64(bytes, pos) {
        None => None,
        Some((n, start)) => {
            let ghost s1 = bytes@.skip(start as int);
            let mut tabs: Vec<TabMetadata> = Vec::new();
            let mut i: u64 = 0;
            let mut p: usize = start;
            assert(tab_views(tabs@) =~= Seq::empty());
            while i < n
                invariant
                    i <= n,
                    start <= p <= bytes@.len(),
                    parse_u64(bytes@.skip(pos as int)) == Some((n, s1)),
                    parse_tab_items(s1, i as nat) == Some(
                        (tab_views(tabs@), bytes@.skip(p as int)),
                    ),
                decreases n - i,
            {
                match take_tab(bytes, p) {
                    None => {
                        proof {
                            assert(((i + 1) as nat - 1) as nat == i as nat);
                            assert(parse_tab_items(s1, (i + 1) as nat) is None);
                            lemma_parse_tab_items_stays_none(s1, (i + 1) as nat, n as nat);
                        }
                        return None;
                    },
                    Some((t, next)) => {
                        let ghost before = tab_views(tabs@);
                        tabs.push(t);
                        assert(tab_views(tabs@) =~= before.push(t@));
                        p = next;
                        i += 1;
                    },
                }
            }
            Some((tabs, p))
        },
    }
}

/// Reads an output channel at `pos`, and gives the position behind it.
fn take_channel(bytes: &[u8], pos: usize) -> (r: Option<(ChunkType, usize)>)
    requires
        pos <= bytes@.len(),
    ensures
        match parse_channel(bytes@.skip(pos as int)) {
            Some((v, rest)) => {
                &&& r is Some
                &&& r.unwrap().0 == v
                &&& pos <= r.unwrap().1 <= bytes@.len()
                &&& bytes@.skip(r.unwrap().1 as int) == rest
            },
            None => r is None,
        },
{
    match take_u32(bytes, pos) {
        None => None,
        Some((tag, next)) => {
            if tag == TAG_STDOUT {
                Some((ChunkType::Stdout, next))
            } else if tag == TAG_STDERR {
                Some((ChunkType::Stderr, next))
            } else {
                None
            }
        },
    }
}

/// Reads a request at `pos`, and gives the position behind it.
fn take_request(bytes: &[u8], pos: usize) -> (r: Option<(Request, usize)>)
    requires
        pos <= bytes@.len(),
    ensures
        reads(bytes@, pos, parse_request(bytes@.skip(pos as int)), r),
{
    match take_u32(bytes, pos) {
        None => None,
        Some((tag, next1)) => {
            if tag == TAG_AUTH {
                match take_bytes(bytes, next1) {
                    None => None,
                    Some((credential, next2)) => Some((Request::Auth(credential), next2)),
                }
            } else if tag == TAG_LIST_TABS {
                Some((Request::ListTabs, next1))
            } else if tag == TAG_CREATE_TAB {
                match take_text(bytes, next1) {
                    None => None,
                    Some((name, next2)) => Some((Request::CreateTab(CreateTabMetadata { name }), next2)),
                }
            } else if tag == TAG_STDIN {
                match take_u16(bytes, next1) {
                    None => None,
                    Some((tab, next2)) => match take_bytes(bytes, next2) {
                        None => None,
                        Some((data, next3)) => Some(
                            (Request::Stdin(TabId(tab), StdinChunk { data }), next3),
                        ),
                    },
                }
            } else {
                None
            }
        },
    }
}

/// Reads a response at `pos`, and gives the position behind it.
fn take_response(bytes: &[u8], pos: usize) -> (r: Option<(Response, usize)>)
    requires
        pos <= bytes@.len(),
    ensures
        reads(bytes@, pos, parse_response(bytes@.skip(pos as int)), r),
{
    match take_u32(bytes, pos) {
        None => None,
        Some((tag, next1)) => {
            if tag == TAG_CHUNK {
                match take_u16(bytes, next1) {
                    None => None,
                    Some((tab, next2)) => match take_channel(bytes, next2) {
                        None => None,
                        Some((channel, next3)) => match take_bytes(bytes, next3) {
                            None => None,
                            Some((data, next4)) => Some(
                                (Response::Chunk(TabId(tab), Chunk { channel, data }), next4),
                            ),
                        },
                    },
                }
            } else if tag == TAG_TAB_UPDATE {
                match take_tab(bytes, next1) {
                    None => None,
                    Some((tab, next2)) => Some((Response::TabUpdate(tab), next2)),
                }
            } else if tag == TAG_TAB_LIST {
                match take_tabs(bytes, next1) {
                    None => None,
                    Some((tabs, next2)) => Some((Response::TabList(tabs), next2)),
                }
            } else {
                None
            }
        },
    }
}

impl Wire for Request {
    open spec fn fits(v: RequestView) -> bool {
        request_fits(v)
    }

    open spec fn encoding(v: RequestView) -> Seq<u8> {
        wire_request(v)
    }

    open spec fn decoding(s: Seq<u8>) -> Option<RequestView> {
        decode_request(s)
    }

    proof fn round_trip(v: RequestView) {
        law_request_round_trip(v);
    }

    proof fn decodes_only_encodings(s: Seq<u8>, v: RequestView) {
        law_request_decodes_only_encodings(s, v);
    }

    fn to_bytes(&self) -> (out: Vec<u8>) {
        let mut out: Vec<u8> = Vec::new();
        match self {
            Request::Auth(credential) => {
                put_u32(&mut out, TAG_AUTH);
                put_bytes(&mut out, credential.as_slice());
            },
            Request::ListTabs => {
                put_u32(&mut out, TAG_LIST_TABS);
            },
            Request::CreateTab(metadata) => {
                put_u32(&mut out, TAG_CREATE_TAB);
                put_text(&mut out, &metadata.name);
            },
            Request::Stdin(tab, chunk) => {
                put_u32(&mut out, TAG_STDIN);
                put_u16(&mut out, tab.0);
                put_bytes(&mut out, chunk.data.as_slice());
            },
        }
        assert(out@ =~= wire_request(self@));
        out
    }

    fn from_bytes(bytes: &[u8]) -> (r: Option<Request>) {
        assert(bytes@.skip(0) =~= bytes@);
        match take_request(bytes, 0) {
            None => None,
            Some((message, end)) => {
                if end == bytes.len() {
                    Some(message)
                } else {
                    None
                }
            },
        }
    }
}

impl Wire for Response {
    open spec fn fits(v: ResponseView) -> bool {
        response_fits(v)
    }

    open spec fn encoding(v: ResponseView) -> Seq<u8> {
        wire_response(v)
    }

    open spec fn decoding(s: Seq<u8>) -> Option<ResponseView> {
        decode_response(s)
    }

    proof fn round_trip(v: ResponseView) {
        law_response_round_trip(v);
    }

    proof fn decodes_only_encodings(s: Seq<u8>, v: ResponseView) {
        law_response_decodes_only_encodings(s, v);
    }

    fn to_bytes(&self) -> (out: Vec<u8>) {
        let mut out: Vec<u8> = Vec::new();
        match self {
            Response::Chunk(tab, chunk) => {
                put_u32(&mut out, TAG_CHUNK);
                put_u16(&mut out, tab.0);
                match chunk.channel {
                    ChunkType::Stdout => put_u32(&mut out, TAG_STDOUT),
                    ChunkType::Stderr => put_u32(&mut out, TAG_STDERR),
                }
                put_bytes(&mut out, chunk.data.as_slice());
            },
            Response::TabUpdate(tab) => {
                put_u32(&mut out, TAG_TAB_UPDATE);
                put_tab(&mut out, tab);
            },
            Response::TabList(tabs) => {
                put_u32(&mut out, TAG_TAB_LIST);
                put_tabs(&mut out, tabs);
            },
        }
        assert(out@ =~= wire_response(self@));
        out
    }

    fn from_bytes(bytes: &[u8]) -> (r: Option<Response>) {
        assert(bytes@.skip(0) =~= bytes@);
        match take_response(bytes, 0) {
            None => None,
            Some((message, end)) => {
                if end == bytes.len() {
                    Some(message)
                } else {
                    None
                }
            },
        }
    }
}

} // verus!
