//! The layout of whole messages: a 32-bit variant tag followed by the
//! variant's fields in declaration order.

use vstd::prelude::*;
use vstd::bytes::*;
use crate::message::{ChunkType, RequestView, ResponseView};
use crate::wire::{
    lemma_parse_bytes, lemma_parse_bytes_sound, lemma_parse_tab, lemma_parse_tab_sound,
    lemma_parse_tabs, lemma_parse_tabs_sound, lemma_parse_text, lemma_parse_text_sound,
    lemma_parse_u16, lemma_parse_u16_sound, lemma_parse_u32, lemma_parse_u32_sound, parse_bytes,
    parse_tab, parse_tabs, parse_text, parse_u16, parse_u32, tabs_fit, text_fits, wire_bytes,
    wire_tab, wire_tabs, wire_text,
};

verus! {

pub const TAG_AUTH: u32 = 0;

pub const TAG_LIST_TABS: u32 = 1;

pub const TAG_CREATE_TAB: u32 = 2;

pub const TAG_STDIN: u32 = 3;

pub const TAG_CHUNK: u32 = 0;

pub const TAG_TAB_UPDATE: u32 = 1;

pub const TAG_TAB_LIST: u32 = 2;

pub const TAG_STDOUT: u32 = 0;

pub const TAG_STDERR: u32 = 1;

/// Whether every length inside `v` can be written as a `u64`.
pub open spec fn request_fits(v: RequestView) -> bool {
    match v {
        RequestView::Auth(credential) => credential.len() <= u64::MAX,
        RequestView::ListTabs => true,
        RequestView::CreateTab(name) => text_fits(name),
        RequestView::Stdin(_, data) => data.len() <= u64::MAX,
    }
}

/// The bytes of a request.
pub open spec fn wire_request(v: RequestView) -> Seq<u8> {
    match v {
        RequestView::Auth(credential) => spec_u32_to_le_bytes(TAG_AUTH) + wire_bytes(credential),
        RequestView::ListTabs => spec_u32_to_le_bytes(TAG_LIST_TABS),
        RequestView::CreateTab(name) => spec_u32_to_le_bytes(TAG_CREATE_TAB) + wire_text(name),
        RequestView::Stdin(tab, data) => spec_u32_to_le_bytes(TAG_STDIN) + (spec_u16_to_le_bytes(
            tab,
        ) + wire_bytes(data)),
    }
}

/// Reads one request from the front of `s`.
pub open spec fn parse_request(s: Seq<u8>) -> Option<(RequestView, Seq<u8>)> {
    match parse_u32(s) {
        Some((tag, s1)) => if tag == TAG_AUTH {
            match parse_bytes(s1) {
                Some((credential, s2)) => Some((RequestView::Auth(credential), s2)),
                None => None,
            }
        } else if tag == TAG_LIST_TABS {
            Some((RequestView::ListTabs, s1))
        } else if tag == TAG_CREATE_TAB {
            match parse_text(s1) {
                Some((name, s2)) => Some((RequestView::CreateTab(name), s2)),
                None => None,
            }
        } else if tag == TAG_STDIN {
            match parse_u16(s1) {
                Some((tab, s2)) => match parse_bytes(s2) {
                    Some((data, s3)) => Some((RequestView::Stdin(tab, data), s3)),
                    None => None,
                },
                None => None,
            }
        } else {
            None
        },
        None => None,
    }
}

/// The request that `s` is the encoding of, if it is one: a request is read
/// from the front and nothing may follow it.
pub open spec fn decode_request(s: Seq<u8>) -> Option<RequestView> {
    match parse_request(s) {
        Some((v, rest)) => if rest.len() == 0 {
            Some(v)
        } else {
            None
        },
        None => None,
    }
}

/// The parser reads a request back from its encoding, and leaves over exactly what
/// follows the encoding.
pub proof fn lemma_parse_request(v: RequestView, rest: Seq<u8>)
    requires
        request_fits(v),
    ensures
        parse_request(wire_request(v) + rest) == Some((v, rest)),
{
    match v {
        RequestView::Auth(credential) => {
            lemma_parse_u32(TAG_AUTH, wire_bytes(credential) + rest);
            lemma_parse_bytes(credential, rest);
            assert(wire_request(v) + rest =~= spec_u32_to_le_bytes(TAG_AUTH) + (wire_bytes(
                credential,
            ) + rest));
        },
        RequestView::ListTabs => {
            lemma_parse_u32(TAG_LIST_TABS, rest);
        },
        RequestView::CreateTab(name) => {
            lemma_parse_u32(TAG_CREATE_TAB, wire_text(name) + rest);
            lemma_parse_text(name, rest);
            assert(wire_request(v) + rest =~= spec_u32_to_le_bytes(TAG_CREATE_TAB) + (wire_text(
                name,
            ) + rest));
        },
        RequestView::Stdin(tab, data) => {
            let tail = spec_u16_to_le_bytes(tab) + (wire_bytes(data) + rest);
            lemma_parse_u32(TAG_STDIN, tail);
            lemma_parse_u16(tab, wire_bytes(data) + rest);
            lemma_parse_bytes(data, rest);
            assert(wire_request(v) + rest =~= spec_u32_to_le_bytes(TAG_STDIN) + tail);
        },
    }
}

/// Whatever the parser reads from `s` as a request, `s` is its encoding followed by
/// what the parser left over.
pub proof fn lemma_parse_request_sound(s: Seq<u8>)
    requires
        parse_request(s) is Some,
    ensures
        request_fits(parse_request(s).unwrap().0),
        s == wire_request(parse_request(s).unwrap().0) + parse_request(s).unwrap().1,
{
    lemma_parse_u32_sound(s);
    let (tag, s1) = parse_u32(s).unwrap();
    let (v, rest) = parse_request(s).unwrap();
    if tag == TAG_AUTH {
        lemma_parse_bytes_sound(s1);
    } else if tag == TAG_LIST_TABS {
    } else if tag == TAG_CREATE_TAB {
        lemma_parse_text_sound(s1);
    } else {
        lemma_parse_u16_sound(s1);
        lemma_parse_bytes_sound(parse_u16(s1).unwrap().1);
    }
    assert(s =~= wire_request(v) + rest);
}

/// The tag that stands for an output channel.
pub open spec fn channel_tag(channel: ChunkType) -> u32 {
    match channel {
        ChunkType::Stdout => TAG_STDOUT,
        ChunkType::Stderr => TAG_STDERR,
    }
}

/// Whether every length inside `v` can be written as a `u64`.
pub open spec fn response_fits(v: ResponseView) -> bool {
    match v {
        ResponseView::Chunk(_, _, data) => data.len() <= u64::MAX,
        ResponseView::TabUpdate(tab) => text_fits(tab.name),
        ResponseView::TabList(tabs) => tabs.len() <= u64::MAX && tabs_fit(tabs),
    }
}

/// The bytes of a response.
pub open spec fn wire_response(v: ResponseView) -> Seq<u8> {
    match v {
        ResponseView::Chunk(tab, channel, data) => spec_u32_to_le_bytes(TAG_CHUNK) + (
        spec_u16_to_le_bytes(tab) + (spec_u32_to_le_bytes(channel_tag(channel)) + wire_bytes(
            data,
        ))),
        ResponseView::TabUpdate(tab) => spec_u32_to_le_bytes(TAG_TAB_UPDATE) + wire_tab(tab),
        ResponseView::TabList(tabs) => spec_u32_to_le_bytes(TAG_TAB_LIST) + wire_tabs(tabs),
    }
}

/// Reads an output channel from the front of `s`.
pub open spec fn parse_channel(s: Seq<u8>) -> Option<(ChunkType, Seq<u8>)> {
    match parse_u32(s) {
        Some((tag, s1)) => if tag == TAG_STDOUT {
            Some((ChunkType::Stdout, s1))
        } else if tag == TAG_STDERR {
            Some((ChunkType::Stderr, s1))
        } else {
            None
        },
        None => None,
    }
}

/// Reads one response from the front of `s`.
pub open spec fn parse_response(s: Seq<u8>) -> Option<(ResponseView, Seq<u8>)> {
    match parse_u32(s) {
        Some((tag, s1)) => if tag == TAG_CHUNK {
            match parse_u16(s1) {
                Some((tab, s2)) => match parse_channel(s2) {
                    Some((channel, s3)) => match parse_bytes(s3) {
                        Some((data, s4)) => Some((ResponseView::Chunk(tab, channel, data), s4)),
                        None => None,
                    },
                    None => None,
                },
                None => None,
            }
        } else if tag == TAG_TAB_UPDATE {
            match parse_tab(s1) {
                Some((tab, s2)) => Some((ResponseView::TabUpdate(tab), s2)),
                None => None,
            }
        } else if tag == TAG_TAB_LIST {
            match parse_tabs(s1) {
                Some((tabs, s2)) => Some((ResponseView::TabList(tabs), s2)),
                None => None,
            }
        } else {
            None
        },
        None => None,
    }
}

/// The response that `s` is the encoding of, if it is one: a response is read
/// from the front and nothing may follow it.
pub open spec fn decode_response(s: Seq<u8>) -> Option<ResponseView> {
    match parse_response(s) {
        Some((v, rest)) => if rest.len() == 0 {
            Some(v)
        } else {
            None
        },
        None => None,
    }
}

/// The parser reads a channel back from its encoding, and leaves over exactly what
/// follows the encoding.
pub proof fn lemma_parse_channel(channel: ChunkType, rest: Seq<u8>)
    ensures
        parse_channel(spec_u32_to_le_bytes(channel_tag(channel)) + rest) == Some((channel, rest)),
{
    lemma_parse_u32(channel_tag(channel), rest);
}

/// Whatever the parser reads from `s` as a channel, `s` is its encoding followed by
/// what the parser left over.
pub proof fn lemma_parse_channel_sound(s: Seq<u8>)
    requires
        parse_channel(s) is Some,
    ensures
        s == spec_u32_to_le_bytes(channel_tag(parse_channel(s).unwrap().0)) + parse_channel(
            s,
        ).unwrap().1,
{
    lemma_parse_u32_sound(s);
}

/// The parser reads a response back from its encoding, and leaves over exactly what
/// follows the encoding.
pub proof fn lemma_parse_response(v: ResponseView, rest: Seq<u8>)
    requires
        response_fits(v),
    ensures
        parse_response(wire_response(v) + rest) == Some((v, rest)),
{
    match v {
        ResponseView::Chunk(tab, channel, data) => {
            let t3 = wire_bytes(data) + rest;
            let t2 = spec_u32_to_le_bytes(channel_tag(channel)) + t3;
            let t1 = spec_u16_to_le_bytes(tab) + t2;
            lemma_parse_u32(TAG_CHUNK, t1);
            lemma_parse_u16(tab, t2);
            lemma_parse_channel(channel, t3);
            lemma_parse_bytes(data, rest);
            assert(wire_response(v) + rest =~= spec_u32_to_le_bytes(TAG_CHUNK) + t1);
        },
        ResponseView::TabUpdate(tab) => {
            lemma_parse_u32(TAG_TAB_UPDATE, wire_tab(tab) + rest);
            lemma_parse_tab(tab, rest);
            assert(wire_response(v) + rest =~= spec_u32_to_le_bytes(TAG_TAB_UPDATE) + (wire_tab(
                tab,
            ) + rest));
        },
        ResponseView::TabList(tabs) => {
            lemma_parse_u32(TAG_TAB_LIST, wire_tabs(tabs) + rest);
            lemma_parse_tabs(tabs, rest);
            assert(wire_response(v) + rest =~= spec_u32_to_le_bytes(TAG_TAB_LIST) + (wire_tabs(
                tabs,
            ) + rest));
        },
    }
}

/// Whatever the parser reads from `s` as a response, `s` is its encoding followed by
/// what the parser left over.
pub proof fn lemma_parse_response_sound(s: Seq<u8>)
    requires
        parse_response(s) is Some,
    ensures
        response_fits(parse_response(s).unwrap().0),
        s == wire_response(parse_response(s).unwrap().0) + parse_response(s).unwrap().1,
{
    lemma_parse_u32_sound(s);
    let (tag, s1) = parse_u32(s).unwrap();
    let (v, rest) = parse_response(s).unwrap();
    if tag == TAG_CHUNK {
        lemma_parse_u16_sound(s1);
        let s2 = parse_u16(s1).unwrap().1;
        lemma_parse_channel_sound(s2);
        let s3 = parse_channel(s2).unwrap().1;
        lemma_parse_bytes_sound(s3);
    } else if tag == TAG_TAB_UPDATE {
        lemma_parse_tab_sound(s1);
    } else {
        lemma_parse_tabs_sound(s1);
    }
    assert(s =~= wire_response(v) + rest);
}

/// Decoding undoes encoding: the encoding of a request decodes to that
/// request.
pub proof fn law_request_round_trip(v: RequestView)
    requires
        request_fits(v),
    ensures
        decode_request(wire_request(v)) == Some(v),
{
    lemma_parse_request(v, Seq::empty());
    assert(wire_request(v) + Seq::<u8>::empty() =~= wire_request(v));
}

/// Decoding undoes encoding: the encoding of a response decodes to that
/// response.
pub proof fn law_response_round_trip(v: ResponseView)
    requires
        response_fits(v),
    ensures
        decode_response(wire_response(v)) == Some(v),
{
    lemma_parse_response(v, Seq::empty());
    assert(wire_response(v) + Seq::<u8>::empty() =~= wire_response(v));
}

/// A byte sequence decodes to a request exactly when it is the encoding of
/// that request; so every sequence that encodes no request is refused.
pub proof fn law_request_decodes_only_encodings(s: Seq<u8>, v: RequestView)
    ensures
        decode_request(s) == Some(v) <==> request_fits(v) && wire_request(v) == s,
{
    if decode_request(s) == Some(v) {
        lemma_parse_request_sound(s);
        assert(wire_request(v) + Seq::<u8>::empty() =~= wire_request(v));
    }
    if request_fits(v) && wire_request(v) == s {
        law_request_round_trip(v);
    }
}

/// A byte sequence decodes to a response exactly when it is the encoding of
/// that response; so every sequence that encodes no response is refused.
pub proof fn law_response_decodes_only_encodings(s: Seq<u8>, v: ResponseView)
    ensures
        decode_response(s) == Some(v) <==> response_fits(v) && wire_response(v) == s,
{
    if decode_response(s) == Some(v) {
        lemma_parse_response_sound(s);
        assert(wire_response(v) + Seq::<u8>::empty() =~= wire_response(v));
    }
    if response_fits(v) && wire_response(v) == s {
        law_response_round_trip(v);
    }
}

} // verus!
