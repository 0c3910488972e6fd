use tab_link::codec::Wire;
use tab_link::frame::{decode, encode, encode_or_close, CloseFrame, CodecError, Frame, TransportError};
use tab_link::message::{
    Chunk, ChunkType, CreateTabMetadata, Request, Response, StdinChunk, TabId, TabMetadata,
};

fn payload(frame: Frame) -> Vec<u8> {
    match frame {
        Frame::Binary(data) => data,
        other => panic!("expected a binary frame, got {:?}", other),
    }
}

fn sample_requests() -> Vec<Request> {
    vec![
        Request::Auth(vec![]),
        Request::Auth(vec![1, 2, 3, 255]),
        Request::ListTabs,
        Request::CreateTab(CreateTabMetadata { name: "foo".to_string() }),
        Request::CreateTab(CreateTabMetadata { name: String::new() }),
        Request::CreateTab(CreateTabMetadata { name: "tab \u{e9}\u{4e16}\u{1f600}".to_string() }),
        Request::Stdin(TabId(0), StdinChunk { data: b"ls -l\n".to_vec() }),
        Request::Stdin(TabId(65535), StdinChunk { data: vec![0; 512] }),
    ]
}

fn sample_responses() -> Vec<Response> {
    vec![
        Response::Chunk(TabId(7), Chunk { channel: ChunkType::Stdout, data: b"out".to_vec() }),
        Response::Chunk(TabId(7), Chunk { channel: ChunkType::Stderr, data: vec![] }),
        Response::TabUpdate(TabMetadata { id: TabId(3), name: "build".to_string() }),
        Response::TabList(vec![]),
        Response::TabList(vec![
            TabMetadata { id: TabId(1), name: "one".to_string() },
            TabMetadata { id: TabId(2), name: String::new() },
            TabMetadata { id: TabId(300), name: "\u{fc}ber".to_string() },
        ]),
    ]
}

#[test]
fn request_round_trip() {
    for request in sample_requests() {
        let frame = encode(request.clone()).unwrap();
        let back: Request = decode(Ok(frame)).unwrap();
        assert_eq!(back, request);
    }
}

#[test]
fn response_round_trip() {
    for response in sample_responses() {
        let frame = encode(response.clone()).unwrap();
        let back: Response = decode(Ok(frame)).unwrap();
        assert_eq!(back, response);
    }
}

#[test]
fn auth_bytes_are_tag_length_data() {
    let bytes = payload(encode(Request::Auth(vec![1, 2, 3])).unwrap());
    assert_eq!(bytes, vec![0, 0, 0, 0, 3, 0, 0, 0, 0, 0, 0, 0, 1, 2, 3]);
}

#[test]
fn list_tabs_bytes_are_the_tag() {
    let bytes = payload(encode(Request::ListTabs).unwrap());
    assert_eq!(bytes, vec![1, 0, 0, 0]);
}

#[test]
fn create_tab_bytes() {
    let request = Request::CreateTab(CreateTabMetadata { name: "foo".to_string() });
    let bytes = payload(encode(request).unwrap());
    assert_eq!(bytes, vec![2, 0, 0, 0, 3, 0, 0, 0, 0, 0, 0, 0, b'f', b'o', b'o']);
}

#[test]
fn stdin_bytes_hold_the_tab_little_endian() {
    let request = Request::Stdin(TabId(0x0102), StdinChunk { data: vec![9] });
    let bytes = payload(encode(request).unwrap());
    assert_eq!(bytes, vec![3, 0, 0, 0, 2, 1, 1, 0, 0, 0, 0, 0, 0, 0, 9]);
}

#[test]
fn chunk_bytes() {
    let response =
        Response::Chunk(TabId(5), Chunk { channel: ChunkType::Stderr, data: vec![7, 8] });
    let bytes = payload(encode(response).unwrap());
    assert_eq!(bytes, vec![0, 0, 0, 0, 5, 0, 1, 0, 0, 0, 2, 0, 0, 0, 0, 0, 0, 0, 7, 8]);
}

#[test]
fn tab_list_bytes() {
    let response = Response::TabList(vec![TabMetadata { id: TabId(1), name: "a".to_string() }]);
    let bytes = payload(encode(response).unwrap());
    assert_eq!(
        bytes,
        vec![2, 0, 0, 0, 1, 0, 0, 0, 0, 0, 0, 0, 1, 0, 1, 0, 0, 0, 0, 0, 0, 0, b'a']
    );
}

#[test]
fn requests_match_bincode() {
    let auth = payload(encode(Request::Auth(vec![1, 2, 3])).unwrap());
    assert_eq!(auth, bincode::serialize(&(0u32, vec![1u8, 2, 3])).unwrap());
    let list = payload(encode(Request::ListTabs).unwrap());
    assert_eq!(list, bincode::serialize(&1u32).unwrap());
    let create = Request::CreateTab(CreateTabMetadata { name: "caf\u{e9}".to_string() });
    assert_eq!(
        payload(encode(create).unwrap()),
        bincode::serialize(&(2u32, "caf\u{e9}".to_string())).unwrap()
    );
    let stdin = Request::Stdin(TabId(513), StdinChunk { data: b"echo".to_vec() });
    assert_eq!(
        payload(encode(stdin).unwrap()),
        bincode::serialize(&(3u32, 513u16, b"echo".to_vec())).unwrap()
    );
}

#[test]
fn responses_match_bincode() {
    let chunk = Response::Chunk(TabId(9), Chunk { channel: ChunkType::Stderr, data: vec![4, 5] });
    assert_eq!(
        payload(encode(chunk).unwrap()),
        bincode::serialize(&(0u32, 9u16, 1u32, vec![4u8, 5])).unwrap()
    );
    let update = Response::TabUpdate(TabMetadata { id: TabId(2), name: "x".to_string() });
    assert_eq!(
        payload(encode(update).unwrap()),
        bincode::serialize(&(1u32, 2u16, "x".to_string())).unwrap()
    );
    let list = Response::TabList(vec![
        TabMetadata { id: TabId(1), name: "one".to_string() },
        TabMetadata { id: TabId(2), name: "two".to_string() },
    ]);
    assert_eq!(
        payload(encode(list).unwrap()),
        bincode::serialize(&(2u32, vec![(1u16, "one".to_string()), (2u16, "two".to_string())]))
            .unwrap()
    );
}

#[test]
fn bincode_output_decodes() {
    let bytes = bincode::serialize(&(3u32, 4u16, vec![1u8, 2])).unwrap();
    let back: Request = decode(Ok(Frame::Binary(bytes))).unwrap();
    assert_eq!(back, Request::Stdin(TabId(4), StdinChunk { data: vec![1, 2] }));
}

#[test]
fn every_truncation_of_a_request_is_malformed() {
    for request in sample_requests() {
        let bytes = request.to_bytes();
        for cut in 0..bytes.len() {
            let r: Result<Request, CodecError> = decode(Ok(Frame::Binary(bytes[..cut].to_vec())));
            assert_eq!(r, Err(CodecError::Malformed));
        }
    }
}

#[test]
fn every_truncation_of_a_response_is_malformed() {
    for response in sample_responses() {
        let bytes = response.to_bytes();
        for cut in 0..bytes.len() {
            let r: Result<Response, CodecError> =
                decode(Ok(Frame::Binary(bytes[..cut].to_vec())));
            assert_eq!(r, Err(CodecError::Malformed));
        }
    }
}

#[test]
fn trailing_bytes_are_malformed() {
    let mut bytes = Request::ListTabs.to_bytes();
    bytes.push(0);
    let r: Result<Request, CodecError> = decode(Ok(Frame::Binary(bytes)));
    assert_eq!(r, Err(CodecError::Malformed));
}

#[test]
fn unknown_tags_are_malformed() {
    let r: Result<Request, CodecError> = decode(Ok(Frame::Binary(vec![4, 0, 0, 0])));
    assert_eq!(r, Err(CodecError::Malformed));
    let r: Result<Response, CodecError> = decode(Ok(Frame::Binary(vec![3, 0, 0, 0])));
    assert_eq!(r, Err(CodecError::Malformed));
    let r: Result<Response, CodecError> = decode(Ok(Frame::Binary(vec![
        0, 0, 0, 0, 1, 0, 2, 0, 0, 0, 0, 0, 0, 0, 0, 0, 0, 0,
    ])));
    assert_eq!(r, Err(CodecError::Malformed));
}

#[test]
fn empty_input_is_malformed() {
    let r: Result<Request, CodecError> = decode(Ok(Frame::Binary(vec![])));
    assert_eq!(r, Err(CodecError::Malformed));
    let r: Result<Response, CodecError> = decode(Ok(Frame::Close(None)));
    assert_eq!(r, Err(CodecError::Malformed));
}

#[test]
fn a_length_beyond_the_input_is_malformed() {
    let mut bytes = vec![0, 0, 0, 0];
    bytes.extend_from_slice(&[255; 8]);
    bytes.extend_from_slice(&[1, 2, 3]);
    let r: Result<Request, CodecError> = decode(Ok(Frame::Binary(bytes)));
    assert_eq!(r, Err(CodecError::Malformed));
    let mut bytes = vec![2, 0, 0, 0];
    bytes.extend_from_slice(&[255; 8]);
    let r: Result<Response, CodecError> = decode(Ok(Frame::Binary(bytes)));
    assert_eq!(r, Err(CodecError::Malformed));
}

#[test]
fn a_name_that_is_not_utf8_is_malformed() {
    let bytes = vec![2, 0, 0, 0, 2, 0, 0, 0, 0, 0, 0, 0, 0xff, 0xfe];
    let r: Result<Request, CodecError> = decode(Ok(Frame::Binary(bytes)));
    assert_eq!(r, Err(CodecError::Malformed));
    let bytes = vec![2, 0, 0, 0, 2, 0, 0, 0, 0, 0, 0, 0, 0xc3, 0xa9];
    let r: Result<Request, CodecError> = decode(Ok(Frame::Binary(bytes)));
    assert_eq!(r, Ok(Request::CreateTab(CreateTabMetadata { name: "\u{e9}".to_string() })));
}

#[test]
fn pseudo_random_bytes_never_panic() {
    let mut state: u32 = 0x2545_f491;
    for round in 0..2000usize {
        let mut bytes = Vec::new();
        for _ in 0..(round % 40) {
            state ^= state << 13;
            state ^= state >> 17;
            state ^= state << 5;
            bytes.push((state & 0xff) as u8);
        }
        let as_request: Result<Request, CodecError> = decode(Ok(Frame::Binary(bytes.clone())));
        if let Ok(request) = as_request {
            assert_eq!(request.to_bytes(), bytes);
        }
        let as_response: Result<Response, CodecError> = decode(Ok(Frame::Binary(bytes.clone())));
        if let Ok(response) = as_response {
            assert_eq!(response.to_bytes(), bytes);
        }
    }
}

#[test]
fn a_transport_error_is_handed_on() {
    let error = TransportError { reason: "connection reset".to_string() };
    let r: Result<Response, CodecError> = decode(Err(error.clone()));
    assert_eq!(r, Err(CodecError::Transport(error)));
}

#[test]
fn text_frames_are_decoded_by_their_bytes() {
    let frame = Frame::Text("\u{1}\u{0}\u{0}\u{0}".to_string());
    let r: Result<Request, CodecError> = decode(Ok(frame));
    assert_eq!(r, Ok(Request::ListTabs));
}

#[test]
fn into_data_by_kind() {
    assert_eq!(Frame::Text("h\u{e9}".to_string()).into_data(), vec![b'h', 0xc3, 0xa9]);
    assert_eq!(Frame::Binary(vec![1, 2]).into_data(), vec![1, 2]);
    assert_eq!(Frame::Ping(vec![3]).into_data(), vec![3]);
    assert_eq!(Frame::Pong(vec![4]).into_data(), vec![4]);
    assert_eq!(Frame::Close(None).into_data(), Vec::<u8>::new());
    let close = CloseFrame { code: 1000, reason: "bye".to_string() };
    assert_eq!(Frame::Close(Some(close)).into_data(), b"bye".to_vec());
}

#[test]
fn encode_or_close_closes_when_the_test_holds() {
    let frame = encode_or_close(Request::ListTabs, |_: &Request| true).unwrap();
    assert_eq!(frame, Frame::Close(None));
    assert!(frame.into_data().is_empty());
}

#[test]
fn encode_or_close_encodes_when_the_test_fails() {
    let request = Request::Stdin(TabId(1), StdinChunk { data: vec![1] });
    let frame = encode_or_close(request.clone(), |_: &Request| false).unwrap();
    assert_eq!(frame, encode(request).unwrap());
}

#[test]
fn encode_or_close_asks_the_test_about_the_message() {
    let is_list = |m: &Request| matches!(m, Request::ListTabs);
    assert_eq!(encode_or_close(Request::ListTabs, is_list).unwrap(), Frame::Close(None));
    let auth = Request::Auth(vec![1]);
    assert_eq!(encode_or_close(auth.clone(), is_list).unwrap(), Frame::Binary(auth.to_bytes()));
}

#[test]
fn from_bytes_reads_what_to_bytes_wrote() {
    for response in sample_responses() {
        assert_eq!(Response::from_bytes(&response.to_bytes()), Some(response));
    }
    assert_eq!(Request::from_bytes(&[9]), None);
}

#[test]
fn encode_with_is_ready_with_the_frame() {
    let request = Request::Stdin(TabId(2), StdinChunk { data: vec![1, 2, 3] });
    let frame = futures::executor::block_on(tab_link::deferred::encode_with(request.clone()));
    assert_eq!(frame, encode(request));
}

#[test]
fn decode_with_is_ready_with_the_message() {
    let response = Response::TabUpdate(TabMetadata { id: TabId(8), name: "logs".to_string() });
    let frame = encode(response.clone()).unwrap();
    let back: Result<Response, CodecError> =
        futures::executor::block_on(tab_link::deferred::decode_with(Ok(frame)));
    assert_eq!(back, Ok(response));
    let bad: Result<Response, CodecError> =
        futures::executor::block_on(tab_link::deferred::decode_with(Ok(Frame::Binary(vec![1]))));
    assert_eq!(bad, Err(CodecError::Malformed));
}
