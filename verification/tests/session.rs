use tab_link::bootstrap::{
    decimal_text, server_url, BootstrapAction, BootstrapEvent, BootstrapState, DaemonFile,
    POLL_INTERVAL_MS,
};
use tab_link::frame::{decode, encode, CloseFrame, CodecError, Frame, TransportError};
use tab_link::inbound::{demultiplex, receive, route, InboundAction, LocalOutput};
use tab_link::message::{
    Chunk, ChunkType, CreateTabMetadata, Request, Response, StdinChunk, TabId, TabMetadata,
};
use tab_link::outbound::{
    active_tab, initial_requests, on_read, stdin_request, OutboundAction, INPUT_BUFFER_SIZE,
};

fn chunk(tab: u16, channel: ChunkType, data: &[u8]) -> Response {
    Response::Chunk(TabId(tab), Chunk { channel, data: data.to_vec() })
}

#[test]
fn present_descriptor_is_ready_without_spawning() {
    let state = BootstrapState::initial(Some(DaemonFile { port: 4040 }));
    assert_eq!(state, BootstrapState::Ready(4040));
    assert_eq!(state.action(), BootstrapAction::Connect { port: 4040 });
    assert_eq!(state.next(BootstrapEvent::Spawned), state);
    assert_eq!(state.next(BootstrapEvent::Descriptor(None)), state);
    assert_eq!(state.next(BootstrapEvent::Descriptor(Some(DaemonFile { port: 1 }))), state);
}

#[test]
fn missing_descriptor_spawns_once_then_polls() {
    let mut state = BootstrapState::initial(None);
    assert_eq!(state, BootstrapState::NoDaemon);
    let mut spawned = 0;
    let mut waited = 0;
    let mut looks = 0;
    loop {
        match state.action() {
            BootstrapAction::SpawnDaemon => {
                spawned += 1;
                state = state.next(BootstrapEvent::Spawned);
            }
            BootstrapAction::Poll { interval_ms } => {
                assert_eq!(interval_ms, 25);
                looks += 1;
                let seen = if looks > 3 { Some(DaemonFile { port: 9000 }) } else { None };
                if seen.is_none() {
                    waited += interval_ms;
                }
                state = state.next(BootstrapEvent::Descriptor(seen));
            }
            BootstrapAction::Connect { port } => {
                assert_eq!(port, 9000);
                break;
            }
        }
    }
    assert_eq!(spawned, 1);
    assert_eq!(waited, 3 * POLL_INTERVAL_MS);
    assert_eq!(state, BootstrapState::Ready(9000));
}

#[test]
fn events_that_answer_nothing_change_nothing() {
    let none = BootstrapState::NoDaemon;
    assert_eq!(none.next(BootstrapEvent::Descriptor(Some(DaemonFile { port: 5 }))), none);
    assert_eq!(none.next(BootstrapEvent::Descriptor(None)), none);
    let starting = BootstrapState::Starting;
    assert_eq!(starting.next(BootstrapEvent::Spawned), starting);
    assert_eq!(starting.next(BootstrapEvent::Descriptor(None)), starting);
    assert_eq!(starting.action(), BootstrapAction::Poll { interval_ms: 25 });
}

#[test]
fn initial_sequence() {
    let requests = initial_requests();
    assert_eq!(
        requests,
        vec![
            Request::Auth(vec![]),
            Request::ListTabs,
            Request::CreateTab(CreateTabMetadata { name: "foo".to_string() }),
        ]
    );
}

#[test]
fn initial_sequence_survives_the_wire() {
    let mut seen = Vec::new();
    for request in initial_requests() {
        let frame = encode(request).unwrap();
        let back: Request = decode(Ok(frame)).unwrap();
        seen.push(back);
    }
    assert_eq!(seen, initial_requests());
}

#[test]
fn an_empty_read_sends_nothing() {
    let buffer = vec![0u8; INPUT_BUFFER_SIZE];
    assert_eq!(stdin_request(active_tab(), &buffer, 0), None);
}

#[test]
fn a_read_becomes_a_stdin_request() {
    let mut buffer = vec![0u8; INPUT_BUFFER_SIZE];
    buffer[..3].copy_from_slice(b"ls\n");
    assert_eq!(INPUT_BUFFER_SIZE, 512);
    assert_eq!(active_tab(), TabId(0));
    assert_eq!(
        stdin_request(active_tab(), &buffer, 3),
        Some(Request::Stdin(TabId(0), StdinChunk { data: b"ls\n".to_vec() }))
    );
    assert_eq!(
        stdin_request(TabId(4), &buffer, 512),
        Some(Request::Stdin(TabId(4), StdinChunk { data: buffer.clone() }))
    );
}

#[test]
fn stdin_requests_keep_their_order() {
    let reads: Vec<&[u8]> = vec![b"a", b"", b"bc", b"d", b""];
    let mut sent = Vec::new();
    for read in &reads {
        let mut buffer = vec![0u8; INPUT_BUFFER_SIZE];
        buffer[..read.len()].copy_from_slice(read);
        if let Some(request) = stdin_request(active_tab(), &buffer, read.len()) {
            let back: Request = decode(Ok(encode(request).unwrap())).unwrap();
            sent.push(back);
        }
    }
    assert_eq!(
        sent,
        vec![
            Request::Stdin(TabId(0), StdinChunk { data: b"a".to_vec() }),
            Request::Stdin(TabId(0), StdinChunk { data: b"bc".to_vec() }),
            Request::Stdin(TabId(0), StdinChunk { data: b"d".to_vec() }),
        ]
    );
}

#[test]
fn route_by_item() {
    assert_eq!(route(None), InboundAction::Finish);
    assert_eq!(route(Some(Err(CodecError::Malformed))), InboundAction::Fail(CodecError::Malformed));
    assert_eq!(
        route(Some(Ok(chunk(1, ChunkType::Stdout, b"x")))),
        InboundAction::Write(ChunkType::Stdout, b"x".to_vec())
    );
    assert_eq!(
        route(Some(Ok(chunk(1, ChunkType::Stderr, b"y")))),
        InboundAction::Write(ChunkType::Stderr, b"y".to_vec())
    );
    let tab = TabMetadata { id: TabId(1), name: "t".to_string() };
    assert_eq!(route(Some(Ok(Response::TabUpdate(tab.clone())))), InboundAction::Ignore);
    assert_eq!(route(Some(Ok(Response::TabList(vec![tab])))), InboundAction::Ignore);
}

#[test]
fn chunks_reach_their_stream_in_order() {
    let responses = vec![
        chunk(1, ChunkType::Stdout, b"he"),
        chunk(1, ChunkType::Stderr, b"E1"),
        Response::TabList(vec![]),
        chunk(1, ChunkType::Stdout, b"llo"),
        chunk(1, ChunkType::Stdout, b""),
        chunk(1, ChunkType::Stderr, b"E2"),
        chunk(1, ChunkType::Stdout, b"!"),
    ];
    let out = demultiplex(&responses);
    assert_eq!(out.stdout, b"hello!".to_vec());
    assert_eq!(out.stderr, b"E1E2".to_vec());
}

#[test]
fn channels_never_mix() {
    let only_out = vec![chunk(1, ChunkType::Stdout, b"a"), chunk(2, ChunkType::Stdout, b"b")];
    let out = demultiplex(&only_out);
    assert_eq!(out.stdout, b"ab".to_vec());
    assert!(out.stderr.is_empty());
    let only_err = vec![chunk(1, ChunkType::Stderr, b"a"), chunk(2, ChunkType::Stderr, b"b")];
    let out = demultiplex(&only_err);
    assert!(out.stdout.is_empty());
    assert_eq!(out.stderr, b"ab".to_vec());
}

#[test]
fn deliver_appends_to_one_stream() {
    let mut out = LocalOutput::new();
    out.deliver(&chunk(1, ChunkType::Stderr, b"warn"));
    out.deliver(&Response::TabUpdate(TabMetadata { id: TabId(1), name: "t".to_string() }));
    out.deliver(&chunk(1, ChunkType::Stdout, b"ok"));
    out.deliver(&chunk(1, ChunkType::Stderr, b"ing"));
    assert_eq!(out, LocalOutput { stdout: b"ok".to_vec(), stderr: b"warning".to_vec() });
}

#[test]
fn received_frames_are_routed_after_decoding() {
    let frames = vec![
        encode(chunk(1, ChunkType::Stdout, b"a")).unwrap(),
        Frame::Binary(vec![9, 9]),
    ];
    let mut actions = Vec::new();
    for frame in frames {
        actions.push(route(Some(decode::<Response>(Ok(frame)))));
    }
    actions.push(route(None));
    assert_eq!(
        actions,
        vec![
            InboundAction::Write(ChunkType::Stdout, b"a".to_vec()),
            InboundAction::Fail(CodecError::Malformed),
            InboundAction::Finish,
        ]
    );
}

#[test]
fn on_read_decides_by_outcome() {
    let buffer = b"hello".to_vec();
    assert_eq!(on_read(TabId(0), &buffer, None), OutboundAction::Stop);
    assert_eq!(on_read(TabId(0), &buffer, Some(0)), OutboundAction::ReadAgain);
    assert_eq!(
        on_read(TabId(3), &buffer, Some(4)),
        OutboundAction::Send(Request::Stdin(TabId(3), StdinChunk { data: b"hell".to_vec() }))
    );
}

#[test]
fn server_url_names_the_local_host_and_the_port() {
    assert_eq!(server_url(8080), "ws://127.0.0.1:8080");
    assert_eq!(server_url(0), "ws://127.0.0.1:0");
    assert_eq!(server_url(65535), "ws://127.0.0.1:65535");
    assert_eq!(server_url(7), "ws://127.0.0.1:7");
    assert_eq!(decimal_text(10), "10");
    assert_eq!(decimal_text(9), "9");
    assert_eq!(decimal_text(1005), "1005");
    for port in [1u16, 42, 100, 999, 1000, 40000] {
        assert_eq!(decimal_text(port), format!("{}", port));
    }
}

#[test]
fn a_close_frame_ends_the_stream_in_good_order() {
    assert_eq!(receive(Some(Ok(Frame::Close(None)))), InboundAction::Finish);
    let close = CloseFrame { code: 1000, reason: "done".to_string() };
    assert_eq!(receive(Some(Ok(Frame::Close(Some(close))))), InboundAction::Finish);
    assert_eq!(receive(None), InboundAction::Finish);
}

#[test]
fn receive_decodes_and_routes() {
    let frame = encode(chunk(2, ChunkType::Stderr, b"oops")).unwrap();
    assert_eq!(receive(Some(Ok(frame))), InboundAction::Write(ChunkType::Stderr, b"oops".to_vec()));
    let frame = encode(Response::TabList(vec![])).unwrap();
    assert_eq!(receive(Some(Ok(frame))), InboundAction::Ignore);
    assert_eq!(
        receive(Some(Ok(Frame::Binary(vec![1, 2, 3])))),
        InboundAction::Fail(CodecError::Malformed)
    );
    assert_eq!(receive(Some(Ok(Frame::Ping(vec![])))), InboundAction::Fail(CodecError::Malformed));
    let error = TransportError { reason: "reset".to_string() };
    assert_eq!(
        receive(Some(Err(error.clone()))),
        InboundAction::Fail(CodecError::Transport(error))
    );
}
