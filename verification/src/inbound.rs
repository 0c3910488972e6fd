//! The receiving half of a session: what to do with each decoded response,
//! and what thereby reaches the two local output streams.

use vstd::prelude::*;
use crate::codec::Wire;
use crate::frame::{decode, CodecError, Frame, TransportError};
use crate::layout::decode_response;
use crate::message::{ChunkType, Response, ResponseView};

verus! {

/// What the receiving task does with one item of the inbound stream.
#[derive(Clone, Debug, PartialEq, Eq)]
pub enum InboundAction {
    /// Write all of these bytes to the local stream of this channel.
    Write(ChunkType, Vec<u8>),
    /// Nothing to do for this message.
    Ignore,
    /// The stream has ended: stop without an error.
    Finish,
    /// Stop with this error.
    Fail(CodecError),
}

/// The bytes that one response puts on the local stream of `channel`.
pub open spec fn routed(response: ResponseView, channel: ChunkType) -> Seq<u8> {
    match response {
        ResponseView::Chunk(_, tagged, data) => if tagged == channel {
            data
        } else {
            Seq::empty()
        },
        _ => Seq::empty(),
    }
}

/// The bytes that a sequence of responses puts on the local stream of
/// `channel`: the payloads of its chunks for that channel, in arrival order.
pub open spec fn written(responses: Seq<ResponseView>, channel: ChunkType) -> Seq<u8>
    decreases responses.len(),
{
    if responses.len() == 0 {
        Seq::empty()
    } else {
        written(responses.drop_last(), channel) + routed(responses.last(), channel)
    }
}

/// The views of a list of responses, in order.
pub open spec fn response_views(responses: Seq<Response>) -> Seq<ResponseView> {
    Seq::new(responses.len(), |i: int| responses[i]@)
}

/// Decides what to do with the next item of the inbound stream: `None` where
/// the stream has ended, else the outcome of decoding a frame.
pub fn route(item: Option<Result<Response, CodecError>>) -> (action: InboundAction)
    ensures
        match item {
            None => action == InboundAction::Finish,
            Some(Err(e)) => action == InboundAction::Fail(e),
            Some(Ok(Response::Chunk(_, chunk))) => action == InboundAction::Write(
                chunk.channel,
                chunk.data,
            ),
            Some(Ok(_)) => action == InboundAction::Ignore,
        },
{
    match item {
        None => InboundAction::Finish,
        Some(Err(e)) => InboundAction::Fail(e),
        Some(Ok(Response::Chunk(_, chunk))) => InboundAction::Write(chunk.channel, chunk.data),
        Some(Ok(Response::TabUpdate(_))) => InboundAction::Ignore,
        Some(Ok(Response::TabList(_))) => InboundAction::Ignore,
    }
}

/// Decides what to do with the next item that the socket hands over: `None`
/// where the stream has ended, else a frame or the transport's error. A close
/// frame ends the stream in good order; any other frame is decoded and its
/// message routed.
pub fn receive(item: Option<Result<Frame, TransportError>>) -> (action: InboundAction)
    ensures
        match item {
            None => action == InboundAction::Finish,
            Some(Err(e)) => action == InboundAction::Fail(CodecError::Transport(e)),
            Some(Ok(Frame::Close(_))) => action == InboundAction::Finish,
            Some(Ok(frame)) => match decode_response(frame.payload()) {
                Some(ResponseView::Chunk(_, channel, data)) => {
                    &&& action matches InboundAction::Write(to, bytes)
                    &&& to == channel
                    &&& bytes@ == data
                },
                Some(_) => action == InboundAction::Ignore,
                None => action == InboundAction::Fail(CodecError::Malformed),
            },
        },
{
    match item {
        None => InboundAction::Finish,
        Some(Ok(Frame::Close(_))) => InboundAction::Finish,
        Some(message) => route(Some(decode::<Response>(message))),
    }
}

/// What has been written to the two local output streams.
#[derive(Clone, Debug, PartialEq, Eq)]
pub struct LocalOutput {
    pub stdout: Vec<u8>,
    pub stderr: Vec<u8>,
}

impl LocalOutput {
    /// Two streams with nothing written.
    pub fn new() -> (out: LocalOutput)
        ensures
            out.stdout@ == Seq::<u8>::empty(),
            out.stderr@ == Seq::<u8>::empty(),
    {
        LocalOutput { stdout: Vec::new(), stderr: Vec::new() }
    }

    /// Writes what one response carries to the stream of its channel, all of
    /// it, and leaves the other stream as it is.
    pub fn deliver(&mut self, response: &Response)
        ensures
            final(self).stdout@ == old(self).stdout@ + routed(response@, ChunkType::Stdout),
            final(self).stderr@ == old(self).stderr@ + routed(response@, ChunkType::Stderr),
    {
        match response {
            Response::Chunk(_, chunk) => {
                let mut i: usize = 0;
                while i < chunk.data.len()
                    invariant
                        i <= chunk.data@.len(),
                        self.stdout@ == old(self).stdout@ + (if chunk.channel
                            == ChunkType::Stdout {
                            chunk.data@.take(i as int)
                        } else {
                            Seq::empty()
                        }),
                        self.stderr@ == old(self).stderr@ + (if chunk.channel
                            == ChunkType::Stderr {
                            chunk.data@.take(i as int)
                        } else {
                            Seq::empty()
                        }),
                    decreases chunk.data@.len() - i,
                {
                    match chunk.channel {
                        ChunkType::Stdout => self.stdout.push(chunk.data[i]),
                        ChunkType::Stderr => self.stderr.push(chunk.data[i]),
                    }
                    assert(chunk.data@.take(i + 1) =~= chunk.data@.take(i as int).push(
                        chunk.data@[i as int],
                    ));
                    i += 1;
                }
                assert(chunk.data@.take(i as int) =~= chunk.data@);
            },
            Response::TabUpdate(_) => {},
            Response::TabList(_) => {},
        }
    }
}

/// Runs the receiving half over a whole sequence of responses and gives what
/// each local stream then holds.
pub fn demultiplex(responses: &Vec<Response>) -> (out: LocalOutput)
    ensures
        out.stdout@ == written(response_views(responses@), ChunkType::Stdout),
        out.stderr@ == written(response_views(responses@), ChunkType::Stderr),
{
    let mut out = LocalOutput::new();
    let ghost views = response_views(responses@);
    let mut i: usize = 0;
    while i < responses.len()
        invariant
            i <= responses@.len(),
            views == response_views(responses@),
            out.stdout@ == written(views.take(i as int), ChunkType::Stdout),
            out.stderr@ == written(views.take(i as int), ChunkType::Stderr),
        decreases responses@.len() - i,
    {
        out.deliver(&responses[i]);
        proof {
            let next = views.take(i + 1);
            assert(next.drop_last() =~= views.take(i as int));
            assert(next.last() == responses@[i as int]@);
        }
        i += 1;
    }
    assert(views.take(i as int) =~= views);
    out
}

/// What reaches a stream from two runs of responses, one after the other, is
/// what reaches it from the first followed by what reaches it from the
/// second: arrival order is kept, and no byte is dropped or written twice.
pub proof fn law_written_in_arrival_order(
    first: Seq<ResponseView>,
    second: Seq<ResponseView>,
    channel: ChunkType,
)
    ensures
        written(first + second, channel) == written(first, channel) + written(second, channel),
    decreases second.len(),
{
    if second.len() == 0 {
        assert(first + second =~= first);
        assert(written(first, channel) + written(second, channel) =~= written(first, channel));
    } else {
        law_written_in_arrival_order(first, second.drop_last(), channel);
        assert((first + second).drop_last() =~= first + second.drop_last());
        assert(written(first + second, channel) =~= written(first, channel) + written(
            second,
            channel,
        ));
    }
}

/// A chunk reaches the stream of its own channel, whole and after all that
/// arrived before it, and leaves every other stream as it was.
pub proof fn law_chunk_reaches_its_channel_only(
    before: Seq<ResponseView>,
    tab: u16,
    tagged: ChunkType,
    data: Seq<u8>,
    channel: ChunkType,
)
    ensures
        tagged == channel ==> written(
            before.push(ResponseView::Chunk(tab, tagged, data)),
            channel,
        ) == written(before, channel) + data,
        tagged != channel ==> written(
            before.push(ResponseView::Chunk(tab, tagged, data)),
            channel,
        ) == written(before, channel),
{
    let all = before.push(ResponseView::Chunk(tab, tagged, data));
    assert(all.drop_last() =~= before);
    assert(written(before, channel) + Seq::<u8>::empty() =~= written(before, channel));
}

/// A run of responses in which no chunk belongs to `channel` writes nothing
/// to that channel's stream.
pub proof fn law_other_channels_write_nothing(responses: Seq<ResponseView>, channel: ChunkType)
    requires
        forall|i: int|
            0 <= i < responses.len() ==> !(#[trigger] responses[i] matches ResponseView::Chunk(
                _,
                tagged,
                _,
            ) && tagged == channel),
    ensures
        written(responses, channel) == Seq::<u8>::empty(),
    decreases responses.len(),
{
    if responses.len() > 0 {
        law_other_channels_write_nothing(responses.drop_last(), channel);
        assert(routed(responses.last(), channel) =~= Seq::<u8>::empty());
        assert(written(responses, channel) =~= Seq::<u8>::empty());
    }
}

} // verus!
