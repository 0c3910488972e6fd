//! The sending half of a session: the fixed opening sequence, and the request
//! that each read of local input becomes.

use vstd::prelude::*;
use vstd::slice::*;
use crate::message::{CreateTabMetadata, Request, RequestView, StdinChunk, TabId};

verus! {

/// Bytes of local input that one read may take.
pub const INPUT_BUFFER_SIZE: usize = 512;

/// The tab that local input is sent to.
pub fn active_tab() -> (tab: TabId)
    ensures
        tab == TabId(0),
{
    TabId(0)
}

/// The requests that open a session, in the order in which they are sent.
pub open spec fn opening_sequence() -> Seq<RequestView> {
    seq![
        RequestView::Auth(Seq::empty()),
        RequestView::ListTabs,
        RequestView::CreateTab("foo"@),
    ]
}

/// The views of a list of requests, in order.
pub open spec fn request_views(requests: Seq<Request>) -> Seq<RequestView> {
    Seq::new(requests.len(), |i: int| requests[i]@)
}

/// The requests that a sequence of reads becomes: one `Stdin` request for
/// `tab` from each read that is not empty, in the order of the reads.
pub open spec fn forwarded(tab: u16, reads: Seq<Seq<u8>>) -> Seq<RequestView>
    decreases reads.len(),
{
    if reads.len() == 0 {
        Seq::empty()
    } else if reads.last().len() == 0 {
        forwarded(tab, reads.drop_last())
    } else {
        forwarded(tab, reads.drop_last()).push(RequestView::Stdin(tab, reads.last()))
    }
}

/// The input bytes that a sequence of requests carries, in order.
pub open spec fn carried_input(requests: Seq<RequestView>) -> Seq<u8>
    decreases requests.len(),
{
    if requests.len() == 0 {
        Seq::empty()
    } else {
        carried_input(requests.drop_last()) + (match requests.last() {
            RequestView::Stdin(_, data) => data,
            _ => Seq::empty(),
        })
    }
}

/// All the bytes of a sequence of reads, in order.
pub open spec fn input_bytes(reads: Seq<Seq<u8>>) -> Seq<u8>
    decreases reads.len(),
{
    if reads.len() == 0 {
        Seq::empty()
    } else {
        input_bytes(reads.drop_last()) + reads.last()
    }
}

/// The requests that open a session: authentication with an empty
/// credential, the listing of tabs, and the creation of a tab.
pub fn initial_requests() -> (requests: Vec<Request>)
    ensures
        request_views(requests@) == opening_sequence(),
{
    let mut requests: Vec<Request> = Vec::new();
    requests.push(Request::Auth(Vec::new()));
    requests.push(Request::ListTabs);
    requests.push(Request::CreateTab(CreateTabMetadata { name: "foo".to_string() }));
    assert(request_views(requests@) =~= opening_sequence());
    requests
}

/// The request that a read of `read` bytes into `buffer` becomes: none for an
/// empty read, else the bytes read as input for `tab`.
pub fn stdin_request(tab: TabId, buffer: &[u8], read: usize) -> (request: Option<Request>)
    requires
        read <= buffer@.len(),
    ensures
        read == 0 <==> request is None,
        read > 0 ==> request.unwrap()@ == RequestView::Stdin(tab.0, buffer@.take(read as int)),
        forwarded(tab.0, seq![buffer@.take(read as int)]) == match request {
            Some(r) => seq![r@],
            None => Seq::empty(),
        },
{
    let ghost reads = seq![buffer@.take(read as int)];
    assert(reads.drop_last() =~= Seq::empty());
    assert(forwarded(tab.0, reads.drop_last()) =~= Seq::empty());
    if read == 0 {
        return None;
    }
    let data = slice_to_vec(slice_subrange(buffer, 0, read));
    let request = Request::Stdin(tab, StdinChunk { data });
    assert(forwarded(tab.0, reads) =~= seq![request@]);
    Some(request)
}

/// What the sending task does after one read of local input.
#[derive(Clone, Debug, PartialEq, Eq)]
pub enum OutboundAction {
    /// Send this request, then read again.
    Send(Request),
    /// Nothing was read: read again.
    ReadAgain,
    /// The input failed: stop forwarding.
    Stop,
}

/// Decides what follows a read into `buffer`: `outcome` is the number of
/// bytes read, or none where the input stream failed. An empty read is no end
/// of input, only no data yet.
pub fn on_read(tab: TabId, buffer: &[u8], outcome: Option<usize>) -> (action: OutboundAction)
    requires
        outcome matches Some(read) ==> read <= buffer@.len(),
    ensures
        match outcome {
            None => action == OutboundAction::Stop,
            Some(read) => if read == 0 {
                action == OutboundAction::ReadAgain
            } else {
                action matches OutboundAction::Send(request) && request@ == RequestView::Stdin(
                    tab.0,
                    buffer@.take(read as int),
                )
            },
        },
{
    match outcome {
        None => OutboundAction::Stop,
        Some(read) => match stdin_request(tab, buffer, read) {
            Some(request) => OutboundAction::Send(request),
            None => OutboundAction::ReadAgain,
        },
    }
}

/// The requests forwarded for a sequence of reads carry exactly the bytes
/// read, in the order read: none is dropped, doubled or moved.
pub proof fn law_forwarding_keeps_input(tab: u16, reads: Seq<Seq<u8>>)
    ensures
        carried_input(forwarded(tab, reads)) == input_bytes(reads),
    decreases reads.len(),
{
    if reads.len() > 0 {
        law_forwarding_keeps_input(tab, reads.drop_last());
        let front = forwarded(tab, reads.drop_last());
        if reads.last().len() == 0 {
            assert(input_bytes(reads) =~= input_bytes(reads.drop_last()));
        } else {
            let all = front.push(RequestView::Stdin(tab, reads.last()));
            assert(all.drop_last() =~= front);
        }
    }
}

/// Forwarding a longer sequence of reads only adds requests behind those
/// already forwarded: earlier input is never overtaken.
pub proof fn law_forwarding_extends(tab: u16, reads: Seq<Seq<u8>>, more: Seq<Seq<u8>>)
    ensures
        forwarded(tab, reads + more) == forwarded(tab, reads) + forwarded(tab, more),
    decreases more.len(),
{
    if more.len() == 0 {
        assert(reads + more =~= reads);
        assert(forwarded(tab, reads) + forwarded(tab, more) =~= forwarded(tab, reads));
    } else {
        law_forwarding_extends(tab, reads, more.drop_last());
        assert((reads + more).drop_last() =~= reads + more.drop_last());
        assert(forwarded(tab, reads + more) =~= forwarded(tab, reads) + forwarded(tab, more));
    }
}

} // verus!
