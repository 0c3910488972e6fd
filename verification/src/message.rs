//! The messages exchanged between a client and the daemon, and their
//! mathematical views.

use vstd::prelude::*;

verus! {

/// Names one terminal session on the daemon.
#[derive(Clone, Copy, Debug, PartialEq, Eq, Structural)]
pub struct TabId(pub u16);

/// The output stream of a tab that a chunk belongs to.
#[derive(Clone, Copy, Debug, PartialEq, Eq, Structural)]
pub enum ChunkType {
    Stdout,
    Stderr,
}

/// A block of raw input typed by the user.
#[derive(Clone, Debug, PartialEq, Eq)]
pub struct StdinChunk {
    pub data: Vec<u8>,
}

/// A block of output of one channel of a tab.
#[derive(Clone, Debug, PartialEq, Eq)]
pub struct Chunk {
    pub channel: ChunkType,
    pub data: Vec<u8>,
}

/// What a client supplies to have a tab created.
#[derive(Clone, Debug, PartialEq, Eq)]
pub struct CreateTabMetadata {
    pub name: String,
}

/// Describes one tab that the daemon owns.
#[derive(Clone, Debug, PartialEq, Eq)]
pub struct TabMetadata {
    pub id: TabId,
    pub name: String,
}

/// A message from a client to the daemon.
#[derive(Clone, Debug, PartialEq, Eq)]
pub enum Request {
    Auth(Vec<u8>),
    ListTabs,
    CreateTab(CreateTabMetadata),
    Stdin(TabId, StdinChunk),
}

/// A message from the daemon to a client.
#[derive(Clone, Debug, PartialEq, Eq)]
pub enum Response {
    Chunk(TabId, Chunk),
    TabUpdate(TabMetadata),
    TabList(Vec<TabMetadata>),
}

/// A tab descriptor as a mathematical value.
pub ghost struct TabView {
    pub id: u16,
    pub name: Seq<char>,
}

/// A request as a mathematical value.
pub ghost enum RequestView {
    Auth(Seq<u8>),
    ListTabs,
    CreateTab(Seq<char>),
    Stdin(u16, Seq<u8>),
}

/// A response as a mathematical value.
pub ghost enum ResponseView {
    Chunk(u16, ChunkType, Seq<u8>),
    TabUpdate(TabView),
    TabList(Seq<TabView>),
}

impl View for TabMetadata {
    type V = TabView;

    open spec fn view(&self) -> TabView {
        TabView { id: self.id.0, name: self.name@ }
    }
}

/// The views of a list of tab descriptors, in order.
pub open spec fn tab_views(tabs: Seq<TabMetadata>) -> Seq<TabView> {
    Seq::new(tabs.len(), |i: int| tabs[i]@)
}

impl View for Request {
    type V = RequestView;

    open spec fn view(&self) -> RequestView {
        match *self {
            Request::Auth(credential) => RequestView::Auth(credential@),
            Request::ListTabs => RequestView::ListTabs,
            Request::CreateTab(metadata) => RequestView::CreateTab(metadata.name@),
            Request::Stdin(tab, chunk) => RequestView::Stdin(tab.0, chunk.data@),
        }
    }
}

impl View for Response {
    type V = ResponseView;

    open spec fn view(&self) -> ResponseView {
        match *self {
            Response::Chunk(tab, chunk) => ResponseView::Chunk(tab.0, chunk.channel, chunk.data@),
            Response::TabUpdate(tab) => ResponseView::TabUpdate(tab@),
            Response::TabList(tabs) => ResponseView::TabList(tab_views(tabs@)),
        }
    }
}

} // verus!
