//! The two messages that peers exchange on the topic, and the topic.

use vstd::prelude::*;
use crate::record::{Record, Vote, records};

verus! {

/// The one topic that every peer subscribes to.
pub const TOPIC: &'static str = "votes";

/// Whom a request for votes is put to.
#[derive(Debug, PartialEq, Eq)]
pub enum ListMode {
    /// Every peer.
    ALL,
    /// The peer with this identifier.
    One(String),
}

/// A list mode as a mathematical value.
pub enum Mode {
    All,
    One(Seq<char>),
}

impl View for ListMode {
    type V = Mode;

    open spec fn view(&self) -> Mode {
        match self {
            ListMode::ALL => Mode::All,
            ListMode::One(peer) => Mode::One(peer@),
        }
    }
}

/// Asks for the public votes of one peer or of all.
#[derive(Debug, PartialEq, Eq)]
pub struct ListRequest {
    pub mode: ListMode,
}

/// A request as a mathematical value.
pub struct Request {
    pub mode: Mode,
}

impl View for ListRequest {
    type V = Request;

    open spec fn view(&self) -> Request {
        Request { mode: self.mode@ }
    }
}

/// Answers a request: the public votes of the peer that answers, for the
/// peer named as receiver.
#[derive(Debug, PartialEq, Eq)]
pub struct ListResponse {
    pub mode: ListMode,
    pub data: Vec<Vote>,
    pub receiver: String,
}

/// A response as a mathematical value.
pub struct Response {
    pub mode: Mode,
    pub data: Seq<Record>,
    pub receiver: Seq<char>,
}

impl View for ListResponse {
    type V = Response;

    open spec fn view(&self) -> Response {
        Response { mode: self.mode@, data: records(self.data@), receiver: self.receiver@ }
    }
}

} // verus!
