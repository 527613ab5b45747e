//! What a peer does with a payload that arrived on the topic, and how it
//! answers a request.

use vstd::prelude::*;
use crate::message::{ListMode, ListRequest, ListResponse, Mode, Request, Response};
use crate::record::{StoreError, Vote, public_records, public_votes, records};

verus! {

/// A payload by the kind of message that it is.
#[derive(Debug, PartialEq, Eq)]
pub enum Inbound {
    Response(ListResponse),
    Request(ListRequest),
    /// Neither a response nor a request.
    Unrecognized,
}

/// An inbound payload as a mathematical value.
pub enum InboundView {
    Response(Response),
    Request(Request),
    Unrecognized,
}

impl View for Inbound {
    type V = InboundView;

    open spec fn view(&self) -> InboundView {
        match self {
            Inbound::Response(response) => InboundView::Response(response@),
            Inbound::Request(request) => InboundView::Request(request@),
            Inbound::Unrecognized => InboundView::Unrecognized,
        }
    }
}

/// What a peer does about an inbound payload.
#[derive(Debug, PartialEq, Eq)]
pub enum Reaction {
    /// Nothing: the payload is dropped.
    Ignore,
    /// Hand this response, which is addressed to this peer, on to the user
    /// interface.
    Deliver(ListResponse),
    /// Build a response from the local votes for the peer with this
    /// identifier.
    Respond(String),
}

/// A reaction as a mathematical value.
pub enum ReactionView {
    Ignore,
    Deliver(Response),
    Respond(Seq<char>),
}

impl View for Reaction {
    type V = ReactionView;

    open spec fn view(&self) -> ReactionView {
        match self {
            Reaction::Ignore => ReactionView::Ignore,
            Reaction::Deliver(response) => ReactionView::Deliver(response@),
            Reaction::Respond(receiver) => ReactionView::Respond(receiver@),
        }
    }
}

/// The kind of a payload, given what decoding it as a response and as a
/// request gave: a response where it decodes as one, else a request where
/// it decodes as one, else neither.
pub open spec fn classified(as_response: Option<ListResponse>, as_request: Option<ListRequest>)
    -> InboundView {
    match as_response {
        Some(response) => InboundView::Response(response@),
        None => match as_request {
            Some(request) => InboundView::Request(request@),
            None => InboundView::Unrecognized,
        },
    }
}

/// Tells the kind of a payload from what decoding it as a response and as a
/// request gave. The response comes first: a payload that decodes as both
/// is a response.
pub fn classify(as_response: Option<ListResponse>, as_request: Option<ListRequest>) -> (inbound:
    Inbound)
    ensures
        inbound@ == classified(as_response, as_request),
        as_response matches Some(response) ==> inbound == Inbound::Response(response),
        as_response is None ==> (as_request matches Some(request) ==> inbound == Inbound::Request(
            request,
        )),
        as_response is None && as_request is None ==> inbound == Inbound::Unrecognized,
{
    match as_response {
        Some(response) => Inbound::Response(response),
        None => match as_request {
            Some(request) => Inbound::Request(request),
            None => Inbound::Unrecognized,
        },
    }
}

/// What the peer `local` does about `inbound`, which the peer `source`
/// published. A response is delivered where it names `local` as receiver. A
/// request is answered, to `source`, where it is put to all peers or to
/// `local`. Everything else is ignored.
pub open spec fn reaction_to(local: Seq<char>, source: Seq<char>, inbound: InboundView)
    -> ReactionView {
    match inbound {
        InboundView::Response(response) => if response.receiver == local {
            ReactionView::Deliver(response)
        } else {
            ReactionView::Ignore
        },
        InboundView::Request(request) => match request.mode {
            Mode::All => ReactionView::Respond(source),
            Mode::One(target) => if target == local {
                ReactionView::Respond(source)
            } else {
                ReactionView::Ignore
            },
        },
        InboundView::Unrecognized => ReactionView::Ignore,
    }
}

/// Decides what the peer `local` does about `inbound`, which the peer
/// `source` published.
pub fn react(local: &str, source: &str, inbound: Inbound) -> (reaction: Reaction)
    ensures
        reaction@ == reaction_to(local@, source@, inbound@),
        reaction matches Reaction::Deliver(response) ==> response.receiver@ == local@,
{
    let me = local.to_owned();
    match inbound {
        Inbound::Response(response) => {
            if response.receiver == me {
                Reaction::Deliver(response)
            } else {
                Reaction::Ignore
            }
        },
        Inbound::Request(request) => match request.mode {
            ListMode::ALL => Reaction::Respond(source.to_owned()),
            ListMode::One(target) => {
                if target == me {
                    Reaction::Respond(source.to_owned())
                } else {
                    Reaction::Ignore
                }
            },
        },
        Inbound::Unrecognized => Reaction::Ignore,
    }
}

/// The response to a request from the peer `receiver`, given what reading
/// the local votes gave: the public votes in their order, or no response
/// where the votes could not be read.
pub fn respond_with_public_votes(store: Result<Vec<Vote>, StoreError>, receiver: String) -> (response:
    Option<ListResponse>)
    ensures
        match store {
            Ok(votes) => response matches Some(r) && r@ == (Response {
                mode: Mode::All,
                data: public_records(records(votes@)),
                receiver: receiver@,
            }),
            Err(_) => response is None,
        },
{
    match store {
        Ok(votes) => Some(ListResponse { mode: ListMode::ALL, data: public_votes(&votes), receiver }),
        Err(_) => None,
    }
}

/// The request that a peer publishes to learn the public votes of every
/// peer.
pub fn request_all() -> (request: ListRequest)
    ensures
        request@ == (Request { mode: Mode::All }),
{
    ListRequest { mode: ListMode::ALL }
}

/// A response is handed on to the user interface only where it names this
/// peer as receiver, and a response that names another peer is dropped. A
/// request is answered only where it is put to all peers or to this peer,
/// and then to the peer that published it.
pub proof fn lemma_reaction_respects_addressee(
    local: Seq<char>,
    source: Seq<char>,
    inbound: InboundView,
)
    ensures
        reaction_to(local, source, inbound) matches ReactionView::Deliver(response) ==> inbound
            == InboundView::Response(response) && response.receiver == local,
        inbound matches InboundView::Response(response) && response.receiver != local
            ==> reaction_to(local, source, inbound) == ReactionView::Ignore,
        reaction_to(local, source, inbound) matches ReactionView::Respond(receiver) ==> receiver
            == source && (inbound matches InboundView::Request(request) && (request.mode
            == Mode::All || request.mode == Mode::One(local))),
{
}

} // verus!
