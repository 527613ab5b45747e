//! One peer's control loop, a step at a time: what it does about each
//! event that reaches it, and about the command to publish a vote.

use vstd::prelude::*;
use libp2p::PeerId;
use libp2p::floodsub;
use crate::membership::{
    apply_discovered, apply_expired, partial_view, view_after_discovered, view_after_expired,
};
use crate::message::{ListRequest, ListResponse, Mode, Request, Response};
use crate::peer::{identifier, peer_text, peer_texts};
use crate::protocol::{
    Inbound, InboundView, Reaction, ReactionView, classified, classify, react, reaction_to,
    request_all,
};
use crate::record::{Record, Vote, add_vote, added, next_id, records};

verus! {

/// What can reach the control loop.
#[derive(Debug, PartialEq, Eq)]
pub enum Event {
    /// A response that this peer built, as it comes out of the internal
    /// channel.
    Built(ListResponse),
    /// A payload that `source` published on the topic, with what decoding it
    /// as a response and as a request gave.
    Message { source: PeerId, as_response: Option<ListResponse>, as_request: Option<ListRequest> },
    /// These peers were seen on the local network.
    Discovered(Vec<PeerId>),
    /// Records of `peers` ran out; the records that are left name `live`.
    Expired { peers: Vec<PeerId>, live: Vec<PeerId> },
    /// Any other event of the network.
    Other,
}

/// An event as a mathematical value.
pub enum EventView {
    Built(Response),
    Message { source: Seq<char>, inbound: InboundView },
    Discovered(Set<Seq<char>>),
    Expired { peers: Set<Seq<char>>, live: Set<Seq<char>> },
    Other,
}

impl View for Event {
    type V = EventView;

    open spec fn view(&self) -> EventView {
        match self {
            Event::Built(response) => EventView::Built(response@),
            Event::Message { source, as_response, as_request } => EventView::Message {
                source: peer_text(*source),
                inbound: classified(*as_response, *as_request),
            },
            Event::Discovered(found) => EventView::Discovered(peer_texts(found@).to_set()),
            Event::Expired { peers, live } => EventView::Expired {
                peers: peer_texts(peers@).to_set(),
                live: peer_texts(live@).to_set(),
            },
            Event::Other => EventView::Other,
        }
    }
}

/// What the peer `local` does about `event`. A response that it built is
/// treated as one that arrived: it is delivered where it names `local` as
/// receiver and dropped otherwise. A payload is treated by its kind. No
/// other event leads to anything outside the partial view.
pub open spec fn reaction_to_event(local: Seq<char>, event: EventView) -> ReactionView {
    match event {
        EventView::Built(response) => reaction_to(local, local, InboundView::Response(response)),
        EventView::Message { source, inbound } => reaction_to(local, source, inbound),
        _ => ReactionView::Ignore,
    }
}

/// The partial view `view` after `event`: only what discovery reports
/// changes it.
pub open spec fn view_after(view: Set<Seq<char>>, event: EventView) -> Set<Seq<char>> {
    match event {
        EventView::Discovered(found) => view_after_discovered(view, found),
        EventView::Expired { peers, live } => view_after_expired(view, peers, live),
        _ => view,
    }
}

/// One step of the control loop of the peer `local`: brings the partial
/// view of `gossip` up to date with `event` and says what is to be done
/// about it.
pub fn step(local: &PeerId, gossip: &mut floodsub::Behaviour, event: Event) -> (reaction: Reaction)
    ensures
        reaction@ == reaction_to_event(peer_text(*local), event@),
        partial_view(*final(gossip)) == view_after(partial_view(*old(gossip)), event@),
        reaction matches Reaction::Deliver(response) ==> response.receiver@ == peer_text(*local),
{
    match event {
        Event::Built(response) => {
            let me = identifier(local);
            react(me.as_str(), me.as_str(), Inbound::Response(response))
        },
        Event::Message { source, as_response, as_request } => {
            let me = identifier(local);
            let from = identifier(&source);
            react(me.as_str(), from.as_str(), classify(as_response, as_request))
        },
        Event::Discovered(found) => {
            apply_discovered(gossip, &found);
            Reaction::Ignore
        },
        Event::Expired { peers, live } => {
            apply_expired(gossip, &peers, &live);
            Reaction::Ignore
        },
        Event::Other => Reaction::Ignore,
    }
}

/// What the command to publish a vote leads to.
#[derive(Debug, PartialEq, Eq)]
pub struct Published {
    /// The vote that was added.
    pub vote: Vote,
    /// The request to publish on the topic.
    pub request: ListRequest,
    /// What this peer does about its own request.
    pub reaction: Reaction,
}

/// The command to publish a vote named `name`, at the peer `local`: the
/// vote is added to `votes`, every peer is asked for its public votes, and
/// this peer answers its own request as every other peer does.
pub fn on_publish_vote(local: &PeerId, votes: &mut Vec<Vote>, name: &str) -> (published: Published)
    requires
        next_id(records(old(votes)@)) <= usize::MAX,
    ensures
        records(final(votes)@) == added(records(old(votes)@), name@),
        published.vote@ == (Record { id: next_id(records(old(votes)@)), name: name@, public: false }),
        published.request@ == (Request { mode: Mode::All }),
        published.reaction@ == ReactionView::Respond(peer_text(*local)),
{
    let vote = add_vote(votes, name);
    let me = identifier(local);
    let reaction = react(me.as_str(), me.as_str(), Inbound::Request(request_all()));
    Published { vote, request: request_all(), reaction }
}

/// Whatever reaches the control loop, a response is handed on to the user
/// interface only where it names this peer as receiver.
pub proof fn lemma_only_own_responses_delivered(local: Seq<char>, event: EventView)
    ensures
        reaction_to_event(local, event) matches ReactionView::Deliver(response)
            ==> response.receiver == local,
        event matches EventView::Built(response) && response.receiver != local ==> reaction_to_event(
            local,
            event,
        ) == ReactionView::Ignore,
{
}

} // verus!
