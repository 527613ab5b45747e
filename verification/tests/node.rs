use libp2p::floodsub::Behaviour;
use libp2p::swarm::{NetworkBehaviour, ToSwarm};
use libp2p::PeerId;
use std::task::{Context, Poll, Waker};
use vote_gossip::message::{ListMode, ListRequest, ListResponse};
use vote_gossip::node::{on_publish_vote, step, Event, Published};
use vote_gossip::protocol::{respond_with_public_votes, Reaction};
use vote_gossip::record::Vote;

fn vote(id: usize, name: &str, public: bool) -> Vote {
    Vote { id, name: name.to_string(), public }
}

fn response(receiver: &str, data: Vec<Vote>) -> ListResponse {
    ListResponse { mode: ListMode::ALL, data, receiver: receiver.to_string() }
}

fn dials(gossip: &mut Behaviour) -> usize {
    let mut context = Context::from_waker(Waker::noop());
    let mut count = 0;
    while let Poll::Ready(event) = gossip.poll(&mut context) {
        if matches!(event, ToSwarm::Dial { .. }) {
            count += 1;
        }
    }
    count
}

fn in_view(gossip: &mut Behaviour, peer: PeerId) -> bool {
    dials(gossip);
    gossip.add_node_to_partial_view(peer);
    if dials(gossip) == 0 {
        true
    } else {
        gossip.remove_node_from_partial_view(&peer);
        false
    }
}

#[test]
fn built_response_for_this_peer_goes_to_the_interface() {
    let local = PeerId::random();
    let mut gossip = Behaviour::new(local);
    let built = response(&local.to_base58(), vec![vote(0, "A", true)]);
    assert_eq!(
        step(&local, &mut gossip, Event::Built(built)),
        Reaction::Deliver(response(&local.to_base58(), vec![vote(0, "A", true)]))
    );
}

#[test]
fn built_response_for_another_peer_is_dropped() {
    let local = PeerId::random();
    let other = PeerId::random();
    let mut gossip = Behaviour::new(local);
    let built = response(&other.to_base58(), vec![vote(0, "A", true)]);
    assert_eq!(step(&local, &mut gossip, Event::Built(built)), Reaction::Ignore);
    assert_eq!(
        step(&local, &mut gossip, Event::Built(response("any", Vec::new()))),
        Reaction::Ignore
    );
}

#[test]
fn received_response_with_a_foreign_receiver_is_never_delivered() {
    let local = PeerId::random();
    let source = PeerId::random();
    let mut gossip = Behaviour::new(local);
    let event = Event::Message {
        source,
        as_response: Some(response(&source.to_base58(), vec![vote(3, "C", true)])),
        as_request: Some(ListRequest { mode: ListMode::ALL }),
    };
    assert_eq!(step(&local, &mut gossip, event), Reaction::Ignore);
}

#[test]
fn received_response_for_this_peer_is_delivered() {
    let local = PeerId::random();
    let source = PeerId::random();
    let mut gossip = Behaviour::new(local);
    let event = Event::Message {
        source,
        as_response: Some(response(&local.to_string(), vec![vote(3, "C", true)])),
        as_request: None,
    };
    assert_eq!(
        step(&local, &mut gossip, event),
        Reaction::Deliver(response(&local.to_base58(), vec![vote(3, "C", true)]))
    );
}

#[test]
fn received_request_to_all_is_answered_to_its_source() {
    let local = PeerId::random();
    let source = PeerId::random();
    let mut gossip = Behaviour::new(local);
    let event = Event::Message {
        source,
        as_response: None,
        as_request: Some(ListRequest { mode: ListMode::ALL }),
    };
    let reaction = step(&local, &mut gossip, event);
    assert_eq!(reaction, Reaction::Respond(source.to_base58()));
    let votes = vec![vote(0, "A", true), vote(1, "B", false), vote(2, "C", true)];
    assert_eq!(
        respond_with_public_votes(Ok(votes), source.to_base58()),
        Some(response(&source.to_base58(), vec![vote(0, "A", true), vote(2, "C", true)]))
    );
}

#[test]
fn received_request_to_one_peer_is_answered_by_that_peer_only() {
    let local = PeerId::random();
    let source = PeerId::random();
    let mut gossip = Behaviour::new(local);
    let to_me = Event::Message {
        source,
        as_response: None,
        as_request: Some(ListRequest { mode: ListMode::One(local.to_base58()) }),
    };
    assert_eq!(step(&local, &mut gossip, to_me), Reaction::Respond(source.to_base58()));
    let to_other = Event::Message {
        source,
        as_response: None,
        as_request: Some(ListRequest { mode: ListMode::One(source.to_base58()) }),
    };
    assert_eq!(step(&local, &mut gossip, to_other), Reaction::Ignore);
}

#[test]
fn undecodable_payload_and_other_events_lead_to_nothing() {
    let local = PeerId::random();
    let source = PeerId::random();
    let mut gossip = Behaviour::new(local);
    let event = Event::Message { source, as_response: None, as_request: None };
    assert_eq!(step(&local, &mut gossip, event), Reaction::Ignore);
    assert_eq!(step(&local, &mut gossip, Event::Other), Reaction::Ignore);
    assert!(!in_view(&mut gossip, source));
}

#[test]
fn messages_leave_the_view_alone() {
    let local = PeerId::random();
    let (a, source) = (PeerId::random(), PeerId::random());
    let mut gossip = Behaviour::new(local);
    assert_eq!(step(&local, &mut gossip, Event::Discovered(vec![a])), Reaction::Ignore);
    let event = Event::Message {
        source,
        as_response: None,
        as_request: Some(ListRequest { mode: ListMode::ALL }),
    };
    step(&local, &mut gossip, event);
    step(&local, &mut gossip, Event::Built(response("x", Vec::new())));
    assert!(in_view(&mut gossip, a));
    assert!(!in_view(&mut gossip, source));
}

#[test]
fn rediscovered_peer_survives_a_belated_expiry() {
    let local = PeerId::random();
    let peer = PeerId::random();
    let mut gossip = Behaviour::new(local);
    assert_eq!(step(&local, &mut gossip, Event::Discovered(vec![peer])), Reaction::Ignore);
    assert_eq!(step(&local, &mut gossip, Event::Discovered(vec![peer])), Reaction::Ignore);
    let belated = Event::Expired { peers: vec![peer], live: vec![peer] };
    assert_eq!(step(&local, &mut gossip, belated), Reaction::Ignore);
    assert!(in_view(&mut gossip, peer));
}

#[test]
fn peer_whose_last_record_expired_leaves_the_view() {
    let local = PeerId::random();
    let (peer, other) = (PeerId::random(), PeerId::random());
    let mut gossip = Behaviour::new(local);
    step(&local, &mut gossip, Event::Discovered(vec![peer, other]));
    step(&local, &mut gossip, Event::Expired { peers: vec![peer], live: vec![other] });
    assert!(!in_view(&mut gossip, peer));
    assert!(in_view(&mut gossip, other));
}

#[test]
fn publish_command_adds_asks_everyone_and_answers_itself() {
    let local = PeerId::random();
    let mut votes = vec![vote(0, "Elm", true)];
    let published = on_publish_vote(&local, &mut votes, "Rust");
    assert_eq!(
        published,
        Published {
            vote: vote(1, "Rust", false),
            request: ListRequest { mode: ListMode::ALL },
            reaction: Reaction::Respond(local.to_base58()),
        }
    );
    assert_eq!(votes, vec![vote(0, "Elm", true), vote(1, "Rust", false)]);
    let mut gossip = Behaviour::new(local);
    let answer = respond_with_public_votes(Ok(votes), local.to_base58()).unwrap();
    assert_eq!(
        step(&local, &mut gossip, Event::Built(answer)),
        Reaction::Deliver(response(&local.to_base58(), vec![vote(0, "Elm", true)]))
    );
}
