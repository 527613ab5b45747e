//! The partial view: the peers that published messages are sent to. Peers
//! enter it when they are discovered on the local network, and leave it when
//! the last record of them has expired.

use vstd::prelude::*;
use libp2p::PeerId;
use libp2p::floodsub;
use crate::peer::{
    holds_text, identifier, identifiers, lemma_take_to_set, peer_text, peer_texts, texts,
};

verus! {

/// `libp2p::floodsub::Behaviour`, which holds the partial view.
#[verifier::external_type_specification]
#[verifier::external_body]
pub struct ExFloodsub(floodsub::Behaviour);

/// The partial view of `gossip`: the identifiers of the peers that it sends
/// published messages to.
pub uninterp spec fn partial_view(gossip: floodsub::Behaviour) -> Set<Seq<char>>;

/// Calls `Behaviour::add_node_to_partial_view`. Trusted: afterwards the
/// partial view holds `peer` beside the peers that it held.
#[verifier::external_body]
fn add_node_to_partial_view(gossip: &mut floodsub::Behaviour, peer: &PeerId)
    ensures
        partial_view(*final(gossip)) == partial_view(*old(gossip)).insert(peer_text(*peer)),
{
    gossip.add_node_to_partial_view(*peer)
}

/// Calls `Behaviour::remove_node_from_partial_view`. Trusted: afterwards the
/// partial view holds the peers that it held but for `peer`.
#[verifier::external_body]
fn remove_node_from_partial_view(gossip: &mut floodsub::Behaviour, peer: &PeerId)
    ensures
        partial_view(*final(gossip)) == partial_view(*old(gossip)).remove(peer_text(*peer)),
{
    gossip.remove_node_from_partial_view(peer)
}

/// The partial view `view` after the peers `found` were discovered: they
/// are all in it.
pub open spec fn view_after_discovered(view: Set<Seq<char>>, found: Set<Seq<char>>) -> Set<
    Seq<char>,
> {
    view.union(found)
}

/// The partial view `view` after records of the peers `expired` ran out,
/// while the discovery records that are left name the peers `live`: a peer
/// leaves the view where a record of it ran out and none is left.
pub open spec fn view_after_expired(
    view: Set<Seq<char>>,
    expired: Set<Seq<char>>,
    live: Set<Seq<char>>,
) -> Set<Seq<char>> {
    view.difference(expired.difference(live))
}

/// Puts every peer of `found` into the partial view.
pub fn apply_discovered(gossip: &mut floodsub::Behaviour, found: &Vec<PeerId>)
    ensures
        partial_view(*final(gossip)) == view_after_discovered(
            partial_view(*old(gossip)),
            peer_texts(found@).to_set(),
        ),
{
    let ghost all = peer_texts(found@);
    let mut i: usize = 0;
    while i < found.len()
        invariant
            i <= found.len(),
            all == peer_texts(found@),
            partial_view(*gossip) == partial_view(*old(gossip)).union(all.take(i as int).to_set()),
        decreases found.len() - i,
    {
        proof {
            lemma_take_to_set(all, i as int);
        }
        add_node_to_partial_view(gossip, &found[i]);
        i = i + 1;
        proof {
            assert(partial_view(*gossip) =~= partial_view(*old(gossip)).union(
                all.take(i as int).to_set(),
            ));
        }
    }
    proof {
        assert(all.take(found.len() as int) == all);
    }
}

/// Takes out of the partial view every peer of `expired` that no discovery
/// record names any more; `live` are the peers that the records still name.
pub fn apply_expired(gossip: &mut floodsub::Behaviour, expired: &Vec<PeerId>, live: &Vec<PeerId>)
    ensures
        partial_view(*final(gossip)) == view_after_expired(
            partial_view(*old(gossip)),
            peer_texts(expired@).to_set(),
            peer_texts(live@).to_set(),
        ),
{
    let ghost all = peer_texts(expired@);
    let ghost kept = peer_texts(live@).to_set();
    let named = identifiers(live);
    let mut i: usize = 0;
    while i < expired.len()
        invariant
            i <= expired.len(),
            all == peer_texts(expired@),
            kept == peer_texts(live@).to_set(),
            texts(named@) == peer_texts(live@),
            partial_view(*gossip) == partial_view(*old(gossip)).difference(
                all.take(i as int).to_set().difference(kept),
            ),
        decreases expired.len() - i,
    {
        proof {
            lemma_take_to_set(all, i as int);
        }
        let text = identifier(&expired[i]);
        if !holds_text(&named, &text) {
            remove_node_from_partial_view(gossip, &expired[i]);
        }
        i = i + 1;
        proof {
            assert(partial_view(*gossip) =~= partial_view(*old(gossip)).difference(
                all.take(i as int).to_set().difference(kept),
            ));
        }
    }
    proof {
        assert(all.take(expired.len() as int) == all);
    }
}

/// The members of `list`, each once, in the order in which `list` first
/// holds them.
pub open spec fn each_once(list: Seq<Seq<char>>) -> Seq<Seq<char>>
    decreases list.len(),
{
    if list.len() == 0 {
        list
    } else if each_once(list.drop_last()).contains(list.last()) {
        each_once(list.drop_last())
    } else {
        each_once(list.drop_last()).push(list.last())
    }
}

/// `each_once(list)` holds what `list` holds, and nothing twice.
pub proof fn lemma_each_once(list: Seq<Seq<char>>)
    ensures
        each_once(list).no_duplicates(),
        each_once(list).to_set() == list.to_set(),
    decreases list.len(),
{
    if list.len() == 0 {
        assert(each_once(list).to_set() =~= list.to_set());
    } else {
        let head = list.drop_last();
        let once = each_once(head);
        lemma_each_once(head);
        assert(list.take(list.len() - 1) == head);
        assert(list.take(list.len() as int) == list);
        lemma_take_to_set(list, list.len() - 1);
        if once.contains(list.last()) {
            assert(once.to_set().insert(list.last()) =~= once.to_set());
        } else {
            let all = once.push(list.last());
            assert(all.take(once.len() as int) == once);
            assert(all.take(once.len() as int + 1) == all);
            lemma_take_to_set(all, once.len() as int);
        }
    }
}

/// The identifiers of the peers of `nodes`, each once, in the order in
/// which `nodes` first names them.
pub fn discovered_peers(nodes: &Vec<PeerId>) -> (unique: Vec<String>)
    ensures
        texts(unique@) == each_once(peer_texts(nodes@)),
        texts(unique@).no_duplicates(),
        texts(unique@).to_set() == peer_texts(nodes@).to_set(),
{
    let ghost all = peer_texts(nodes@);
    let mut unique: Vec<String> = Vec::new();
    let mut i: usize = 0;
    while i < nodes.len()
        invariant
            i <= nodes.len(),
            all == peer_texts(nodes@),
            texts(unique@) == each_once(all.take(i as int)),
        decreases nodes.len() - i,
    {
        proof {
            assert(all.take(i + 1).drop_last() == all.take(i as int));
        }
        let text = identifier(&nodes[i]);
        if !holds_text(&unique, &text) {
            let ghost before = texts(unique@);
            unique.push(text);
            proof {
                assert(texts(unique@) =~= before.push(all[i as int]));
            }
        }
        i = i + 1;
    }
    proof {
        assert(all.take(nodes.len() as int) == all);
        lemma_each_once(all);
    }
    unique
}

/// A peer that a discovery record still names stays in the partial view
/// when another record of it runs out.
pub proof fn lemma_live_peer_stays(
    view: Set<Seq<char>>,
    expired: Set<Seq<char>>,
    live: Set<Seq<char>>,
    peer: Seq<char>,
)
    requires
        view.contains(peer),
        live.contains(peer),
    ensures
        view_after_expired(view, expired, live).contains(peer),
{
}

/// A peer that was discovered, and discovered again, and that a discovery
/// record still names, is in the partial view after an earlier record of it
/// ran out: whatever the view was before, and whichever other peers were
/// found or ran out with it.
pub proof fn lemma_rediscovered_peer_stays(
    view: Set<Seq<char>>,
    first: Set<Seq<char>>,
    second: Set<Seq<char>>,
    expired: Set<Seq<char>>,
    live: Set<Seq<char>>,
    peer: Seq<char>,
)
    requires
        first.contains(peer),
        second.contains(peer),
        live.contains(peer),
    ensures
        view_after_expired(
            view_after_discovered(view_after_discovered(view, first), second),
            expired,
            live,
        ).contains(peer),
{
}

/// A peer leaves the partial view exactly where a record of it ran out and
/// no record names it any more; no other peer enters or leaves.
pub proof fn lemma_expired_leaves_only_without_record(
    view: Set<Seq<char>>,
    expired: Set<Seq<char>>,
    live: Set<Seq<char>>,
    peer: Seq<char>,
)
    ensures
        view_after_expired(view, expired, live).contains(peer) <==> view.contains(peer) && !(
        expired.contains(peer) && !live.contains(peer)),
{
}

/// Discovering a peer that is in the partial view changes nothing.
pub proof fn lemma_discovered_again(view: Set<Seq<char>>, found: Set<Seq<char>>)
    requires
        found.subset_of(view),
    ensures
        view_after_discovered(view, found) == view,
{
    assert(view_after_discovered(view, found) =~= view);
}

} // verus!
