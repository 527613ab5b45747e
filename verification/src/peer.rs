//! Peers by their identifiers: the text under which a peer is named in
//! messages and held in the partial view.

use vstd::prelude::*;
use libp2p::PeerId;
use libp2p::identity::Keypair;

verus! {

/// `libp2p::PeerId`, carried through as an opaque value.
#[verifier::external_type_specification]
#[verifier::external_body]
pub struct ExPeerId(PeerId);

/// The identifier of a peer: the text that `PeerId::to_base58` returns for
/// it, which is also the text that it is displayed as. Peers that differ
/// have identifiers that differ.
pub uninterp spec fn peer_text(peer: PeerId) -> Seq<char>;

/// Calls `PeerId::to_base58`. Trusted: the result is the identifier of
/// `peer`.
#[verifier::external_body]
pub(crate) fn identifier(peer: &PeerId) -> (text: String)
    ensures
        text@ == peer_text(*peer),
{
    peer.to_base58()
}

/// `libp2p::identity::Keypair`, carried through as an opaque value.
#[verifier::external_type_specification]
#[verifier::external_body]
pub struct ExKeypair(Keypair);

/// The identifier of the peer that `keys` belong to: that of the peer id
/// which `PublicKey::to_peer_id` derives from their public key.
pub uninterp spec fn owner_text(keys: Keypair) -> Seq<char>;

/// Calls `Keypair::generate_ed25519`. Nothing is stated of the keys: they
/// are drawn at random.
#[verifier::external_body]
fn generate_keys() -> Keypair {
    Keypair::generate_ed25519()
}

/// Calls `Keypair::public` and, on the public key, `PublicKey::to_peer_id`.
/// Trusted: the result is the peer that `keys` belong to.
#[verifier::external_body]
fn owner(keys: &Keypair) -> (peer: PeerId)
    ensures
        peer_text(peer) == owner_text(*keys),
{
    keys.public().to_peer_id()
}

/// Draws the keys of this peer at random and derives the peer id from
/// them. An identity lasts as long as the process that drew it.
pub fn derive_identity() -> (identity: (Keypair, PeerId))
    ensures
        peer_text(identity.1) == owner_text(identity.0),
{
    let keys = generate_keys();
    let peer = owner(&keys);
    (keys, peer)
}

/// The identifiers of `peers`, in their order.
pub open spec fn peer_texts(peers: Seq<PeerId>) -> Seq<Seq<char>> {
    Seq::new(peers.len(), |i: int| peer_text(peers[i]))
}

/// The texts that `list` holds, in their order.
pub open spec fn texts(list: Seq<String>) -> Seq<Seq<char>> {
    Seq::new(list.len(), |i: int| list[i]@)
}

/// The identifiers of `peers`, in their order.
pub fn identifiers(peers: &Vec<PeerId>) -> (list: Vec<String>)
    ensures
        texts(list@) == peer_texts(peers@),
{
    let mut list: Vec<String> = Vec::new();
    let mut i: usize = 0;
    while i < peers.len()
        invariant
            i <= peers.len(),
            list@.len() == i,
            forall|k: int| 0 <= k < i ==> (#[trigger] list@[k])@ == peer_text(peers@[k]),
        decreases peers.len() - i,
    {
        list.push(identifier(&peers[i]));
        i = i + 1;
    }
    proof {
        assert(texts(list@) =~= peer_texts(peers@));
    }
    list
}

/// Whether `list` holds `text`.
pub fn holds_text(list: &Vec<String>, text: &String) -> (found: bool)
    ensures
        found == texts(list@).contains(text@),
{
    let mut i: usize = 0;
    while i < list.len()
        invariant
            i <= list.len(),
            forall|k: int| 0 <= k < i ==> texts(list@)[k] != text@,
        decreases list.len() - i,
    {
        if list[i] == *text {
            proof {
                assert(texts(list@)[i as int] == text@);
            }
            return true;
        }
        i = i + 1;
    }
    false
}

/// One step of walking a sequence: the set of its first `i + 1` members is
/// that of its first `i` with member `i` put in.
pub proof fn lemma_take_to_set<A>(s: Seq<A>, i: int)
    requires
        0 <= i < s.len(),
    ensures
        s.take(i + 1).to_set() == s.take(i).to_set().insert(s[i]),
{
    let head = s.take(i);
    let next = s.take(i + 1);
    assert forall|a: A| next.to_set().contains(a) <==> head.to_set().insert(s[i]).contains(a) by {
        if next.contains(a) {
            let k = choose|k: int| 0 <= k < next.len() && next[k] == a;
            if k < i {
                assert(head[k] == a);
            }
        }
        if head.contains(a) {
            let k = choose|k: int| 0 <= k < head.len() && head[k] == a;
            assert(next[k] == a);
        }
        if a == s[i] {
            assert(next[i] == a);
        }
    }
    assert(next.to_set() =~= head.to_set().insert(s[i]));
}

} // verus!
