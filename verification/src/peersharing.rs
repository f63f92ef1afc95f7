//! The client's side of a peer sharing conversation, step by step.

use crate::endpoint::{AsyncChannel, MessageError};
use crate::peer_sharing::{Message, Peer, PeerAddress, PeerAddressView, State};
use crate::protocol::Protocol;
use vstd::prelude::*;

verus! {

/// The client's end of a peer sharing channel.
pub struct PeerSharingClient(AsyncChannel<State>);

/// `addresses` without the addresses that occurred before, in the same order.
pub open spec fn without_repeats(addresses: Seq<PeerAddressView>) -> Seq<PeerAddressView>
    decreases addresses.len(),
{
    if addresses.len() == 0 {
        Seq::empty()
    } else {
        let before = without_repeats(addresses.drop_last());
        if before.contains(addresses.last()) {
            before
        } else {
            before.push(addresses.last())
        }
    }
}

/// The addresses of `peers`, in order.
pub open spec fn addresses_of(peers: Seq<Peer>) -> Seq<PeerAddressView> {
    Seq::new(peers.len(), |i: int| peers[i].address())
}

/// The addresses in `found`, each as a value of the model.
pub open spec fn views_of(found: Seq<PeerAddress>) -> Seq<PeerAddressView> {
    Seq::new(found.len(), |i: int| found[i]@)
}

/// Nothing occurs twice in a list without repeats, and it holds the same
/// addresses as the list it was made from.
pub proof fn lemma_without_repeats(addresses: Seq<PeerAddressView>)
    ensures
        without_repeats(addresses).no_duplicates(),
        forall|a: PeerAddressView| without_repeats(addresses).contains(a) <==> addresses.contains(a),
    decreases addresses.len(),
{
    if addresses.len() > 0 {
        let front = addresses.drop_last();
        let last = addresses.last();
        lemma_without_repeats(front);
        let before = without_repeats(front);
        let all = without_repeats(addresses);
        assert forall|a: PeerAddressView| all.contains(a) <==> addresses.contains(a) by {
            if addresses.contains(a) {
                let i = choose|i: int| 0 <= i < addresses.len() && addresses[i] == a;
                if i < front.len() {
                    assert(front[i] == a);
                    assert(front.contains(a));
                    assert(before.contains(a));
                    let j = choose|j: int| 0 <= j < before.len() && before[j] == a;
                    assert(all[j] == a);
                } else {
                    if before.contains(last) {
                    } else {
                        assert(all[all.len() - 1] == a);
                    }
                }
            }
            if all.contains(a) {
                let j = choose|j: int| 0 <= j < all.len() && all[j] == a;
                if j < before.len() {
                    assert(before[j] == a);
                    assert(before.contains(a));
                    assert(front.contains(a));
                    let i = choose|i: int| 0 <= i < front.len() && front[i] == a;
                    assert(addresses[i] == a);
                } else {
                    assert(addresses[addresses.len() - 1] == a);
                }
            }
        }
    }
}

/// Whether two addresses are the same.
pub fn same_address(a: &PeerAddress, b: &PeerAddress) -> (same: bool)
    ensures
        same == (a@ == b@),
{
    match (a, b) {
        (PeerAddress::V4(octets1, port1), PeerAddress::V4(octets2, port2)) => {
            let mut same = *port1 == *port2;
            let mut i: usize = 0;
            while i < 4
                invariant
                    i <= 4,
                    same == (*port1 == *port2 && forall|j: int|
                        0 <= j < i ==> octets1@[j] == octets2@[j]),
                decreases 4 - i,
            {
                if octets1[i] != octets2[i] {
                    same = false;
                }
                i += 1;
            }
            proof {
                if same {
                    assert(octets1@ =~= octets2@);
                }
            }
            same
        },
        (PeerAddress::V6(groups1, port1), PeerAddress::V6(groups2, port2)) => {
            let mut same = *port1 == *port2;
            let mut i: usize = 0;
            while i < 8
                invariant
                    i <= 8,
                    same == (*port1 == *port2 && forall|j: int|
                        0 <= j < i ==> groups1@[j] == groups2@[j]),
                decreases 8 - i,
            {
                if groups1[i] != groups2[i] {
                    same = false;
                }
                i += 1;
            }
            proof {
                if same {
                    assert(groups1@ =~= groups2@);
                }
            }
            same
        },
        _ => false,
    }
}

/// The addresses of `peers`, each once, in the order in which they first occur.
pub fn unique_addresses(peers: &Vec<Peer>) -> (out: Vec<PeerAddress>)
    ensures
        views_of(out@) == without_repeats(addresses_of(peers@)),
{
    let mut out: Vec<PeerAddress> = Vec::new();
    let mut k: usize = 0;
    assert(addresses_of(peers@).take(0) =~= Seq::<PeerAddressView>::empty());
    assert(views_of(out@) =~= Seq::<PeerAddressView>::empty());
    while k < peers.len()
        invariant
            k <= peers@.len(),
            views_of(out@) == without_repeats(addresses_of(peers@).take(k as int)),
        decreases peers@.len() - k,
    {
        let address = peers[k].to_socketaddr();
        let mut known = false;
        let mut j: usize = 0;
        while j < out.len()
            invariant
                j <= out@.len(),
                known == views_of(out@).take(j as int).contains(address@),
            decreases out@.len() - j,
        {
            let ghost seen = views_of(out@).take(j as int);
            let ghost more = views_of(out@).take(j + 1);
            if same_address(&out[j], &address) {
                known = true;
            }
            proof {
                assert(more =~= seen.push(out@[j as int]@));
                if seen.contains(address@) {
                    let i = choose|i: int| 0 <= i < seen.len() && seen[i] == address@;
                    assert(more[i] == address@);
                }
                if out@[j as int]@ == address@ {
                    assert(more[j as int] == address@);
                }
                if more.contains(address@) {
                    let i = choose|i: int| 0 <= i < more.len() && more[i] == address@;
                    if i < j {
                        assert(seen[i] == address@);
                    }
                }
            }
            j += 1;
        }
        proof {
            assert(views_of(out@).take(out@.len() as int) =~= views_of(out@));
            let so_far = addresses_of(peers@).take(k as int);
            let next = addresses_of(peers@).take(k + 1);
            assert(next.drop_last() =~= so_far);
            assert(next.last() == address@);
        }
        let ghost before = views_of(out@);
        if !known {
            out.push(address);
            assert(views_of(out@) =~= before.push(address@));
        }
        k += 1;
    }
    assert(addresses_of(peers@).take(peers@.len() as int) =~= addresses_of(peers@));
    out
}

impl PeerSharingClient {
    /// The state of the conversation.
    pub closed spec fn state(self) -> State {
        self.0.state()
    }

    /// The client's end, on a channel in any state.
    pub fn new(channel: AsyncChannel<State>) -> (c: Self)
        ensures
            c.state() == channel.state(),
    {
        PeerSharingClient(channel)
    }

    /// The state of the conversation.
    pub fn get_state(&self) -> (s: State)
        ensures
            s == self.state(),
    {
        self.0.get_state()
    }

    /// Asks for at most `count` peers: returns the message to send, or
    /// `None` where the conversation is not idle.
    pub fn request_once(&mut self, count: u8) -> (send: Option<Message>)
        ensures
            match old(self).state() {
                State::Idle => send == Some(Message::ShareRequest(count)) && final(self).state()
                    == State::Busy,
                _ => send is None && final(self).state() == old(self).state(),
            },
    {
        let msg = Message::ShareRequest(count);
        proof {
            if self.0.state() is Idle {
                assert(self.0.state().allows(&msg, State::Busy));
            }
        }
        if self.0.write_one(&msg) {
            Some(msg)
        } else {
            None
        }
    }

    /// Takes the answer to a request for peers.
    ///
    /// A message that the protocol does not allow is an `InvalidState`. One
    /// that it allows moves the conversation on: `SharePeers` gives the
    /// addresses of its peers, each once, in the order in which they first
    /// occur; any other message gives no addresses.
    pub fn peers_reply(&mut self, reply: Message) -> (r: Result<
        Vec<PeerAddress>,
        MessageError<State>,
    >)
        ensures
            forall|end: State|
                old(self).state().allows(&reply, end) ==> final(self).state() == end && (
                r matches Ok(found) && views_of(found@) == match reply {
                    Message::SharePeers(peers) => without_repeats(addresses_of(peers@)),
                    _ => Seq::<PeerAddressView>::empty(),
                }),
            (forall|end: State| !old(self).state().allows(&reply, end)) ==> r == Err::<
                Vec<PeerAddress>,
                MessageError<State>,
            >(MessageError::InvalidState { current: old(self).state(), msg: reply }) && final(self).state() == old(self).state(),
    {
        match self.0.read_one(reply) {
            Err(e) => Err(e),
            Ok(Message::SharePeers(list)) => Ok(unique_addresses(&list)),
            Ok(_other) => {
                let none: Vec<PeerAddress> = Vec::new();
                assert(views_of(none@) =~= Seq::<PeerAddressView>::empty());
                Ok(none)
            },
        }
    }
}

} // verus!
