//! What the gossip transport decides: its settings, and the actions with which it answers
//! what happens on the network.

use vstd::prelude::*;
use vstd::slice::slice_to_vec;

verus! {

/// The name of the protocol of the overlay.
pub const GAME_PROTO_NAME: &'static str = "/game/kad/1.0.0";

/// The address on which a node listens.
pub const LISTEN_ADDR: &'static str = "/ip4/0.0.0.0/udp/0/quic-v1";

/// The nodes through which a new node finds the others.
pub const BOOTSTRAP_NODES: [&'static str; 1] = ["/ip4/13.220.20.144/udp/7331/quic-v1"];

/// The topics that a node subscribes to; events are published on the first.
pub const TOPICS: [&'static str; 1] = ["game_events"];

/// The number of messages that each queue between the transport and the node can hold.
pub const QUEUE_CAPACITY: usize = 100;

/// The kinds of values that a broadcast network deals in.
pub trait GossipTypes {
    type Topic;

    type Data;
}

/// A broadcast network with named topics.
pub trait Network: GossipTypes {
    /// Starts to listen for peers.
    fn listen(&mut self) -> Result<(), NetworkError>;

    /// Subscribes to a topic.
    fn subscribe(&mut self, topic: Self::Topic) -> Result<(), NetworkError>;

    /// Publishes data on a topic.
    fn send(&mut self, topic: Self::Topic, data: Self::Data) -> Result<(), NetworkError>;
}

/// Why a network could not do what it was asked.
#[derive(Debug, Clone, Copy, PartialEq, Eq, Structural)]
pub enum NetworkError {
    /// The node cannot listen on its address.
    Listen,
    /// The topic cannot be subscribed to.
    Subscribe,
    /// The data could not be published.
    Publish,
}

/// A peer as the discovery reports it: its identity and an address under which it is
/// reached, both in their byte form.
#[derive(Debug, Clone, PartialEq, Eq)]
pub struct Peer {
    pub id: Vec<u8>,
    pub address: Vec<u8>,
}

/// What the transport is told of.
#[derive(Debug, Clone, PartialEq, Eq)]
pub enum NetworkEvent {
    /// The node has handed bytes over for publishing.
    Outbound(Vec<u8>),
    /// The local discovery has found peers.
    Discovered(Vec<Peer>),
    /// Peers found earlier have not been heard of for too long.
    Expired(Vec<Peer>),
    /// A message has arrived on the topic.
    Message(Vec<u8>),
    /// Anything else.
    Other,
}

/// What the transport does in answer.
#[derive(Debug, Clone, PartialEq, Eq)]
pub enum NetworkAction {
    /// Publish the bytes on the topic; a failure is logged and the bytes are not sent again.
    Publish(Vec<u8>),
    /// Enter the peer's address into the routing table of the overlay.
    AddAddress(Peer),
    /// Make the peer a peer of the topic's broadcast.
    AddExplicitPeer(Vec<u8>),
    /// Take the peer's address out of the routing table of the overlay.
    RemoveAddress(Peer),
    /// Take the peer out of the topic's broadcast.
    RemoveExplicitPeer(Vec<u8>),
    /// Hand the bytes to the node.
    Deliver(Vec<u8>),
}

/// An action as plain values.
pub enum ActionView {
    Publish(Seq<u8>),
    AddAddress(Seq<u8>, Seq<u8>),
    AddExplicitPeer(Seq<u8>),
    RemoveAddress(Seq<u8>, Seq<u8>),
    RemoveExplicitPeer(Seq<u8>),
    Deliver(Seq<u8>),
}

impl View for NetworkAction {
    type V = ActionView;

    open spec fn view(&self) -> ActionView {
        match *self {
            NetworkAction::Publish(bytes) => ActionView::Publish(bytes@),
            NetworkAction::AddAddress(peer) => ActionView::AddAddress(peer.id@, peer.address@),
            NetworkAction::AddExplicitPeer(id) => ActionView::AddExplicitPeer(id@),
            NetworkAction::RemoveAddress(peer) => ActionView::RemoveAddress(
                peer.id@,
                peer.address@,
            ),
            NetworkAction::RemoveExplicitPeer(id) => ActionView::RemoveExplicitPeer(id@),
            NetworkAction::Deliver(bytes) => ActionView::Deliver(bytes@),
        }
    }
}

/// The actions for peers that were found: each peer's address is entered and the peer is
/// made a peer of the broadcast, peer after peer.
pub open spec fn welcomed(peers: Seq<Peer>) -> Seq<ActionView>
    decreases peers.len(),
{
    if peers.len() == 0 {
        Seq::empty()
    } else {
        welcomed(peers.drop_last()).push(
            ActionView::AddAddress(peers.last().id@, peers.last().address@),
        ).push(ActionView::AddExplicitPeer(peers.last().id@))
    }
}

/// The actions for peers that have expired: each peer's address is taken out and the peer
/// is taken out of the broadcast, peer after peer.
pub open spec fn dismissed(peers: Seq<Peer>) -> Seq<ActionView>
    decreases peers.len(),
{
    if peers.len() == 0 {
        Seq::empty()
    } else {
        dismissed(peers.drop_last()).push(
            ActionView::RemoveAddress(peers.last().id@, peers.last().address@),
        ).push(ActionView::RemoveExplicitPeer(peers.last().id@))
    }
}

/// The actions that answer an event.
pub open spec fn reaction(event: NetworkEvent) -> Seq<ActionView> {
    match event {
        NetworkEvent::Outbound(bytes) => seq![ActionView::Publish(bytes@)],
        NetworkEvent::Discovered(peers) => welcomed(peers@),
        NetworkEvent::Expired(peers) => dismissed(peers@),
        NetworkEvent::Message(bytes) => seq![ActionView::Deliver(bytes@)],
        NetworkEvent::Other => Seq::empty(),
    }
}

/// The views of a list of actions.
pub open spec fn action_views(actions: Seq<NetworkAction>) -> Seq<ActionView> {
    actions.map_values(|action: NetworkAction| action@)
}

/// Decides what the transport does in answer to `event`.
pub fn react(event: NetworkEvent) -> (actions: Vec<NetworkAction>)
    ensures
        action_views(actions@) == reaction(event),
{
    let mut actions: Vec<NetworkAction> = Vec::new();
    match event {
        NetworkEvent::Outbound(bytes) => {
            actions.push(NetworkAction::Publish(bytes));
            assert(action_views(actions@) =~= reaction(event));
        },
        NetworkEvent::Discovered(peers) => {
            let mut i: usize = 0;
            assert(peers@.take(0) =~= Seq::<Peer>::empty());
            assert(action_views(actions@) =~= welcomed(peers@.take(0)));
            while i < peers.len()
                invariant
                    0 <= i <= peers.len(),
                    action_views(actions@) == welcomed(peers@.take(i as int)),
                decreases peers.len() - i,
            {
                let id = slice_to_vec(peers[i].id.as_slice());
                let address = slice_to_vec(peers[i].address.as_slice());
                let ghost before = actions@;
                actions.push(NetworkAction::AddAddress(Peer { id, address }));
                actions.push(NetworkAction::AddExplicitPeer(slice_to_vec(peers[i].id.as_slice())));
                proof {
                    let next = peers@.take(i + 1);
                    assert(next.drop_last() =~= peers@.take(i as int));
                    assert(next.last() == peers@[i as int]);
                    assert(action_views(actions@) =~= action_views(before).push(
                        actions@[before.len() as int]@,
                    ).push(actions@[before.len() as int + 1]@));
                }
                i += 1;
            }
            assert(peers@.take(peers.len() as int) =~= peers@);
        },
        NetworkEvent::Expired(peers) => {
            let mut i: usize = 0;
            assert(peers@.take(0) =~= Seq::<Peer>::empty());
            assert(action_views(actions@) =~= dismissed(peers@.take(0)));
            while i < peers.len()
                invariant
                    0 <= i <= peers.len(),
                    action_views(actions@) == dismissed(peers@.take(i as int)),
                decreases peers.len() - i,
            {
                let id = slice_to_vec(peers[i].id.as_slice());
                let address = slice_to_vec(peers[i].address.as_slice());
                let ghost before = actions@;
                actions.push(NetworkAction::RemoveAddress(Peer { id, address }));
                actions.push(NetworkAction::RemoveExplicitPeer(slice_to_vec(peers[i].id.as_slice())));
                proof {
                    let next = peers@.take(i + 1);
                    assert(next.drop_last() =~= peers@.take(i as int));
                    assert(next.last() == peers@[i as int]);
                    assert(action_views(actions@) =~= action_views(before).push(
                        actions@[before.len() as int]@,
                    ).push(actions@[before.len() as int + 1]@));
                }
                i += 1;
            }
            assert(peers@.take(peers.len() as int) =~= peers@);
        },
        NetworkEvent::Message(bytes) => {
            actions.push(NetworkAction::Deliver(bytes));
            assert(action_views(actions@) =~= reaction(event));
        },
        NetworkEvent::Other => {
            assert(action_views(actions@) =~= reaction(event));
        },
    }
    actions
}

} // verus!
