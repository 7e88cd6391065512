//! Per-connection game state and logic for one logged-in client.
//!
//! A [`Connection`] holds the player's state, the other players it can see, the
//! outgoing packets waiting to be flushed, and the events waiting to be sent to the
//! world. The server reads packets and world messages and hands them to it; the
//! connection decides, updates its state, and queues what must go out.

pub mod containers;
pub mod dispatch;
pub mod login;
pub mod look;
pub mod pathing;
pub mod push;
pub mod receive;
pub mod send;

use vstd::prelude::*;
use crate::network::packet::PacketIds;
use crate::player::{Direction, Player, PlayerView};
use crate::world::message::{PlayerToWorld, PlayerToWorldView, players_view};

verus! {

/// The lock-free queue of `crossbeam_queue` that outgoing packets wait in.
#[verifier::external_type_specification]
#[verifier::external_body]
#[verifier::reject_recursive_types(T)]
pub struct ExSegQueue<T>(crossbeam_queue::SegQueue<T>);

/// The packets a queue holds, the one `pop` takes next first.
pub uninterp spec fn queue_contents(q: crossbeam_queue::SegQueue<Vec<u8>>) -> Seq<Seq<u8>>;

/// Calls `crossbeam_queue::SegQueue::new`, whose queue holds nothing.
#[verifier::external_body]
fn new_queue() -> (q: crossbeam_queue::SegQueue<Vec<u8>>)
    ensures
        queue_contents(q) == Seq::<Seq<u8>>::empty(),
{
    crossbeam_queue::SegQueue::new()
}

/// Calls `crossbeam_queue::SegQueue::push`, which puts the packet at the back of the
/// queue. The queue is taken by `&mut`, so nothing else pushes or pops meanwhile.
#[verifier::external_body]
pub(crate) fn queue_push(q: &mut crossbeam_queue::SegQueue<Vec<u8>>, msg: Vec<u8>)
    ensures
        queue_contents(*final(q)) == queue_contents(*old(q)).push(msg@),
{
    q.push(msg)
}

/// Calls `crossbeam_queue::SegQueue::pop`, which takes the packet at the front of the
/// queue, or gives `None` and leaves the queue as it is when it holds nothing. The queue
/// is taken by `&mut`, so nothing else pushes or pops meanwhile.
#[verifier::external_body]
pub(crate) fn queue_pop(q: &mut crossbeam_queue::SegQueue<Vec<u8>>) -> (r: Option<Vec<u8>>)
    ensures
        match r {
            Some(m) => queue_contents(*old(q)).len() > 0 && m@ == queue_contents(*old(q))[0]
                && queue_contents(*final(q)) == queue_contents(*old(q)).drop_first(),
            None => queue_contents(*old(q)).len() == 0 && queue_contents(*final(q)) == queue_contents(*old(q)),
        },
{
    q.pop()
}

/// All game state associated with a single connected client.
pub struct Connection {
    pub player: Player,
    /// Other players currently visible to this connection.
    pub other_players: Vec<Player>,
    /// Outgoing packets queued for the next flush, oldest first.
    pub message_queue: crossbeam_queue::SegQueue<Vec<u8>>,
    /// Events for the world, oldest first, waiting to be sent.
    pub world_outbox: Vec<PlayerToWorld>,
    /// Remaining steps in the current auto-walk path, processed one per loop tick.
    pub pending_path: Vec<Direction>,
    /// The wire ids of the protocol's packets.
    pub ids: PacketIds,
}

/// The views of a list of world events.
pub open spec fn events_view(q: Seq<PlayerToWorld>) -> Seq<PlayerToWorldView> {
    q.map_values(|m: PlayerToWorld| m@)
}

/// The abstract state of a connection.
pub struct ConnView {
    pub player: PlayerView,
    pub others: Seq<PlayerView>,
    pub queued: Seq<Seq<u8>>,
    pub outbox: Seq<PlayerToWorldView>,
    pub path: Seq<Direction>,
    pub ids: PacketIds,
}

impl View for Connection {
    type V = ConnView;

    open spec fn view(&self) -> ConnView {
        ConnView {
            player: self.player@,
            others: self.others(),
            queued: self.queued(),
            outbox: self.outbox(),
            path: self.pending_path@,
            ids: self.ids,
        }
    }
}

/// Every outfit a connection may draw fits the protocol's 4-bit color fields.
pub open spec fn outfits_wf(c: ConnView) -> bool {
    &&& c.player.outfit.wf()
    &&& forall|i: int| 0 <= i < c.others.len() ==> #[trigger] c.others[i].outfit.wf()
}

impl Connection {
    /// The packets waiting to be flushed, oldest first.
    pub open spec fn queued(&self) -> Seq<Seq<u8>> {
        queue_contents(self.message_queue)
    }

    /// The events waiting to be sent to the world, oldest first.
    pub open spec fn outbox(&self) -> Seq<PlayerToWorldView> {
        events_view(self.world_outbox@)
    }

    /// The other players this connection can see.
    pub open spec fn others(&self) -> Seq<PlayerView> {
        players_view(self.other_players@)
    }

    /// Every outfit this connection may draw fits the protocol's 4-bit color fields.
    pub open spec fn wf(&self) -> bool {
        outfits_wf(self@)
    }

    /// Creates a new connection for an authenticated player.
    pub fn new(player: Player, ids: PacketIds) -> (c: Self)
        ensures
            c.player@ == player@,
            c.ids == ids,
            c.others().len() == 0,
            c.queued().len() == 0,
            c.outbox().len() == 0,
            c.pending_path@.len() == 0,
    {
        let c = Connection {
            player,
            other_players: Vec::new(),
            message_queue: new_queue(),
            world_outbox: Vec::new(),
            pending_path: Vec::new(),
            ids,
        };
        proof {
            assert(c.others() =~= Seq::<PlayerView>::empty());
            assert(c.outbox() =~= Seq::<PlayerToWorldView>::empty());
        }
        c
    }

    /// Queues an event for the world.
    pub fn send_to_world(&mut self, msg: PlayerToWorld)
        ensures
            final(self).outbox() == old(self).outbox().push(msg@),
            final(self).queued() == old(self).queued(),
            final(self).player == old(self).player,
            final(self).other_players == old(self).other_players,
            final(self).pending_path == old(self).pending_path,
            final(self).ids == old(self).ids,
    {
        let ghost m = msg@;
        self.world_outbox.push(msg);
        proof {
            assert(self.outbox() =~= old(self).outbox().push(m));
        }
    }

    /// Removes and returns the events waiting for the world, oldest first.
    pub fn take_world_events(&mut self) -> (events: Vec<PlayerToWorld>)
        ensures
            events_view(events@) == old(self).outbox(),
            final(self).outbox().len() == 0,
            final(self).queued() == old(self).queued(),
            final(self).player == old(self).player,
            final(self).other_players == old(self).other_players,
            final(self).pending_path == old(self).pending_path,
            final(self).ids == old(self).ids,
    {
        let mut events: Vec<PlayerToWorld> = Vec::new();
        std::mem::swap(&mut events, &mut self.world_outbox);
        proof {
            assert(self.outbox() =~= Seq::<PlayerToWorldView>::empty());
        }
        events
    }
}

} // verus!
