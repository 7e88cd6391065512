//! Container windows: finding open windows and opening containers.

use vstd::prelude::*;
use std::collections::HashMap;
use super::{Connection, ConnView};
use super::look::{screen_to_map, screen_to_map_pos};
use super::receive::{PacketError, with_containers, without_windows};
use super::send::{header, open_container_packet, status_packet};
use crate::io::{PacketReader, ReadExt, ReadError};
use crate::map::{GameMap, MapView};
use crate::map::items::{is_container, spec_is_container};
use crate::map::position::{Position, abs_diff, dx, dy};
use crate::player::{ContainerSource, ContainerView, OpenContainer, PlayerView, seq_map_view};
use crate::util::first_where;

verus! {

broadcast use vstd::std_specs::hash::group_hash_axioms;

/// The status-bar packet that refuses an action.
pub open spec fn sorry_packet(ids: crate::network::packet::PacketIds) -> Seq<u8> {
    status_packet(ids, "Sorry, not possible."@)
}

/// Whether `p` is on the tile of `me` or next to it.
pub open spec fn in_reach(me: Position, p: Position) -> bool {
    dx(p, me) <= 1 && dy(p, me) <= 1
}

/// The first open window with local id `lid`.
pub open spec fn window_with_local(cs: Seq<ContainerView>, lid: u8) -> Option<ContainerView> {
    first_where(cs, |c: ContainerView| c.local_id == lid)
}

/// The first open window showing the container `id` from `src`.
pub open spec fn window_showing(cs: Seq<ContainerView>, id: u16, src: ContainerSource) -> Option<ContainerView> {
    first_where(cs, |c: ContainerView| c.container_id == id && c.source == src)
}

/// The first open window of a container with item id `id`.
pub open spec fn window_of_item(cs: Seq<ContainerView>, id: u16) -> Option<ContainerView> {
    first_where(cs, |c: ContainerView| c.container_id == id)
}

/// Where a used container lives: an equipment slot (`x = 0xFF`, `y < 0x14`), the source
/// of the open window it was used from (`x = 0xFF`, `y >= 0x14` names window
/// `y - 0x14`; equipment slot 0 if there is none), or the clicked map tile.
pub open spec fn use_source(me: PlayerView, use_pos: Position) -> ContainerSource {
    if use_pos.x == 0xFF && use_pos.y < 0x14 {
        ContainerSource::Equipment(use_pos.y as u8)
    } else if use_pos.x == 0xFF {
        match window_with_local(me.containers, (use_pos.y - 0x14) as u8) {
            Some(c) => c.source,
            None => ContainerSource::Equipment(0),
        }
    } else {
        ContainerSource::OnMap(screen_to_map(me.position, use_pos))
    }
}

/// The items a newly opened window of container `id` from `src` shows: those of a window
/// already showing it, else the persisted contents (on the map, or of the equipment
/// slot, falling back to any open window of the same item).
pub open spec fn existing_items(me: PlayerView, map: MapView, id: u16, src: ContainerSource) -> Option<Seq<u16>> {
    match window_showing(me.containers, id, src) {
        Some(c) => Some(c.items),
        None => match src {
            ContainerSource::OnMap(p) => if map.containers.contains_key(p) { Some(map.containers[p]) } else { None },
            ContainerSource::Equipment(slot) => if me.equipment_container_contents.contains_key(slot) {
                Some(me.equipment_container_contents[slot])
            } else {
                match window_of_item(me.containers, id) {
                    Some(c) => Some(c.items),
                    None => None,
                }
            },
        },
    }
}

/// The windows that stay open and the local id of the new window: a container used from
/// inside a window replaces that window; otherwise the first free id of 0 and 1 is
/// taken, and window 0 is closed if both are in use.
pub open spec fn new_window_slot(cs: Seq<ContainerView>, use_pos: Position) -> (Seq<ContainerView>, u8) {
    if use_pos.x == 0xFF && use_pos.y >= 0x14 {
        let parent = (use_pos.y - 0x14) as u8;
        (without_windows(cs, seq![parent]), parent)
    } else if window_with_local(cs, 0) is None {
        (cs, 0)
    } else if window_with_local(cs, 1) is None {
        (cs, 1)
    } else {
        (without_windows(cs, seq![0u8]), 0)
    }
}

/// The connection after using item `id` at `use_pos`: only containers can be used, and a
/// map container only from its tile or next to it; the container opens in a new window.
pub open spec fn use_item_step(c: ConnView, map: MapView, use_pos: Position, id: u16) -> ConnView {
    let src = use_source(c.player, use_pos);
    if !spec_is_container(id) || (src matches ContainerSource::OnMap(p) && !in_reach(c.player.position, p)) {
        ConnView { queued: c.queued.push(sorry_packet(c.ids)), ..c }
    } else {
        let items = match existing_items(c.player, map, id, src) {
            Some(v) => v,
            None => Seq::empty(),
        };
        let (cs, lid) = new_window_slot(c.player.containers, use_pos);
        let w = ContainerView { container_id: id, items, local_id: lid, source: src };
        ConnView {
            player: with_containers(c.player, cs.push(w)),
            queued: c.queued.push(open_container_packet(c.ids, w)),
            ..c
        }
    }
}

/// The index of the first window with local id `lid`.
pub fn find_local(cs: &Vec<OpenContainer>, lid: u8) -> (r: Option<usize>)
    ensures
        ({
            let v = cs@.map_values(|c: OpenContainer| c@);
            match r {
                Some(k) => k < v.len() && window_with_local(v, lid) == Some(v[k as int]),
                None => window_with_local(v, lid) is None,
            }
        }),
{
    let ghost v = cs@.map_values(|c: OpenContainer| c@);
    let mut i: usize = 0;
    while i < cs.len()
        invariant
            i <= cs@.len(),
            v == cs@.map_values(|c: OpenContainer| c@),
            forall|j: int| 0 <= j < i ==> v[j].local_id != lid,
        decreases cs.len() - i,
    {
        if cs[i].local_id == lid {
            proof {
                crate::util::lemma_first_where_at(v, |c: ContainerView| c.local_id == lid, i as int);
            }
            return Some(i);
        }
        i = i + 1;
    }
    proof {
        crate::util::lemma_first_where_none(v, |c: ContainerView| c.local_id == lid);
    }
    None
}

/// The index of the first window showing container `id` from `src`.
pub fn find_showing(cs: &Vec<OpenContainer>, id: u16, src: ContainerSource) -> (r: Option<usize>)
    ensures
        ({
            let v = cs@.map_values(|c: OpenContainer| c@);
            match r {
                Some(k) => k < v.len() && window_showing(v, id, src) == Some(v[k as int]),
                None => window_showing(v, id, src) is None,
            }
        }),
{
    let ghost v = cs@.map_values(|c: OpenContainer| c@);
    let mut i: usize = 0;
    while i < cs.len()
        invariant
            i <= cs@.len(),
            v == cs@.map_values(|c: OpenContainer| c@),
            forall|j: int| 0 <= j < i ==> !(v[j].container_id == id && v[j].source == src),
        decreases cs.len() - i,
    {
        if cs[i].container_id == id && cs[i].source == src {
            proof {
                crate::util::lemma_first_where_at(
                    v,
                    |c: ContainerView| c.container_id == id && c.source == src,
                    i as int,
                );
            }
            return Some(i);
        }
        i = i + 1;
    }
    proof {
        crate::util::lemma_first_where_none(v, |c: ContainerView| c.container_id == id && c.source == src);
    }
    None
}

/// The index of the first window of a container with item id `id`.
pub fn find_item_window(cs: &Vec<OpenContainer>, id: u16) -> (r: Option<usize>)
    ensures
        ({
            let v = cs@.map_values(|c: OpenContainer| c@);
            match r {
                Some(k) => k < v.len() && window_of_item(v, id) == Some(v[k as int]),
                None => window_of_item(v, id) is None,
            }
        }),
{
    let ghost v = cs@.map_values(|c: OpenContainer| c@);
    let mut i: usize = 0;
    while i < cs.len()
        invariant
            i <= cs@.len(),
            v == cs@.map_values(|c: OpenContainer| c@),
            forall|j: int| 0 <= j < i ==> v[j].container_id != id,
        decreases cs.len() - i,
    {
        if cs[i].container_id == id {
            proof {
                crate::util::lemma_first_where_at(v, |c: ContainerView| c.container_id == id, i as int);
            }
            return Some(i);
        }
        i = i + 1;
    }
    proof {
        crate::util::lemma_first_where_none(v, |c: ContainerView| c.container_id == id);
    }
    None
}

/// The windows whose local id is not `lid`, in order.
pub fn without_local(cs: &Vec<OpenContainer>, lid: u8) -> (kept: Vec<OpenContainer>)
    ensures
        kept@.map_values(|c: OpenContainer| c@) == without_windows(cs@.map_values(|c: OpenContainer| c@), seq![lid]),
{
    let mut ids: Vec<u8> = Vec::new();
    ids.push(lid);
    proof {
        assert(ids@ =~= seq![lid]);
    }
    super::receive::keep_windows(cs, &ids)
}

impl Connection {
    /// Queues the status message that refuses an action.
    pub fn enqueue_sorry(&mut self)
        ensures
            final(self).queued() == old(self).queued().push(sorry_packet(old(self).ids)),
            final(self).outbox() == old(self).outbox(),
            final(self).player == old(self).player,
            final(self).other_players == old(self).other_players,
            final(self).pending_path == old(self).pending_path,
            final(self).ids == old(self).ids,
    {
        let pkt = self.send_status_message("Sorry, not possible.");
        proof {
            assert(pkt@.len() > 0) by {
                assert(header(self.ids, crate::network::packet::PacketOut::StatusMessage).len() == 5);
            }
        }
        self.enqueue(pkt);
    }

    /// Where a used container lives, see [`use_source`].
    fn source_of_use(&self, use_pos: Position) -> (src: ContainerSource)
        requires
            use_pos.x < 256,
            use_pos.y < 256,
        ensures
            src == use_source(self.player@, use_pos),
    {
        if use_pos.x == 0x00FF && use_pos.y < 0x0014 {
            ContainerSource::Equipment(use_pos.y as u8)
        } else if use_pos.x == 0x00FF {
            match find_local(&self.player.containers, (use_pos.y - 0x0014) as u8) {
                Some(k) => self.player.containers[k].source,
                None => ContainerSource::Equipment(0),
            }
        } else {
            ContainerSource::OnMap(screen_to_map_pos(self.player.position, use_pos))
        }
    }

    /// The items a new window of container `id` from `src` shows, see [`existing_items`].
    fn items_for(&self, map: &GameMap, id: u16, src: ContainerSource) -> (r: Option<Vec<u16>>)
        ensures
            match r {
                Some(v) => existing_items(self.player@, map@, id, src) == Some(v@),
                None => existing_items(self.player@, map@, id, src) is None,
            },
    {
        match find_showing(&self.player.containers, id, src) {
            Some(k) => Some(self.player.containers[k].items.clone()),
            None => match src {
                ContainerSource::OnMap(p) => match map.get_container_contents(p) {
                    Some(v) => Some(v.clone()),
                    None => None,
                },
                ContainerSource::Equipment(slot) => match self.player.equipment_container_contents.get(&slot) {
                    Some(v) => Some(v.clone()),
                    None => match find_item_window(&self.player.containers, id) {
                        Some(k) => Some(self.player.containers[k].items.clone()),
                        None => None,
                    },
                },
            },
        }
    }

    /// Handles an item use request.
    ///
    /// Only containers can be used. A container used from inside an open window replaces
    /// that window (folder navigation); otherwise it opens in the first free window (0 or
    /// 1), closing window 0 when both are taken. Map containers must be on the player's
    /// tile or next to it. A container already open in another window shows the same
    /// items; otherwise its persisted contents are shown.
    pub fn recv_use_item(&mut self, map: &GameMap, r: &mut PacketReader) -> (res: Result<(), PacketError>)
        requires
            old(self).wf(),
        ensures
            final(self).wf(),
            res is Ok <==> old(r).remaining().len() >= 7,
            res is Ok ==> final(r).remaining() == old(r).remaining().skip(7),
            res is Err ==> res == Err::<(), PacketError>(PacketError::Read(ReadError::UnexpectedEof))
                && final(self)@ == old(self)@,
            res is Ok ==> ({
                let b = old(r).remaining();
                final(self)@ == use_item_step(
                    old(self)@,
                    map@,
                    Position { x: b[1] as u16, y: b[2] as u16, z: 7 },
                    crate::io::le16(b[3], b[4]),
                )
            }),
            final(self).other_players == old(self).other_players,
    {
        let ghost b = r.remaining();
        if let Err(e) = r.read_u8() {
            return Err(PacketError::Read(e));
        }
        let use_pos = match r.read_position() {
            Ok(p) => p,
            Err(e) => return Err(PacketError::Read(e)),
        };
        let item_id = match r.read_u16_le() {
            Ok(v) => v,
            Err(e) => return Err(PacketError::Read(e)),
        };
        if let Err(e) = r.read_u8() {
            return Err(PacketError::Read(e));
        }
        if let Err(e) = r.read_u8() {
            return Err(PacketError::Read(e));
        }
        proof {
            assert(use_pos == Position { x: b[1] as u16, y: b[2] as u16, z: 7 });
            assert(item_id == crate::io::le16(b[3], b[4]));
        }
        if !is_container(item_id) {
            self.enqueue_sorry();
            return Ok(());
        }
        let source = self.source_of_use(use_pos);
        if let ContainerSource::OnMap(cp) = source {
            if abs_diff(cp.x, self.player.position.x) > 1 || abs_diff(cp.y, self.player.position.y) > 1 {
                self.enqueue_sorry();
                return Ok(());
            }
        }
        let existing = self.items_for(map, item_id, source);
        let ghost c0 = self@;
        let local_id: u8 = if use_pos.x == 0x00FF && use_pos.y >= 0x0014 {
            let parent = (use_pos.y - 0x0014) as u8;
            let kept = without_local(&self.player.containers, parent);
            self.player.containers = kept;
            parent
        } else if find_local(&self.player.containers, 0).is_none() {
            0
        } else if find_local(&self.player.containers, 1).is_none() {
            1
        } else {
            let kept = without_local(&self.player.containers, 0);
            self.player.containers = kept;
            0
        };
        let items = match existing {
            Some(v) => v,
            None => Vec::new(),
        };
        let w = OpenContainer { container_id: item_id, items, local_id, source };
        let pkt = self.send_open_container(&w);
        let ghost before = self.player.containers@.map_values(|c: OpenContainer| c@);
        let ghost wv = w@;
        self.player.containers.push(w);
        proof {
            assert(self.player.containers@.map_values(|c: OpenContainer| c@) =~= before.push(wv));
            assert(pkt@.len() > 0) by {
                assert(header(self.ids, crate::network::packet::PacketOut::OpenContainer).len() == 5);
            }
        }
        self.enqueue(pkt);
        proof {
            assert(self@ == use_item_step(c0, map@, use_pos, item_id));
        }
        Ok(())
    }
}

/// Closing the windows with the local ids `ids` leaves no window with one of those ids
/// and keeps every other window.
proof fn lemma_without_windows(cs: Seq<ContainerView>, ids: Seq<u8>)
    ensures
        forall|k: int| 0 <= k < without_windows(cs, ids).len() ==> !ids.contains(#[trigger] without_windows(cs, ids)[k].local_id),
        forall|k: int| 0 <= k < cs.len() && !ids.contains(#[trigger] cs[k].local_id) ==> without_windows(cs, ids).contains(cs[k]),
    decreases cs.len(),
{
    if cs.len() > 0 {
        let init = cs.drop_last();
        lemma_without_windows(init, ids);
        let rest = without_windows(init, ids);
        let r = without_windows(cs, ids);
        assert forall|k: int| 0 <= k < r.len() implies !ids.contains(#[trigger] r[k].local_id) by {
            if k < rest.len() {
                assert(r[k] == rest[k]);
            }
        }
        assert forall|k: int| 0 <= k < cs.len() && !ids.contains(#[trigger] cs[k].local_id) implies r.contains(cs[k]) by {
            if k < cs.len() - 1 {
                assert(init[k] == cs[k]);
                let m = choose|m: int| 0 <= m < rest.len() && rest[m] == init[k];
                assert(r[m] == rest[m]);
            } else {
                assert(r[r.len() - 1] == cs.last());
            }
        }
    }
}

/// A container used from inside an open window opens in that window's place: unless the
/// use is refused (the windows stay as they are and the refusal is queued), the new
/// window shows the used container under the local id `y - 0x14` of the window it was
/// used from, no other window with that id stays open, and every window with another id
/// stays open.
pub proof fn lemma_use_in_window_replaces_it(c: ConnView, map: MapView, use_pos: Position, id: u16)
    requires
        use_pos.x == 0xFF,
        0x14 <= use_pos.y < 0x100,
    ensures
        ({
            let c2 = use_item_step(c, map, use_pos, id);
            let cs = c2.player.containers;
            let lid = (use_pos.y - 0x14) as u8;
            ||| c2.player.containers == c.player.containers && c2.queued == c.queued.push(sorry_packet(c.ids))
            ||| {
                &&& cs.len() > 0
                &&& cs.last().local_id == lid
                &&& cs.last().container_id == id
                &&& forall|k: int| 0 <= k < cs.len() - 1 ==> #[trigger] cs[k].local_id != lid
                &&& forall|k: int| 0 <= k < c.player.containers.len() && #[trigger] c.player.containers[k].local_id != lid
                    ==> cs.contains(c.player.containers[k])
            }
        }),
{
    let lid = (use_pos.y - 0x14) as u8;
    let old_cs = c.player.containers;
    lemma_without_windows(old_cs, seq![lid]);
    let kept = without_windows(old_cs, seq![lid]);
    let c2 = use_item_step(c, map, use_pos, id);
    let cs = c2.player.containers;
    if cs != old_cs || c2.queued != c.queued.push(sorry_packet(c.ids)) {
        assert(cs.drop_last() == kept);
        assert forall|k: int| 0 <= k < cs.len() - 1 implies #[trigger] cs[k].local_id != lid by {
            assert(cs[k] == kept[k]);
            assert(!seq![lid].contains(kept[k].local_id));
            assert(seq![lid][0] == lid);
        }
        assert forall|k: int| 0 <= k < old_cs.len() && #[trigger] old_cs[k].local_id != lid implies cs.contains(old_cs[k]) by {
            assert(!seq![lid].contains(old_cs[k].local_id));
            let m = choose|m: int| 0 <= m < kept.len() && kept[m] == old_cs[k];
            assert(cs[m] == kept[m]);
        }
    }
}

} // verus!
