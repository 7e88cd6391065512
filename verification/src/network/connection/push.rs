//! Item pushes: moving an item between map tiles, equipment slots and container windows.

use vstd::prelude::*;
use super::{Connection, ConnView};
use super::containers::{in_reach, sorry_packet, window_of_item, window_with_local};
use super::look::screen_to_map;
use super::receive::{PacketError, close_packets, far_map_windows, with_containers, without_windows};
use super::send::{close_container_packet, equipped_packet, header, map_packet, open_container_packet, remove_equipped_packet};
use crate::io::{PacketReader, ReadExt, ReadError, le16};
use crate::map::{GameMap, MapView, TileObject, insert_on_top, object_id};
use crate::map::items::{ItemProperties, blocks_movement, is_container, is_walkable, item_properties, spec_is_container, spec_item_properties};
use crate::map::position::{Position, abs_diff, dx, dy};
use crate::player::{ContainerSource, ContainerView, InventorySlot, OpenContainer, PlayerView, seq_map_view};
use crate::util::{first_index, remove_first};
use crate::world::message::{PlayerToWorld, PlayerToWorldView};

verus! {

broadcast use vstd::std_specs::hash::group_hash_axioms;

/// Where a pushed item comes from or goes to.
#[derive(Debug, Copy, Clone, PartialEq, Eq, Structural)]
pub enum Location {
    /// A map tile.
    OnMap(Position),
    /// An equipment slot (1 to 8).
    Equipment(u8),
    /// An open container window, by local id.
    Container(u8),
}

/// The location a screen coordinate of a push names: `x = 0xFF` names a container window
/// (`y >= 0x14`, window `y - 0x14`) or an equipment slot (`y`); anything else is the map
/// tile at that screen position.
pub open spec fn decode_location(me: Position, screen: Position) -> Location {
    if screen.x == 0xFF {
        if screen.y >= 0x14 {
            Location::Container((screen.y - 0x14) as u8)
        } else {
            Location::Equipment(screen.y as u8)
        }
    } else {
        Location::OnMap(screen_to_map(me, screen))
    }
}

/// The state a push works on: the connection and the map.
pub struct PushState {
    pub conn: ConnView,
    pub map: MapView,
}

/// `s` with a packet queued for the client.
pub open spec fn queue(s: PushState, pkt: Seq<u8>) -> PushState {
    PushState { conn: ConnView { queued: s.conn.queued.push(pkt), ..s.conn }, ..s }
}

/// `s` with an event queued for the world.
pub open spec fn tell(s: PushState, e: PlayerToWorldView) -> PushState {
    PushState { conn: ConnView { outbox: s.conn.outbox.push(e), ..s.conn }, ..s }
}

/// `s` with the refusal shown in the status bar.
pub open spec fn refuse(s: PushState) -> PushState {
    queue(s, sorry_packet(s.conn.ids))
}

/// `s` with the map redrawn for the client and the world told that the map changed here.
pub open spec fn redraw(s: PushState) -> PushState {
    let p = s.conn.player;
    tell(
        queue(s, map_packet(s.conn.ids, s.map, p, s.conn.others, p.position, 18, 14)),
        PlayerToWorldView::MapUpdate(p.position),
    )
}

/// `s` with another player state.
pub open spec fn set_player(s: PushState, p: PlayerView) -> PushState {
    PushState { conn: ConnView { player: p, ..s.conn }, ..s }
}

/// `s` with another map.
pub open spec fn set_map(s: PushState, m: MapView) -> PushState {
    PushState { map: m, ..s }
}

/// The index of the first open window with local id `lid`.
pub open spec fn local_index(cs: Seq<ContainerView>, lid: u8) -> Option<int> {
    first_index(cs, |c: ContainerView| c.local_id == lid)
}

/// The local ids of the windows showing the container of equipment slot `slot`, in order.
pub open spec fn slot_windows(cs: Seq<ContainerView>, slot: u8) -> Seq<u8>
    decreases cs.len(),
{
    if cs.len() == 0 {
        Seq::empty()
    } else if cs.last().source == ContainerSource::Equipment(slot) {
        slot_windows(cs.drop_last(), slot).push(cs.last().local_id)
    } else {
        slot_windows(cs.drop_last(), slot)
    }
}

/// The items of the last window showing the container of equipment slot `slot`.
pub open spec fn last_slot_items(cs: Seq<ContainerView>, slot: u8) -> Option<Seq<u16>>
    decreases cs.len(),
{
    if cs.len() == 0 {
        None
    } else if cs.last().source == ContainerSource::Equipment(slot) {
        Some(cs.last().items)
    } else {
        last_slot_items(cs.drop_last(), slot)
    }
}

/// Whether the item `id` lies on the visible tile at `pos`.
pub open spec fn item_on_tile(m: MapView, pos: Position, id: u16) -> bool {
    m.visible_tile(pos) matches Some(objs) && objs.contains(TileObject::Item(id))
}

/// Whether an item moves from the map into a window or an equipment slot.
pub open spec fn picks_up(to: Location) -> bool {
    to is Container || to is Equipment
}

/// Taking the item off the map: it must be movable, long-range (range 8) to be picked
/// up, and on that tile; picking it up redraws the map at once. The second component
/// says whether the push goes on.
pub open spec fn take_from_map(s: PushState, fp: Position, to: Location, id: u16, props: ItemProperties) -> (PushState, bool) {
    if !props.movable || (picks_up(to) && props.range < 8) || !item_on_tile(s.map, fp, id) {
        (refuse(s), false)
    } else {
        let s1 = set_map(s, s.map.with_item_removed(fp, id));
        (if picks_up(to) { redraw(s1) } else { s1 }, true)
    }
}

/// Taking the item out of equipment slot `slot`, if it is there: the slot is cleared,
/// the slot's container contents are saved from its last open window, and (unless the
/// item goes to another slot) that container's windows are closed.
pub open spec fn take_from_equipment(s: PushState, slot: u8, to: Location, id: u16) -> (PushState, bool) {
    let p = s.conn.player;
    if p.equipment.contains_key(slot) && p.equipment[slot] == id {
        let cs = p.containers;
        let close = if to is Equipment { Seq::empty() } else { slot_windows(cs, slot) };
        let ecc = match last_slot_items(cs, slot) {
            Some(items) => p.equipment_container_contents.insert(slot, items),
            None => p.equipment_container_contents,
        };
        let p1 = PlayerView {
            equipment: p.equipment.remove(slot),
            equipment_container_contents: ecc,
            containers: without_windows(cs, close),
            ..p
        };
        let s1 = queue(set_player(s, p1), remove_equipped_packet(s.conn.ids, slot));
        (PushState { conn: ConnView { queued: s1.conn.queued + close_packets(s.conn.ids, close), ..s1.conn }, ..s1 }, true)
    } else {
        (s, false)
    }
}

/// Taking the item out of the first window with local id `lid`, if it holds it: the
/// window is refreshed and its contents saved where the container lives (telling the
/// world about a map container).
pub open spec fn take_from_window(s: PushState, lid: u8, id: u16) -> (PushState, bool) {
    let cs = s.conn.player.containers;
    match local_index(cs, lid) {
        Some(i) => if cs[i].items.contains(id) {
            let w = ContainerView { items: remove_first(cs[i].items, id), ..cs[i] };
            let s1 = queue(set_player(s, with_containers(s.conn.player, cs.update(i, w))), open_container_packet(s.conn.ids, w));
            (match w.source {
                ContainerSource::OnMap(mp) => tell(
                    set_map(s1, s1.map.with_contents(mp, w.items)),
                    PlayerToWorldView::ContainerUpdate(mp, w.container_id, w.items),
                ),
                ContainerSource::Equipment(slot) => set_player(s1, crate::player::PlayerView {
                    equipment_container_contents: s1.conn.player.equipment_container_contents.insert(slot, w.items),
                    ..s1.conn.player
                }),
            }, true)
        } else {
            (s, false)
        },
        None => (s, false),
    }
}

/// Putting a refused item back where it came from, then refusing. An item from an
/// invalid equipment slot number goes back into the slot without a packet or a refusal.
pub open spec fn give_back(s: PushState, from: Location, id: u16) -> PushState {
    match from {
        Location::Equipment(slot) => {
            let p = s.conn.player;
            let s1 = set_player(s, PlayerView { equipment: p.equipment.insert(slot, id), ..p });
            if 1 <= slot <= 8 {
                refuse(queue(s1, equipped_packet(s.conn.ids, slot, id)))
            } else {
                s1
            }
        },
        Location::OnMap(fp) => refuse(set_map(s, s.map.with_item_added(fp, id))),
        Location::Container(lid) => {
            let cs = s.conn.player.containers;
            match local_index(cs, lid) {
                Some(i) => {
                    let w = ContainerView { items: cs[i].items.push(id), ..cs[i] };
                    refuse(queue(
                        set_player(s, with_containers(s.conn.player, cs.update(i, w))),
                        open_container_packet(s.conn.ids, w),
                    ))
                },
                None => refuse(s),
            }
        },
    }
}

/// Whether the visible tile at `pos` holds a container item.
pub open spec fn holds_container(m: MapView, pos: Position) -> bool {
    m.visible_tile(pos) matches Some(objs) && exists|j: int| 0 <= j < objs.len() && spec_is_container(object_id(#[trigger] objs[j]))
}

/// Whether an item may land on the tile at `pos`: it is visible and nothing on it blocks movement.
pub open spec fn walkable_tile(m: MapView, pos: Position) -> bool {
    m.visible_tile(pos) matches Some(objs) && forall|j: int| 0 <= j < objs.len() ==> !blocks_movement(object_id(#[trigger] objs[j]))
}

/// Whether the visible tile at `pos` holds something that blocks projectiles.
pub open spec fn blocks_throw(m: MapView, pos: Position) -> bool {
    m.visible_tile(pos) matches Some(objs) && exists|j: int|
        0 <= j < objs.len() && spec_item_properties(object_id(#[trigger] objs[j])).blocks_projectiles
}

/// Integer division rounding toward zero, for a positive divisor.
pub open spec fn div_toward_zero(n: int, d: int) -> int {
    if n >= 0 { n / d } else { -((-n) / d) }
}

/// The coordinate `i` steps of `steps` along the way from `a` to `b`.
pub open spec fn line_coord(a: u16, b: u16, i: int, steps: int) -> int {
    a + div_toward_zero((b - a) * i, steps)
}

/// The tile `i` steps of `steps` along the line of a throw from `fp` to `tp`.
pub open spec fn line_point(fp: Position, tp: Position, i: int, steps: int, z: u8) -> Position {
    Position { x: line_coord(fp.x, tp.x, i, steps) as u16, y: line_coord(fp.y, tp.y, i, steps) as u16, z }
}

/// Whether something blocks the line of a throw from `fp` to `tp`, checked at the
/// tiles strictly between the ends.
pub open spec fn line_blocked(m: MapView, fp: Position, tp: Position, steps: int, z: u8) -> bool {
    exists|i: int| 1 <= i < steps && #[trigger] blocks_throw(m, line_point(fp, tp, i, steps, z))
}

/// Whether another visible player stands at `pos`.
pub open spec fn other_at(others: Seq<PlayerView>, pos: Position) -> bool {
    exists|i: int| 0 <= i < others.len() && #[trigger] others[i].position == pos
}

/// The contents that follow a container item moved onto the map, taken from where it was.
pub open spec fn moved_contents(s: PushState, from: Location) -> (PushState, Option<Seq<u16>>) {
    match from {
        Location::OnMap(fp) => (
            set_map(s, s.map.without_contents(fp)),
            if s.map.containers.contains_key(fp) { Some(s.map.containers[fp]) } else { None },
        ),
        Location::Equipment(slot) => {
            let p = s.conn.player;
            (
                set_player(s, PlayerView { equipment_container_contents: p.equipment_container_contents.remove(slot), ..p }),
                if p.equipment_container_contents.contains_key(slot) {
                    Some(p.equipment_container_contents[slot])
                } else {
                    None
                },
            )
        },
        Location::Container(lid) => (s, match window_with_local(s.conn.player.containers, lid) {
            Some(c) => Some(c.items),
            None => None,
        }),
    }
}

/// Whether a throw from `fp` to `tp` is out of the item's range (measured from the
/// player `me` for short-range items, from the item for long-range ones) or blocked on
/// the way.
pub open spec fn throw_refused(m: MapView, me: Position, fp: Position, tp: Position, props: ItemProperties) -> bool {
    let rp = if props.range < 8 { me } else { fp };
    let ddx = dx(tp, rp);
    let ddy = dy(tp, rp);
    ddx > props.range || ddy > props.range || line_blocked(m, fp, tp, if ddx >= ddy { ddx } else { ddy }, me.z)
}

/// Placing the item on the map tile `tp`. A throw from the map must stay within the
/// item's range (measured from the player for short-range items, from the item for
/// long-range ones) and have a clear line; the target must be walkable, and an item
/// that blocks movement cannot land where a player stands. A container's contents move
/// with it. Windows of map containers now out of reach close, and the map is redrawn.
pub open spec fn place_on_map(s: PushState, from: Location, tp: Position, id: u16, props: ItemProperties) -> PushState {
    match from {
        Location::OnMap(fp) => if throw_refused(s.map, s.conn.player.position, fp, tp, props) {
            refuse(set_map(s, s.map.with_item_added(fp, id)))
        } else {
            land_on_map(s, from, tp, id)
        },
        _ => land_on_map(s, from, tp, id),
    }
}

/// Landing the item on the map tile `tp` once a throw is allowed: the target must be
/// walkable, and an item that blocks movement cannot land where a player stands.
pub open spec fn land_on_map(s: PushState, from: Location, tp: Position, id: u16) -> PushState {
    let me = s.conn.player.position;
    if !walkable_tile(s.map, tp) || ((me == tp || other_at(s.conn.others, tp)) && blocks_movement(id)) {
        give_back(s, from, id)
    } else {
        let s1 = set_map(s, s.map.with_item_added(tp, id));
        let s2 = if spec_is_container(id) {
            let (s_moved, contents) = moved_contents(s1, from);
            match contents {
                Some(items) => set_map(s_moved, s_moved.map.with_contents(tp, items)),
                None => s_moved,
            }
        } else {
            s1
        };
        let cs = s2.conn.player.containers;
        let far = far_map_windows(cs, me);
        let s3 = set_player(s2, with_containers(s2.conn.player, without_windows(cs, far)));
        let s4 = PushState { conn: ConnView { queued: s3.conn.queued + close_packets(s3.conn.ids, far), ..s3.conn }, ..s3 };
        redraw(s4)
    }
}

/// The windows of an equipment container moved from slot `old_slot` to `slot` follow it.
pub open spec fn rehome_windows(cs: Seq<ContainerView>, old_slot: u8, slot: u8, id: u16) -> Seq<ContainerView> {
    cs.map_values(|c: ContainerView| if c.source == ContainerSource::Equipment(old_slot) && c.container_id == id {
        ContainerView { source: ContainerSource::Equipment(slot), ..c }
    } else {
        c
    })
}

/// Placing the item into equipment slot `slot`. An invalid slot number takes the item
/// without a packet. A container moved between slots takes its windows and its saved
/// contents along. The map is redrawn.
pub open spec fn place_in_equipment(s: PushState, from: Location, slot: u8, id: u16) -> PushState {
    let p = s.conn.player;
    let s1 = set_player(s, PlayerView { equipment: p.equipment.insert(slot, id), ..p });
    if !(1 <= slot <= 8) {
        s1
    } else {
        let s2 = queue(s1, equipped_packet(s.conn.ids, slot, id));
        let s3 = match from {
            Location::Equipment(old_slot) => if spec_is_container(id) {
                let p2 = s2.conn.player;
                let ecc = p2.equipment_container_contents;
                set_player(s2, PlayerView {
                    containers: rehome_windows(p2.containers, old_slot, slot, id),
                    equipment_container_contents: if ecc.contains_key(old_slot) {
                        ecc.remove(old_slot).insert(slot, ecc[old_slot])
                    } else {
                        ecc
                    },
                    ..p2
                })
            } else {
                s2
            },
            _ => s2,
        };
        redraw(s3)
    }
}

/// Whether a window shows the container `cid` from `src`.
pub open spec fn shows(c: ContainerView, cid: u16, src: ContainerSource) -> bool {
    c.container_id == cid && c.source == src
}

/// The windows with the item added to each one showing the container `cid` from `src`.
pub open spec fn add_to_windows(cs: Seq<ContainerView>, cid: u16, src: ContainerSource, id: u16) -> Seq<ContainerView> {
    cs.map_values(|c: ContainerView| if shows(c, cid, src) { ContainerView { items: c.items.push(id), ..c } } else { c })
}

/// The local ids of the windows showing the container `cid` from `src`, in order.
pub open spec fn showing_locals(cs: Seq<ContainerView>, cid: u16, src: ContainerSource) -> Seq<u8>
    decreases cs.len(),
{
    if cs.len() == 0 {
        Seq::empty()
    } else if shows(cs.last(), cid, src) {
        showing_locals(cs.drop_last(), cid, src).push(cs.last().local_id)
    } else {
        showing_locals(cs.drop_last(), cid, src)
    }
}

/// For each local id, an open-container packet for the first window with that id.
pub open spec fn refresh_locals(ids: crate::network::packet::PacketIds, cs: Seq<ContainerView>, lids: Seq<u8>) -> Seq<Seq<u8>>
    decreases lids.len(),
{
    if lids.len() == 0 {
        Seq::empty()
    } else {
        let rest = refresh_locals(ids, cs, lids.drop_last());
        match window_with_local(cs, lids.last()) {
            Some(c) => rest.push(open_container_packet(ids, c)),
            None => rest,
        }
    }
}

/// For each local id in order, the contents of the first window with that id are saved
/// where its container lives (telling the world about a map container, as container `cid`).
pub open spec fn persist_locals(s: PushState, cs: Seq<ContainerView>, lids: Seq<u8>, cid: u16) -> PushState
    decreases lids.len(),
{
    if lids.len() == 0 {
        s
    } else {
        let s1 = persist_locals(s, cs, lids.drop_last(), cid);
        match window_with_local(cs, lids.last()) {
            Some(c) => match c.source {
                ContainerSource::OnMap(mp) => tell(
                    set_map(s1, s1.map.with_contents(mp, c.items)),
                    PlayerToWorldView::ContainerUpdate(mp, cid, c.items),
                ),
                ContainerSource::Equipment(slot) => set_player(s1, PlayerView {
                    equipment_container_contents: s1.conn.player.equipment_container_contents.insert(slot, c.items),
                    ..s1.conn.player
                }),
            },
            None => s1,
        }
    }
}

/// The container a push into window `lid` targets: for a drop onto an equipment slot
/// holding a container, that container (from the source of its first open window, else
/// the slot); otherwise the container of the first window with that local id.
pub open spec fn push_target(p: PlayerView, to: Location, lid: u8) -> Option<(u16, ContainerSource)> {
    match to {
        Location::Equipment(slot) => {
            let held = if p.equipment.contains_key(slot) { p.equipment[slot] } else { 0 };
            Some((held, match window_of_item(p.containers, held) {
                Some(c) => c.source,
                None => ContainerSource::Equipment(slot),
            }))
        },
        _ => match window_with_local(p.containers, lid) {
            Some(c) => Some((c.container_id, c.source)),
            None => None,
        },
    }
}

/// Placing the item into a container: every window showing it gets the item and is
/// refreshed, and their contents are saved; with no window open the item goes straight
/// into the saved contents. The map is redrawn unless the item came from the map (it
/// was redrawn when the item was picked up). A push into a window that is not open is
/// refused and the item goes back (see [`give_back`]).
pub open spec fn place_in_window(s: PushState, from: Location, to: Location, lid: u8, id: u16) -> PushState {
    match push_target(s.conn.player, to, lid) {
        None => give_back(s, from, id),
        Some((cid, src)) => {
            let p = s.conn.player;
            let cs = add_to_windows(p.containers, cid, src, id);
            let lids = showing_locals(p.containers, cid, src);
            let s1 = set_player(s, with_containers(p, cs));
            let s2 = PushState { conn: ConnView { queued: s1.conn.queued + refresh_locals(s.conn.ids, cs, lids), ..s1.conn }, ..s1 };
            let s3 = persist_locals(s2, cs, lids, cid);
            let s4 = if lids.len() == 0 {
                match src {
                    ContainerSource::Equipment(slot) => {
                        let ecc = s3.conn.player.equipment_container_contents;
                        let saved = if ecc.contains_key(slot) { ecc[slot] } else { Seq::empty() };
                        set_player(s3, PlayerView { equipment_container_contents: ecc.insert(slot, saved.push(id)), ..s3.conn.player })
                    },
                    ContainerSource::OnMap(mp) => {
                        let saved = if s3.map.containers.contains_key(mp) { s3.map.containers[mp] } else { Seq::empty() };
                        tell(
                            set_map(s3, s3.map.with_contents(mp, saved.push(id))),
                            PlayerToWorldView::ContainerUpdate(mp, cid, saved.push(id)),
                        )
                    },
                }
            } else {
                s3
            };
            if from is OnMap { s4 } else { redraw(s4) }
        },
    }
}

/// The whole push of item `id` from screen position `from_screen` to `to_screen`.
///
/// A map source must be on or next to the player's tile. The item is taken from its
/// source (see [`take_from_map`], [`take_from_equipment`], [`take_from_window`]); if it
/// was not there nothing more happens. A map target holding a container refuses the
/// push, and so does an equipment target holding something other than a container; an
/// equipment target holding a container receives the item into that container. Refused
/// items go back (see [`give_back`]).
pub open spec fn push_step(s: PushState, from_screen: Position, id: u16, to_screen: Position) -> PushState {
    let me = s.conn.player.position;
    let from = decode_location(me, from_screen);
    let to = decode_location(me, to_screen);
    let props = spec_item_properties(id);
    if from matches Location::OnMap(fp) && !in_reach(me, fp) {
        refuse(s)
    } else {
        let (s1, removed) = match from {
            Location::OnMap(fp) => take_from_map(s, fp, to, id, props),
            Location::Equipment(slot) => take_from_equipment(s, slot, to, id),
            Location::Container(lid) => take_from_window(s, lid, id),
        };
        if !removed {
            s1
        } else if to matches Location::OnMap(tp) && holds_container(s1.map, tp) {
            give_back(s1, from, id)
        } else {
            match to {
                Location::OnMap(tp) => place_on_map(s1, from, tp, id, props),
                Location::Container(lid) => place_in_window(s1, from, to, lid, id),
                Location::Equipment(slot) => {
                    let p1 = s1.conn.player;
                    if p1.equipment.contains_key(slot) {
                        if spec_is_container(p1.equipment[slot]) {
                            place_in_window(s1, from, to, slot, id)
                        } else {
                            give_back(s1, from, id)
                        }
                    } else {
                        place_in_equipment(s1, from, slot, id)
                    }
                },
            }
        }
    }
}

/// The state of a push: a connection and the map.
pub open spec fn state_of(c: ConnView, m: MapView) -> PushState {
    PushState { conn: c, map: m }
}

/// The index of the first window with local id `lid`.
fn find_local_index(cs: &Vec<OpenContainer>, lid: u8) -> (r: Option<usize>)
    ensures
        ({
            let v = cs@.map_values(|c: OpenContainer| c@);
            match r {
                Some(k) => k < v.len() && local_index(v, lid) == Some(k as int),
                None => local_index(v, lid) is None,
            }
        }),
{
    let ghost v = cs@.map_values(|c: OpenContainer| c@);
    let ghost pred = |c: ContainerView| c.local_id == lid;
    proof {
        crate::util::lemma_first_index(v, pred);
    }
    let mut i: usize = 0;
    while i < cs.len()
        invariant
            i <= cs@.len(),
            v == cs@.map_values(|c: OpenContainer| c@),
            pred == (|c: ContainerView| c.local_id == lid),
            forall|j: int| 0 <= j < i ==> !pred(#[trigger] v[j]),
        decreases cs.len() - i,
    {
        if cs[i].local_id == lid {
            proof {
                assert(pred(v[i as int]));
                crate::util::lemma_first_index(v, pred);
            }
            return Some(i);
        }
        i = i + 1;
    }
    proof {
        crate::util::lemma_first_index(v, pred);
    }
    None
}

/// The local ids of the windows of equipment slot `slot` and the items of the last one.
fn slot_window_info(cs: &Vec<OpenContainer>, slot: u8) -> (r: (Vec<u8>, Option<Vec<u16>>))
    ensures
        ({
            let v = cs@.map_values(|c: OpenContainer| c@);
            &&& r.0@ == slot_windows(v, slot)
            &&& match r.1 {
                Some(items) => last_slot_items(v, slot) == Some(items@),
                None => last_slot_items(v, slot) is None,
            }
        }),
{
    let ghost v = cs@.map_values(|c: OpenContainer| c@);
    let mut locals: Vec<u8> = Vec::new();
    let mut last: Option<Vec<u16>> = None;
    let mut i: usize = 0;
    while i < cs.len()
        invariant
            i <= cs@.len(),
            v == cs@.map_values(|c: OpenContainer| c@),
            locals@ == slot_windows(v.take(i as int), slot),
            match last {
                Some(items) => last_slot_items(v.take(i as int), slot) == Some(items@),
                None => last_slot_items(v.take(i as int), slot) is None,
            },
        decreases cs.len() - i,
    {
        proof {
            assert(v.take(i + 1).drop_last() =~= v.take(i as int));
        }
        if cs[i].source == ContainerSource::Equipment(slot) {
            locals.push(cs[i].local_id);
            last = Some(cs[i].items.clone());
        }
        i = i + 1;
    }
    proof {
        assert(v.take(cs@.len() as int) =~= v);
    }
    (locals, last)
}

/// Whether item `id` occurs on a stack.
fn stack_has_item(objs: &[TileObject], id: u16) -> (r: bool)
    ensures
        r == objs@.contains(TileObject::Item(id)),
{
    let mut i: usize = 0;
    while i < objs.len()
        invariant
            i <= objs@.len(),
            forall|j: int| 0 <= j < i ==> objs@[j] != TileObject::Item(id),
        decreases objs.len() - i,
    {
        if objs[i] == TileObject::Item(id) {
            return true;
        }
        i = i + 1;
    }
    false
}

impl Connection {
    /// Queues the refusal, see [`refuse`].
    fn push_refuse(&mut self, map: &GameMap)
        ensures
            state_of(final(self)@, map@) == refuse(state_of(old(self)@, map@)),
            final(self).player == old(self).player,
            final(self).other_players == old(self).other_players,
    {
        self.enqueue_sorry();
    }

    /// Redraws the map and tells the world, see [`redraw`].
    fn push_redraw(&mut self, map: &GameMap)
        requires
            old(self).wf(),
            map.wf(),
        ensures
            state_of(final(self)@, map@) == redraw(state_of(old(self)@, map@)),
            final(self).player == old(self).player,
            final(self).other_players == old(self).other_players,
    {
        self.enqueue_map(map);
        let pos = self.player.position;
        self.send_to_world(PlayerToWorld::MapUpdate(pos));
    }

    /// Takes the item off the map tile `fp`, see [`take_from_map`].
    fn take_from_map_exec(&mut self, map: &mut GameMap, fp: Position, to: Location, id: u16, props: ItemProperties) -> (go: bool)
        requires
            old(self).wf(),
            old(map).wf(),
        ensures
            final(self).wf(),
            final(map)@.area == old(map)@.area,
            (state_of(final(self)@, final(map)@), go) == take_from_map(state_of(old(self)@, old(map)@), fp, to, id, props),
    {
        let picking_up = match to {
            Location::OnMap(_) => false,
            _ => true,
        };
        let present = match map.get_tile_objects(fp) {
            Some(objs) => stack_has_item(objs, id),
            None => false,
        };
        if !props.movable || (picking_up && props.range < 8) || !present {
            self.push_refuse(map);
            return false;
        }
        map.remove_item(fp, id);
        if picking_up {
            self.push_redraw(map);
        }
        true
    }

    /// Takes the item out of equipment slot `slot`, see [`take_from_equipment`].
    fn take_from_equipment_exec(&mut self, map: &GameMap, slot: u8, to: Location, id: u16) -> (go: bool)
        requires
            old(self).wf(),
        ensures
            final(self).wf(),
            (state_of(final(self)@, map@), go) == take_from_equipment(state_of(old(self)@, map@), slot, to, id),
    {
        let held = match self.player.equipment.get(&slot) {
            Some(v) => *v,
            None => return false,
        };
        if held != id {
            return false;
        }
        let ghost s0 = state_of(self@, map@);
        self.player.equipment.remove(&slot);
        let pkt = self.send_remove_equipped(slot);
        proof {
            assert(pkt@.len() > 0) by {
                assert(header(self.ids, crate::network::packet::PacketOut::RemoveEquipped).len() == 5);
            }
        }
        self.enqueue(pkt);
        let (locals, last) = slot_window_info(&self.player.containers, slot);
        if let Some(items) = last {
            self.player.equipment_container_contents.insert(slot, items);
        }
        let close: Vec<u8> = match to {
            Location::Equipment(_) => Vec::new(),
            _ => locals,
        };
        let kept = super::receive::keep_windows(&self.player.containers, &close);
        self.player.containers = kept;
        let ghost q0 = self.queued();
        let ghost pl = self.player;
        let mut i: usize = 0;
        while i < close.len()
            invariant
                self.wf(),
                i <= close@.len(),
                self.player == pl,
                self.outbox() == old(self).outbox(),
                self.pending_path == old(self).pending_path,
                self.queued() == q0 + close_packets(self.ids, close@.take(i as int)),
                self.ids == old(self).ids,
                self.other_players == old(self).other_players,
            decreases close.len() - i,
        {
            let msg = self.send_close_container(close[i]);
            self.enqueue(msg);
            proof {
                assert(close@.take(i + 1).drop_last() =~= close@.take(i as int));
                assert(self.queued() =~= q0 + close_packets(self.ids, close@.take(i + 1)));
            }
            i = i + 1;
        }
        proof {
            assert(close@.take(close@.len() as int) =~= close@);
            assert(seq_map_view(self.player.equipment_container_contents@) =~= match last_slot_items(s0.conn.player.containers, slot) {
                Some(items) => s0.conn.player.equipment_container_contents.insert(slot, items),
                None => s0.conn.player.equipment_container_contents,
            });
            assert(self.player.equipment@ =~= s0.conn.player.equipment.remove(slot));
            let p = s0.conn.player;
            let cl = if to is Equipment { Seq::<u8>::empty() } else { slot_windows(p.containers, slot) };
            assert(close@ =~= cl);
            let ecc = match last_slot_items(p.containers, slot) {
                Some(items) => p.equipment_container_contents.insert(slot, items),
                None => p.equipment_container_contents,
            };
            let p1 = PlayerView {
                equipment: p.equipment.remove(slot),
                equipment_container_contents: ecc,
                containers: without_windows(p.containers, cl),
                ..p
            };
            assert(self.player@ == p1);
        }
        true
    }
}

impl Connection {
    /// Takes the item out of the first window with local id `lid`, see [`take_from_window`].
    fn take_from_window_exec(&mut self, map: &mut GameMap, lid: u8, id: u16) -> (go: bool)
        requires
            old(self).wf(),
        ensures
            final(self).wf(),
            final(map)@.area == old(map)@.area,
            (state_of(final(self)@, final(map)@), go) == take_from_window(state_of(old(self)@, old(map)@), lid, id),
    {
        let i = match find_local_index(&self.player.containers, lid) {
            Some(i) => i,
            None => return false,
        };
        let k = match crate::util::position_of(&self.player.containers[i].items, id) {
            Some(k) => k,
            None => return false,
        };
        let ghost s0 = state_of(self@, map@);
        let ghost cs0 = s0.conn.player.containers;
        let mut w = self.player.containers[i].clone();
        proof {
            crate::util::lemma_remove_first_at(w.items@, id, k as int);
        }
        w.items.remove(k);
        let ghost wv = w@;
        proof {
            assert(wv == ContainerView { items: remove_first(cs0[i as int].items, id), ..cs0[i as int] });
        }
        let pkt = self.send_open_container(&w);
        let src = w.source;
        let cid = w.container_id;
        let items = w.items.clone();
        self.player.containers[i] = w;
        proof {
            assert(self.player.containers@.map_values(|c: OpenContainer| c@) =~= cs0.update(i as int, wv));
            assert(pkt@.len() > 0) by {
                assert(header(self.ids, crate::network::packet::PacketOut::OpenContainer).len() == 5);
            }
        }
        self.enqueue(pkt);
        match src {
            ContainerSource::OnMap(mp) => {
                map.set_container_contents(mp, items.clone());
                self.send_to_world(PlayerToWorld::ContainerUpdate(mp, cid, items));
            },
            ContainerSource::Equipment(slot) => {
                self.player.equipment_container_contents.insert(slot, items);
                proof {
                    let before = seq_map_view(old(self).player.equipment_container_contents@);
                    assert(seq_map_view(self.player.equipment_container_contents@) =~= before.insert(slot, wv.items));
                }
            },
        }
        true
    }

    /// Puts a refused item back where it came from and refuses, see [`give_back`].
    fn give_back_exec(&mut self, map: &mut GameMap, from: Location, id: u16)
        requires
            old(self).wf(),
        ensures
            final(self).wf(),
            final(map)@.area == old(map)@.area,
            state_of(final(self)@, final(map)@) == give_back(state_of(old(self)@, old(map)@), from, id),
    {
        let ghost s0 = state_of(self@, map@);
        match from {
            Location::Equipment(slot) => {
                self.player.equipment.insert(slot, id);
                proof {
                    assert(self.player.equipment@ =~= s0.conn.player.equipment.insert(slot, id));
                }
                match InventorySlot::from_u8(slot) {
                    Some(se) => {
                        let pkt = self.send_equipped_item(se, id);
                        proof {
                            assert(pkt@.len() > 0) by {
                                assert(header(self.ids, crate::network::packet::PacketOut::EquippedItem).len() == 5);
                            }
                        }
                        self.enqueue(pkt);
                        self.enqueue_sorry();
                    },
                    None => {},
                }
            },
            Location::OnMap(fp) => {
                map.add_item_to_tile(fp, id);
                self.enqueue_sorry();
            },
            Location::Container(lid) => {
                match find_local_index(&self.player.containers, lid) {
                    Some(i) => {
                        let ghost cs0 = s0.conn.player.containers;
                        let mut w = self.player.containers[i].clone();
                        w.items.push(id);
                        let ghost wv = w@;
                        let pkt = self.send_open_container(&w);
                        self.player.containers[i] = w;
                        proof {
                            assert(self.player.containers@.map_values(|c: OpenContainer| c@) =~= cs0.update(i as int, wv));
                            assert(pkt@.len() > 0) by {
                                assert(header(self.ids, crate::network::packet::PacketOut::OpenContainer).len() == 5);
                            }
                        }
                        self.enqueue(pkt);
                    },
                    None => {},
                }
                self.enqueue_sorry();
            },
        }
    }
}

/// Whether a stack holds a container item.
fn stack_has_container(objs: &[TileObject]) -> (r: bool)
    ensures
        r == exists|j: int| 0 <= j < objs@.len() && spec_is_container(object_id(#[trigger] objs@[j])),
{
    let mut i: usize = 0;
    while i < objs.len()
        invariant
            i <= objs@.len(),
            forall|j: int| 0 <= j < i ==> !spec_is_container(object_id(#[trigger] objs@[j])),
        decreases objs.len() - i,
    {
        let oid = match objs[i] {
            TileObject::Ground(v) => v,
            TileObject::Item(v) => v,
        };
        if is_container(oid) {
            return true;
        }
        i = i + 1;
    }
    false
}

/// Whether a stack holds something that blocks projectiles.
fn stack_blocks_throw(objs: &[TileObject]) -> (r: bool)
    ensures
        r == exists|j: int| 0 <= j < objs@.len() && spec_item_properties(object_id(#[trigger] objs@[j])).blocks_projectiles,
{
    let mut i: usize = 0;
    while i < objs.len()
        invariant
            i <= objs@.len(),
            forall|j: int| 0 <= j < i ==> !spec_item_properties(object_id(#[trigger] objs@[j])).blocks_projectiles,
        decreases objs.len() - i,
    {
        let oid = match objs[i] {
            TileObject::Ground(v) => v,
            TileObject::Item(v) => v,
        };
        if item_properties(oid).blocks_projectiles {
            return true;
        }
        i = i + 1;
    }
    false
}

/// Whether the visible tile at `pos` holds a container, see [`holds_container`].
fn tile_holds_container(map: &GameMap, pos: Position) -> (r: bool)
    requires
        map.wf(),
    ensures
        r == holds_container(map@, pos),
{
    match map.get_tile_objects(pos) {
        Some(objs) => stack_has_container(objs),
        None => false,
    }
}

/// Whether the visible tile at `pos` blocks projectiles, see [`blocks_throw`].
fn tile_blocks_throw(map: &GameMap, pos: Position) -> (r: bool)
    requires
        map.wf(),
    ensures
        r == blocks_throw(map@, pos),
{
    match map.get_tile_objects(pos) {
        Some(objs) => stack_blocks_throw(objs),
        None => false,
    }
}

/// `a * i / steps` is at most `a` while `i < steps`.
proof fn lemma_fraction_bound(a: int, i: int, steps: int)
    requires
        0 <= a,
        0 <= i < steps,
    ensures
        0 <= (a * i) / steps <= a,
{
    assert(0 <= a * i <= a * steps) by (nonlinear_arith)
        requires
            0 <= a,
            0 <= i < steps,
    ;
    assert(0 <= (a * i) / steps <= a) by (nonlinear_arith)
        requires
            0 <= a * i <= a * steps,
            0 < steps,
            0 <= a,
    ;
}

/// The coordinate `i` steps of `steps` along the way from `a` to `b`, see [`line_coord`].
fn line_coord_exec(a: u16, b: u16, i: u16, steps: u16) -> (c: u16)
    requires
        1 <= i < steps,
    ensures
        c == line_coord(a, b, i as int, steps as int),
{
    if b >= a {
        let d: u64 = (b - a) as u64;
        proof {
            assert(d * i <= 65535 * 65535) by (nonlinear_arith)
                requires
                    d <= 65535,
                    i <= 65535,
            ;
        }
        let q: u64 = d * (i as u64) / (steps as u64);
        proof {
            lemma_fraction_bound(d as int, i as int, steps as int);
        }
        a + q as u16
    } else {
        let d: u64 = (a - b) as u64;
        proof {
            assert(d * i <= 65535 * 65535) by (nonlinear_arith)
                requires
                    d <= 65535,
                    i <= 65535,
            ;
        }
        let q: u64 = d * (i as u64) / (steps as u64);
        proof {
            lemma_fraction_bound(d as int, i as int, steps as int);
            assert((b - a) * i == -(d * i) && d * i > 0) by (nonlinear_arith)
                requires
                    d == a - b,
                    d > 0,
                    i >= 1,
            ;
        }
        a - q as u16
    }
}

/// Whether something blocks the line of a throw, see [`line_blocked`].
fn throw_line_blocked(map: &GameMap, fp: Position, tp: Position, steps: u16, z: u8) -> (r: bool)
    requires
        map.wf(),
    ensures
        r == line_blocked(map@, fp, tp, steps as int, z),
{
    let mut i: u16 = 1;
    while i < steps
        invariant
            map.wf(),
            1 <= i,
            i <= steps || steps == 0,
            forall|k: int| 1 <= k < i ==> !#[trigger] blocks_throw(map@, line_point(fp, tp, k, steps as int, z)),
        decreases steps - i,
    {
        let x = line_coord_exec(fp.x, tp.x, i, steps);
        let y = line_coord_exec(fp.y, tp.y, i, steps);
        let cp = Position { x, y, z };
        proof {
            assert(cp == line_point(fp, tp, i as int, steps as int, z));
        }
        if tile_blocks_throw(map, cp) {
            return true;
        }
        i = i + 1;
    }
    false
}

/// The windows with those of the container `id` in equipment slot `old_slot` moved to
/// slot `slot`, see [`rehome_windows`].
fn rehome_exec(cs: &Vec<OpenContainer>, old_slot: u8, slot: u8, id: u16) -> (r: Vec<OpenContainer>)
    ensures
        r@.map_values(|c: OpenContainer| c@) == rehome_windows(cs@.map_values(|c: OpenContainer| c@), old_slot, slot, id),
{
    let ghost v = cs@.map_values(|c: OpenContainer| c@);
    let ghost target = rehome_windows(v, old_slot, slot, id);
    let mut r: Vec<OpenContainer> = Vec::new();
    let mut i: usize = 0;
    while i < cs.len()
        invariant
            i <= cs@.len(),
            v == cs@.map_values(|c: OpenContainer| c@),
            target == rehome_windows(v, old_slot, slot, id),
            r@.map_values(|c: OpenContainer| c@) == target.take(i as int),
        decreases cs.len() - i,
    {
        let mut c = cs[i].clone();
        if c.source == ContainerSource::Equipment(old_slot) && c.container_id == id {
            c.source = ContainerSource::Equipment(slot);
        }
        let ghost before = r@.map_values(|c: OpenContainer| c@);
        let ghost cv = c@;
        r.push(c);
        proof {
            assert(cv == target[i as int]);
            assert(r@.map_values(|c: OpenContainer| c@) =~= before.push(cv));
            assert(target.take(i + 1) =~= target.take(i as int).push(target[i as int]));
        }
        i = i + 1;
    }
    proof {
        assert(target.take(cs@.len() as int) =~= target);
    }
    r
}

/// The windows with the item added to those showing container `cid` from `src`, and
/// the local ids of those windows, see [`add_to_windows`] and [`showing_locals`].
fn add_to_windows_exec(cs: &Vec<OpenContainer>, cid: u16, src: ContainerSource, id: u16) -> (r: (Vec<OpenContainer>, Vec<u8>))
    ensures
        r.0@.map_values(|c: OpenContainer| c@) == add_to_windows(cs@.map_values(|c: OpenContainer| c@), cid, src, id),
        r.1@ == showing_locals(cs@.map_values(|c: OpenContainer| c@), cid, src),
{
    let ghost v = cs@.map_values(|c: OpenContainer| c@);
    let ghost target = add_to_windows(v, cid, src, id);
    let mut out: Vec<OpenContainer> = Vec::new();
    let mut lids: Vec<u8> = Vec::new();
    let mut i: usize = 0;
    while i < cs.len()
        invariant
            i <= cs@.len(),
            v == cs@.map_values(|c: OpenContainer| c@),
            target == add_to_windows(v, cid, src, id),
            out@.map_values(|c: OpenContainer| c@) == target.take(i as int),
            lids@ == showing_locals(v.take(i as int), cid, src),
        decreases cs.len() - i,
    {
        proof {
            assert(v.take(i + 1).drop_last() =~= v.take(i as int));
        }
        let mut c = cs[i].clone();
        if c.container_id == cid && c.source == src {
            c.items.push(id);
            lids.push(c.local_id);
        }
        let ghost before = out@.map_values(|c: OpenContainer| c@);
        let ghost cv = c@;
        out.push(c);
        proof {
            assert(cv == target[i as int]);
            assert(out@.map_values(|c: OpenContainer| c@) =~= before.push(cv));
            assert(target.take(i + 1) =~= target.take(i as int).push(target[i as int]));
        }
        i = i + 1;
    }
    proof {
        assert(target.take(cs@.len() as int) =~= target);
        assert(v.take(cs@.len() as int) =~= v);
    }
    (out, lids)
}

impl Connection {
    /// Places the item on the map tile `tp`, see [`place_on_map`].
    fn place_on_map_exec(&mut self, map: &mut GameMap, from: Location, tp: Position, id: u16, props: ItemProperties)
        requires
            old(self).wf(),
            old(map).wf(),
        ensures
            final(self).wf(),
            final(map)@.area == old(map)@.area,
            state_of(final(self)@, final(map)@) == place_on_map(state_of(old(self)@, old(map)@), from, tp, id, props),
    {
        if let Location::OnMap(fp) = from {
            let me = self.player.position;
            let rp = if props.range < 8 { me } else { fp };
            let ddx = abs_diff(tp.x, rp.x);
            let ddy = abs_diff(tp.y, rp.y);
            let refused = if ddx > props.range as u16 || ddy > props.range as u16 {
                true
            } else {
                let steps = if ddx >= ddy { ddx } else { ddy };
                throw_line_blocked(map, fp, tp, steps, me.z)
            };
            if refused {
                map.add_item_to_tile(fp, id);
                self.enqueue_sorry();
                return;
            }
        }
        self.land_on_map_exec(map, from, tp, id);
    }

    /// Lands the item on the map tile `tp`, see [`land_on_map`].
    fn land_on_map_exec(&mut self, map: &mut GameMap, from: Location, tp: Position, id: u16)
        requires
            old(self).wf(),
            old(map).wf(),
        ensures
            final(self).wf(),
            final(map)@.area == old(map)@.area,
            state_of(final(self)@, final(map)@) == land_on_map(state_of(old(self)@, old(map)@), from, tp, id),
    {
        let ghost s0 = state_of(self@, map@);
        let walkable = match map.get_tile_objects(tp) {
            Some(objs) => super::pathing::all_walkable(objs),
            None => false,
        };
        let occupied = self.player.position == tp || match self.other_at(tp) {
            Some(k) => {
                proof {
                    crate::util::lemma_first_where_satisfies(self.others(), |q: PlayerView| q.position == tp);
                    assert(self.others()[k as int].position == tp);
                }
                true
            },
            None => {
                proof {
                    if other_at(self.others(), tp) {
                        let k = choose|k: int| 0 <= k < self.others().len() && #[trigger] self.others()[k].position == tp;
                        crate::util::lemma_first_where_some(self.others(), |q: PlayerView| q.position == tp, k);
                    }
                }
                false
            },
        };
        if !walkable || (occupied && !is_walkable(id)) {
            self.give_back_exec(map, from, id);
            return;
        }
        map.add_item_to_tile(tp, id);
        let ghost s1 = state_of(self@, map@);
        if is_container(id) {
            let contents: Option<Vec<u16>> = match from {
                Location::OnMap(fp) => map.take_container_contents(fp),
                Location::Equipment(slot) => {
                    let r = self.player.equipment_container_contents.remove(&slot);
                    proof {
                        assert(seq_map_view(self.player.equipment_container_contents@) =~= s1.conn.player.equipment_container_contents.remove(slot));
                    }
                    r
                },
                Location::Container(lid) => match super::containers::find_local(&self.player.containers, lid) {
                    Some(k) => Some(self.player.containers[k].items.clone()),
                    None => None,
                },
            };
            if let Some(c) = contents {
                map.set_container_contents(tp, c);
            }
        }
        let ghost s2 = state_of(self@, map@);
        let me = self.player.position;
        let far = super::receive::far_windows(&self.player.containers, me);
        let kept = super::receive::keep_windows(&self.player.containers, &far);
        self.player.containers = kept;
        let ghost q0 = self.queued();
        let ghost pl = self.player;
        let mut i: usize = 0;
        while i < far.len()
            invariant
                self.wf(),
                i <= far@.len(),
                self.player == pl,
                self.outbox() == s2.conn.outbox,
                self.pending_path@ == s2.conn.path,
                self.others() == s2.conn.others,
                self.ids == s2.conn.ids,
                self.queued() == q0 + close_packets(self.ids, far@.take(i as int)),
            decreases far.len() - i,
        {
            let msg = self.send_close_container(far[i]);
            self.enqueue(msg);
            proof {
                assert(far@.take(i + 1).drop_last() =~= far@.take(i as int));
                assert(self.queued() =~= q0 + close_packets(self.ids, far@.take(i + 1)));
            }
            i = i + 1;
        }
        proof {
            assert(far@.take(far@.len() as int) =~= far@);
        }
        self.push_redraw(map);
    }

    /// Places the item into equipment slot `slot`, see [`place_in_equipment`].
    fn place_in_equipment_exec(&mut self, map: &GameMap, from: Location, slot: u8, id: u16)
        requires
            old(self).wf(),
            map.wf(),
        ensures
            final(self).wf(),
            state_of(final(self)@, map@) == place_in_equipment(state_of(old(self)@, map@), from, slot, id),
    {
        let ghost s0 = state_of(self@, map@);
        self.player.equipment.insert(slot, id);
        proof {
            assert(self.player.equipment@ =~= s0.conn.player.equipment.insert(slot, id));
        }
        let se = match InventorySlot::from_u8(slot) {
            Some(se) => se,
            None => return,
        };
        let pkt = self.send_equipped_item(se, id);
        proof {
            assert(pkt@.len() > 0) by {
                assert(header(self.ids, crate::network::packet::PacketOut::EquippedItem).len() == 5);
            }
        }
        self.enqueue(pkt);
        let ghost s2 = state_of(self@, map@);
        if is_container(id) {
            if let Location::Equipment(old_slot) = from {
                let re = rehome_exec(&self.player.containers, old_slot, slot, id);
                self.player.containers = re;
                let ghost ecc = s2.conn.player.equipment_container_contents;
                match self.player.equipment_container_contents.remove(&old_slot) {
                    Some(contents) => {
                        self.player.equipment_container_contents.insert(slot, contents);
                        proof {
                            assert(seq_map_view(self.player.equipment_container_contents@) =~= ecc.remove(old_slot).insert(slot, ecc[old_slot]));
                        }
                    },
                    None => {
                        proof {
                            assert(seq_map_view(self.player.equipment_container_contents@) =~= ecc);
                        }
                    },
                }
            }
        }
        self.push_redraw(map);
    }
}

impl Connection {
    /// The container a push into window `lid` targets, see [`push_target`].
    fn push_target_exec(&self, to: Location, lid: u8) -> (r: Option<(u16, ContainerSource)>)
        ensures
            r == push_target(self.player@, to, lid),
    {
        match to {
            Location::Equipment(slot) => {
                let held: u16 = match self.player.equipment.get(&slot) {
                    Some(v) => *v,
                    None => 0,
                };
                let src = match super::containers::find_item_window(&self.player.containers, held) {
                    Some(k) => self.player.containers[k].source,
                    None => ContainerSource::Equipment(slot),
                };
                Some((held, src))
            },
            _ => match super::containers::find_local(&self.player.containers, lid) {
                Some(k) => Some((self.player.containers[k].container_id, self.player.containers[k].source)),
                None => None,
            },
        }
    }

    /// Queues, for each local id, an open-container packet for the first window with
    /// that id, see [`refresh_locals`].
    fn refresh_windows_exec(&mut self, lids: &Vec<u8>)
        ensures
            final(self).queued() == old(self).queued() + refresh_locals(
                old(self).ids,
                old(self).player@.containers,
                lids@,
            ),
            final(self).outbox() == old(self).outbox(),
            final(self).player == old(self).player,
            final(self).other_players == old(self).other_players,
            final(self).pending_path == old(self).pending_path,
            final(self).ids == old(self).ids,
    {
        let ghost cs = self.player@.containers;
        let ghost q0 = self.queued();
        let mut i: usize = 0;
        while i < lids.len()
            invariant
                i <= lids@.len(),
                self.player == old(self).player,
                self.other_players == old(self).other_players,
                self.pending_path == old(self).pending_path,
                self.ids == old(self).ids,
                self.outbox() == old(self).outbox(),
                cs == self.player@.containers,
                q0 == old(self).queued(),
                self.queued() == q0 + refresh_locals(self.ids, cs, lids@.take(i as int)),
            decreases lids.len() - i,
        {
            proof {
                assert(lids@.take(i + 1).drop_last() =~= lids@.take(i as int));
            }
            match super::containers::find_local(&self.player.containers, lids[i]) {
                Some(k) => {
                    let pkt = self.send_open_container(&self.player.containers[k]);
                    proof {
                        assert(pkt@.len() > 0) by {
                            assert(header(self.ids, crate::network::packet::PacketOut::OpenContainer).len() == 5);
                        }
                    }
                    self.enqueue(pkt);
                    proof {
                        assert(self.queued() =~= q0 + refresh_locals(self.ids, cs, lids@.take(i + 1)));
                    }
                },
                None => {},
            }
            i = i + 1;
        }
        proof {
            assert(lids@.take(lids@.len() as int) =~= lids@);
        }
    }

    /// Saves, for each local id in order, the contents of the first window with that id,
    /// see [`persist_locals`].
    fn persist_windows_exec(&mut self, map: &mut GameMap, lids: &Vec<u8>, cid: u16)
        requires
            old(self).wf(),
        ensures
            final(self).wf(),
            final(map)@.area == old(map)@.area,
            state_of(final(self)@, final(map)@) == persist_locals(
                state_of(old(self)@, old(map)@),
                old(self).player@.containers,
                lids@,
                cid,
            ),
    {
        let ghost cs = self.player@.containers;
        let ghost s0 = state_of(self@, map@);
        let mut i: usize = 0;
        while i < lids.len()
            invariant
                i <= lids@.len(),
                self.wf(),
                map@.area == s0.map.area,
                cs == self.player@.containers,
                cs == old(self).player@.containers,
                s0 == state_of(old(self)@, old(map)@),
                state_of(self@, map@) == persist_locals(s0, cs, lids@.take(i as int), cid),
            decreases lids.len() - i,
        {
            proof {
                assert(lids@.take(i + 1).drop_last() =~= lids@.take(i as int));
            }
            match super::containers::find_local(&self.player.containers, lids[i]) {
                Some(k) => {
                    let src = self.player.containers[k].source;
                    let items = self.player.containers[k].items.clone();
                    match src {
                        ContainerSource::OnMap(mp) => {
                            map.set_container_contents(mp, items.clone());
                            self.send_to_world(PlayerToWorld::ContainerUpdate(mp, cid, items));
                        },
                        ContainerSource::Equipment(slot) => {
                            let ghost before = seq_map_view(self.player.equipment_container_contents@);
                            let ghost iv = items@;
                            self.player.equipment_container_contents.insert(slot, items);
                            proof {
                                assert(seq_map_view(self.player.equipment_container_contents@) =~= before.insert(slot, iv));
                            }
                        },
                    }
                },
                None => {},
            }
            i = i + 1;
        }
        proof {
            assert(lids@.take(lids@.len() as int) =~= lids@);
        }
    }

    /// Places the item into a container, see [`place_in_window`].
    fn place_in_window_exec(&mut self, map: &mut GameMap, from: Location, to: Location, lid: u8, id: u16)
        requires
            old(self).wf(),
            old(map).wf(),
        ensures
            final(self).wf(),
            final(map)@.area == old(map)@.area,
            state_of(final(self)@, final(map)@) == place_in_window(state_of(old(self)@, old(map)@), from, to, lid, id),
    {
        let ghost s0 = state_of(self@, map@);
        let (cid, src) = match self.push_target_exec(to, lid) {
            Some(t) => t,
            None => {
                self.give_back_exec(map, from, id);
                return;
            },
        };
        let (new_cs, lids) = add_to_windows_exec(&self.player.containers, cid, src, id);
        self.player.containers = new_cs;
        self.refresh_windows_exec(&lids);
        self.persist_windows_exec(map, &lids, cid);
        let ghost s3 = state_of(self@, map@);
        if lids.len() == 0 {
            match src {
                ContainerSource::Equipment(slot) => {
                    let mut saved: Vec<u16> = match self.player.equipment_container_contents.get(&slot) {
                        Some(v) => v.clone(),
                        None => Vec::new(),
                    };
                    saved.push(id);
                    let ghost sv = saved@;
                    let ghost before = seq_map_view(self.player.equipment_container_contents@);
                    self.player.equipment_container_contents.insert(slot, saved);
                    proof {
                        assert(seq_map_view(self.player.equipment_container_contents@) =~= before.insert(slot, sv));
                        let ecc = s3.conn.player.equipment_container_contents;
                        let expect = (if ecc.contains_key(slot) { ecc[slot] } else { Seq::<u16>::empty() }).push(id);
                        assert(sv =~= expect);
                    }
                },
                ContainerSource::OnMap(mp) => {
                    let mut saved: Vec<u16> = match map.get_container_contents(mp) {
                        Some(v) => v.clone(),
                        None => Vec::new(),
                    };
                    saved.push(id);
                    proof {
                        let m = s3.map;
                        let expect = (if m.containers.contains_key(mp) { m.containers[mp] } else { Seq::<u16>::empty() }).push(id);
                        assert(saved@ =~= expect);
                    }
                    map.set_container_contents(mp, saved.clone());
                    self.send_to_world(PlayerToWorld::ContainerUpdate(mp, cid, saved));
                },
            }
        }
        match from {
            Location::OnMap(_) => {},
            _ => self.push_redraw(map),
        }
    }

    /// Handles an item push (drag): moves an item between map tiles, equipment slots and
    /// container windows in any combination, see [`push_step`] for the rules.
    #[verifier::spinoff_prover]
    #[verifier::rlimit(30)]
    pub fn recv_push(&mut self, map: &mut GameMap, r: &mut PacketReader) -> (res: Result<(), PacketError>)
        requires
            old(self).wf(),
            old(map).wf(),
        ensures
            final(self).wf(),
            final(map).wf(),
            res is Ok <==> old(r).remaining().len() >= 7,
            res is Ok ==> final(r).remaining() == old(r).remaining().skip(7),
            res is Err ==> res == Err::<(), PacketError>(PacketError::Read(ReadError::UnexpectedEof))
                && final(self)@ == old(self)@ && final(map)@ == old(map)@,
            res is Ok ==> ({
                let b = old(r).remaining();
                state_of(final(self)@, final(map)@) == push_step(
                    state_of(old(self)@, old(map)@),
                    Position { x: b[0] as u16, y: b[1] as u16, z: 7 },
                    le16(b[2], b[3]),
                    Position { x: b[5] as u16, y: b[6] as u16, z: 7 },
                )
            }),
    {
        let ghost b = r.remaining();
        let from_screen = match r.read_position() {
            Ok(p) => p,
            Err(e) => return Err(PacketError::Read(e)),
        };
        let item_id = match r.read_u16_le() {
            Ok(v) => v,
            Err(e) => return Err(PacketError::Read(e)),
        };
        if let Err(e) = r.read_u8() {
            return Err(PacketError::Read(e));
        }
        let to_screen = match r.read_position() {
            Ok(p) => p,
            Err(e) => return Err(PacketError::Read(e)),
        };
        let ghost s0 = state_of(self@, map@);
        let me = self.player.position;
        let from = decode_location_exec(me, from_screen);
        let to = decode_location_exec(me, to_screen);
        let props = item_properties(item_id);
        if let Location::OnMap(fp) = from {
            if abs_diff(fp.x, me.x) > 1 || abs_diff(fp.y, me.y) > 1 {
                self.enqueue_sorry();
                return Ok(());
            }
        }
        let removed = match from {
            Location::OnMap(fp) => self.take_from_map_exec(map, fp, to, item_id, props),
            Location::Equipment(slot) => self.take_from_equipment_exec(map, slot, to, item_id),
            Location::Container(lid) => self.take_from_window_exec(map, lid, item_id),
        };
        if !removed {
            return Ok(());
        }
        if let Location::OnMap(tp) = to {
            if tile_holds_container(map, tp) {
                self.give_back_exec(map, from, item_id);
                return Ok(());
            }
        }
        match to {
            Location::OnMap(tp) => self.place_on_map_exec(map, from, tp, item_id, props),
            Location::Container(lid) => self.place_in_window_exec(map, from, to, lid, item_id),
            Location::Equipment(slot) => {
                match self.player.equipment.get(&slot) {
                    Some(held) => {
                        if is_container(*held) {
                            self.place_in_window_exec(map, from, to, slot, item_id);
                        } else {
                            self.give_back_exec(map, from, item_id);
                        }
                    },
                    None => self.place_in_equipment_exec(map, from, slot, item_id),
                }
            },
        }
        Ok(())
    }
}

/// The location a screen coordinate of a push names, see [`decode_location`].
fn decode_location_exec(me: Position, screen: Position) -> (l: Location)
    requires
        screen.x < 256,
        screen.y < 256,
    ensures
        l == decode_location(me, screen),
{
    if screen.x == 0x00FF {
        if screen.y >= 0x0014 {
            Location::Container((screen.y - 0x0014) as u8)
        } else {
            Location::Equipment(screen.y as u8)
        }
    } else {
        Location::OnMap(super::look::screen_to_map_pos(me, screen))
    }
}

/// Dragging the topmost item of a tile (the first item above its bottom object) and
/// having the drop refused leaves the map as it was.
pub proof fn lemma_refused_drag_restores_map(s: PushState, fp: Position, to: Location, id: u16, props: ItemProperties)
    requires
        take_from_map(s, fp, to, id, props).1,
        s.map.tiles[fp].len() >= 2,
        s.map.tiles[fp][0] != TileObject::Item(id),
        s.map.tiles[fp][1] == TileObject::Item(id),
    ensures
        give_back(take_from_map(s, fp, to, id, props).0, Location::OnMap(fp), id).map == s.map,
{
    let t = s.map.tiles[fp];
    let x = TileObject::Item(id);
    let u = t.drop_first();
    assert(u[0] == x);
    assert(remove_first(u, x) == u.drop_first());
    let r = remove_first(t, x);
    assert(r == seq![t[0]] + u.drop_first());
    assert(t.contains(x)) by {
        assert(t[1] == x);
    }
    let m1 = s.map.with_item_removed(fp, id);
    assert(m1.tiles[fp] == r);
    assert(insert_on_top(r, x) =~= t);
    assert(m1.with_item_added(fp, id).tiles =~= s.map.tiles);
}

/// A push from the map of an item that cannot be moved, or that is not on the tile the
/// push names (say, because the player moved meanwhile), changes nothing but the status
/// bar, which shows the refusal.
pub proof fn lemma_unmovable_push_refused(s: PushState, from_screen: Position, id: u16, to_screen: Position)
    requires
        decode_location(s.conn.player.position, from_screen) matches Location::OnMap(fp) && (
            !spec_item_properties(id).movable || !item_on_tile(s.map, fp, id)),
    ensures
        push_step(s, from_screen, id, to_screen) == refuse(s),
{
}

/// A throw from one map tile to another is refused, and the item put back on the tile
/// it came from, whenever a tile strictly inside the line of the throw holds an object
/// that blocks projectiles. The line runs from `fp` to `tp` in `steps` steps, the
/// longer distance from where the range is measured (the player for short-range items,
/// the item itself for long-range ones); step `i` lands on `fp` plus `i / steps` of the
/// way, rounded toward `fp`.
pub proof fn lemma_wall_blocks_throw(s: PushState, fp: Position, tp: Position, id: u16, props: ItemProperties, i: int, j: int)
    requires
        ({
            let me = s.conn.player.position;
            let rp = if props.range < 8 { me } else { fp };
            let steps: int = if dx(tp, rp) >= dy(tp, rp) { dx(tp, rp) as int } else { dy(tp, rp) as int };
            let q = Position {
                x: (fp.x + div_toward_zero((tp.x - fp.x) * i, steps)) as u16,
                y: (fp.y + div_toward_zero((tp.y - fp.y) * i, steps)) as u16,
                z: me.z,
            };
            &&& 1 <= i < steps
            &&& s.map.visible_tile(q) is Some
            &&& 0 <= j < s.map.visible_tile(q)->0.len()
            &&& spec_item_properties(object_id(s.map.visible_tile(q)->0[j])).blocks_projectiles
        }),
    ensures
        place_on_map(s, Location::OnMap(fp), tp, id, props) == refuse(set_map(s, s.map.with_item_added(fp, id))),
{
    let me = s.conn.player.position;
    let rp = if props.range < 8 { me } else { fp };
    let ddx = dx(tp, rp);
    let ddy = dy(tp, rp);
    let steps: int = if ddx >= ddy { ddx as int } else { ddy as int };
    let q = line_point(fp, tp, i, steps, me.z);
    assert(blocks_throw(s.map, q));
    if !(ddx > props.range || ddy > props.range) {
        assert(line_blocked(s.map, fp, tp, if ddx >= ddy { ddx } else { ddy }, me.z));
    }
}

} // verus!
