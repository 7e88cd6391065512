//! Outgoing packets: building each packet's bytes, queueing and framing them.

use vstd::prelude::*;
use vstd::utf8::encode_utf8;
use super::{Connection, queue_pop, queue_push};
use crate::chat::ChatType;
use crate::chat::spec_chat_type_byte;
use crate::chat::encoding::{spec_translate, translate};
use crate::io::{WriteExt, le16_bytes, packet_header, outfit_bytes, gender_byte, fixed_field, position_bytes};
use crate::map::{GameMap, MapView, TileObject, object_id};
use crate::map::position::{Position, wrap_u16};
use crate::network::packet::{PacketIds, PacketOut};
use crate::player::{Direction, Gender, InventorySlot, OpenContainer, OutfitColors, Player, PlayerView, ContainerView};
use crate::world::message::players_view;
use crate::util::lemma_encode_utf8_concat;

verus! {

broadcast use vstd::string::group_string_axioms;

/// The length field that frames a packet: its length plus two, modulo 2^16.
pub open spec fn frame_length(len: nat) -> u16 {
    (((len % 65536) + 2) % 65536) as u16
}

/// All queued packets, each framed by its length field, oldest first.
pub open spec fn frames(q: Seq<Seq<u8>>) -> Seq<u8>
    decreases q.len(),
{
    if q.len() == 0 {
        Seq::empty()
    } else {
        frames(q.drop_last()) + le16_bytes(frame_length(q.last().len())) + q.last()
    }
}

/// The queue after one packet is offered to it: empty packets are dropped.
pub open spec fn enqueued(q: Seq<Seq<u8>>, msg: Seq<u8>) -> Seq<Seq<u8>> {
    if msg.len() > 0 {
        q.push(msg)
    } else {
        q
    }
}

/// The queue after the packets `msgs` are offered to it in order.
pub open spec fn enqueued_all(q: Seq<Seq<u8>>, msgs: Seq<Seq<u8>>) -> Seq<Seq<u8>>
    decreases msgs.len(),
{
    if msgs.len() == 0 {
        q
    } else {
        enqueued(enqueued_all(q, msgs.drop_last()), msgs.last())
    }
}

/// The frames of the non-empty packets among `msgs`, in order: each packet's length
/// field followed by the packet.
pub open spec fn frames_of_nonempty(msgs: Seq<Seq<u8>>) -> Seq<u8>
    decreases msgs.len(),
{
    if msgs.len() == 0 {
        Seq::empty()
    } else if msgs.last().len() > 0 {
        frames_of_nonempty(msgs.drop_last()) + le16_bytes(frame_length(msgs.last().len())) + msgs.last()
    } else {
        frames_of_nonempty(msgs.drop_last())
    }
}

/// Framing the queue after packets are offered to it gives the frames of what was
/// queued before, then one frame for each non-empty packet offered, in order; a packet
/// of at most 65533 bytes is framed by its length plus two.
pub proof fn lemma_frames_enqueued(q: Seq<Seq<u8>>, msgs: Seq<Seq<u8>>, m: Seq<u8>)
    ensures
        frames(enqueued_all(q, msgs)) == frames(q) + frames_of_nonempty(msgs),
        m.len() <= 65533 ==> frame_length(m.len()) as int == m.len() + 2,
    decreases msgs.len(),
{
    if msgs.len() > 0 {
        lemma_frames_enqueued(q, msgs.drop_last(), m);
        let prev = enqueued_all(q, msgs.drop_last());
        let last = msgs.last();
        if last.len() > 0 {
            assert(prev.push(last).drop_last() =~= prev);
            assert(frames(prev.push(last)) == frames(prev) + le16_bytes(frame_length(last.len())) + last);
            assert(frames(q) + frames_of_nonempty(msgs.drop_last()) + le16_bytes(frame_length(last.len())) + last
                =~= frames(q) + (frames_of_nonempty(msgs.drop_last()) + le16_bytes(frame_length(last.len())) + last));
        }
    } else {
        assert(frames(q) + Seq::<u8>::empty() =~= frames(q));
    }
}

/// The header of an outgoing packet of type `p`.
pub open spec fn header(ids: PacketIds, p: PacketOut) -> Seq<u8> {
    packet_header(ids.spec_out(p))
}

/// A status bar message packet.
pub open spec fn status_packet(ids: PacketIds, msg: Seq<char>) -> Seq<u8> {
    header(ids, PacketOut::StatusMessage) + encode_utf8(msg) + seq![0u8]
}

/// A message-of-the-day packet.
pub open spec fn motd_packet(ids: PacketIds, msg: Seq<char>) -> Seq<u8> {
    header(ids, PacketOut::MessageOfTheDay) + encode_utf8(msg) + seq![0u8]
}

/// A packet placing `item` into equipment slot `slot`.
pub open spec fn equipped_packet(ids: PacketIds, slot: u8, item: u16) -> Seq<u8> {
    header(ids, PacketOut::EquippedItem) + le16_bytes(item) + seq![slot]
}

/// A packet clearing an equipment slot.
pub open spec fn remove_equipped_packet(ids: PacketIds, slot: u8) -> Seq<u8> {
    header(ids, PacketOut::RemoveEquipped) + seq![slot]
}

/// A packet closing a container window.
pub open spec fn close_container_packet(ids: PacketIds, local_id: u8) -> Seq<u8> {
    header(ids, PacketOut::CloseContainer) + seq![local_id]
}

/// The item ids of a container, two bytes each.
pub open spec fn items_bytes(items: Seq<u16>) -> Seq<u8>
    decreases items.len(),
{
    if items.len() == 0 {
        Seq::empty()
    } else {
        items_bytes(items.drop_last()) + le16_bytes(items.last())
    }
}

/// A packet opening (or refreshing) a container window.
pub open spec fn open_container_packet(ids: PacketIds, c: ContainerView) -> Seq<u8> {
    header(ids, PacketOut::OpenContainer) + seq![c.local_id] + le16_bytes(c.container_id)
        + items_bytes(c.items) + le16_bytes(0xFFFF)
}

/// The "Change Data" window packet, pre-filled with a player's profile.
pub open spec fn data_window_packet(ids: PacketIds, p: PlayerView) -> Seq<u8> {
    header(ids, PacketOut::DataWindow) + fixed_field(encode_utf8(p.name), 30) + fixed_field(
        encode_utf8(p.password),
        30,
    ) + seq![gender_byte(p.gender)] + outfit_bytes(p.outfit) + fixed_field(encode_utf8(p.real_name), 50)
        + fixed_field(encode_utf8(p.location), 50) + fixed_field(encode_utf8(p.email), 50)
}

/// Names, each followed by a newline.
pub open spec fn name_lines(ps: Seq<PlayerView>) -> Seq<u8>
    decreases ps.len(),
{
    if ps.len() == 0 {
        Seq::empty()
    } else {
        name_lines(ps.drop_last()) + encode_utf8(ps.last().name) + seq![0x0Au8]
    }
}

/// The user list packet: this player's name, then every other visible player's name.
pub open spec fn user_list_packet(ids: PacketIds, me: PlayerView, others: Seq<PlayerView>) -> Seq<u8> {
    header(ids, PacketOut::UserList) + le16_bytes(0x1010) + encode_utf8(me.name) + seq![0x0Au8]
        + name_lines(others) + seq![0u8]
}

/// How a gender is written in a player's info.
pub open spec fn gender_text(g: Gender) -> Seq<char> {
    match g {
        Gender::Male => "Male"@,
        Gender::Female => "Female"@,
    }
}

/// The text of a player's info popup.
pub open spec fn user_info_text(p: PlayerView) -> Seq<char> {
    "Name: "@ + p.name + "\nReal name: "@ + p.real_name + "\nLocation: "@ + p.location + "\nEmail: "@
        + p.email + "\nSex: "@ + gender_text(p.gender)
}

/// The player info popup packet.
pub open spec fn user_info_packet(ids: PacketIds, p: PlayerView) -> Seq<u8> {
    header(ids, PacketOut::UserInfo) + le16_bytes(0x1010) + encode_utf8(user_info_text(p)) + seq![0u8]
}

/// A value clamped to the range `[lo, hi]`.
pub open spec fn clamp(v: int, lo: int, hi: int) -> int {
    if v < lo {
        lo
    } else if v > hi {
        hi
    } else {
        v
    }
}

/// What precedes a chat message: nothing for an anonymous message, otherwise the
/// speaker's name (with "Broadcast from " or "Message from " in front for broadcasts
/// and private messages) and a TAB.
pub open spec fn speaker_prefix(ty: ChatType, name: Seq<char>) -> Seq<u8> {
    if name.len() == 0 {
        Seq::empty()
    } else {
        match ty {
            ChatType::Broadcast => encode_utf8("Broadcast from "@) + encode_utf8(name) + seq![0x09u8],
            ChatType::Private => encode_utf8("Message from "@) + encode_utf8(name) + seq![0x09u8],
            _ => encode_utf8(name) + seq![0x09u8],
        }
    }
}

/// A chat packet: the sender's position relative to this player's screen (8, 6),
/// clamped to the visible area, then the chat type, the speaker and the text.
pub open spec fn chat_packet(
    ids: PacketIds,
    me: Position,
    ty: ChatType,
    text: Seq<u8>,
    sender: Position,
    name: Seq<char>,
) -> Seq<u8> {
    header(ids, PacketOut::Chat) + seq![
        clamp(8 + sender.x - me.x, 0, 14) as u8,
        clamp(6 + sender.y - me.y, 0, 11) as u8,
        spec_chat_type_byte(ty),
    ] + speaker_prefix(ty, name) + text + seq![0u8]
}

/// A look message packet, shown at the centre of the screen.
pub open spec fn look_packet(ids: PacketIds, text: Seq<char>) -> Seq<u8> {
    header(ids, PacketOut::Chat) + seq![8u8, 7u8, spec_chat_type_byte(ChatType::Look)] + spec_translate(
        text,
    ) + seq![0u8]
}

/// The outfit sprite for a facing direction.
pub open spec fn sprite(d: Direction) -> u8 {
    match d {
        Direction::North => 0xFA,
        Direction::East => 0xFB,
        Direction::South => 0xFC,
        Direction::West => 0xFD,
    }
}

/// A player drawn on a tile: the sprite for their direction and their outfit colors.
pub open spec fn creature_bytes(p: PlayerView) -> Seq<u8> {
    seq![sprite(p.direction)] + outfit_bytes(p.outfit)
}

/// The other players standing on `pos`, drawn in list order.
pub open spec fn others_at(others: Seq<PlayerView>, pos: Position) -> Seq<u8>
    decreases others.len(),
{
    if others.len() == 0 {
        Seq::empty()
    } else {
        others_at(others.drop_last(), pos) + if others.last().position == pos {
            creature_bytes(others.last())
        } else {
            Seq::empty()
        }
    }
}

/// The ids of a run of tile objects, two bytes each.
pub open spec fn objects_bytes(objs: Seq<TileObject>) -> Seq<u8>
    decreases objs.len(),
{
    if objs.len() == 0 {
        Seq::empty()
    } else {
        objects_bytes(objs.drop_last()) + le16_bytes(object_id(objs.last()))
    }
}

/// One tile on the wire: the ground, this player if standing there, the other players
/// standing there, the remaining objects, and two `0xFF` terminator bytes. A tile
/// outside the map (or missing) shows only the players on it.
pub open spec fn tile_bytes(map: MapView, me: PlayerView, others: Seq<PlayerView>, pos: Position) -> Seq<u8> {
    let mine = if pos == me.position { creature_bytes(me) } else { Seq::empty() };
    let body = if map.visible_tile(pos) is Some {
        let objs = map.visible_tile(pos)->0;
        let ground = if objs.len() > 0 && objs[0] is Ground {
            le16_bytes(object_id(objs[0]))
        } else {
            Seq::empty()
        };
        let rest = if objs.len() > 0 { objects_bytes(objs.drop_first()) } else { Seq::empty() };
        ground + mine + others_at(others, pos) + rest
    } else if pos == me.position {
        mine
    } else {
        others_at(others, pos)
    };
    body + seq![0xFFu8, 0xFFu8]
}

/// The tiles of one column of the viewport, top row first.
pub open spec fn column_bytes(
    map: MapView,
    me: PlayerView,
    others: Seq<PlayerView>,
    corner: Position,
    x: int,
    rows: int,
) -> Seq<u8>
    decreases rows,
{
    if rows <= 0 {
        Seq::empty()
    } else {
        column_bytes(map, me, others, corner, x, rows - 1) + tile_bytes(
            map,
            me,
            others,
            Position { x: wrap_u16(corner.x + x), y: wrap_u16(corner.y + rows - 1), z: corner.z },
        )
    }
}

/// The tiles of the viewport, column by column.
pub open spec fn grid_bytes(
    map: MapView,
    me: PlayerView,
    others: Seq<PlayerView>,
    corner: Position,
    cols: int,
    rows: int,
) -> Seq<u8>
    decreases cols,
{
    if cols <= 0 {
        Seq::empty()
    } else {
        grid_bytes(map, me, others, corner, cols - 1, rows) + column_bytes(map, me, others, corner, cols - 1, rows)
    }
}

/// The top-left tile of a `width` by `height` viewport centred on `center`.
pub open spec fn viewport_corner(center: Position, width: u16, height: u16) -> Position {
    Position {
        x: if center.x >= (width - 1) / 2 { (center.x - (width - 1) / 2) as u16 } else { 0 },
        y: if center.y >= (height - 1) / 2 { (center.y - (height - 1) / 2) as u16 } else { 0 },
        z: center.z,
    }
}

/// The tile payload of a map packet: every tile of the viewport, with the last byte
/// replaced by `0xFE`, and a `0x00` terminator.
pub open spec fn map_data(
    map: MapView,
    me: PlayerView,
    others: Seq<PlayerView>,
    center: Position,
    width: u16,
    height: u16,
) -> Seq<u8> {
    let g = grid_bytes(map, me, others, viewport_corner(center, width, height), width as int, height as int);
    (if g.len() > 0 { g.update(g.len() - 1, 0xFEu8) } else { g }).push(0u8)
}

/// The full map packet for a viewport centred on `center`.
pub open spec fn map_packet(
    ids: PacketIds,
    map: MapView,
    me: PlayerView,
    others: Seq<PlayerView>,
    center: Position,
    width: u16,
    height: u16,
) -> Seq<u8> {
    header(ids, PacketOut::MapData) + position_bytes(center) + map_data(map, me, others, center, width, height)
}

/// The equipment packets of the login sequence: one per occupied slot from 1 to 8, in
/// slot order.
pub open spec fn equipment_packets(ids: PacketIds, equipment: vstd::map::Map<u8, u16>, n: int) -> Seq<Seq<u8>>
    decreases n,
{
    if n <= 0 {
        Seq::empty()
    } else {
        equipment_packets(ids, equipment, n - 1) + if equipment.contains_key(n as u8) {
            seq![equipped_packet(ids, n as u8, equipment[n as u8])]
        } else {
            Seq::empty()
        }
    }
}

impl Connection {
    /// Pushes a packet onto the outgoing queue. Empty packets are dropped.
    pub fn enqueue(&mut self, msg: Vec<u8>)
        ensures
            final(self).queued() == if msg@.len() > 0 { old(self).queued().push(msg@) } else { old(self).queued() },
            final(self).queued() == enqueued(old(self).queued(), msg@),
            final(self).outbox() == old(self).outbox(),
            final(self).player == old(self).player,
            final(self).other_players == old(self).other_players,
            final(self).pending_path == old(self).pending_path,
            final(self).ids == old(self).ids,
    {
        if msg.len() > 0 {
            queue_push(&mut self.message_queue, msg);
        }
    }

    /// Drains the outgoing queue and returns the bytes to write to the socket.
    ///
    /// Each packet is framed as a `u16` little-endian length (`payload_len + 2`)
    /// followed by the raw payload bytes, oldest packet first.
    pub fn take_frames(&mut self) -> (bytes: Vec<u8>)
        ensures
            bytes@ == frames(old(self).queued()),
            final(self).queued().len() == 0,
            final(self).outbox() == old(self).outbox(),
            final(self).player == old(self).player,
            final(self).other_players == old(self).other_players,
            final(self).pending_path == old(self).pending_path,
            final(self).ids == old(self).ids,
    {
        let ghost q = self.queued();
        let mut out: Vec<u8> = Vec::new();
        let ghost mut k: int = 0;
        loop
            invariant
                0 <= k <= q.len(),
                self.queued() == q.skip(k),
                out@ == frames(q.take(k)),
                self.outbox() == old(self).outbox(),
                self.player == old(self).player,
                self.other_players == old(self).other_players,
                self.pending_path == old(self).pending_path,
                self.ids == old(self).ids,
                q == old(self).queued(),
            ensures
                out@ == frames(q),
                self.queued().len() == 0,
                self.outbox() == old(self).outbox(),
                self.player == old(self).player,
                self.other_players == old(self).other_players,
                self.pending_path == old(self).pending_path,
                self.ids == old(self).ids,
            decreases q.len() - k,
        {
            let msg = match queue_pop(&mut self.message_queue) {
                Some(m) => m,
                None => {
                    proof {
                        assert(q.take(k) =~= q);
                    }
                    break;
                },
            };
            let framed: u16 = (((msg.len() % 65536) as u32 + 2) % 65536) as u16;
            out.write_u16_le(framed);
            out.write_all(msg.as_slice());
            proof {
                assert(q.take(k + 1).drop_last() =~= q.take(k));
                assert(q.take(k + 1).last() == msg@);
                assert(q.skip(k).drop_first() =~= q.skip(k + 1));
                k = k + 1;
            }
        }
        out
    }

    /// Builds a login confirmation packet.
    fn send_login(&self) -> (pkt: Vec<u8>)
        ensures
            pkt@ == header(self.ids, PacketOut::Login),
    {
        let mut buf: Vec<u8> = Vec::new();
        buf.write_packet(self.ids.out(PacketOut::Login));
        buf
    }

    /// Builds a status bar message packet (displayed in the bottom-left of the client).
    pub fn send_status_message(&self, message: &str) -> (pkt: Vec<u8>)
        ensures
            pkt@ == status_packet(self.ids, message@),
    {
        let mut buf: Vec<u8> = Vec::new();
        buf.write_packet(self.ids.out(PacketOut::StatusMessage));
        buf.write_null_terminated_string(message);
        buf
    }

    /// Builds a Message of the Day packet (displayed upon login).
    pub fn send_message_of_the_day(&self, message: &str) -> (pkt: Vec<u8>)
        ensures
            pkt@ == motd_packet(self.ids, message@),
    {
        let mut buf: Vec<u8> = Vec::new();
        buf.write_packet(self.ids.out(PacketOut::MessageOfTheDay));
        buf.write_null_terminated_string(message);
        buf
    }

    /// Builds a packet that places `item_id` into the given inventory `slot`.
    pub fn send_equipped_item(&self, slot: InventorySlot, item_id: u16) -> (pkt: Vec<u8>)
        ensures
            pkt@ == equipped_packet(self.ids, slot.spec_to_u8(), item_id),
    {
        let mut buf: Vec<u8> = Vec::new();
        buf.write_packet(self.ids.out(PacketOut::EquippedItem));
        buf.write_u16_le(item_id);
        buf.write_u8(slot.to_u8());
        proof {
            assert(buf@ =~= equipped_packet(self.ids, slot.spec_to_u8(), item_id));
        }
        buf
    }

    /// Builds a packet that clears the given inventory slot on the client.
    pub fn send_remove_equipped(&self, slot: u8) -> (pkt: Vec<u8>)
        ensures
            pkt@ == remove_equipped_packet(self.ids, slot),
    {
        let mut buf: Vec<u8> = Vec::new();
        buf.write_packet(self.ids.out(PacketOut::RemoveEquipped));
        buf.write_u8(slot);
        buf
    }

    /// Builds the "Change Data" window packet, pre-filled with the player's current profile.
    pub fn send_data_window(&self) -> (pkt: Vec<u8>)
        requires
            self.player.outfit.wf(),
        ensures
            pkt@ == data_window_packet(self.ids, self.player@),
    {
        let mut buf: Vec<u8> = Vec::new();
        buf.write_packet(self.ids.out(PacketOut::DataWindow));
        buf.write_fixed_string(self.player.name.as_str(), 30);
        buf.write_fixed_string(self.player.password.as_str(), 30);
        buf.write_gender(self.player.gender);
        buf.write_outfit_colors(self.player.outfit);
        buf.write_fixed_string(self.player.real_name.as_str(), 50);
        buf.write_fixed_string(self.player.location.as_str(), 50);
        buf.write_fixed_string(self.player.email.as_str(), 50);
        proof {
            assert(buf@ =~= data_window_packet(self.ids, self.player@));
        }
        buf
    }

    /// Builds the user list packet (Menu: Info -> Userlist).
    ///
    /// The requesting player's own name is written first, followed by all other online
    /// players, each followed by a newline, and a terminating null byte.
    pub fn send_user_list(&self) -> (pkt: Vec<u8>)
        ensures
            pkt@ == user_list_packet(self.ids, self.player@, self.others()),
    {
        let mut buf: Vec<u8> = Vec::new();
        buf.write_packet(self.ids.out(PacketOut::UserList));
        buf.write_u16_le(0x1010);
        buf.write_all(self.player.name.as_str().as_bytes());
        buf.write_u8(0x0A);
        let ghost start = buf@;
        let ghost others = self.others();
        let mut i: usize = 0;
        while i < self.other_players.len()
            invariant
                i <= self.other_players@.len(),
                others == players_view(self.other_players@),
                buf@ == start + name_lines(others.take(i as int)),
            decreases self.other_players.len() - i,
        {
            buf.write_all(self.other_players[i].name.as_str().as_bytes());
            buf.write_u8(0x0A);
            proof {
                assert(others.take(i + 1).drop_last() =~= others.take(i as int));
                assert(buf@ =~= start + name_lines(others.take(i + 1)));
            }
            i = i + 1;
        }
        buf.write_u8(0);
        proof {
            assert(others.take(self.other_players@.len() as int) =~= others);
            assert(buf@ =~= user_list_packet(self.ids, self.player@, self.others()));
        }
        buf
    }

    /// Builds the player info popup packet (Menu: Info -> Userlist -> {player} -> Info).
    #[verifier::spinoff_prover]
    #[verifier::rlimit(40)]
    pub fn send_user_info(&self, player: &Player) -> (pkt: Vec<u8>)
        ensures
            pkt@ == user_info_packet(self.ids, player@),
    {
        let mut buf: Vec<u8> = Vec::new();
        buf.write_packet(self.ids.out(PacketOut::UserInfo));
        buf.write_u16_le(0x1010);
        buf.write_all("Name: ".as_bytes());
        buf.write_all(player.name.as_str().as_bytes());
        buf.write_all("\nReal name: ".as_bytes());
        buf.write_all(player.real_name.as_str().as_bytes());
        buf.write_all("\nLocation: ".as_bytes());
        buf.write_all(player.location.as_str().as_bytes());
        buf.write_all("\nEmail: ".as_bytes());
        buf.write_all(player.email.as_str().as_bytes());
        buf.write_all("\nSex: ".as_bytes());
        match player.gender {
            Gender::Male => buf.write_all("Male".as_bytes()),
            Gender::Female => buf.write_all("Female".as_bytes()),
        }
        buf.write_u8(0);
        proof {
            let p = player@;
            lemma_encode_utf8_concat("Name: "@, p.name);
            lemma_encode_utf8_concat("Name: "@ + p.name, "\nReal name: "@);
            lemma_encode_utf8_concat("Name: "@ + p.name + "\nReal name: "@, p.real_name);
            lemma_encode_utf8_concat("Name: "@ + p.name + "\nReal name: "@ + p.real_name, "\nLocation: "@);
            lemma_encode_utf8_concat("Name: "@ + p.name + "\nReal name: "@ + p.real_name + "\nLocation: "@, p.location);
            lemma_encode_utf8_concat("Name: "@ + p.name + "\nReal name: "@ + p.real_name + "\nLocation: "@ + p.location, "\nEmail: "@);
            lemma_encode_utf8_concat("Name: "@ + p.name + "\nReal name: "@ + p.real_name + "\nLocation: "@ + p.location + "\nEmail: "@, p.email);
            lemma_encode_utf8_concat("Name: "@ + p.name + "\nReal name: "@ + p.real_name + "\nLocation: "@ + p.location + "\nEmail: "@ + p.email, "\nSex: "@);
            lemma_encode_utf8_concat("Name: "@ + p.name + "\nReal name: "@ + p.real_name + "\nLocation: "@ + p.location + "\nEmail: "@ + p.email + "\nSex: "@, gender_text(p.gender));
            assert(buf@ =~= user_info_packet(self.ids, player@));
        }
        buf
    }

    /// Builds an open-container packet for the given container window.
    ///
    /// `c.local_id` is the window slot on the client (0-based). Sending the same
    /// `local_id` again replaces the existing window in place, which is used both when
    /// adding items and when navigating into a sub-container. The icon always comes from
    /// `c.container_id`, never from the items placed inside it.
    pub fn send_open_container(&self, c: &OpenContainer) -> (pkt: Vec<u8>)
        ensures
            pkt@ == open_container_packet(self.ids, c@),
    {
        let mut buf: Vec<u8> = Vec::new();
        buf.write_packet(self.ids.out(PacketOut::OpenContainer));
        buf.write_u8(c.local_id);
        buf.write_u16_le(c.container_id);
        let ghost start = buf@;
        let mut i: usize = 0;
        while i < c.items.len()
            invariant
                i <= c.items@.len(),
                buf@ == start + items_bytes(c.items@.take(i as int)),
            decreases c.items.len() - i,
        {
            buf.write_u16_le(c.items[i]);
            proof {
                assert(c.items@.take(i + 1).drop_last() =~= c.items@.take(i as int));
                assert(buf@ =~= start + items_bytes(c.items@.take(i + 1)));
            }
            i = i + 1;
        }
        buf.write_u16_le(0xFFFF);
        proof {
            assert(c.items@.take(c.items@.len() as int) =~= c.items@);
            assert(buf@ =~= open_container_packet(self.ids, c@));
        }
        buf
    }

    /// Builds a close-container packet; `local_id` must match the id the window was opened with.
    pub fn send_close_container(&self, local_id: u8) -> (pkt: Vec<u8>)
        ensures
            pkt@ == close_container_packet(self.ids, local_id),
    {
        let mut buf: Vec<u8> = Vec::new();
        buf.write_packet(self.ids.out(PacketOut::CloseContainer));
        buf.write_u8(local_id);
        buf
    }

    /// Builds a chat packet anchored to the sender's screen position.
    ///
    /// The sender's map position is converted to a screen-space coordinate relative to
    /// this player's viewport and clamped to the visible area. The chat bubble appears at
    /// that screen position on the client.
    pub fn build_chat_packet(
        &self,
        chat_type: ChatType,
        encoded: &[u8],
        sender_pos: Position,
        sender_name: &str,
    ) -> (pkt: Vec<u8>)
        ensures
            pkt@ == chat_packet(self.ids, self.player.position, chat_type, encoded@, sender_pos, sender_name@),
    {
        let dx: i32 = sender_pos.x as i32 - self.player.position.x as i32;
        let dy: i32 = sender_pos.y as i32 - self.player.position.y as i32;
        let sx: i32 = 8 + dx;
        let sy: i32 = 6 + dy;
        let screen_x: u8 = if sx < 0 { 0 } else if sx > 14 { 14 } else { sx as u8 };
        let screen_y: u8 = if sy < 0 { 0 } else if sy > 11 { 11 } else { sy as u8 };

        let mut buf: Vec<u8> = Vec::new();
        buf.write_packet(self.ids.out(PacketOut::Chat));
        buf.write_u8(screen_x);
        buf.write_u8(screen_y);
        buf.write_u8(chat_type.to_u8());
        let ghost before_name = buf@;
        if !sender_name.is_empty() {
            match chat_type {
                ChatType::Broadcast => {
                    buf.write_all("Broadcast from ".as_bytes());
                    buf.write_all(sender_name.as_bytes());
                    buf.write_u8(0x09);
                },
                ChatType::Private => {
                    buf.write_all("Message from ".as_bytes());
                    buf.write_all(sender_name.as_bytes());
                    buf.write_u8(0x09);
                },
                _ => {
                    buf.write_all(sender_name.as_bytes());
                    buf.write_u8(0x09);
                },
            }
        }
        proof {
            assert(buf@ =~= before_name + speaker_prefix(chat_type, sender_name@));
        }
        buf.write_all(encoded);
        buf.write_u8(0);
        proof {
            assert(buf@ =~= chat_packet(self.ids, self.player.position, chat_type, encoded@, sender_pos, sender_name@));
        }
        buf
    }

    /// Builds a look message packet, displayed at the centre of the player's screen.
    pub fn send_look_message(&self, text: &str) -> (pkt: Vec<u8>)
        ensures
            pkt@ == look_packet(self.ids, text@),
    {
        let encoded = translate(text);
        let mut buf: Vec<u8> = Vec::new();
        buf.write_packet(self.ids.out(PacketOut::Chat));
        buf.write_u8(8);
        buf.write_u8(7);
        buf.write_u8(ChatType::Look.to_u8());
        buf.write_all(encoded.as_slice());
        buf.write_u8(0);
        proof {
            assert(buf@ =~= look_packet(self.ids, text@));
        }
        buf
    }
}

/// Adds an offset to a coordinate, wrapping around modulo 2^16.
fn coord_add(base: u16, off: u16) -> (r: u16)
    ensures
        r == wrap_u16(base + off),
{
    let s: u32 = base as u32 + off as u32;
    if s >= 0x10000 {
        (s - 0x10000) as u16
    } else {
        s as u16
    }
}

impl Connection {
    /// Builds the creature bytes for a player: the outfit sprite for the facing
    /// direction, then the outfit colors.
    fn build_creature(p: &Player) -> (b: Vec<u8>)
        requires
            p.outfit.wf(),
        ensures
            b@ == creature_bytes(p@),
    {
        let mut buf: Vec<u8> = Vec::new();
        let sprite: u8 = match p.direction {
            Direction::North => 0xFA,
            Direction::East => 0xFB,
            Direction::South => 0xFC,
            Direction::West => 0xFD,
        };
        buf.write_u8(sprite);
        buf.write_outfit_colors(p.outfit);
        proof {
            assert(buf@ =~= creature_bytes(p@));
        }
        buf
    }

    /// Builds the creature bytes for this player.
    fn build_player_creature(&self) -> (b: Vec<u8>)
        requires
            self.wf(),
        ensures
            b@ == creature_bytes(self.player@),
    {
        Self::build_creature(&self.player)
    }

    /// Builds the creature bytes for another player.
    fn build_other_player_creature(&self, other: &Player) -> (b: Vec<u8>)
        requires
            other.outfit.wf(),
        ensures
            b@ == creature_bytes(other@),
    {
        Self::build_creature(other)
    }

    /// Writes every other player standing on `pos`, in list order.
    fn write_others_at(&self, buf: &mut Vec<u8>, pos: Position)
        requires
            self.wf(),
        ensures
            final(buf)@ == old(buf)@ + others_at(self.others(), pos),
    {
        let ghost start = buf@;
        let ghost others = self.others();
        let mut i: usize = 0;
        while i < self.other_players.len()
            invariant
                self.wf(),
                i <= self.other_players@.len(),
                others == self.others(),
                buf@ == start + others_at(others.take(i as int), pos),
            decreases self.other_players.len() - i,
        {
            let other = &self.other_players[i];
            proof {
                assert(others.take(i + 1).drop_last() =~= others.take(i as int));
                assert(others.take(i + 1).last() == other@);
                assert(self.others()[i as int] == other@);
                assert(self.others()[i as int].outfit.wf());
            }
            if other.position == pos {
                let c = self.build_other_player_creature(other);
                buf.write_all(c.as_slice());
            }
            proof {
                assert(buf@ =~= start + others_at(others.take(i + 1), pos));
            }
            i = i + 1;
        }
        proof {
            assert(others.take(self.other_players@.len() as int) =~= others);
        }
    }

    /// Serializes a single tile into its wire format.
    ///
    /// Write order within a tile:
    /// 1. Ground object (`u16` id), if the stack starts with one.
    /// 2. This player's creature data, if standing on this tile.
    /// 3. Other players' creature data, for any standing on this tile.
    /// 4. Remaining stack objects.
    /// 5. Two `0xFF` terminator bytes.
    fn build_tile(&self, map: &GameMap, pos: Position) -> (b: Vec<u8>)
        requires
            self.wf(),
            map.wf(),
        ensures
            b@ == tile_bytes(map@, self.player@, self.others(), pos),
    {
        let mut buf: Vec<u8> = Vec::new();
        match map.get_tile_objects(pos) {
            Some(objects) => {
                if objects.len() > 0 {
                    match objects[0] {
                        TileObject::Ground(id) => buf.write_u16_le(id),
                        TileObject::Item(_) => {},
                    }
                }
                if pos == self.player.position {
                    let c = self.build_player_creature();
                    buf.write_all(c.as_slice());
                }
                self.write_others_at(&mut buf, pos);
                let ghost start = buf@;
                let ghost objs = objects@;
                let mut k: usize = 1;
                if objects.len() > 0 {
                    proof {
                        assert(objs.subrange(1, 1) =~= Seq::<TileObject>::empty());
                    }
                    while k < objects.len()
                        invariant
                            1 <= k <= objs.len(),
                            objs == objects@,
                            buf@ == start + objects_bytes(objs.subrange(1, k as int)),
                        decreases objects.len() - k,
                    {
                        let id = match objects[k] {
                            TileObject::Ground(id) => id,
                            TileObject::Item(id) => id,
                        };
                        buf.write_u16_le(id);
                        proof {
                            assert(objs.subrange(1, k + 1).drop_last() =~= objs.subrange(1, k as int));
                            assert(buf@ =~= start + objects_bytes(objs.subrange(1, k + 1)));
                        }
                        k = k + 1;
                    }
                    proof {
                        assert(objs.subrange(1, objs.len() as int) =~= objs.drop_first());
                    }
                }
            },
            None => {
                if pos == self.player.position {
                    let c = self.build_player_creature();
                    buf.write_all(c.as_slice());
                } else {
                    self.write_others_at(&mut buf, pos);
                }
            },
        }
        buf.write_u8(0xFF);
        buf.write_u8(0xFF);
        proof {
            assert(buf@ =~= tile_bytes(map@, self.player@, self.others(), pos));
        }
        buf
    }

    /// Builds the raw tile payload for a `width * height` viewport centred on `center`.
    ///
    /// After all tiles are serialized, the last byte is replaced with `0xFE` and a `0x00`
    /// map terminator is appended.
    fn build_map_data(&self, map: &GameMap, center: Position, width: u16, height: u16) -> (b: Vec<u8>)
        requires
            self.wf(),
            map.wf(),
            width >= 1,
            height >= 1,
        ensures
            b@ == map_data(map@, self.player@, self.others(), center, width, height),
    {
        let corner = Position::new(
            center.x.saturating_sub((width - 1) / 2),
            center.y.saturating_sub((height - 1) / 2),
            center.z,
        );
        proof {
            assert(corner == viewport_corner(center, width, height));
        }
        let ghost me = self.player@;
        let ghost others = self.others();
        let mut data: Vec<u8> = Vec::new();
        let mut x: u16 = 0;
        while x < width
            invariant
                self.wf(),
                map.wf(),
                x <= width,
                me == self.player@,
                others == self.others(),
                data@ == grid_bytes(map@, me, others, corner, x as int, height as int),
            decreases width - x,
        {
            let mut y: u16 = 0;
            let ghost col_start = data@;
            while y < height
                invariant
                    self.wf(),
                    map.wf(),
                    x < width,
                    y <= height,
                    me == self.player@,
                    others == self.others(),
                    col_start == grid_bytes(map@, me, others, corner, x as int, height as int),
                    data@ == col_start + column_bytes(map@, me, others, corner, x as int, y as int),
                decreases height - y,
            {
                let pos = Position::new(coord_add(corner.x, x), coord_add(corner.y, y), corner.z);
                let t = self.build_tile(map, pos);
                data.write_all(t.as_slice());
                y = y + 1;
                proof {
                    assert(data@ =~= col_start + column_bytes(map@, me, others, corner, x as int, y as int));
                }
            }
            x = x + 1;
        }
        let n = data.len();
        if n > 0 {
            data.set(n - 1, 0xFE);
        }
        data.push(0);
        data
    }

    /// Builds the full map packet for a `width * height` viewport centred on `center`.
    pub fn send_map(&self, map: &GameMap, center: Position, width: u16, height: u16) -> (pkt: Vec<u8>)
        requires
            self.wf(),
            map.wf(),
            width >= 1,
            height >= 1,
        ensures
            pkt@ == map_packet(self.ids, map@, self.player@, self.others(), center, width, height),
    {
        let mut buf: Vec<u8> = Vec::new();
        buf.write_packet(self.ids.out(PacketOut::MapData));
        buf.write_position(center);
        let data = self.build_map_data(map, center, width, height);
        buf.write_all(data.as_slice());
        buf
    }

    /// Queues the map packet for the 18 by 14 viewport centred on this player.
    pub fn enqueue_map(&mut self, map: &GameMap)
        requires
            old(self).wf(),
            map.wf(),
        ensures
            final(self).queued() == old(self).queued().push(
                map_packet(old(self).ids, map@, old(self).player@, old(self).others(), old(self).player.position, 18, 14),
            ),
            final(self).outbox() == old(self).outbox(),
            final(self).player == old(self).player,
            final(self).other_players == old(self).other_players,
            final(self).pending_path == old(self).pending_path,
            final(self).ids == old(self).ids,
    {
        let pos = self.player.position;
        let pkt = self.send_map(map, pos, 18, 14);
        proof {
            assert(pkt@.len() > 0) by {
                assert(header(self.ids, PacketOut::MapData).len() == 5);
            }
        }
        self.enqueue(pkt);
    }

    /// Queues the packets that establish the player's session after login.
    ///
    /// Order: login confirmation -> equipped items (by slot) -> initial map view ->
    /// status message -> message of the day. The map is drawn without other players;
    /// they appear once the world answers with the initial player list.
    pub fn send_login_sequence(&mut self, map: &GameMap, status_message: &str, message_of_the_day: &str)
        requires
            old(self).wf(),
            map.wf(),
        ensures
            final(self).queued() == old(self).queued() + seq![header(old(self).ids, PacketOut::Login)]
                + equipment_packets(old(self).ids, old(self).player@.equipment, 8) + seq![
                map_packet(old(self).ids, map@, old(self).player@, old(self).others(), old(self).player.position, 18, 14),
                status_packet(old(self).ids, status_message@),
                motd_packet(old(self).ids, message_of_the_day@),
            ],
            final(self).outbox() == old(self).outbox(),
            final(self).player == old(self).player,
            final(self).other_players == old(self).other_players,
            final(self).pending_path == old(self).pending_path,
            final(self).ids == old(self).ids,
    {
        let login = self.send_login();
        proof {
            assert(login@.len() == 5);
        }
        self.enqueue(login);
        let ghost after_login = self.queued();
        let mut slot: u8 = 1;
        while slot <= 8
            invariant
                1 <= slot <= 9,
                self.wf(),
                self.player == old(self).player,
                self.other_players == old(self).other_players,
                self.pending_path == old(self).pending_path,
                self.ids == old(self).ids,
                self.outbox() == old(self).outbox(),
                self.queued() == after_login + equipment_packets(self.ids, self.player@.equipment, slot - 1),
            decreases 9 - slot,
        {
            match self.player.equipment.get(&slot) {
                Some(item_id) => {
                    let item = *item_id;
                    match InventorySlot::from_u8(slot) {
                        Some(s) => {
                            let msg = self.send_equipped_item(s, item);
                            proof {
                                assert(msg@.len() > 0);
                            }
                            self.enqueue(msg);
                        },
                        None => {},
                    }
                },
                None => {},
            }
            proof {
                assert(self.queued() =~= after_login + equipment_packets(self.ids, self.player@.equipment, slot as int));
            }
            slot = slot + 1;
        }
        let pos = self.player.position;
        let map_pkt = self.send_map(map, pos, 18, 14);
        let status = self.send_status_message(status_message);
        let motd = self.send_message_of_the_day(message_of_the_day);
        proof {
            assert(map_pkt@.len() > 0 && status@.len() > 0 && motd@.len() > 0) by {
                assert(header(self.ids, PacketOut::MapData).len() == 5);
                assert(header(self.ids, PacketOut::StatusMessage).len() == 5);
                assert(header(self.ids, PacketOut::MessageOfTheDay).len() == 5);
            }
        }
        self.enqueue(map_pkt);
        self.enqueue(status);
        self.enqueue(motd);
        proof {
            assert(self.queued() =~= old(self).queued() + seq![header(old(self).ids, PacketOut::Login)]
                + equipment_packets(old(self).ids, old(self).player@.equipment, 8) + seq![
                map_packet(old(self).ids, map@, old(self).player@, old(self).others(), old(self).player.position, 18, 14),
                status_packet(old(self).ids, status_message@),
                motd_packet(old(self).ids, message_of_the_day@),
            ]);
        }
    }
}

/// The sprite drawn for a player counts up from 0xFA with the protocol number of the
/// direction they face: 0xFA north, 0xFB east, 0xFC south, 0xFD west.
pub proof fn lemma_sprite_follows_direction(p: PlayerView)
    ensures
        sprite(p.direction) as int == 0xFA + crate::player::spec_direction_to_u8(p.direction) as int,
        creature_bytes(p)[0] as int == 0xFA + crate::player::spec_direction_to_u8(p.direction) as int,
{
}

} // verus!
