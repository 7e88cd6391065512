//! Decoding a packet's id and routing it to its handler.

use vstd::prelude::*;
use super::{Connection, ConnView};
use super::containers::use_item_step;
use super::look::look_step;
use super::pathing::auto_walk_outcome;
use super::push::{push_step, state_of};
use super::receive::{
    PacketError, chat_line, chat_malformed, chat_step, close_window_step, player_info_step, set_data_complete,
    set_data_step, walk_step,
};
use super::send::{data_window_packet, user_list_packet};
use crate::io::{PacketReader, ReadExt, ReadError, latin1, le16, until_nul};
use crate::map::{GameMap, MapView};
use crate::map::position::Position;
use crate::network::packet::PacketIn;
use crate::player::{Direction, spec_direction_to_u8};

verus! {

/// A screen position read from two packet bytes.
pub open spec fn screen_at(b: Seq<u8>, i: int) -> Position {
    Position { x: b[i] as u16, y: b[i + 1] as u16, z: 7 }
}

/// What handling a packet of type `p` with payload `body` does: from connection `c` and
/// map `m` it leads to `c2` and `m2` and answers `res`. Packets cut short answer a read
/// error and change nothing.
pub open spec fn handled(
    c: ConnView,
    m: MapView,
    p: PacketIn,
    body: Seq<u8>,
    c2: ConnView,
    m2: MapView,
    res: Result<(), PacketError>,
) -> bool {
    let eof = Err::<(), PacketError>(PacketError::Read(ReadError::UnexpectedEof));
    match p {
        PacketIn::Push => if body.len() < 7 {
            res == eof && c2 == c && m2 == m
        } else {
            res is Ok && state_of(c2, m2) == push_step(state_of(c, m), screen_at(body, 0), le16(body[2], body[3]), screen_at(body, 5))
        },
        _ => m2 == m && match p {
            PacketIn::UserList => res is Ok && c2 == ConnView { queued: c.queued.push(user_list_packet(c.ids, c.player, c.others)), ..c },
            PacketIn::PlayerInfo => res is Ok && c2 == player_info_step(c, latin1(until_nul(body))),
            PacketIn::Walk => if body.len() == 0 {
                res == eof && c2 == c
            } else if body[0] >= 4 {
                res == Err::<(), PacketError>(PacketError::InvalidDirection(body[0])) && c2 == c
            } else {
                res is Ok && exists|d: Direction| spec_direction_to_u8(d) == body[0] && c2 == walk_step(c, m, d)
            },
            PacketIn::AutoWalk => if body.len() < 2 {
                res == eof && c2 == c
            } else {
                res is Ok && auto_walk_outcome(c, m, screen_at(body, 0), c2)
            },
            PacketIn::LookAt => if body.len() < 2 {
                res == eof && c2 == c
            } else {
                res is Ok && c2 == look_step(c, m, screen_at(body, 0))
            },
            PacketIn::Chat => match chat_line(body) {
                None => res == eof && c2 == c,
                Some(raw) => if chat_malformed(raw) {
                    res == Err::<(), PacketError>(PacketError::MalformedChat) && c2 == c
                } else {
                    res is Ok && c2 == chat_step(c, raw)
                },
            },
            PacketIn::UseItem => if body.len() < 7 {
                res == eof && c2 == c
            } else {
                res is Ok && c2 == use_item_step(c, m, screen_at(body, 1), le16(body[3], body[4]))
            },
            PacketIn::CloseContainer => if body.len() == 0 {
                res == eof && c2 == c
            } else {
                res is Ok && c2 == close_window_step(c, body[0])
            },
            PacketIn::RequestChangeData => res is Ok && c2 == ConnView {
                queued: c.queued.push(data_window_packet(c.ids, c.player)),
                ..c
            },
            PacketIn::SetData => if set_data_complete(body) {
                res is Ok && c2 == set_data_step(c, m, body)
            } else {
                res == eof && c2 == c
            },
            _ => res is Ok && c2 == c,
        },
    }
}

impl Connection {
    /// Reads the packet id from `buf` and hands the rest to the packet's handler; a
    /// packet with an unknown id is ignored.
    pub fn handle_packet(&mut self, map: &mut GameMap, buf: &[u8]) -> (res: Result<(), PacketError>)
        requires
            old(self).wf(),
            old(map).wf(),
        ensures
            final(self).wf(),
            final(map).wf(),
            buf@.len() < 2 ==> res == Err::<(), PacketError>(PacketError::Read(ReadError::UnexpectedEof))
                && final(self)@ == old(self)@ && final(map)@ == old(map)@,
            buf@.len() >= 2 ==> match old(self).ids.spec_decode(le16(buf@[0], buf@[1])) {
                None => res is Ok && final(self)@ == old(self)@ && final(map)@ == old(map)@,
                Some(p) => handled(old(self)@, old(map)@, p, buf@.skip(2), final(self)@, final(map)@, res),
            },
    {
        let mut r = PacketReader::new(buf);
        let id = match r.read_u16_le() {
            Ok(v) => v,
            Err(e) => return Err(PacketError::Read(e)),
        };
        let packet = match self.ids.decode(id) {
            Some(p) => p,
            None => return Ok(()),
        };
        match packet {
            PacketIn::UserList => self.recv_user_list(),
            PacketIn::PlayerInfo => self.recv_player_info(&mut r),
            PacketIn::Walk => self.recv_walk(map, &mut r),
            PacketIn::AutoWalk => self.recv_auto_walk(map, &mut r),
            PacketIn::LookAt => self.recv_look_at(map, &mut r),
            PacketIn::Chat => self.recv_chat(&mut r),
            PacketIn::ChangeDirection => Ok(()),
            PacketIn::Comment => self.recv_comment(&mut r),
            PacketIn::Push => self.recv_push(map, &mut r),
            PacketIn::UseItem => self.recv_use_item(map, &mut r),
            PacketIn::CloseContainer => self.recv_close_container(&mut r),
            PacketIn::RequestChangeData => self.recv_request_change_data(),
            PacketIn::SetData => self.recv_set_data(map, &mut r),
            PacketIn::Echo => Ok(()),
            PacketIn::Logout => Ok(()),
        }
    }
}

} // verus!
