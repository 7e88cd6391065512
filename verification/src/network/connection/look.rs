//! The "look at" request: describing what lies on a clicked tile.

use vstd::prelude::*;
use super::{Connection, ConnView};
use super::receive::PacketError;
use super::send::look_packet;
use crate::io::{PacketReader, ReadExt};
use crate::map::{GameMap, MapView, TileObject};
use crate::map::items::{item_name, spec_item_name};
use crate::map::position::{Position, wrap_u16};
use crate::player::{Gender, PlayerView};
use crate::util::{decimal, first_where, push_decimal};

verus! {

broadcast use vstd::string::group_string_axioms;

/// The map position of a screen tile, the player standing at screen tile (8, 6).
pub open spec fn screen_to_map(me: Position, screen: Position) -> Position {
    Position { x: wrap_u16(me.x + screen.x - 8), y: wrap_u16(me.y + screen.y - 6), z: me.z }
}

/// Converts a screen tile to its map position.
pub fn screen_to_map_pos(me: Position, screen: Position) -> (p: Position)
    requires
        screen.x < 256,
        screen.y < 256,
    ensures
        p == screen_to_map(me, screen),
{
    let p = me.add_offset((screen.x as i16 - 8, screen.y as i16 - 6, 0));
    proof {
        assert(crate::map::position::wrap_u8(me.z + 0) == me.z);
    }
    p
}

/// The "[Position: x, y, z]" line of a look text.
pub open spec fn position_text(p: Position) -> Seq<char> {
    "[Position: "@ + decimal(p.x as nat) + ", "@ + decimal(p.y as nat) + ", "@ + decimal(p.z as nat) + "]"@
}

/// The pronoun and the word for a gender: ("She", "female") or ("He", "male").
pub open spec fn gender_words(g: Gender) -> (Seq<char>, Seq<char>) {
    match g {
        Gender::Female => ("She"@, "female"@),
        Gender::Male => ("He"@, "male"@),
    }
}

/// The object a look at a stack describes: its topmost item, else its ground.
pub open spec fn looked_object(objs: Seq<TileObject>) -> Option<TileObject> {
    match first_where(objs, |o: TileObject| o is Item) {
        Some(o) => Some(o),
        None => if objs.len() > 0 && objs[0] is Ground { Some(objs[0]) } else { None },
    }
}

/// The text shown when a player looks at the map position `target`: another player
/// standing there (the first one seen), the player themself, the topmost item or the
/// ground of the tile, an unknown object, or nothing (off the map).
pub open spec fn look_text(me: PlayerView, others: Seq<PlayerView>, map: MapView, target: Position) -> Seq<char> {
    match first_where(others, |p: PlayerView| p.position == target) {
        Some(o) => "You see "@ + o.name + ". "@ + gender_words(o.gender).0 + " is "@ + gender_words(o.gender).1
            + ".\n"@ + position_text(o.position),
        None => if target == me.position {
            "You see yourself. You are "@ + gender_words(me.gender).1 + ".\n"@ + position_text(me.position)
        } else if map.visible_tile(target) is Some {
            match looked_object(map.visible_tile(target)->0) {
                Some(o) => {
                    let id = crate::map::object_id(o);
                    "You see "@ + spec_item_name(id) + ".\n[Item id: "@ + decimal(id as nat) + "]\n"@ + position_text(target)
                },
                None => "You see an unknown object.\n"@ + position_text(target),
            }
        } else {
            "You see nothing.\n"@ + position_text(target)
        },
    }
}

/// The connection after looking at the screen tile `screen`.
pub open spec fn look_step(c: ConnView, map: MapView, screen: Position) -> ConnView {
    let target = screen_to_map(c.player.position, screen);
    ConnView { queued: c.queued.push(look_packet(c.ids, look_text(c.player, c.others, map, target))), ..c }
}

/// Appends the "[Position: x, y, z]" line.
fn push_position(s: &mut String, p: Position)
    ensures
        final(s)@ == old(s)@ + position_text(p),
{
    s.append("[Position: ");
    push_decimal(s, p.x as u32);
    s.append(", ");
    push_decimal(s, p.y as u32);
    s.append(", ");
    push_decimal(s, p.z as u32);
    s.append("]");
    proof {
        assert(s@ =~= old(s)@ + position_text(p));
    }
}

/// The object a look describes on a stack, see [`looked_object`].
fn find_looked_object(objs: &[TileObject]) -> (r: Option<TileObject>)
    ensures
        r == looked_object(objs@),
{
    let mut i: usize = 0;
    while i < objs.len()
        invariant
            i <= objs@.len(),
            forall|j: int| 0 <= j < i ==> !(objs@[j] is Item),
        decreases objs.len() - i,
    {
        if let TileObject::Item(_) = objs[i] {
            proof {
                crate::util::lemma_first_where_at(objs@, |o: TileObject| o is Item, i as int);
            }
            return Some(objs[i]);
        }
        i = i + 1;
    }
    proof {
        crate::util::lemma_first_where_none(objs@, |o: TileObject| o is Item);
    }
    if objs.len() > 0 {
        if let TileObject::Ground(_) = objs[0] {
            return Some(objs[0]);
        }
    }
    None
}

impl Connection {
    /// The index of the first visible player standing at `pos`.
    pub(crate) fn other_at(&self, pos: Position) -> (r: Option<usize>)
        ensures
            match r {
                Some(k) => k < self.others().len() && first_where(self.others(), |p: PlayerView| p.position == pos)
                    == Some(self.others()[k as int]),
                None => first_where(self.others(), |p: PlayerView| p.position == pos) is None,
            },
    {
        let ghost others = self.others();
        let mut i: usize = 0;
        while i < self.other_players.len()
            invariant
                i <= self.other_players@.len(),
                others == self.others(),
                forall|j: int| 0 <= j < i ==> others[j].position != pos,
            decreases self.other_players.len() - i,
        {
            if self.other_players[i].position == pos {
                proof {
                    crate::util::lemma_first_where_at(others, |p: PlayerView| p.position == pos, i as int);
                }
                return Some(i);
            }
            i = i + 1;
        }
        proof {
            crate::util::lemma_first_where_none(others, |p: PlayerView| p.position == pos);
        }
        None
    }

    /// The text for looking at `target`, see [`look_text`].
    fn describe(&self, map: &GameMap, target: Position) -> (text: String)
        requires
            map.wf(),
        ensures
            text@ == look_text(self.player@, self.others(), map@, target),
    {
        let mut s = String::new();
        match self.other_at(target) {
            Some(k) => {
                let other = &self.other_players[k];
                s.append("You see ");
                s.append(other.name.as_str());
                s.append(". ");
                match other.gender {
                    Gender::Female => {
                        s.append("She");
                        s.append(" is ");
                        s.append("female");
                    },
                    Gender::Male => {
                        s.append("He");
                        s.append(" is ");
                        s.append("male");
                    },
                }
                s.append(".\n");
                push_position(&mut s, other.position);
            },
            None => {
                if target == self.player.position {
                    s.append("You see yourself. You are ");
                    match self.player.gender {
                        Gender::Female => s.append("female"),
                        Gender::Male => s.append("male"),
                    }
                    s.append(".\n");
                    push_position(&mut s, self.player.position);
                } else {
                    match map.get_tile_objects(target) {
                        Some(objs) => {
                            match find_looked_object(objs) {
                                Some(o) => {
                                    let id = match o {
                                        TileObject::Ground(id) => id,
                                        TileObject::Item(id) => id,
                                    };
                                    s.append("You see ");
                                    s.append(item_name(id));
                                    s.append(".\n[Item id: ");
                                    push_decimal(&mut s, id as u32);
                                    s.append("]\n");
                                    push_position(&mut s, target);
                                },
                                None => {
                                    s.append("You see an unknown object.\n");
                                    push_position(&mut s, target);
                                },
                            }
                        },
                        None => {
                            s.append("You see nothing.\n");
                            push_position(&mut s, target);
                        },
                    }
                }
            },
        }
        proof {
            assert(s@ =~= look_text(self.player@, self.others(), map@, target));
        }
        s
    }

    /// Handles a "look at" request for a clicked screen tile: describes the player
    /// standing there, this player, the topmost item or the ground, or nothing.
    pub fn recv_look_at(&mut self, map: &GameMap, r: &mut PacketReader) -> (res: Result<(), PacketError>)
        requires
            map.wf(),
        ensures
            res is Ok <==> old(r).remaining().len() >= 2,
            res is Ok ==> final(r).remaining() == old(r).remaining().skip(2),
            res is Err ==> res == Err::<(), PacketError>(PacketError::Read(crate::io::ReadError::UnexpectedEof))
                && final(self)@ == old(self)@,
            res is Ok ==> final(self)@ == look_step(
                old(self)@,
                map@,
                Position { x: old(r).remaining()[0] as u16, y: old(r).remaining()[1] as u16, z: 7 },
            ),
            final(self).player == old(self).player,
            final(self).other_players == old(self).other_players,
    {
        let screen = match r.read_position() {
            Ok(p) => p,
            Err(e) => {
                proof {
                    assert(e == crate::io::ReadError::UnexpectedEof);
                }
                return Err(PacketError::Read(e));
            },
        };
        let target = screen_to_map_pos(self.player.position, screen);
        let text = self.describe(map, target);
        let pkt = self.send_look_message(text.as_str());
        proof {
            assert(pkt@.len() > 0) by {
                assert(super::send::header(self.ids, crate::network::packet::PacketOut::Chat).len() == 5);
            }
        }
        self.enqueue(pkt);
        Ok(())
    }
}

} // verus!
