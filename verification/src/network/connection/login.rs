//! The login handshake: decoding the two login packets of Tibia 1.03.
//!
//! The packet length determines the login type:
//! - `67` bytes = existing character login ("Journey Onward")
//! - `221` bytes = new character creation ("New Game")
//!
//! Both start with 5 header bytes whose contents are unknown and the protocol version;
//! only version 103 is accepted.

use vstd::prelude::*;
use crate::io::{PacketReader, ReadExt, ReadError, latin1, until_nul, le16, outfit_from_bytes, gender_from_byte};
use crate::map::position::Position;
use crate::player::{Gender, OutfitColors, Player, PlayerView};
use super::Connection;

verus! {

/// The profile a new character is created with.
#[derive(Debug)]
pub struct NewCharacter {
    pub gender: Gender,
    pub outfit: OutfitColors,
    pub real_name: String,
    pub location: String,
    pub email: String,
}

/// A decoded login request.
#[derive(Debug)]
pub struct LoginForm {
    pub name: String,
    pub password: String,
    /// Present for a new character, absent for an existing one.
    pub new_character: Option<NewCharacter>,
}

/// The text of a fixed-width string field `[start, start + width)` of a packet.
pub open spec fn field_text(b: Seq<u8>, start: int, width: int) -> Seq<char> {
    latin1(until_nul(b.subrange(start, start + width)))
}

/// The protocol version of a login packet.
pub open spec fn login_protocol(b: Seq<u8>) -> u16 {
    le16(b[5], b[6])
}

/// Whether a login packet of the given length and content decodes without running out
/// of bytes.
pub open spec fn login_complete(length: u16, b: Seq<u8>) -> bool {
    if length == 67 {
        b.len() >= 7 && (login_protocol(b) == 103 ==> b.len() >= 67)
    } else if length == 221 {
        b.len() >= 7 && (login_protocol(b) == 103 ==> b.len() >= 221)
    } else {
        true
    }
}

/// Whether a login packet is accepted: a known length and protocol version 103.
pub open spec fn login_accepted(length: u16, b: Seq<u8>) -> bool {
    (length == 67 || length == 221) && login_protocol(b) == 103
}

impl LoginForm {
    /// Whether this form is the decoding of an accepted login packet.
    pub open spec fn decodes(&self, length: u16, b: Seq<u8>) -> bool {
        &&& self.name@ == field_text(b, 7, 30)
        &&& self.password@ == field_text(b, 37, 30)
        &&& if length == 67 {
            self.new_character is None
        } else {
            &&& self.new_character is Some
            &&& self.new_character->0.gender == gender_from_byte(b[67])
            &&& self.new_character->0.outfit == outfit_from_bytes(b[68], b[69])
            &&& self.new_character->0.real_name@ == field_text(b, 71, 50)
            &&& self.new_character->0.location@ == field_text(b, 121, 50)
            &&& self.new_character->0.email@ == field_text(b, 171, 50)
        }
    }
}

fn read_field(r: &mut PacketReader, width: u16) -> (res: Result<String, ReadError>)
    ensures
        old(r).remaining().len() >= width <==> res is Ok,
        res matches Ok(s) ==> {
            &&& s@ == latin1(until_nul(old(r).remaining().take(width as int)))
            &&& final(r).remaining() == old(r).remaining().skip(width as int)
        },
{
    let mut s = String::new();
    match r.read_string(&mut s, width) {
        Ok(_) => {
            proof {
                assert(Seq::<char>::empty() + latin1(until_nul(old(r).remaining().take(width as int)))
                    =~= latin1(until_nul(old(r).remaining().take(width as int))));
            }
            Ok(s)
        },
        Err(e) => Err(e),
    }
}

impl Connection {
    /// Reads and validates a login packet of `length` bytes.
    ///
    /// Returns `Ok(None)` if the length is not a login packet's, or the protocol version is
    /// not 103; `Err` if the packet ends before a field it needs.
    pub fn handle_login(length: u16, body: &[u8]) -> (res: Result<Option<LoginForm>, ReadError>)
        ensures
            res is Ok <==> login_complete(length, body@),
            res matches Ok(form) ==> (form is Some <==> login_accepted(length, body@)),
            res matches Ok(Some(form)) ==> form.decodes(length, body@),
    {
        if length != 67 && length != 221 {
            return Ok(None);
        }
        let ghost b = body@;
        let mut r = PacketReader::new(body);
        r.skip(5)?;
        let protocol = r.read_u16_le()?;
        proof {
            assert(b.skip(5).skip(2) =~= b.skip(7));
        }
        if protocol != 103 {
            return Ok(None);
        }
        let name = read_field(&mut r, 30)?;
        proof {
            assert(b.skip(7).take(30) =~= b.subrange(7, 37));
            assert(b.skip(7).skip(30) =~= b.skip(37));
        }
        let password = read_field(&mut r, 30)?;
        proof {
            assert(b.skip(37).take(30) =~= b.subrange(37, 67));
            assert(b.skip(37).skip(30) =~= b.skip(67));
        }
        if length == 67 {
            return Ok(Some(LoginForm { name, password, new_character: None }));
        }
        let gender = r.read_gender()?;
        let outfit = r.read_outfit_colors()?;
        proof {
            assert(b.skip(67).skip(1) =~= b.skip(68));
            assert(b.skip(68).skip(3) =~= b.skip(71));
        }
        let real_name = read_field(&mut r, 50)?;
        proof {
            assert(b.skip(71).take(50) =~= b.subrange(71, 121));
            assert(b.skip(71).skip(50) =~= b.skip(121));
        }
        let location = read_field(&mut r, 50)?;
        proof {
            assert(b.skip(121).take(50) =~= b.subrange(121, 171));
            assert(b.skip(121).skip(50) =~= b.skip(171));
        }
        let email = read_field(&mut r, 50)?;
        proof {
            assert(b.skip(171).take(50) =~= b.subrange(171, 221));
        }
        Ok(
            Some(
                LoginForm {
                    name,
                    password,
                    new_character: Some(NewCharacter { gender, outfit, real_name, location, email }),
                },
            ),
        )
    }
}

/// Creates the player for an accepted login, with the given unique `id`, standing at
/// the map's `respawn` position. An existing-character login keeps the defaults of
/// [`Player::new`] apart from the password; a new character also takes the submitted
/// gender, outfit, real name, location and email.
pub fn login_player(form: LoginForm, id: u32, respawn: Position) -> (p: Player)
    ensures
        p@.id == id,
        p@.name == form.name@,
        p@.password == form.password@,
        p@.position == respawn,
        p@.direction == crate::player::Direction::South,
        p@.equipment == crate::player::starting_equipment(),
        p@.containers.len() == 0,
        p@.equipment_container_contents.len() == 0,
        match form.new_character {
            None => {
                &&& p@.gender == Gender::Male
                &&& p@.outfit == (OutfitColors { head: 0, body: 0, legs: 0, shoes: 0 })
                &&& p@.real_name.len() == 0
                &&& p@.location.len() == 0
                &&& p@.email.len() == 0
            },
            Some(c) => {
                &&& p@.gender == c.gender
                &&& p@.outfit == c.outfit
                &&& p@.real_name == c.real_name@
                &&& p@.location == c.location@
                &&& p@.email == c.email@
            },
        },
{
    let mut player = Player::new(id, form.name.as_str(), respawn);
    player.password = form.password;
    match form.new_character {
        Some(c) => {
            player.gender = c.gender;
            player.outfit = c.outfit;
            player.real_name = c.real_name;
            player.location = c.location;
            player.email = c.email;
        },
        None => {},
    }
    player
}

} // verus!
