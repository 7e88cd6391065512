//! World position and related types for Tibia 1.03.

use vstd::prelude::*;
use crate::player::{Direction, InventorySlot};
use crate::util::{decimal, push_decimal};

verus! {

/// In Tibia 1.03 there is no Z position, but one is kept anyway and it is
/// always 7 (the ground floor) whenever it is referenced.
///
/// Positions can also encode inventory slots by setting `x = 0x00FF`,
/// see [`Position::get_qualifier`].
#[derive(Debug, Copy, Clone, PartialEq, Eq, Structural, Hash)]
pub struct Position {
    pub x: u16,
    pub y: u16,
    pub z: u8,
}

/// Describes what a [`Position`] refers to in the Tibia 1.03 protocol.
#[derive(Debug, Copy, Clone, PartialEq, Eq, Structural)]
pub enum PositionQualifier {
    /// A normal map tile position.
    MapTile,
    /// An inventory slot, encoded as `x = 0x00FF`, `y = slot index`.
    Inventory(InventorySlot),
}

/// Error returned when a number does not name an inventory slot.
#[derive(Debug, Copy, Clone, PartialEq, Eq, Structural)]
pub struct InvalidSlot {
    pub value: u8,
}

/// Adds a signed offset to a 16-bit coordinate, wrapping around modulo 2^16.
pub open spec fn wrap_u16(v: int) -> u16 {
    (if v < 0 { v + 0x10000 } else if v >= 0x10000 { v - 0x10000 } else { v }) as u16
}

/// Adds a signed offset to an 8-bit coordinate, wrapping around modulo 2^8.
pub open spec fn wrap_u8(v: int) -> u8 {
    (if v < 0 { v + 0x100 } else if v >= 0x100 { v - 0x100 } else { v }) as u8
}

/// The unit offset `(dx, dy)` of one step in direction `d`.
pub open spec fn direction_delta(d: Direction) -> (int, int) {
    match d {
        Direction::North => (0, -1),
        Direction::East => (1, 0),
        Direction::South => (0, 1),
        Direction::West => (-1, 0),
    }
}

/// The position reached from `p` by one step in direction `d`.
pub open spec fn spec_step(p: Position, d: Direction) -> Position {
    Position {
        x: wrap_u16(p.x + direction_delta(d).0),
        y: wrap_u16(p.y + direction_delta(d).1),
        z: p.z,
    }
}

/// What a position refers to: an inventory slot when `x == 0xFF` and `1 <= y <= 8`.
pub open spec fn spec_qualifier(p: Position) -> PositionQualifier {
    if p.x == 0x00FF && 1 <= p.y <= 8 {
        PositionQualifier::Inventory(InventorySlot::spec_from_u8(p.y as u8))
    } else {
        PositionQualifier::MapTile
    }
}

/// Chebyshev-style per-axis distances between two positions.
pub open spec fn dx(a: Position, b: Position) -> int {
    if a.x >= b.x { a.x - b.x } else { b.x - a.x }
}

pub open spec fn dy(a: Position, b: Position) -> int {
    if a.y >= b.y { a.y - b.y } else { b.y - a.y }
}

/// Absolute difference of two coordinates.
pub fn abs_diff(a: u16, b: u16) -> (r: u16)
    ensures
        r == if a >= b { a - b } else { b - a },
{
    if a >= b { a - b } else { b - a }
}

fn wrap_i32_u16(s: i32) -> (r: u16)
    requires
        -0x10000 < s < 0x20000,
    ensures
        r == wrap_u16(s as int),
{
    if s < 0 {
        (s + 0x10000) as u16
    } else if s >= 0x10000 {
        (s - 0x10000) as u16
    } else {
        s as u16
    }
}

fn wrap_i16_u8(s: i16) -> (r: u8)
    requires
        -0x100 < s < 0x200,
    ensures
        r == wrap_u8(s as int),
{
    if s < 0 {
        (s + 0x100) as u8
    } else if s >= 0x100 {
        (s - 0x100) as u8
    } else {
        s as u8
    }
}

impl Position {
    /// Creates a new position from raw X, Y, Z coordinates.
    pub fn new(x: u16, y: u16, z: u8) -> (p: Self)
        ensures
            p.x == x,
            p.y == y,
            p.z == z,
    {
        Self { x, y, z }
    }

    /// Interprets this position and returns what it refers to.
    ///
    /// `x = 0x00FF` is a sentinel value indicating that the position refers to an
    /// inventory slot rather than a map tile; the slot index is encoded in `y` (1–8).
    /// Any other position is a map tile.
    pub fn get_qualifier(&self) -> (r: Result<PositionQualifier, InvalidSlot>)
        ensures
            r == Ok::<PositionQualifier, InvalidSlot>(spec_qualifier(*self)),
    {
        if self.x == 0x00FF && self.y > 0 && self.y <= 8 {
            match InventorySlot::from_u8(self.y as u8) {
                Some(slot) => return Ok(PositionQualifier::Inventory(slot)),
                None => return Err(InvalidSlot { value: self.y as u8 }),
            }
        }
        Ok(PositionQualifier::MapTile)
    }

    /// Offsets a position by a raw `(dx, dy, dz)` tuple; each coordinate wraps around.
    pub fn add_offset(self, d: (i16, i16, i8)) -> (p: Self)
        ensures
            p.x == wrap_u16(self.x + d.0),
            p.y == wrap_u16(self.y + d.1),
            p.z == wrap_u8(self.z + d.2),
    {
        Self {
            x: wrap_i32_u16(self.x as i32 + d.0 as i32),
            y: wrap_i32_u16(self.y as i32 + d.1 as i32),
            z: wrap_i16_u8(self.z as i16 + d.2 as i16),
        }
    }

    /// Offsets a position by subtracting a raw `(dx, dy, dz)` tuple; each coordinate wraps around.
    pub fn sub_offset(self, d: (i16, i16, i8)) -> (p: Self)
        ensures
            p.x == wrap_u16(self.x - d.0),
            p.y == wrap_u16(self.y - d.1),
            p.z == wrap_u8(self.z - d.2),
    {
        Self {
            x: wrap_i32_u16(self.x as i32 - d.0 as i32),
            y: wrap_i32_u16(self.y as i32 - d.1 as i32),
            z: wrap_i16_u8(self.z as i16 - d.2 as i16),
        }
    }

    /// The position as text, `(x,y,z)`.
    pub fn to_text(&self) -> (s: String)
        ensures
            s@ == "("@ + decimal(self.x as nat) + ","@ + decimal(self.y as nat) + ","@ + decimal(self.z as nat) + ")"@,
    {
        let mut s = String::new();
        s.append("(");
        push_decimal(&mut s, self.x as u32);
        s.append(",");
        push_decimal(&mut s, self.y as u32);
        s.append(",");
        push_decimal(&mut s, self.z as u32);
        s.append(")");
        proof {
            assert(s@ =~= "("@ + decimal(self.x as nat) + ","@ + decimal(self.y as nat) + ","@ + decimal(self.z as nat) + ")"@);
        }
        s
    }

    /// Steps a position one tile in the given [`Direction`].
    pub fn add_direction(self, dir: Direction) -> (p: Self)
        ensures
            p == spec_step(self, dir),
    {
        let d: (i16, i16, i8) = match dir {
            Direction::North => (0, -1, 0),
            Direction::East => (1, 0, 0),
            Direction::South => (0, 1, 0),
            Direction::West => (-1, 0, 0),
        };
        self.add_offset(d)
    }
}

/// Subtracting an offset undoes adding it.
pub proof fn lemma_offset_round_trip(p: Position, d: (i16, i16, i8))
    ensures
        ({
            let q = Position { x: wrap_u16(p.x + d.0), y: wrap_u16(p.y + d.1), z: wrap_u8(p.z + d.2) };
            Position { x: wrap_u16(q.x - d.0), y: wrap_u16(q.y - d.1), z: wrap_u8(q.z - d.2) } == p
        }),
{
}

/// The direction opposite to `d`.
pub open spec fn opposite(d: Direction) -> Direction {
    match d {
        Direction::North => Direction::South,
        Direction::East => Direction::West,
        Direction::South => Direction::North,
        Direction::West => Direction::East,
    }
}

/// A step back in the opposite direction returns to where a step started.
pub proof fn lemma_step_back(p: Position, d: Direction)
    ensures
        spec_step(spec_step(p, d), opposite(d)) == p,
{
}

} // verus!
