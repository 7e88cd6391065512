//! Player state and associated types for Tibia 1.03.

use vstd::prelude::*;
use std::collections::HashMap;
use crate::map::position::{Position, direction_delta};

verus! {

broadcast use vstd::std_specs::hash::group_hash_axioms;

/// Where an open container came from.
#[derive(Debug, Copy, Clone, PartialEq, Eq, Structural)]
pub enum ContainerSource {
    /// The container is in the player's equipment at the given slot.
    Equipment(u8),
    /// The container is sitting on the map at the given position.
    OnMap(Position),
}

/// A single open container window shown on the client.
#[derive(Debug)]
pub struct OpenContainer {
    /// The item id of the container itself (used as the window icon).
    pub container_id: u16,
    /// The items stored inside this container.
    pub items: Vec<u16>,
    /// The local window index sent to the client (0-based).
    pub local_id: u8,
    /// Where this container lives: either an equipment slot or a map position.
    pub source: ContainerSource,
}

/// The abstract content of an open container window.
pub struct ContainerView {
    pub container_id: u16,
    pub items: Seq<u16>,
    pub local_id: u8,
    pub source: ContainerSource,
}

impl View for OpenContainer {
    type V = ContainerView;

    open spec fn view(&self) -> ContainerView {
        ContainerView {
            container_id: self.container_id,
            items: self.items@,
            local_id: self.local_id,
            source: self.source,
        }
    }
}

impl Clone for OpenContainer {
    fn clone(&self) -> (c: Self)
        ensures
            c@ == self@,
    {
        OpenContainer {
            container_id: self.container_id,
            items: self.items.clone(),
            local_id: self.local_id,
            source: self.source,
        }
    }
}

/// Four 4-bit color indices describing a player's outfit appearance.
#[derive(Debug, Copy, Clone, PartialEq, Eq, Structural)]
pub struct OutfitColors {
    pub head: u8,
    pub body: u8,
    pub legs: u8,
    pub shoes: u8,
}

impl OutfitColors {
    /// Every color index fits in 4 bits, as the protocol packs them in nibbles.
    pub open spec fn wf(&self) -> bool {
        self.head < 16 && self.body < 16 && self.legs < 16 && self.shoes < 16
    }

    /// Creates an outfit from its four color indices.
    pub fn new(head: u8, body: u8, legs: u8, shoes: u8) -> (o: Self)
        ensures
            o == (OutfitColors { head, body, legs, shoes }),
    {
        Self { head, body, legs, shoes }
    }
}

/// Every player starts with all outfit colors set to 0.
impl Default for OutfitColors {
    fn default() -> (o: Self)
        ensures
            o == (OutfitColors { head: 0, body: 0, legs: 0, shoes: 0 }),
    {
        Self::new(0, 0, 0, 0)
    }
}

/// A cardinal direction, used for movement and the facing direction sent to clients.
#[derive(Debug, Copy, Clone, PartialEq, Eq, Structural)]
pub enum Direction {
    North,
    East,
    South,
    West,
}

/// The protocol number of a direction.
pub open spec fn spec_direction_to_u8(d: Direction) -> u8 {
    match d {
        Direction::North => 0,
        Direction::East => 1,
        Direction::South => 2,
        Direction::West => 3,
    }
}

impl Direction {
    /// Decodes a protocol direction number (0 = north, 1 = east, 2 = south, 3 = west).
    pub fn from_u8(v: u8) -> (d: Option<Direction>)
        ensures
            v < 4 <==> d is Some,
            d matches Some(dir) ==> spec_direction_to_u8(dir) == v,
    {
        match v {
            0 => Some(Direction::North),
            1 => Some(Direction::East),
            2 => Some(Direction::South),
            3 => Some(Direction::West),
            _ => None,
        }
    }

    /// The protocol number of this direction.
    pub fn to_u8(self) -> (v: u8)
        ensures
            v == spec_direction_to_u8(self),
    {
        match self {
            Direction::North => 0,
            Direction::East => 1,
            Direction::South => 2,
            Direction::West => 3,
        }
    }
}

/// Players face south on login by default.
impl Default for Direction {
    fn default() -> (d: Self)
        ensures
            d == Direction::South,
    {
        Direction::South
    }
}

/// The gender of a character.
#[derive(Debug, Copy, Clone, PartialEq, Eq, Structural)]
pub enum Gender {
    Male,
    Female,
}

/// An equipment slot in the player's inventory panel; slot numbers 1 to 8.
#[derive(Debug, Copy, Clone, PartialEq, Eq, Structural)]
pub enum InventorySlot {
    Helmet,
    Necklace,
    Bag,
    Armor,
    RightHand,
    LeftHand,
    Legs,
    Boots,
}

impl InventorySlot {
    /// The slot numbered `v` (meaningful for `1 <= v <= 8`).
    pub open spec fn spec_from_u8(v: u8) -> InventorySlot {
        if v == 1 {
            InventorySlot::Helmet
        } else if v == 2 {
            InventorySlot::Necklace
        } else if v == 3 {
            InventorySlot::Bag
        } else if v == 4 {
            InventorySlot::Armor
        } else if v == 5 {
            InventorySlot::RightHand
        } else if v == 6 {
            InventorySlot::LeftHand
        } else if v == 7 {
            InventorySlot::Legs
        } else {
            InventorySlot::Boots
        }
    }

    /// The protocol number of a slot.
    pub open spec fn spec_to_u8(self) -> u8 {
        match self {
            InventorySlot::Helmet => 1,
            InventorySlot::Necklace => 2,
            InventorySlot::Bag => 3,
            InventorySlot::Armor => 4,
            InventorySlot::RightHand => 5,
            InventorySlot::LeftHand => 6,
            InventorySlot::Legs => 7,
            InventorySlot::Boots => 8,
        }
    }

    /// Decodes a slot number; only 1 to 8 name a slot.
    pub fn from_u8(v: u8) -> (s: Option<InventorySlot>)
        ensures
            (1 <= v <= 8) <==> s is Some,
            s matches Some(slot) ==> slot == Self::spec_from_u8(v) && slot.spec_to_u8() == v,
    {
        match v {
            1 => Some(InventorySlot::Helmet),
            2 => Some(InventorySlot::Necklace),
            3 => Some(InventorySlot::Bag),
            4 => Some(InventorySlot::Armor),
            5 => Some(InventorySlot::RightHand),
            6 => Some(InventorySlot::LeftHand),
            7 => Some(InventorySlot::Legs),
            8 => Some(InventorySlot::Boots),
            _ => None,
        }
    }

    /// The protocol number of this slot.
    pub fn to_u8(self) -> (v: u8)
        ensures
            v == self.spec_to_u8(),
    {
        match self {
            InventorySlot::Helmet => 1,
            InventorySlot::Necklace => 2,
            InventorySlot::Bag => 3,
            InventorySlot::Armor => 4,
            InventorySlot::RightHand => 5,
            InventorySlot::LeftHand => 6,
            InventorySlot::Legs => 7,
            InventorySlot::Boots => 8,
        }
    }
}

/// A connected player and all their associated state.
#[derive(Debug)]
pub struct Player {
    pub id: u32,
    pub name: String,
    pub password: String,
    pub real_name: String,
    pub location: String,
    pub email: String,
    pub gender: Gender,
    pub outfit: OutfitColors,
    pub position: Position,
    pub direction: Direction,
    pub equipment: HashMap<u8, u16>,
    pub containers: Vec<OpenContainer>,
    pub equipment_container_contents: HashMap<u8, Vec<u16>>,
}

/// Views each item list of a keyed collection as a sequence.
pub open spec fn seq_map_view<K>(m: Map<K, Vec<u16>>) -> Map<K, Seq<u16>> {
    m.map_values(|v: Vec<u16>| v@)
}

/// The abstract content of a player.
pub struct PlayerView {
    pub id: u32,
    pub name: Seq<char>,
    pub password: Seq<char>,
    pub real_name: Seq<char>,
    pub location: Seq<char>,
    pub email: Seq<char>,
    pub gender: Gender,
    pub outfit: OutfitColors,
    pub position: Position,
    pub direction: Direction,
    pub equipment: Map<u8, u16>,
    pub containers: Seq<ContainerView>,
    pub equipment_container_contents: Map<u8, Seq<u16>>,
}

impl View for Player {
    type V = PlayerView;

    open spec fn view(&self) -> PlayerView {
        PlayerView {
            id: self.id,
            name: self.name@,
            password: self.password@,
            real_name: self.real_name@,
            location: self.location@,
            email: self.email@,
            gender: self.gender,
            outfit: self.outfit,
            position: self.position,
            direction: self.direction,
            equipment: self.equipment@,
            containers: self.containers@.map_values(|c: OpenContainer| c@),
            equipment_container_contents: seq_map_view(self.equipment_container_contents@),
        }
    }
}

impl Clone for Player {
    fn clone(&self) -> (p: Self)
        ensures
            p@ == self@,
    {
        let containers = self.containers.clone();
        proof {
            assert(containers@.map_values(|c: OpenContainer| c@) =~= self.containers@.map_values(
                |c: OpenContainer| c@,
            ));
        }
        let contents = self.equipment_container_contents.clone();
        Player {
            id: self.id,
            name: self.name.clone(),
            password: self.password.clone(),
            real_name: self.real_name.clone(),
            location: self.location.clone(),
            email: self.email.clone(),
            gender: self.gender,
            outfit: self.outfit,
            position: self.position,
            direction: self.direction,
            equipment: self.equipment.clone(),
            containers,
            equipment_container_contents: contents,
        }
    }
}

/// The equipment every new character starts with: a bag in slot 3, a sword in the
/// right hand (slot 5) and bread in the left hand (slot 6).
pub open spec fn starting_equipment() -> Map<u8, u16> {
    map![3u8 => 0x013Du16, 5u8 => 0x005Au16, 6u8 => 0x0086u16]
}

impl Player {
    /// Creates a new player with the given unique `id`, standing at `position` with the
    /// default starting equipment, a male character facing south.
    pub fn new(id: u32, name: &str, position: Position) -> (p: Self)
        ensures
            p@.id == id,
            p@.name == name@,
            p@.password.len() == 0,
            p@.real_name.len() == 0,
            p@.location.len() == 0,
            p@.email.len() == 0,
            p@.gender == Gender::Male,
            p@.outfit == (OutfitColors { head: 0, body: 0, legs: 0, shoes: 0 }),
            p@.position == position,
            p@.direction == Direction::South,
            p@.equipment == starting_equipment(),
            p@.containers.len() == 0,
            p@.equipment_container_contents.len() == 0,
    {
        let mut equipment: HashMap<u8, u16> = HashMap::new();
        equipment.insert(3, 0x013D);
        equipment.insert(5, 0x005A);
        equipment.insert(6, 0x0086);
        let contents: HashMap<u8, Vec<u16>> = HashMap::new();
        proof {
            assert(seq_map_view(contents@) =~= Map::empty());
        }
        Self {
            id,
            name: name.to_owned(),
            password: String::new(),
            real_name: String::new(),
            location: String::new(),
            email: String::new(),
            position,
            outfit: OutfitColors::default(),
            gender: Gender::Male,
            direction: Direction::default(),
            equipment,
            containers: Vec::new(),
            equipment_container_contents: contents,
        }
    }
}

/// The id handed out `k` allocations after the id `first`: ids count up by one and
/// wrap around after `u32::MAX`.
pub open spec fn id_after(first: u32, k: nat) -> u32 {
    ((first + k) % 0x1_0000_0000) as u32
}

/// Hands out player ids. Ids start at 256 (those below are reserved for non-player
/// use) and each allocation gives the next one.
pub struct IdAllocator {
    next: u32,
}

impl IdAllocator {
    /// The id the next allocation gives.
    pub closed spec fn next_id(&self) -> u32 {
        self.next
    }

    /// An allocator whose first id is 256.
    pub fn new() -> (a: Self)
        ensures
            a.next_id() == 256,
    {
        IdAllocator { next: 256 }
    }

    /// Hands out the next id, advancing to the one after it (wrapping around after
    /// `u32::MAX`).
    pub fn allocate(&mut self) -> (id: u32)
        ensures
            id == old(self).next_id(),
            final(self).next_id() == id_after(id, 1),
    {
        let id = self.next;
        self.next = if id == u32::MAX { 0 } else { id + 1 };
        id
    }
}

/// Ids come out in order: the id after `k` allocations and then one more is the id after
/// `k + 1` allocations, and from a new allocator the first `2^32 - 256` ids are
/// `256, 257, ...`, each larger than every earlier one.
pub proof fn lemma_ids_increase(first: u32, k: nat, j: nat)
    ensures
        id_after(id_after(first, k), 1) == id_after(first, k + 1),
        id_after(256, k) == 256 + k <==> k < 0x1_0000_0000 - 256,
        j < k < 0x1_0000_0000 - 256 ==> id_after(256, j) < id_after(256, k),
{
}

/// Different directions travel as different numbers.
pub proof fn lemma_direction_number_injective(a: Direction, b: Direction)
    ensures
        spec_direction_to_u8(a) == spec_direction_to_u8(b) ==> a == b,
{
}

/// Decoding the number of a slot gives the slot back.
pub proof fn lemma_slot_round_trip(s: InventorySlot)
    ensures
        InventorySlot::spec_from_u8(s.spec_to_u8()) == s,
        1 <= s.spec_to_u8() <= 8,
{
}

/// The protocol numbers of the directions: 0 is a step north (y decreases), 1 a step
/// east (x increases), 2 a step south (y increases) and 3 a step west (x decreases).
pub proof fn lemma_direction_numbers(d: Direction)
    ensures
        spec_direction_to_u8(d) == 0 <==> direction_delta(d) == (0int, -1int),
        spec_direction_to_u8(d) == 1 <==> direction_delta(d) == (1int, 0int),
        spec_direction_to_u8(d) == 2 <==> direction_delta(d) == (0int, 1int),
        spec_direction_to_u8(d) == 3 <==> direction_delta(d) == (-1int, 0int),
{
}

} // verus!
