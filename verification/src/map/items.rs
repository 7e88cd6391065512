//! Item metadata for Tibia 1.03 - names, walkability, container flags, and movement properties.

use vstd::prelude::*;

verus! {

broadcast use vstd::string::group_string_axioms;

/// The display name of a Tibia 1.03 item id; `"unknown"` for any id not in the table.
pub open spec fn spec_item_name(id: u16) -> Seq<char> {
    match id {
        283 => "a drawbridge"@,
        90 => "a sword"@,
        574 => "a bottle"@,
        105 => "a baking tray"@,
        391 => "a lump of dough"@,
        135 => "flour"@,
        134 => "bread"@,
        534 | 790 => "an archway"@,
        20 | 276 | 532 | 1556 => "a brick wall"@,
        524 => "a passthrough"@,
        163 => "a bush"@,
        928 => "a willow"@,
        778 => "gravel"@,
        811 => "a chest"@,
        266 | 4618 | 45578 => "dirt floor"@,
        1069 => "a beer cask"@,
        12 => "wooden floor"@,
        114 => "a coal basin"@,
        268 => "white marble floor"@,
        10 | 2058 | 23054 | 2314 | 23310 | 23566 | 23822 | 24078 | 24334 | 24590 | 24846 | 25102
        | 25358 | 25614 | 2570 | 25870 | 2826 | 3082 | 3338 | 3594 | 3850 | 4106 | 4160 | 42506
        | 42762 | 43018 | 43274 | 43530 | 4362 | 43786 | 44042 | 44298 | 44554 | 44810 | 45066
        | 45322 | 45834 | 46090 | 46346 | 46602 | 46858 | 47114 | 47370 | 47626 | 47882 | 48138
        | 48394 | 48650 | 4874 | 5130 | 5386 | 5642 | 5898 | 6154 | 6410 | 6666 | 6922 | 7178
        | 7434 | 7690 | 7946 => "grass"@,
        102 => "an anvil"@,
        317 => "a bag"@,
        1325 => "a barrel"@,
        2881 => "a candlestick"@,
        7180 => "a stone tile"@,
        51 | 307 => "a lever"@,
        1581 => "a trough of water"@,
        1837 => "a trough"@,
        5140 | 4116 | 4372 | 4884 => "a framework wall"@,
        93 => "a steel shield"@,
        44 | 300 => "a bed"@,
        35 => "a knight statue"@,
        522 => "sand"@,
        1290 => "rock soil"@,
        14 => "water"@,
        873 => "a pot"@,
        602 => "a battle axe"@,
        3418 => "a spear"@,
        346 => "a two-handed sword"@,
        1 => "void"@,
        642 => "meat"@,
        1834 => "a chest of drawers"@,
        29 | 285 | 541 | 797 => "a fountain"@,
        119 => "a black token"@,
        375 => "a white token"@,
        19 | 275 => "a chess board"@,
        10003 | 10259 | 1043 | 10515 | 10771 | 11027 | 11283 | 11539 | 11795 | 12051 | 12307
        | 12563 | 12819 | 1299 | 1555 | 1811 | 2067 | 2323 | 2579 | 2835 | 3091 | 3347 | 3603
        | 3859 | 4115 | 4371 | 4627 | 4883 | 5139 | 531 | 5395 | 5651 | 5907 | 6163 | 6419
        | 6675 | 6931 | 7187 | 7443 | 7699 | 787 | 7955 | 8211 | 8467 | 8723 | 8979 | 9235
        | 9491 | 9747 => "a mill board"@,
        631 => "a black pawn"@,
        887 => "a black castle"@,
        1143 => "a black knight"@,
        1399 => "a black bishop"@,
        1655 => "a black queen"@,
        1911 => "a black king"@,
        2167 => "a white pawn"@,
        2423 => "a white castle"@,
        2679 => "a white knight"@,
        2935 => "a white bishop"@,
        3191 => "a white queen"@,
        3447 => "a white king"@,
        13075 | 13331 | 13587 | 13843 | 14099 | 14355 | 14611 | 14867 | 15123 => "a tic-tac-toe board"@,
        3703 | 3959 => "a tic-tac-toe token"@,
        _ => "unknown"@,
    }
}

/// Maps a Tibia 1.03 item id to its display name, shown when a player looks at an item.
///
/// Returns `"unknown"` for any id not in the table.
pub fn item_name(id: u16) -> (name: &'static str)
    ensures
        name@ == spec_item_name(id),
{
    match id {
        283 => "a drawbridge",
        90 => "a sword",
        574 => "a bottle",
        105 => "a baking tray",
        391 => "a lump of dough",
        135 => "flour",
        134 => "bread",
        534 | 790 => "an archway",
        20 | 276 | 532 | 1556 => "a brick wall",
        524 => "a passthrough",
        163 => "a bush",
        928 => "a willow",
        778 => "gravel",
        811 => "a chest",
        266 | 4618 | 45578 => "dirt floor",
        1069 => "a beer cask",
        12 => "wooden floor",
        114 => "a coal basin",
        268 => "white marble floor",
        10 | 2058 | 23054 | 2314 | 23310 | 23566 | 23822 | 24078 | 24334 | 24590 | 24846 | 25102
        | 25358 | 25614 | 2570 | 25870 | 2826 | 3082 | 3338 | 3594 | 3850 | 4106 | 4160 | 42506
        | 42762 | 43018 | 43274 | 43530 | 4362 | 43786 | 44042 | 44298 | 44554 | 44810 | 45066
        | 45322 | 45834 | 46090 | 46346 | 46602 | 46858 | 47114 | 47370 | 47626 | 47882 | 48138
        | 48394 | 48650 | 4874 | 5130 | 5386 | 5642 | 5898 | 6154 | 6410 | 6666 | 6922 | 7178
        | 7434 | 7690 | 7946 => "grass",
        102 => "an anvil",
        317 => "a bag",
        1325 => "a barrel",
        2881 => "a candlestick",
        7180 => "a stone tile",
        51 | 307 => "a lever",
        1581 => "a trough of water",
        1837 => "a trough",
        5140 | 4116 | 4372 | 4884 => "a framework wall",
        93 => "a steel shield",
        44 | 300 => "a bed",
        35 => "a knight statue",
        522 => "sand",
        1290 => "rock soil",
        14 => "water",
        873 => "a pot",
        602 => "a battle axe",
        3418 => "a spear",
        346 => "a two-handed sword",
        1 => "void",
        642 => "meat",
        1834 => "a chest of drawers",
        29 | 285 | 541 | 797 => "a fountain",
        119 => "a black token",
        375 => "a white token",
        19 | 275 => "a chess board",
        10003 | 10259 | 1043 | 10515 | 10771 | 11027 | 11283 | 11539 | 11795 | 12051 | 12307
        | 12563 | 12819 | 1299 | 1555 | 1811 | 2067 | 2323 | 2579 | 2835 | 3091 | 3347 | 3603
        | 3859 | 4115 | 4371 | 4627 | 4883 | 5139 | 531 | 5395 | 5651 | 5907 | 6163 | 6419
        | 6675 | 6931 | 7187 | 7443 | 7699 | 787 | 7955 | 8211 | 8467 | 8723 | 8979 | 9235
        | 9491 | 9747 => "a mill board",
        631 => "a black pawn",
        887 => "a black castle",
        1143 => "a black knight",
        1399 => "a black bishop",
        1655 => "a black queen",
        1911 => "a black king",
        2167 => "a white pawn",
        2423 => "a white castle",
        2679 => "a white knight",
        2935 => "a white bishop",
        3191 => "a white queen",
        3447 => "a white king",
        13075 | 13331 | 13587 | 13843 | 14099 | 14355 | 14611 | 14867 | 15123 => "a tic-tac-toe board",
        3703 | 3959 => "a tic-tac-toe token",
        _ => "unknown",
    }
}

/// Tiles and items that block movement.
pub open spec fn blocks_movement(id: u16) -> bool {
    match id {
        20 | 276 | 532 | 1556 | 163 | 928 | 811 | 1069 | 114 | 102 | 1325 | 1581 | 1837 | 4116
        | 4372 | 4884 | 5140 | 44 | 300 | 35 | 14 | 873 | 1 | 1834 | 29 | 285 | 541 | 797
        | 23054 | 23566 | 24078 | 25102 | 25358 | 25870 => true,
        _ => false,
    }
}

/// Returns `false` for tiles and items that block movement, used by the auto-walk pathfinder.
pub fn is_walkable(id: u16) -> (walkable: bool)
    ensures
        walkable == !blocks_movement(id),
{
    match id {
        20 | 276 | 532 | 1556 | 163 | 928 | 811 | 1069 | 114 | 102 | 1325 | 1581 | 1837 | 4116
        | 4372 | 4884 | 5140 | 44 | 300 | 35 | 14 | 873 | 1 | 1834 | 29 | 285 | 541 | 797
        | 23054 | 23566 | 24078 | 25102 | 25358 | 25870 => false,
        _ => true,
    }
}

/// The items players can open and store other items in.
pub open spec fn spec_is_container(id: u16) -> bool {
    id == 811 || id == 317 || id == 1325 || id == 1834
}

/// Returns `true` if the item is a container that players can open and store items in.
pub fn is_container(id: u16) -> (container: bool)
    ensures
        container == spec_is_container(id),
{
    match id {
        811 | 317 | 1325 | 1834 => true,
        _ => false,
    }
}

/// Physical interaction properties for a Tibia 1.03 item.
///
/// Controls whether the item can be moved, how far it can be moved
/// from the player's position, and whether it blocks projectiles.
#[derive(Debug, Copy, Clone, PartialEq, Eq, Structural)]
pub struct ItemProperties {
    pub movable: bool,
    pub range: u8,
    pub blocks_projectiles: bool,
}

/// The properties of an immovable item that blocks projectiles.
pub open spec fn wall_properties() -> ItemProperties {
    ItemProperties { movable: false, range: 0, blocks_projectiles: true }
}

/// The properties of an immovable item that does not block projectiles.
pub open spec fn fixed_properties() -> ItemProperties {
    ItemProperties { movable: false, range: 0, blocks_projectiles: false }
}

/// The properties of an item with the given throw range; movable when the range is positive.
pub open spec fn ranged_properties(range: u8) -> ItemProperties {
    ItemProperties { movable: range > 0, range, blocks_projectiles: false }
}

impl ItemProperties {
    /// An immovable item that also blocks projectiles (e.g. a brick wall).
    fn wall() -> (p: Self)
        ensures
            p == wall_properties(),
    {
        Self { movable: false, range: 0, blocks_projectiles: true }
    }

    /// An immovable item that does not block projectiles (e.g. an archway).
    fn fixed() -> (p: Self)
        ensures
            p == fixed_properties(),
    {
        Self { movable: false, range: 0, blocks_projectiles: false }
    }

    /// A movable item with the given throw range (in tiles).
    fn new(range: u8) -> (p: Self)
        ensures
            p == ranged_properties(range),
    {
        Self { movable: range > 0, range, blocks_projectiles: false }
    }
}

/// The physical interaction properties of an item id.
pub open spec fn spec_item_properties(id: u16) -> ItemProperties {
    match id {
        20 | 276 | 532 | 1556 | 5140 | 4116 | 4372 | 4884 | 1 => wall_properties(),
        283 | 534 | 790 | 524 | 163 | 928 | 778 | 266 | 1069 | 12 | 114 | 268 | 10 | 102 | 7180
        | 51 | 307 | 44 | 300 | 35 | 522 | 1290 | 14 | 4618 | 45578 | 29 | 285 | 541 | 797 | 19
        | 275 | 10003 | 10259 | 1043 | 10515 | 10771 | 11027 | 11283 | 11539 | 11795 | 12051
        | 12307 | 12563 | 12819 | 1299 | 1555 | 1811 | 2067 | 2323 | 2579 | 2835 | 3091 | 3347
        | 3603 | 3859 | 4115 | 4371 | 4627 | 4883 | 5139 | 531 | 5395 | 5651 | 5907 | 6163
        | 6419 | 6675 | 6931 | 7187 | 7443 | 7699 | 787 | 7955 | 8211 | 8467 | 8723 | 8979
        | 9235 | 9491 | 9747 | 13075 | 13331 | 13587 | 13843 | 14099 | 14355 | 14611 | 14867
        | 15123 | 2058 | 23054 | 2314 | 23310 | 23566 | 23822 | 24078 | 24334 | 24590 | 24846
        | 25102 | 25358 | 25614 | 2570 | 25870 | 2826 | 3082 | 3338 | 3594 | 3850 | 4106 | 4160
        | 42506 | 42762 | 43018 | 43274 | 43530 | 4362 | 43786 | 44042 | 44298 | 44554 | 44810
        | 45066 | 45322 | 45834 | 46090 | 46346 | 46602 | 46858 | 47114 | 47370 | 47626 | 47882
        | 48138 | 48394 | 48650 | 4874 | 5130 | 5386 | 5642 | 5898 | 6154 | 6410 | 6666 | 6922
        | 7178 | 7434 | 7690 | 7946 => fixed_properties(),
        1325 | 1581 | 1837 | 1834 => ranged_properties(2),
        90 | 574 | 105 | 391 | 135 | 134 | 811 | 317 | 2881 | 93 | 873 | 602 | 3418 | 346 | 642
        | 119 | 375 | 631 | 887 | 1143 | 1399 | 1655 | 1911 | 2167 | 2423 | 2679 | 2935 | 3191
        | 3447 | 3703 | 3959 => ranged_properties(8),
        _ => fixed_properties(),
    }
}

/// Returns the physical interaction properties for a given item id.
pub fn item_properties(id: u16) -> (props: ItemProperties)
    ensures
        props == spec_item_properties(id),
{
    match id {
        20 | 276 | 532 | 1556 | 5140 | 4116 | 4372 | 4884 | 1 => ItemProperties::wall(),
        283 | 534 | 790 | 524 | 163 | 928 | 778 | 266 | 1069 | 12 | 114 | 268 | 10 | 102 | 7180
        | 51 | 307 | 44 | 300 | 35 | 522 | 1290 | 14 | 4618 | 45578 | 29 | 285 | 541 | 797 | 19
        | 275 | 10003 | 10259 | 1043 | 10515 | 10771 | 11027 | 11283 | 11539 | 11795 | 12051
        | 12307 | 12563 | 12819 | 1299 | 1555 | 1811 | 2067 | 2323 | 2579 | 2835 | 3091 | 3347
        | 3603 | 3859 | 4115 | 4371 | 4627 | 4883 | 5139 | 531 | 5395 | 5651 | 5907 | 6163
        | 6419 | 6675 | 6931 | 7187 | 7443 | 7699 | 787 | 7955 | 8211 | 8467 | 8723 | 8979
        | 9235 | 9491 | 9747 | 13075 | 13331 | 13587 | 13843 | 14099 | 14355 | 14611 | 14867
        | 15123 | 2058 | 23054 | 2314 | 23310 | 23566 | 23822 | 24078 | 24334 | 24590 | 24846
        | 25102 | 25358 | 25614 | 2570 | 25870 | 2826 | 3082 | 3338 | 3594 | 3850 | 4106 | 4160
        | 42506 | 42762 | 43018 | 43274 | 43530 | 4362 | 43786 | 44042 | 44298 | 44554 | 44810
        | 45066 | 45322 | 45834 | 46090 | 46346 | 46602 | 46858 | 47114 | 47370 | 47626 | 47882
        | 48138 | 48394 | 48650 | 4874 | 5130 | 5386 | 5642 | 5898 | 6154 | 6410 | 6666 | 6922
        | 7178 | 7434 | 7690 | 7946 => ItemProperties::fixed(),
        1325 | 1581 | 1837 | 1834 => ItemProperties::new(2),
        90 | 574 | 105 | 391 | 135 | 134 | 811 | 317 | 2881 | 93 | 873 | 602 | 3418 | 346 | 642
        | 119 | 375 | 631 | 887 | 1143 | 1399 | 1655 | 1911 | 2167 | 2423 | 2679 | 2935 | 3191
        | 3447 | 3703 | 3959 => ItemProperties::new(8),
        _ => ItemProperties::fixed(),
    }
}

/// The item tables agree: an item is movable exactly when its range is positive; the
/// range is 0, 2 or 8; an item that blocks projectiles is neither movable nor walkable;
/// and an item without a name has no properties (immovable, range 0, not blocking).
#[verifier::spinoff_prover]
#[verifier::rlimit(100)]
pub proof fn lemma_item_tables_agree(id: u16)
    ensures
        spec_item_properties(id).movable <==> spec_item_properties(id).range > 0,
        spec_item_properties(id).range == 0 || spec_item_properties(id).range == 2 || spec_item_properties(id).range == 8,
        spec_item_properties(id).blocks_projectiles ==> !spec_item_properties(id).movable && blocks_movement(id),
        spec_item_name(id) == "unknown"@ ==> spec_item_properties(id) == fixed_properties(),
{
    if spec_item_properties(id) != fixed_properties() {
        assert(spec_item_name(20) == "a brick wall"@);
        assert(spec_item_name(20) != "unknown"@) by {
            reveal_strlit("unknown");
            reveal_strlit("a brick wall");
            assert("a brick wall"@[0] != "unknown"@[0]);
        }
        assert(spec_item_name(276) == "a brick wall"@);
        assert(spec_item_name(276) != "unknown"@) by {
            reveal_strlit("unknown");
            reveal_strlit("a brick wall");
            assert("a brick wall"@[0] != "unknown"@[0]);
        }
        assert(spec_item_name(532) == "a brick wall"@);
        assert(spec_item_name(532) != "unknown"@) by {
            reveal_strlit("unknown");
            reveal_strlit("a brick wall");
            assert("a brick wall"@[0] != "unknown"@[0]);
        }
        assert(spec_item_name(1556) == "a brick wall"@);
        assert(spec_item_name(1556) != "unknown"@) by {
            reveal_strlit("unknown");
            reveal_strlit("a brick wall");
            assert("a brick wall"@[0] != "unknown"@[0]);
        }
        assert(spec_item_name(5140) == "a framework wall"@);
        assert(spec_item_name(5140) != "unknown"@) by {
            reveal_strlit("unknown");
            reveal_strlit("a framework wall");
            assert("a framework wall"@[0] != "unknown"@[0]);
        }
        assert(spec_item_name(4116) == "a framework wall"@);
        assert(spec_item_name(4116) != "unknown"@) by {
            reveal_strlit("unknown");
            reveal_strlit("a framework wall");
            assert("a framework wall"@[0] != "unknown"@[0]);
        }
        assert(spec_item_name(4372) == "a framework wall"@);
        assert(spec_item_name(4372) != "unknown"@) by {
            reveal_strlit("unknown");
            reveal_strlit("a framework wall");
            assert("a framework wall"@[0] != "unknown"@[0]);
        }
        assert(spec_item_name(4884) == "a framework wall"@);
        assert(spec_item_name(4884) != "unknown"@) by {
            reveal_strlit("unknown");
            reveal_strlit("a framework wall");
            assert("a framework wall"@[0] != "unknown"@[0]);
        }
        assert(spec_item_name(1) == "void"@);
        assert(spec_item_name(1) != "unknown"@) by {
            reveal_strlit("unknown");
            reveal_strlit("void");
            assert("void"@[0] != "unknown"@[0]);
        }
        assert(spec_item_name(1325) == "a barrel"@);
        assert(spec_item_name(1325) != "unknown"@) by {
            reveal_strlit("unknown");
            reveal_strlit("a barrel");
            assert("a barrel"@[0] != "unknown"@[0]);
        }
        assert(spec_item_name(1581) == "a trough of water"@);
        assert(spec_item_name(1581) != "unknown"@) by {
            reveal_strlit("unknown");
            reveal_strlit("a trough of water");
            assert("a trough of water"@[0] != "unknown"@[0]);
        }
        assert(spec_item_name(1837) == "a trough"@);
        assert(spec_item_name(1837) != "unknown"@) by {
            reveal_strlit("unknown");
            reveal_strlit("a trough");
            assert("a trough"@[0] != "unknown"@[0]);
        }
        assert(spec_item_name(1834) == "a chest of drawers"@);
        assert(spec_item_name(1834) != "unknown"@) by {
            reveal_strlit("unknown");
            reveal_strlit("a chest of drawers");
            assert("a chest of drawers"@[0] != "unknown"@[0]);
        }
        assert(spec_item_name(90) == "a sword"@);
        assert(spec_item_name(90) != "unknown"@) by {
            reveal_strlit("unknown");
            reveal_strlit("a sword");
            assert("a sword"@[0] != "unknown"@[0]);
        }
        assert(spec_item_name(574) == "a bottle"@);
        assert(spec_item_name(574) != "unknown"@) by {
            reveal_strlit("unknown");
            reveal_strlit("a bottle");
            assert("a bottle"@[0] != "unknown"@[0]);
        }
        assert(spec_item_name(105) == "a baking tray"@);
        assert(spec_item_name(105) != "unknown"@) by {
            reveal_strlit("unknown");
            reveal_strlit("a baking tray");
            assert("a baking tray"@[0] != "unknown"@[0]);
        }
        assert(spec_item_name(391) == "a lump of dough"@);
        assert(spec_item_name(391) != "unknown"@) by {
            reveal_strlit("unknown");
            reveal_strlit("a lump of dough");
            assert("a lump of dough"@[0] != "unknown"@[0]);
        }
        assert(spec_item_name(135) == "flour"@);
        assert(spec_item_name(135) != "unknown"@) by {
            reveal_strlit("unknown");
            reveal_strlit("flour");
            assert("flour"@[0] != "unknown"@[0]);
        }
        assert(spec_item_name(134) == "bread"@);
        assert(spec_item_name(134) != "unknown"@) by {
            reveal_strlit("unknown");
            reveal_strlit("bread");
            assert("bread"@[0] != "unknown"@[0]);
        }
        assert(spec_item_name(811) == "a chest"@);
        assert(spec_item_name(811) != "unknown"@) by {
            reveal_strlit("unknown");
            reveal_strlit("a chest");
            assert("a chest"@[0] != "unknown"@[0]);
        }
        assert(spec_item_name(317) == "a bag"@);
        assert(spec_item_name(317) != "unknown"@) by {
            reveal_strlit("unknown");
            reveal_strlit("a bag");
            assert("a bag"@[0] != "unknown"@[0]);
        }
        assert(spec_item_name(2881) == "a candlestick"@);
        assert(spec_item_name(2881) != "unknown"@) by {
            reveal_strlit("unknown");
            reveal_strlit("a candlestick");
            assert("a candlestick"@[0] != "unknown"@[0]);
        }
        assert(spec_item_name(93) == "a steel shield"@);
        assert(spec_item_name(93) != "unknown"@) by {
            reveal_strlit("unknown");
            reveal_strlit("a steel shield");
            assert("a steel shield"@[0] != "unknown"@[0]);
        }
        assert(spec_item_name(873) == "a pot"@);
        assert(spec_item_name(873) != "unknown"@) by {
            reveal_strlit("unknown");
            reveal_strlit("a pot");
            assert("a pot"@[0] != "unknown"@[0]);
        }
        assert(spec_item_name(602) == "a battle axe"@);
        assert(spec_item_name(602) != "unknown"@) by {
            reveal_strlit("unknown");
            reveal_strlit("a battle axe");
            assert("a battle axe"@[0] != "unknown"@[0]);
        }
        assert(spec_item_name(3418) == "a spear"@);
        assert(spec_item_name(3418) != "unknown"@) by {
            reveal_strlit("unknown");
            reveal_strlit("a spear");
            assert("a spear"@[0] != "unknown"@[0]);
        }
        assert(spec_item_name(346) == "a two-handed sword"@);
        assert(spec_item_name(346) != "unknown"@) by {
            reveal_strlit("unknown");
            reveal_strlit("a two-handed sword");
            assert("a two-handed sword"@[0] != "unknown"@[0]);
        }
        assert(spec_item_name(642) == "meat"@);
        assert(spec_item_name(642) != "unknown"@) by {
            reveal_strlit("unknown");
            reveal_strlit("meat");
            assert("meat"@[0] != "unknown"@[0]);
        }
        assert(spec_item_name(119) == "a black token"@);
        assert(spec_item_name(119) != "unknown"@) by {
            reveal_strlit("unknown");
            reveal_strlit("a black token");
            assert("a black token"@[0] != "unknown"@[0]);
        }
        assert(spec_item_name(375) == "a white token"@);
        assert(spec_item_name(375) != "unknown"@) by {
            reveal_strlit("unknown");
            reveal_strlit("a white token");
            assert("a white token"@[0] != "unknown"@[0]);
        }
        assert(spec_item_name(631) == "a black pawn"@);
        assert(spec_item_name(631) != "unknown"@) by {
            reveal_strlit("unknown");
            reveal_strlit("a black pawn");
            assert("a black pawn"@[0] != "unknown"@[0]);
        }
        assert(spec_item_name(887) == "a black castle"@);
        assert(spec_item_name(887) != "unknown"@) by {
            reveal_strlit("unknown");
            reveal_strlit("a black castle");
            assert("a black castle"@[0] != "unknown"@[0]);
        }
        assert(spec_item_name(1143) == "a black knight"@);
        assert(spec_item_name(1143) != "unknown"@) by {
            reveal_strlit("unknown");
            reveal_strlit("a black knight");
            assert("a black knight"@[0] != "unknown"@[0]);
        }
        assert(spec_item_name(1399) == "a black bishop"@);
        assert(spec_item_name(1399) != "unknown"@) by {
            reveal_strlit("unknown");
            reveal_strlit("a black bishop");
            assert("a black bishop"@[0] != "unknown"@[0]);
        }
        assert(spec_item_name(1655) == "a black queen"@);
        assert(spec_item_name(1655) != "unknown"@) by {
            reveal_strlit("unknown");
            reveal_strlit("a black queen");
            assert("a black queen"@[0] != "unknown"@[0]);
        }
        assert(spec_item_name(1911) == "a black king"@);
        assert(spec_item_name(1911) != "unknown"@) by {
            reveal_strlit("unknown");
            reveal_strlit("a black king");
            assert("a black king"@[0] != "unknown"@[0]);
        }
        assert(spec_item_name(2167) == "a white pawn"@);
        assert(spec_item_name(2167) != "unknown"@) by {
            reveal_strlit("unknown");
            reveal_strlit("a white pawn");
            assert("a white pawn"@[0] != "unknown"@[0]);
        }
        assert(spec_item_name(2423) == "a white castle"@);
        assert(spec_item_name(2423) != "unknown"@) by {
            reveal_strlit("unknown");
            reveal_strlit("a white castle");
            assert("a white castle"@[0] != "unknown"@[0]);
        }
        assert(spec_item_name(2679) == "a white knight"@);
        assert(spec_item_name(2679) != "unknown"@) by {
            reveal_strlit("unknown");
            reveal_strlit("a white knight");
            assert("a white knight"@[0] != "unknown"@[0]);
        }
        assert(spec_item_name(2935) == "a white bishop"@);
        assert(spec_item_name(2935) != "unknown"@) by {
            reveal_strlit("unknown");
            reveal_strlit("a white bishop");
            assert("a white bishop"@[0] != "unknown"@[0]);
        }
        assert(spec_item_name(3191) == "a white queen"@);
        assert(spec_item_name(3191) != "unknown"@) by {
            reveal_strlit("unknown");
            reveal_strlit("a white queen");
            assert("a white queen"@[0] != "unknown"@[0]);
        }
        assert(spec_item_name(3447) == "a white king"@);
        assert(spec_item_name(3447) != "unknown"@) by {
            reveal_strlit("unknown");
            reveal_strlit("a white king");
            assert("a white king"@[0] != "unknown"@[0]);
        }
        assert(spec_item_name(3703) == "a tic-tac-toe token"@);
        assert(spec_item_name(3703) != "unknown"@) by {
            reveal_strlit("unknown");
            reveal_strlit("a tic-tac-toe token");
            assert("a tic-tac-toe token"@[0] != "unknown"@[0]);
        }
        assert(spec_item_name(3959) == "a tic-tac-toe token"@);
        assert(spec_item_name(3959) != "unknown"@) by {
            reveal_strlit("unknown");
            reveal_strlit("a tic-tac-toe token");
            assert("a tic-tac-toe token"@[0] != "unknown"@[0]);
        }
    }
}

} // verus!
