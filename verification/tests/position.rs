use albesjourney::constants::ObjectUpdateType;
use albesjourney::map::position::{Position, PositionQualifier};
use albesjourney::player::{Direction, InventorySlot};

#[test]
fn qualifier_of_inventory_slots() {
    let p = Position::new(0x00FF, 5, 0);
    assert_eq!(p.get_qualifier(), Ok(PositionQualifier::Inventory(InventorySlot::RightHand)));
    assert_eq!(Position::new(0x00FF, 1, 0).get_qualifier(), Ok(PositionQualifier::Inventory(InventorySlot::Helmet)));
    assert_eq!(Position::new(0x00FF, 8, 0).get_qualifier(), Ok(PositionQualifier::Inventory(InventorySlot::Boots)));
}

#[test]
fn qualifier_of_map_tiles() {
    assert_eq!(Position::new(10, 10, 7).get_qualifier(), Ok(PositionQualifier::MapTile));
    assert_eq!(Position::new(0x00FF, 0, 7).get_qualifier(), Ok(PositionQualifier::MapTile));
    assert_eq!(Position::new(0x00FF, 9, 7).get_qualifier(), Ok(PositionQualifier::MapTile));
}

#[test]
fn stepping_in_each_direction() {
    let p = Position::new(10, 10, 7);
    assert_eq!(p.add_direction(Direction::North), Position::new(10, 9, 7));
    assert_eq!(p.add_direction(Direction::East), Position::new(11, 10, 7));
    assert_eq!(p.add_direction(Direction::South), Position::new(10, 11, 7));
    assert_eq!(p.add_direction(Direction::West), Position::new(9, 10, 7));
}

#[test]
fn stepping_wraps_at_the_edges() {
    assert_eq!(Position::new(0, 0, 7).add_direction(Direction::North), Position::new(0, 0xFFFF, 7));
    assert_eq!(Position::new(0, 0, 7).add_direction(Direction::West), Position::new(0xFFFF, 0, 7));
}

#[test]
fn offset_then_back_is_identity() {
    let p = Position::new(100, 3, 7);
    let d = (-5i16, 7i16, -1i8);
    let q = p.add_offset(d);
    assert_eq!(q, Position::new(95, 10, 6));
    assert_eq!(q.sub_offset(d), p);
}

#[test]
fn step_back_returns_to_start() {
    let p = Position::new(7, 0, 7);
    let back = [Direction::South, Direction::West, Direction::North, Direction::East];
    for (i, d) in [Direction::North, Direction::East, Direction::South, Direction::West].iter().enumerate() {
        assert_eq!(p.add_direction(*d).add_direction(back[i]), p);
    }
}

#[test]
fn position_text() {
    assert_eq!(Position::new(50, 100, 7).to_text(), "(50,100,7)");
    assert_eq!(Position::new(0, 65535, 0).to_text(), "(0,65535,0)");
}

#[test]
fn direction_numbers_round_trip() {
    for d in [Direction::North, Direction::East, Direction::South, Direction::West] {
        assert_eq!(Direction::from_u8(d.to_u8()), Some(d));
    }
    assert_eq!(Direction::from_u8(4), None);
    assert_eq!(Direction::default(), Direction::South);
}

#[test]
fn slot_numbers_round_trip() {
    for v in 1u8..=8 {
        assert_eq!(InventorySlot::from_u8(v).map(|s| s.to_u8()), Some(v));
    }
    assert_eq!(InventorySlot::from_u8(0), None);
    assert_eq!(InventorySlot::from_u8(9), None);
}

#[test]
fn object_update_numbers() {
    assert_eq!(ObjectUpdateType::Remove.to_u8(), 0);
    assert_eq!(ObjectUpdateType::Add.to_u8(), 1);
    assert_eq!(ObjectUpdateType::Update.to_u8(), 2);
    assert_eq!(ObjectUpdateType::from_u8(2), Some(ObjectUpdateType::Update));
    assert_eq!(ObjectUpdateType::from_u8(3), None);
}
