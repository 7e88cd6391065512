use albesjourney::map::items::{is_container, is_walkable, item_name, item_properties, ItemProperties};
use albesjourney::map::position::Position;
use albesjourney::map::{tile_id_map, item_id_map, GameMap, MapTile, TileObject};

fn small_map() -> GameMap {
    let tiles = vec![
        MapTile { x: 2, y: 3, tileid: Some(405), items: vec![2376, 99] },
        MapTile { x: 4, y: 4, tileid: None, items: vec![1987] },
    ];
    GameMap::load(&tiles, 10, 10, 0, 0, Position::new(5, 5, 7))
}

#[test]
fn item_names_from_table() {
    assert_eq!(item_name(90), "a sword");
    assert_eq!(item_name(14), "water");
    assert_eq!(item_name(811), "a chest");
    assert_eq!(item_name(20), "a brick wall");
}

#[test]
fn walkability_and_containers() {
    assert!(!is_walkable(14));
    assert!(!is_walkable(20));
    assert!(is_walkable(12));
    assert!(is_walkable(90));
    assert!(is_container(811));
    assert!(is_container(317));
    assert!(is_container(1325));
    assert!(is_container(1834));
    assert!(!is_container(90));
}

#[test]
fn item_properties_by_kind() {
    assert_eq!(item_properties(20), ItemProperties { movable: false, range: 0, blocks_projectiles: true });
    assert_eq!(item_properties(283), ItemProperties { movable: false, range: 0, blocks_projectiles: false });
    assert_eq!(item_properties(1325), ItemProperties { movable: true, range: 2, blocks_projectiles: false });
    assert_eq!(item_properties(90), ItemProperties { movable: true, range: 8, blocks_projectiles: false });
    assert_eq!(item_properties(60000), ItemProperties { movable: false, range: 0, blocks_projectiles: false });
}

#[test]
fn id_tables_translate_known_ids() {
    let t = tile_id_map();
    assert_eq!(t.get(&405), Some(&0x000C));
    assert_eq!(t.get(&1016), Some(&0x3313));
    assert_eq!(t.get(&968), Some(&0x0313));
    assert_eq!(t.get(&1), None);
    let i = item_id_map();
    assert_eq!(i.get(&2376), Some(&0x005A));
    assert_eq!(i.get(&1987), Some(&0x013D));
    assert_eq!(i.get(&99), None);
}

#[test]
fn load_fills_water_and_translates_tiles() {
    let m = small_map();
    assert_eq!(m.respawn, Position::new(5, 5, 7));
    assert_eq!(m.get_tile_objects(Position::new(0, 0, 7)), Some(&[TileObject::Ground(0x000E)][..]));
    assert_eq!(
        m.get_tile_objects(Position::new(2, 3, 7)),
        Some(&[TileObject::Ground(0x000C), TileObject::Item(0x005A)][..])
    );
    assert_eq!(
        m.get_tile_objects(Position::new(4, 4, 7)),
        Some(&[TileObject::Ground(0x000E), TileObject::Item(0x013D)][..])
    );
    assert_eq!(m.get_tile_objects(Position::new(10, 0, 7)), None);
    assert_eq!(m.get_tile_objects(Position::new(3, 3, 6)), None);
}

#[test]
fn added_item_goes_on_top_and_removal_restores() {
    let mut m = small_map();
    let pos = Position::new(2, 3, 7);
    m.add_item_to_tile(pos, 134);
    assert_eq!(
        m.get_tile_objects(pos),
        Some(&[TileObject::Ground(0x000C), TileObject::Item(134), TileObject::Item(0x005A)][..])
    );
    assert!(m.remove_item(pos, 134));
    assert_eq!(
        m.get_tile_objects(pos),
        Some(&[TileObject::Ground(0x000C), TileObject::Item(0x005A)][..])
    );
    assert!(!m.remove_item(pos, 134));
}

#[test]
fn removing_from_a_missing_tile_fails() {
    let mut m = GameMap::new(4, 4, 0, 0, Position::new(0, 0, 7));
    assert!(!m.remove_item(Position::new(1, 1, 7), 90));
    m.add_item_to_tile(Position::new(1, 1, 7), 90);
    assert_eq!(m.get_tile_objects(Position::new(1, 1, 7)), Some(&[TileObject::Item(90)][..]));
}

#[test]
fn container_contents_round_trip() {
    let mut m = small_map();
    let pos = Position::new(4, 4, 7);
    assert_eq!(m.get_container_contents(pos), None);
    m.set_container_contents(pos, vec![90, 134]);
    assert_eq!(m.get_container_contents(pos), Some(&vec![90, 134]));
    assert_eq!(m.get_container_contents(Position::new(4, 5, 7)), None);
    assert_eq!(m.take_container_contents(pos), Some(vec![90, 134]));
    assert_eq!(m.get_container_contents(pos), None);
    assert_eq!(m.take_container_contents(pos), None);
}

#[test]
fn id_tables_have_every_target_named() {
    let t = tile_id_map();
    assert_eq!(t.len(), 75);
    for (_, v) in t.iter() {
        assert_ne!(*v, 0);
        assert_ne!(item_name(*v), "unknown");
    }
    for i in 0..9u16 {
        assert_eq!(t.get(&(1016 + i)), Some(&(0x3313 + i * 0x0100)));
    }
    for i in 0..49u16 {
        assert_eq!(t.get(&(967 + i)), Some(&(0x0213 + i * 0x0100)));
    }
    assert_eq!(t.get(&4608), Some(&0x000E));
    let i = item_id_map();
    assert_eq!(i.len(), 60);
    for (_, v) in i.iter() {
        assert_ne!(*v, 0);
        assert_ne!(item_name(*v), "unknown");
    }
}

#[test]
fn saved_contents_survive_other_changes() {
    let mut m = small_map();
    let pos = Position::new(4, 4, 7);
    let other = Position::new(2, 3, 7);
    m.set_container_contents(pos, vec![90, 134]);
    m.set_container_contents(other, vec![5]);
    m.add_item_to_tile(pos, 90);
    assert!(m.remove_item(pos, 90));
    assert_eq!(m.take_container_contents(other), Some(vec![5]));
    assert_eq!(m.take_container_contents(pos), Some(vec![90, 134]));
    assert_eq!(m.get_container_contents(pos), None);
    assert_eq!(m.take_container_contents(pos), None);
    assert_eq!(m.get_tile_objects(pos), Some(&[TileObject::Ground(0x0E), TileObject::Item(0x013D)][..]));
}

#[test]
fn item_tables_agree() {
    for id in 0..=u16::MAX {
        let p = item_properties(id);
        assert_eq!(p.movable, p.range > 0);
        assert!(p.range == 0 || p.range == 2 || p.range == 8);
        if p.blocks_projectiles {
            assert!(!p.movable && !is_walkable(id));
        }
        if item_name(id) == "unknown" {
            assert_eq!(p, ItemProperties { movable: false, range: 0, blocks_projectiles: false });
        }
    }
}
