use albesjourney::chat::ChatType;
use albesjourney::map::position::Position;
use albesjourney::map::{GameMap, MapTile, TileObject};
use albesjourney::network::connection::receive::PacketError;
use albesjourney::network::connection::Connection;
use albesjourney::network::packet::PacketIds;
use albesjourney::io::{PacketReader, ReadError, ReadExt};
use albesjourney::player::{Direction, InventorySlot, Player};
use albesjourney::world::message::{PlayerToWorld, WorldToPlayer};

fn ids() -> PacketIds {
    PacketIds {
        outgoing: [0x01, 0x02, 0x03, 0x04, 0x05, 0x06, 0x07, 0x08, 0x09, 0x0A, 0x0B, 0x0C],
        incoming: [0x01, 0x02, 0x03, 0x04, 0x05, 0x06, 0x07, 0x08, 0x09, 0x0A, 0x0B, 0x0C, 0x0D, 0x0E, 0x0F],
    }
}

fn floor_map() -> GameMap {
    let mut tiles = Vec::new();
    for x in 0..32u16 {
        for y in 0..32u16 {
            tiles.push(MapTile { x, y, tileid: Some(405), items: vec![] });
        }
    }
    GameMap::load(&tiles, 32, 32, 0, 0, Position::new(10, 10, 7))
}

fn conn_at(x: u16, y: u16) -> Connection {
    Connection::new(Player::new(1, "Alice", Position::new(x, y, 7)), ids())
}

fn packets(c: &mut Connection) -> Vec<Vec<u8>> {
    let bytes = c.take_frames();
    let mut out = Vec::new();
    let mut i = 0;
    while i < bytes.len() {
        let n = (bytes[i] as usize) + 256 * (bytes[i + 1] as usize) - 2;
        out.push(bytes[i + 2..i + 2 + n].to_vec());
        i += 2 + n;
    }
    out
}

fn look_bytes(text: &str) -> Vec<u8> {
    let mut v = vec![0, 0, 0, 0, 0x0B, 8, 7, 0x4D];
    v.extend_from_slice(text.as_bytes());
    v.push(0);
    v
}

fn sorry() -> Vec<u8> {
    let mut v = vec![0, 0, 0, 0, 0x02];
    v.extend_from_slice(b"Sorry, not possible.");
    v.push(0);
    v
}

#[test]
fn status_message_packet() {
    let c = conn_at(10, 10);
    assert_eq!(c.send_status_message("Hi"), vec![0, 0, 0, 0, 0x02, b'H', b'i', 0]);
}

#[test]
fn small_packets() {
    let c = conn_at(10, 10);
    assert_eq!(c.send_close_container(1), vec![0, 0, 0, 0, 0x0A, 1]);
    assert_eq!(c.send_remove_equipped(5), vec![0, 0, 0, 0, 0x05, 5]);
    assert_eq!(c.send_equipped_item(InventorySlot::RightHand, 0x005A), vec![0, 0, 0, 0, 0x04, 0x5A, 0x00, 5]);
}

#[test]
fn chat_packet_relative_to_screen() {
    let c = conn_at(10, 10);
    let pkt = c.build_chat_packet(ChatType::Normal, b"hi", Position::new(12, 9, 7), "Bob");
    assert_eq!(pkt, vec![0, 0, 0, 0, 0x0B, 10, 5, 0x53, b'B', b'o', b'b', 0x09, b'h', b'i', 0]);
    let far = c.build_chat_packet(ChatType::Yell, b"X", Position::new(40, 0, 7), "");
    assert_eq!(far, vec![0, 0, 0, 0, 0x0B, 14, 0, 0x59, b'X', 0]);
    let b = c.build_chat_packet(ChatType::Broadcast, b"yo", Position::new(10, 8, 7), "Bob");
    let mut expect = vec![0, 0, 0, 0, 0x0B, 8, 4, 0x42];
    expect.extend_from_slice(b"Broadcast from Bob\tyo\0");
    assert_eq!(b, expect);
}

#[test]
fn frames_carry_length_prefix() {
    let mut c = conn_at(10, 10);
    c.enqueue(vec![7, 8, 9]);
    c.enqueue(vec![]);
    c.enqueue(vec![1]);
    assert_eq!(c.take_frames(), vec![5, 0, 7, 8, 9, 3, 0, 1]);
    assert_eq!(c.take_frames(), Vec::<u8>::new());
}

#[test]
fn one_tile_map_packet() {
    let c = conn_at(10, 10);
    let map = floor_map();
    let pkt = c.send_map(&map, Position::new(10, 10, 7), 1, 1);
    assert_eq!(pkt, vec![0, 0, 0, 0, 0x0C, 10, 10, 0x0C, 0x00, 0xFC, 0, 0, 0, 0xFF, 0xFE, 0x00]);
}

#[test]
fn login_sequence_order() {
    let mut c = conn_at(10, 10);
    let map = floor_map();
    c.send_login_sequence(&map, "Welcome", "News");
    let p = packets(&mut c);
    assert_eq!(p.len(), 7);
    assert_eq!(p[0], vec![0, 0, 0, 0, 0x01]);
    assert_eq!(p[1], vec![0, 0, 0, 0, 0x04, 0x3D, 0x01, 3]);
    assert_eq!(p[2], vec![0, 0, 0, 0, 0x04, 0x5A, 0x00, 5]);
    assert_eq!(p[3], vec![0, 0, 0, 0, 0x04, 0x86, 0x00, 6]);
    assert_eq!(p[4][4], 0x0C);
    assert_eq!(p[5], vec![0, 0, 0, 0, 0x02, b'W', b'e', b'l', b'c', b'o', b'm', b'e', 0]);
    assert_eq!(p[6], vec![0, 0, 0, 0, 0x03, b'N', b'e', b'w', b's', 0]);
}

#[test]
fn walking_north_moves_and_redraws() {
    let mut c = conn_at(10, 10);
    let mut map = floor_map();
    assert_eq!(c.handle_packet(&mut map, &[0x03, 0x00, 0]), Ok(()));
    assert_eq!(c.player.position, Position::new(10, 9, 7));
    assert_eq!(c.player.direction, Direction::North);
    let events = c.take_world_events();
    assert_eq!(events.len(), 1);
    assert!(matches!(&events[0], PlayerToWorld::UpdatePosition(p) if p.position == Position::new(10, 9, 7)));
    let p = packets(&mut c);
    assert_eq!(p.len(), 1);
    assert_eq!(&p[0][..7], &[0, 0, 0, 0, 0x0C, 10, 9]);
}

#[test]
fn walking_with_a_bad_direction_fails() {
    let mut c = conn_at(10, 10);
    let mut map = floor_map();
    assert_eq!(c.handle_packet(&mut map, &[0x03, 0x00, 7]), Err(PacketError::InvalidDirection(7)));
    assert_eq!(c.handle_packet(&mut map, &[0x03, 0x00]), Err(PacketError::Read(ReadError::UnexpectedEof)));
    assert_eq!(c.player.position, Position::new(10, 10, 7));
}

#[test]
fn walking_away_closes_map_containers() {
    let mut c = conn_at(10, 10);
    let mut map = floor_map();
    map.add_item_to_tile(Position::new(11, 10, 7), 811);
    assert_eq!(c.handle_packet(&mut map, &[0x0A, 0x00, 1, 9, 6, 0x2B, 0x03, 1, 0]), Ok(()));
    assert_eq!(c.player.containers.len(), 1);
    packets(&mut c);
    assert_eq!(c.handle_packet(&mut map, &[0x03, 0x00, 3]), Ok(()));
    assert_eq!(c.player.containers.len(), 0);
    let p = packets(&mut c);
    assert_eq!(p.len(), 2);
    assert_eq!(p[0], vec![0, 0, 0, 0, 0x0A, 0]);
}

fn chat_body(text: &[u8]) -> Vec<u8> {
    let mut b = vec![0x06, 0x00, text.len() as u8, 0];
    b.extend_from_slice(text);
    b
}

#[test]
fn normal_chat_goes_to_world() {
    let mut c = conn_at(10, 10);
    let mut map = floor_map();
    assert_eq!(c.handle_packet(&mut map, &chat_body(b"hello")), Ok(()));
    let e = c.take_world_events();
    assert_eq!(e.len(), 1);
    match &e[0] {
        PlayerToWorld::Chat(pos, ty, text, name, receiver) => {
            assert_eq!(*pos, Position::new(10, 10, 7));
            assert_eq!(*ty, ChatType::Normal);
            assert_eq!(text, b"hello");
            assert_eq!(name, "Alice");
            assert!(receiver.is_none());
        },
        other => panic!("unexpected {:?}", other),
    }
}

#[test]
fn yell_is_upper_cased() {
    let mut c = conn_at(10, 10);
    let mut map = floor_map();
    assert_eq!(c.handle_packet(&mut map, &chat_body(b"#y hey you")), Ok(()));
    let e = c.take_world_events();
    match &e[0] {
        PlayerToWorld::Chat(_, ty, text, _, _) => {
            assert_eq!(*ty, ChatType::Yell);
            assert_eq!(text, b"HEY YOU");
        },
        other => panic!("unexpected {:?}", other),
    }
}

#[test]
fn whisper_keeps_case() {
    let mut c = conn_at(10, 10);
    let mut map = floor_map();
    assert_eq!(c.handle_packet(&mut map, &chat_body(b"#w psst")), Ok(()));
    let e = c.take_world_events();
    match &e[0] {
        PlayerToWorld::Chat(_, ty, text, _, _) => {
            assert_eq!(*ty, ChatType::Whisper);
            assert_eq!(text, b"psst");
        },
        other => panic!("unexpected {:?}", other),
    }
}

#[test]
fn private_chat_parses_receiver() {
    let mut c = conn_at(10, 10);
    let mut map = floor_map();
    assert_eq!(c.handle_packet(&mut map, &chat_body(b"*Big Bob* hi there")), Ok(()));
    assert_eq!(c.handle_packet(&mut map, &chat_body(b"@Bob@no space")), Ok(()));
    let e = c.take_world_events();
    assert_eq!(e.len(), 2);
    match &e[0] {
        PlayerToWorld::Chat(_, ty, text, _, receiver) => {
            assert_eq!(*ty, ChatType::Private);
            assert_eq!(text, b"hi there");
            assert_eq!(receiver.as_deref(), Some("Big Bob"));
        },
        other => panic!("unexpected {:?}", other),
    }
    match &e[1] {
        PlayerToWorld::Chat(_, _, text, _, receiver) => {
            assert_eq!(text, b"no space");
            assert_eq!(receiver.as_deref(), Some("Bob"));
        },
        other => panic!("unexpected {:?}", other),
    }
}

#[test]
fn private_chat_without_closing_delimiter_is_dropped() {
    let mut c = conn_at(10, 10);
    let mut map = floor_map();
    assert_eq!(c.handle_packet(&mut map, &chat_body(b"*Bob hi")), Ok(()));
    assert_eq!(c.take_world_events().len(), 0);
}

#[test]
fn short_qualified_chat_is_malformed() {
    let mut c = conn_at(10, 10);
    let mut map = floor_map();
    assert_eq!(c.handle_packet(&mut map, &chat_body(b"#y")), Err(PacketError::MalformedChat));
    assert_eq!(c.handle_packet(&mut map, &[0x06, 0x00, 5, 0, b'a']), Err(PacketError::Read(ReadError::UnexpectedEof)));
}

#[test]
fn look_at_self() {
    let mut c = conn_at(10, 10);
    let mut map = floor_map();
    assert_eq!(c.handle_packet(&mut map, &[0x05, 0x00, 8, 6]), Ok(()));
    let p = packets(&mut c);
    assert_eq!(p, vec![look_bytes("You see yourself. You are male.\n[Position: 10, 10, 7]")]);
}

#[test]
fn look_at_item_ground_and_nothing() {
    let mut c = conn_at(10, 10);
    let mut map = floor_map();
    map.add_item_to_tile(Position::new(11, 10, 7), 90);
    assert_eq!(c.handle_packet(&mut map, &[0x05, 0x00, 9, 6]), Ok(()));
    assert_eq!(c.handle_packet(&mut map, &[0x05, 0x00, 8, 7]), Ok(()));
    let mut far = conn_at(40, 40);
    assert_eq!(far.handle_packet(&mut map, &[0x05, 0x00, 9, 6]), Ok(()));
    let p = packets(&mut c);
    assert_eq!(p[0], look_bytes("You see a sword.\n[Item id: 90]\n[Position: 11, 10, 7]"));
    assert_eq!(p[1], look_bytes("You see wooden floor.\n[Item id: 12]\n[Position: 10, 11, 7]"));
    assert_eq!(packets(&mut far), vec![look_bytes("You see nothing.\n[Position: 41, 40, 7]")]);
}

#[test]
fn look_at_other_player() {
    let mut c = conn_at(10, 10);
    let mut map = floor_map();
    let mut bob = Player::new(2, "Bob", Position::new(9, 10, 7));
    bob.gender = albesjourney::player::Gender::Female;
    assert!(c.process_login_message(&map, WorldToPlayer::PlayerList(vec![bob])));
    packets(&mut c);
    assert_eq!(c.handle_packet(&mut map, &[0x05, 0x00, 7, 6]), Ok(()));
    assert_eq!(packets(&mut c), vec![look_bytes("You see Bob. She is female.\n[Position: 9, 10, 7]")]);
}

#[test]
fn use_chest_opens_window_with_saved_contents() {
    let mut c = conn_at(10, 10);
    let mut map = floor_map();
    map.add_item_to_tile(Position::new(11, 10, 7), 811);
    map.set_container_contents(Position::new(11, 10, 7), vec![90]);
    assert_eq!(c.handle_packet(&mut map, &[0x0A, 0x00, 1, 9, 6, 0x2B, 0x03, 1, 0]), Ok(()));
    assert_eq!(c.player.containers.len(), 1);
    assert_eq!(c.player.containers[0].local_id, 0);
    assert_eq!(c.player.containers[0].items, vec![90]);
    assert_eq!(packets(&mut c), vec![vec![0, 0, 0, 0, 0x09, 0, 0x2B, 0x03, 0x5A, 0x00, 0xFF, 0xFF]]);
}

#[test]
fn use_refusals() {
    let mut c = conn_at(10, 10);
    let mut map = floor_map();
    assert_eq!(c.handle_packet(&mut map, &[0x0A, 0x00, 1, 9, 6, 0x5A, 0x00, 1, 0]), Ok(()));
    assert_eq!(c.handle_packet(&mut map, &[0x0A, 0x00, 1, 11, 6, 0x2B, 0x03, 1, 0]), Ok(()));
    assert_eq!(c.handle_packet(&mut map, &[0x0A, 0x00, 1, 11, 6]), Err(PacketError::Read(ReadError::UnexpectedEof)));
    assert_eq!(packets(&mut c), vec![sorry(), sorry()]);
    assert_eq!(c.player.containers.len(), 0);
}

#[test]
fn third_window_replaces_the_first() {
    let mut c = conn_at(10, 10);
    let mut map = floor_map();
    map.add_item_to_tile(Position::new(11, 10, 7), 811);
    let open = [0x0Au8, 0x00, 1, 9, 6, 0x2B, 0x03, 1, 0];
    assert_eq!(c.handle_packet(&mut map, &open), Ok(()));
    assert_eq!(c.handle_packet(&mut map, &open), Ok(()));
    assert_eq!(c.handle_packet(&mut map, &open), Ok(()));
    let lids: Vec<u8> = c.player.containers.iter().map(|w| w.local_id).collect();
    assert_eq!(lids, vec![1, 0]);
}

#[test]
fn closing_a_window() {
    let mut c = conn_at(10, 10);
    let mut map = floor_map();
    map.add_item_to_tile(Position::new(11, 10, 7), 811);
    assert_eq!(c.handle_packet(&mut map, &[0x0A, 0x00, 1, 9, 6, 0x2B, 0x03, 1, 0]), Ok(()));
    packets(&mut c);
    assert_eq!(c.handle_packet(&mut map, &[0x0B, 0x00, 0]), Ok(()));
    assert_eq!(c.player.containers.len(), 0);
    assert_eq!(packets(&mut c), vec![vec![0, 0, 0, 0, 0x0A, 0]]);
}

#[test]
fn auto_walk_finds_a_path_and_walks_it() {
    let mut c = conn_at(10, 10);
    let mut map = floor_map();
    assert_eq!(c.handle_packet(&mut map, &[0x04, 0x00, 10, 6]), Ok(()));
    assert_eq!(c.pending_path, vec![Direction::East, Direction::East]);
    assert!(c.advance_path(&map));
    assert!(c.advance_path(&map));
    assert!(!c.advance_path(&map));
    assert_eq!(c.player.position, Position::new(12, 10, 7));
    assert_eq!(c.take_world_events().len(), 2);
}

#[test]
fn auto_walk_goes_around_walls() {
    let mut c = conn_at(10, 10);
    let mut map = floor_map();
    map.add_item_to_tile(Position::new(11, 10, 7), 20);
    assert_eq!(c.handle_packet(&mut map, &[0x04, 0x00, 10, 6]), Ok(()));
    assert_eq!(c.pending_path.len(), 4);
    while c.advance_path(&map) {}
    assert_eq!(c.player.position, Position::new(12, 10, 7));
}

#[test]
fn auto_walk_refusals() {
    let mut c = conn_at(10, 10);
    let mut map = floor_map();
    assert_eq!(c.handle_packet(&mut map, &[0x04, 0x00, 1, 6]), Ok(()));
    assert_eq!(packets(&mut c).len(), 0);
    assert_eq!(c.handle_packet(&mut map, &[0x04, 0x00, 8, 6]), Ok(()));
    assert_eq!(packets(&mut c), vec![sorry()]);
    let mut edge = conn_at(0, 0);
    assert_eq!(edge.handle_packet(&mut map, &[0x04, 0x00, 6, 6]), Ok(()));
    assert_eq!(packets(&mut edge), vec![sorry()]);
}

#[test]
fn push_item_on_the_map() {
    let mut c = conn_at(10, 10);
    let mut map = floor_map();
    map.add_item_to_tile(Position::new(10, 10, 7), 90);
    assert_eq!(c.handle_packet(&mut map, &[0x09, 0x00, 8, 6, 0x5A, 0x00, 1, 9, 6]), Ok(()));
    assert_eq!(map.get_tile_objects(Position::new(10, 10, 7)), Some(&[TileObject::Ground(0x0C)][..]));
    assert_eq!(
        map.get_tile_objects(Position::new(11, 10, 7)),
        Some(&[TileObject::Ground(0x0C), TileObject::Item(90)][..])
    );
    let e = c.take_world_events();
    assert!(matches!(&e[..], [PlayerToWorld::MapUpdate(p)] if *p == Position::new(10, 10, 7)));
}

#[test]
fn push_refusals_leave_the_map() {
    let mut c = conn_at(10, 10);
    let mut map = floor_map();
    map.add_item_to_tile(Position::new(11, 10, 7), 20);
    map.add_item_to_tile(Position::new(10, 10, 7), 90);
    assert_eq!(c.handle_packet(&mut map, &[0x09, 0x00, 9, 6, 0x14, 0x00, 1, 10, 6]), Ok(()));
    assert_eq!(c.handle_packet(&mut map, &[0x09, 0x00, 8, 6, 0x5A, 0x00, 1, 9, 6]), Ok(()));
    assert_eq!(c.handle_packet(&mut map, &[0x09, 0x00, 12, 6, 0x5A, 0x00, 1, 8, 6]), Ok(()));
    assert_eq!(packets(&mut c), vec![sorry(), sorry(), sorry()]);
    assert_eq!(
        map.get_tile_objects(Position::new(10, 10, 7)),
        Some(&[TileObject::Ground(0x0C), TileObject::Item(90)][..])
    );
}

#[test]
fn push_from_map_into_equipment_and_bag() {
    let mut c = conn_at(10, 10);
    let mut map = floor_map();
    map.add_item_to_tile(Position::new(10, 10, 7), 90);
    map.add_item_to_tile(Position::new(10, 10, 7), 134);
    assert_eq!(c.handle_packet(&mut map, &[0x09, 0x00, 8, 6, 0x5A, 0x00, 1, 0xFF, 4]), Ok(()));
    assert_eq!(c.player.equipment.get(&4), Some(&90));
    assert_eq!(c.handle_packet(&mut map, &[0x09, 0x00, 8, 6, 0x86, 0x00, 1, 0xFF, 3]), Ok(()));
    assert_eq!(c.player.equipment_container_contents.get(&3), Some(&vec![134]));
    assert_eq!(map.get_tile_objects(Position::new(10, 10, 7)), Some(&[TileObject::Ground(0x0C)][..]));
}

#[test]
fn push_between_equipment_slots() {
    let mut c = conn_at(10, 10);
    let mut map = floor_map();
    assert_eq!(c.handle_packet(&mut map, &[0x09, 0x00, 0xFF, 5, 0x5A, 0x00, 1, 0xFF, 4]), Ok(()));
    assert_eq!(c.player.equipment.get(&5), None);
    assert_eq!(c.player.equipment.get(&4), Some(&90));
    let p = packets(&mut c);
    assert_eq!(p[0], vec![0, 0, 0, 0, 0x05, 5]);
    assert_eq!(p[1], vec![0, 0, 0, 0, 0x04, 0x5A, 0x00, 4]);
}

#[test]
fn push_onto_occupied_slot_gives_back() {
    let mut c = conn_at(10, 10);
    let mut map = floor_map();
    assert_eq!(c.handle_packet(&mut map, &[0x09, 0x00, 0xFF, 5, 0x5A, 0x00, 1, 0xFF, 6]), Ok(()));
    assert_eq!(c.player.equipment.get(&5), Some(&90));
    assert_eq!(c.player.equipment.get(&6), Some(&0x86));
    let p = packets(&mut c);
    assert_eq!(p, vec![vec![0, 0, 0, 0, 0x05, 5], vec![0, 0, 0, 0, 0x04, 0x5A, 0x00, 5], sorry()]);
}

#[test]
fn unknown_and_short_packets() {
    let mut c = conn_at(10, 10);
    let mut map = floor_map();
    assert_eq!(c.handle_packet(&mut map, &[0x55, 0x00, 1, 2, 3]), Ok(()));
    assert_eq!(c.handle_packet(&mut map, &[0x0E, 0x00]), Ok(()));
    assert_eq!(c.handle_packet(&mut map, &[0x01]), Err(PacketError::Read(ReadError::UnexpectedEof)));
    assert_eq!(packets(&mut c).len(), 0);
}

#[test]
fn user_list_and_info() {
    let mut c = conn_at(10, 10);
    let mut map = floor_map();
    let bob = Player::new(2, "Bob", Position::new(50, 50, 7));
    assert!(c.process_login_message(&map, WorldToPlayer::PlayerList(vec![bob])));
    packets(&mut c);
    assert_eq!(c.handle_packet(&mut map, &[0x01, 0x00]), Ok(()));
    assert_eq!(c.handle_packet(&mut map, &[0x02, 0x00, b'B', b'o', b'b', 0]), Ok(()));
    let p = packets(&mut c);
    let mut list = vec![0, 0, 0, 0, 0x07, 0x10, 0x10];
    list.extend_from_slice(b"Alice\nBob\n\0");
    assert_eq!(p[0], list);
    let mut info = vec![0, 0, 0, 0, 0x08, 0x10, 0x10];
    info.extend_from_slice(b"Name: Bob\nReal name: \nLocation: \nEmail: \nSex: Male\0");
    assert_eq!(p[1], info);
}

#[test]
fn set_data_updates_profile() {
    let mut c = conn_at(10, 10);
    let mut map = floor_map();
    let mut body = vec![0x0Du8, 0x00];
    let field = |s: &[u8], n: usize, body: &mut Vec<u8>| {
        body.extend_from_slice(s);
        body.extend(std::iter::repeat(0u8).take(n - s.len()));
    };
    field(b"secret", 30, &mut body);
    body.extend_from_slice(&[0x21, 0x43, 0]);
    field(b"Alice Smith", 50, &mut body);
    field(b"Town", 50, &mut body);
    field(b"a@b.c", 50, &mut body);
    assert_eq!(c.handle_packet(&mut map, &body), Ok(()));
    assert_eq!(c.player.password, "secret");
    assert_eq!(c.player.real_name, "Alice Smith");
    assert_eq!(c.player.location, "Town");
    assert_eq!(c.player.email, "a@b.c");
    assert_eq!((c.player.outfit.legs, c.player.outfit.shoes, c.player.outfit.head, c.player.outfit.body), (2, 1, 4, 3));
    assert!(matches!(&c.take_world_events()[..], [PlayerToWorld::UpdateInfo(_)]));
    assert_eq!(c.handle_packet(&mut map, &[0x0D, 0x00, 1, 2]), Err(PacketError::Read(ReadError::UnexpectedEof)));
}

#[test]
fn world_messages_are_shown() {
    let mut c = conn_at(10, 10);
    let map = floor_map();
    c.process_world_message(&map, WorldToPlayer::Chat(Position::new(30, 30, 7), ChatType::Broadcast, b"hey".to_vec(), "Bob".to_string()));
    c.process_world_message(&map, WorldToPlayer::StatusMessage("Note".to_string()));
    let p = packets(&mut c);
    let mut chat = vec![0, 0, 0, 0, 0x0B, 8, 4, 0x42];
    chat.extend_from_slice(b"Broadcast from Bob\they\0");
    assert_eq!(p[0], chat);
    assert_eq!(p[1], vec![0, 0, 0, 0, 0x02, b'N', b'o', b't', b'e', 0]);
}

#[test]
fn player_list_redraws_only_on_change() {
    let mut c = conn_at(10, 10);
    let map = floor_map();
    let me = Player::new(1, "Alice", Position::new(10, 10, 7));
    let bob = Player::new(2, "Bob", Position::new(12, 10, 7));
    c.process_world_message(&map, WorldToPlayer::PlayerList(vec![me, bob]));
    assert_eq!(c.other_players.len(), 1);
    assert_eq!(packets(&mut c).len(), 1);
    let bob_again = Player::new(2, "Bob", Position::new(12, 10, 7));
    c.process_world_message(&map, WorldToPlayer::PlayerList(vec![bob_again]));
    assert_eq!(packets(&mut c).len(), 0);
    let bob_moved = Player::new(2, "Bob", Position::new(13, 10, 7));
    c.process_world_message(&map, WorldToPlayer::PlayerList(vec![bob_moved]));
    assert_eq!(packets(&mut c).len(), 1);
}

#[test]
fn waiting_for_the_first_list() {
    let mut c = conn_at(10, 10);
    let map = floor_map();
    assert!(!c.process_login_message(&map, WorldToPlayer::MapUpdate));
    assert!(!c.process_login_message(&map, WorldToPlayer::StatusMessage("x".to_string())));
    assert_eq!(packets(&mut c).len(), 1);
    assert!(c.process_login_message(&map, WorldToPlayer::PlayerList(vec![])));
    assert_eq!(packets(&mut c).len(), 1);
}

#[test]
fn duplicate_windows_stay_in_sync() {
    let mut c = conn_at(10, 10);
    let mut map = floor_map();
    map.add_item_to_tile(Position::new(11, 10, 7), 811);
    map.add_item_to_tile(Position::new(10, 10, 7), 90);
    let open = [0x0Au8, 0x00, 1, 9, 6, 0x2B, 0x03, 1, 0];
    assert_eq!(c.handle_packet(&mut map, &open), Ok(()));
    assert_eq!(c.handle_packet(&mut map, &open), Ok(()));
    packets(&mut c);
    assert_eq!(c.handle_packet(&mut map, &[0x09, 0x00, 8, 6, 0x5A, 0x00, 1, 0xFF, 0x14]), Ok(()));
    assert_eq!(c.player.containers.len(), 2);
    assert_eq!(c.player.containers[0].items, vec![90]);
    assert_eq!(c.player.containers[1].items, vec![90]);
    assert_eq!(map.get_container_contents(Position::new(11, 10, 7)), Some(&vec![90]));
    let events = c.take_world_events();
    assert_eq!(events.len(), 3);
    assert!(matches!(&events[0], PlayerToWorld::MapUpdate(_)));
    assert!(matches!(&events[1], PlayerToWorld::ContainerUpdate(p, 811, items) if *p == Position::new(11, 10, 7) && items == &vec![90]));
    let p = packets(&mut c);
    assert_eq!(p.len(), 3);
    assert_eq!(p[1], vec![0, 0, 0, 0, 0x09, 0, 0x2B, 0x03, 0x5A, 0x00, 0xFF, 0xFF]);
    assert_eq!(p[2], vec![0, 0, 0, 0, 0x09, 1, 0x2B, 0x03, 0x5A, 0x00, 0xFF, 0xFF]);
}

#[test]
fn taking_from_a_window_saves_the_chest() {
    let mut c = conn_at(10, 10);
    let mut map = floor_map();
    map.add_item_to_tile(Position::new(11, 10, 7), 811);
    map.set_container_contents(Position::new(11, 10, 7), vec![134, 90]);
    assert_eq!(c.handle_packet(&mut map, &[0x0A, 0x00, 1, 9, 6, 0x2B, 0x03, 1, 0]), Ok(()));
    packets(&mut c);
    assert_eq!(c.handle_packet(&mut map, &[0x09, 0x00, 0xFF, 0x14, 0x5A, 0x00, 1, 8, 6]), Ok(()));
    assert_eq!(c.player.containers[0].items, vec![134]);
    assert_eq!(map.get_container_contents(Position::new(11, 10, 7)), Some(&vec![134]));
    assert_eq!(
        map.get_tile_objects(Position::new(10, 10, 7)),
        Some(&[TileObject::Ground(0x0C), TileObject::Item(90)][..])
    );
}

#[test]
fn comment_is_consumed_up_to_its_end() {
    let mut c = conn_at(10, 10);
    let data = b"nice game\0x".to_vec();
    let mut r = PacketReader::new(&data);
    assert_eq!(c.recv_comment(&mut r), Ok(()));
    assert_eq!(r.read_u8(), Ok(b'x'));
    assert_eq!(packets(&mut c).len(), 0);
}

#[test]
fn unknown_chat_qualifier_is_dropped() {
    let mut c = conn_at(10, 10);
    let mut map = floor_map();
    assert_eq!(c.handle_packet(&mut map, &chat_body(b"#X hello")), Ok(()));
    assert_eq!(c.handle_packet(&mut map, &chat_body(b"#")), Ok(()));
    assert_eq!(c.handle_packet(&mut map, &chat_body(b"#q")), Ok(()));
    assert_eq!(c.take_world_events().len(), 0);
    assert_eq!(packets(&mut c).len(), 0);
    assert_eq!(c.handle_packet(&mut map, &chat_body(b"#B news")), Ok(()));
    let e = c.take_world_events();
    match &e[..] {
        [PlayerToWorld::Chat(_, ty, text, _, _)] => {
            assert_eq!(*ty, ChatType::Broadcast);
            assert_eq!(text, b"NEWS");
        },
        other => panic!("unexpected {:?}", other),
    }
}

#[test]
fn push_into_a_window_that_is_not_open_gives_back() {
    let mut c = conn_at(10, 10);
    let mut map = floor_map();
    map.add_item_to_tile(Position::new(10, 10, 7), 90);
    assert_eq!(c.handle_packet(&mut map, &[0x09, 0x00, 8, 6, 0x5A, 0x00, 1, 0xFF, 0x14]), Ok(()));
    assert_eq!(
        map.get_tile_objects(Position::new(10, 10, 7)),
        Some(&[TileObject::Ground(0x0C), TileObject::Item(90)][..])
    );
    let p = packets(&mut c);
    assert_eq!(p.last(), Some(&sorry()));
    assert!(c.player.containers.is_empty());
}

fn walled_map(gap_y: u16) -> GameMap {
    let mut m = floor_map();
    for y in 0..32u16 {
        if y != gap_y {
            m.add_item_to_tile(Position::new(11, y, 7), 20);
        }
    }
    m
}

#[test]
fn auto_walk_search_stops_after_400_tiles() {
    let mut near = conn_at(10, 10);
    let mut map = walled_map(12);
    assert_eq!(near.handle_packet(&mut map, &[0x04, 0x00, 10, 6]), Ok(()));
    assert_eq!(near.pending_path.len(), 6);
    assert_eq!(packets(&mut near).len(), 0);
    let mut far = conn_at(10, 10);
    let mut map = walled_map(31);
    assert_eq!(far.handle_packet(&mut map, &[0x04, 0x00, 10, 6]), Ok(()));
    assert!(far.pending_path.is_empty());
    assert_eq!(packets(&mut far), vec![sorry()]);
}

fn chat_text_of(e: &PlayerToWorld) -> (ChatType, Vec<u8>, Option<String>) {
    match e {
        PlayerToWorld::Chat(_, ty, text, _, receiver) => (*ty, text.clone(), receiver.clone()),
        other => panic!("unexpected {:?}", other),
    }
}

#[test]
fn utf8_chat_is_decoded_as_utf8() {
    let mut c = conn_at(10, 10);
    let mut map = floor_map();
    assert_eq!(c.handle_packet(&mut map, &chat_body("h\u{e9}llo".as_bytes())), Ok(()));
    assert_eq!(c.handle_packet(&mut map, &chat_body("*B\u{f6}b* s\u{e5}".as_bytes())), Ok(()));
    assert_eq!(c.handle_packet(&mut map, &chat_body("#y gr\u{fc}n".as_bytes())), Ok(()));
    let e = c.take_world_events();
    assert_eq!(e.len(), 3);
    assert_eq!(chat_text_of(&e[0]), (ChatType::Normal, vec![b'h', 0xE9, b'l', b'l', b'o'], None));
    assert_eq!(chat_text_of(&e[1]), (ChatType::Private, vec![b's', 0xE5], Some("B\u{f6}b".to_string())));
    assert_eq!(chat_text_of(&e[2]), (ChatType::Yell, vec![b'G', b'R', 0xDC, b'N'], None));
}

#[test]
fn single_byte_chat_is_read_one_character_per_byte() {
    let mut c = conn_at(10, 10);
    let mut map = floor_map();
    assert_eq!(c.handle_packet(&mut map, &chat_body(&[b'h', 0xE9, b'!'])), Ok(()));
    assert_eq!(c.handle_packet(&mut map, &chat_body(&[b'*', b'B', 0xF6, b'*', b'x'])), Ok(()));
    let e = c.take_world_events();
    assert_eq!(chat_text_of(&e[0]), (ChatType::Normal, vec![b'h', 0xE9, b'!'], None));
    assert_eq!(chat_text_of(&e[1]), (ChatType::Private, vec![b'x'], Some("B\u{f6}".to_string())));
}

#[test]
fn qualified_utf8_chat_must_split_at_a_character() {
    let mut c = conn_at(10, 10);
    let mut map = floor_map();
    assert_eq!(c.handle_packet(&mut map, &chat_body("#y\u{e9}x".as_bytes())), Err(PacketError::MalformedChat));
    assert_eq!(c.take_world_events().len(), 0);
}
