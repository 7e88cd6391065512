use albesjourney::io::ReadError;
use albesjourney::map::position::Position;
use albesjourney::network::connection::login::login_player;
use albesjourney::network::connection::Connection;
use albesjourney::player::{Direction, Gender, IdAllocator};

fn padded(s: &[u8], n: usize) -> Vec<u8> {
    let mut v = s.to_vec();
    v.resize(n, 0);
    v
}

fn existing_body(protocol: u16) -> Vec<u8> {
    let mut b = vec![1, 2, 3, 4, 5, (protocol % 256) as u8, (protocol / 256) as u8];
    b.extend(padded(b"Alice", 30));
    b.extend(padded(b"pw", 30));
    b
}

fn new_body() -> Vec<u8> {
    let mut b = vec![0, 0, 0, 0, 0, 103, 0];
    b.extend(padded(b"Carol", 30));
    b.extend(padded(b"secret", 30));
    b.push(0);
    b.extend_from_slice(&[0x21, 0x43, 0]);
    b.extend(padded(b"Carol C", 50));
    b.extend(padded(b"Oslo", 50));
    b.extend(padded(b"c@x.no", 50));
    b
}

#[test]
fn existing_character_login() {
    let body = existing_body(103);
    assert_eq!(body.len(), 67);
    let form = Connection::handle_login(67, &body).unwrap().unwrap();
    assert_eq!(form.name, "Alice");
    assert_eq!(form.password, "pw");
    assert!(form.new_character.is_none());
    let p = login_player(form, 256, Position::new(50, 100, 7));
    assert_eq!(p.id, 256);
    assert_eq!(p.name, "Alice");
    assert_eq!(p.password, "pw");
    assert_eq!(p.position, Position::new(50, 100, 7));
    assert_eq!(p.direction, Direction::South);
    assert_eq!(p.gender, Gender::Male);
    assert_eq!(p.equipment.get(&3), Some(&0x013D));
    assert_eq!(p.equipment.get(&5), Some(&0x005A));
    assert_eq!(p.equipment.get(&6), Some(&0x0086));
    assert_eq!(p.equipment.len(), 3);
}

#[test]
fn new_character_login() {
    let body = new_body();
    assert_eq!(body.len(), 221);
    let form = Connection::handle_login(221, &body).unwrap().unwrap();
    let p = login_player(form, 300, Position::new(1, 2, 7));
    assert_eq!(p.name, "Carol");
    assert_eq!(p.password, "secret");
    assert_eq!(p.gender, Gender::Female);
    assert_eq!((p.outfit.legs, p.outfit.shoes, p.outfit.head, p.outfit.body), (2, 1, 4, 3));
    assert_eq!(p.real_name, "Carol C");
    assert_eq!(p.location, "Oslo");
    assert_eq!(p.email, "c@x.no");
}

#[test]
fn wrong_protocol_or_length_is_rejected() {
    assert!(Connection::handle_login(67, &existing_body(102)).unwrap().is_none());
    assert!(Connection::handle_login(68, &existing_body(103)).unwrap().is_none());
    assert!(Connection::handle_login(0, &[]).unwrap().is_none());
}

#[test]
fn truncated_login_is_an_error() {
    let body = existing_body(103);
    assert_eq!(Connection::handle_login(67, &body[..40]).unwrap_err(), ReadError::UnexpectedEof);
    assert_eq!(Connection::handle_login(221, &body[..6]).unwrap_err(), ReadError::UnexpectedEof);
}

#[test]
fn player_ids_start_at_256_and_count_up() {
    let mut ids = IdAllocator::new();
    assert_eq!(ids.allocate(), 256);
    assert_eq!(ids.allocate(), 257);
    assert_eq!(ids.allocate(), 258);
}
