use albesjourney::chat::encoding::translate;
use albesjourney::chat::ChatType;
use albesjourney::map::position::Position;
use albesjourney::player::Player;
use albesjourney::world::message::{PlayerToWorld, WorldToPlayer};
use albesjourney::world::WorldState;

fn player_at(id: u32, name: &str, x: u16, y: u16) -> Player {
    Player::new(id, name, Position::new(x, y, 7))
}

fn list_ids(m: &WorldToPlayer) -> Vec<u32> {
    match m {
        WorldToPlayer::PlayerList(ps) => ps.iter().map(|p| p.id).collect(),
        other => panic!("expected a player list, got {:?}", other),
    }
}

fn two_players() -> WorldState {
    let mut w = WorldState::new();
    w.handle(PlayerToWorld::Login(player_at(2, "Alice", 10, 10)));
    w.handle(PlayerToWorld::Login(player_at(1, "Bob", 12, 10)));
    w
}

#[test]
fn first_login_gets_empty_list() {
    let mut w = WorldState::new();
    let out = w.handle(PlayerToWorld::Login(player_at(5, "Alice", 10, 10)));
    assert_eq!(out.len(), 1);
    assert_eq!(out[0].0, 5);
    assert_eq!(list_ids(&out[0].1), Vec::<u32>::new());
}

#[test]
fn second_login_tells_everyone() {
    let mut w = WorldState::new();
    w.handle(PlayerToWorld::Login(player_at(5, "Alice", 10, 10)));
    let out = w.handle(PlayerToWorld::Login(player_at(3, "Bob", 20, 20)));
    assert_eq!(out.len(), 2);
    assert_eq!(out[0].0, 3);
    assert_eq!(list_ids(&out[0].1), vec![5]);
    assert_eq!(out[1].0, 5);
    assert_eq!(list_ids(&out[1].1), vec![3, 5]);
}

#[test]
fn logout_refreshes_the_rest() {
    let mut w = two_players();
    let out = w.handle(PlayerToWorld::Logout(player_at(1, "Bob", 12, 10)));
    assert_eq!(out.len(), 1);
    assert_eq!(out[0].0, 2);
    assert_eq!(list_ids(&out[0].1), vec![2]);
    let again = w.handle(PlayerToWorld::UpdateInfo(player_at(2, "Alice", 10, 10)));
    assert_eq!(again.len(), 1);
    assert_eq!(again[0].0, 2);
}

#[test]
fn private_message_reaches_only_receiver() {
    let mut w = two_players();
    let text = translate("hi");
    let out = w.handle(PlayerToWorld::Chat(
        Position::new(10, 10, 7),
        ChatType::Private,
        text.clone(),
        "Alice".to_string(),
        Some("bob".to_string()),
    ));
    assert_eq!(out.len(), 1);
    assert_eq!(out[0].0, 1);
    match &out[0].1 {
        WorldToPlayer::Chat(pos, ty, t, name) => {
            assert_eq!(*pos, Position::new(10, 10, 7));
            assert_eq!(*ty, ChatType::Private);
            assert_eq!(t, &text);
            assert_eq!(name, "Alice");
        },
        other => panic!("unexpected {:?}", other),
    }
}

#[test]
fn private_message_to_offline_player() {
    let mut w = two_players();
    let out = w.handle(PlayerToWorld::Chat(
        Position::new(10, 10, 7),
        ChatType::Private,
        translate("hi"),
        "Alice".to_string(),
        Some("Carol".to_string()),
    ));
    assert_eq!(out.len(), 1);
    assert_eq!(out[0].0, 2);
    match &out[0].1 {
        WorldToPlayer::StatusMessage(m) => assert_eq!(m, "A player with this name is not online."),
        other => panic!("unexpected {:?}", other),
    }
}

#[test]
fn private_message_to_self() {
    let mut w = two_players();
    let out = w.handle(PlayerToWorld::Chat(
        Position::new(10, 10, 7),
        ChatType::Private,
        translate("hi"),
        "Alice".to_string(),
        Some("ALICE".to_string()),
    ));
    assert_eq!(out.len(), 1);
    assert_eq!(out[0].0, 2);
    match &out[0].1 {
        WorldToPlayer::StatusMessage(m) => assert_eq!(m, "You cannot send a private message to yourself."),
        other => panic!("unexpected {:?}", other),
    }
}

#[test]
fn normal_speech_range() {
    let mut w = WorldState::new();
    w.handle(PlayerToWorld::Login(player_at(1, "A", 10, 10)));
    w.handle(PlayerToWorld::Login(player_at(2, "B", 16, 14)));
    w.handle(PlayerToWorld::Login(player_at(3, "C", 17, 10)));
    let out = w.handle(PlayerToWorld::Chat(
        Position::new(10, 10, 7),
        ChatType::Normal,
        translate("hello"),
        "A".to_string(),
        None,
    ));
    let ids: Vec<u32> = out.iter().map(|(id, _)| *id).collect();
    assert_eq!(ids, vec![1, 2]);
}

#[test]
fn whisper_is_noise_further_away() {
    let mut w = WorldState::new();
    w.handle(PlayerToWorld::Login(player_at(1, "A", 10, 10)));
    w.handle(PlayerToWorld::Login(player_at(2, "B", 12, 12)));
    w.handle(PlayerToWorld::Login(player_at(3, "C", 20, 10)));
    w.handle(PlayerToWorld::Login(player_at(4, "D", 40, 10)));
    let out = w.handle(PlayerToWorld::Chat(
        Position::new(10, 10, 7),
        ChatType::Whisper,
        translate("secret"),
        "A".to_string(),
        None,
    ));
    assert_eq!(out.len(), 3);
    let texts: Vec<(u32, Vec<u8>)> = out
        .iter()
        .map(|(id, m)| match m {
            WorldToPlayer::Chat(_, _, t, _) => (*id, t.clone()),
            other => panic!("unexpected {:?}", other),
        })
        .collect();
    assert_eq!(texts[0], (1, b"secret".to_vec()));
    assert_eq!(texts[1], (2, b"secret".to_vec()));
    assert_eq!(texts[2], (3, b"pspsps".to_vec()));
}

#[test]
fn movement_updates_players_in_view() {
    let mut w = WorldState::new();
    w.handle(PlayerToWorld::Login(player_at(1, "A", 10, 10)));
    w.handle(PlayerToWorld::Login(player_at(2, "B", 60, 10)));
    let out = w.handle(PlayerToWorld::UpdatePosition(player_at(1, "A", 11, 10)));
    assert_eq!(out.len(), 1);
    assert_eq!(out[0].0, 1);
    match &out[0].1 {
        WorldToPlayer::PlayerList(ps) => assert_eq!(ps[0].position, Position::new(11, 10, 7)),
        other => panic!("unexpected {:?}", other),
    }
}

#[test]
fn map_and_container_updates() {
    let mut w = two_players();
    let out = w.handle(PlayerToWorld::MapUpdate(Position::new(10, 10, 7)));
    assert_eq!(out.len(), 2);
    assert!(matches!(out[0].1, WorldToPlayer::MapUpdate));
    let far = w.handle(PlayerToWorld::MapUpdate(Position::new(100, 100, 7)));
    assert_eq!(far.len(), 0);
    let c = w.handle(PlayerToWorld::ContainerUpdate(Position::new(1, 1, 7), 811, vec![90]));
    assert_eq!(c.len(), 2);
}

#[test]
fn messages_only_reach_connected_players() {
    let mut w = WorldState::new();
    w.handle(PlayerToWorld::Login(player_at(1, "A", 10, 10)));
    let out = w.handle(PlayerToWorld::UpdatePosition(player_at(9, "Ghost", 10, 11)));
    let ids: Vec<u32> = out.iter().map(|(id, _)| *id).collect();
    assert_eq!(ids, vec![1]);
    assert_eq!(list_ids(&out[0].1), vec![1, 9]);
}
