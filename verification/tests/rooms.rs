use werewolf_backend::dto::{RoleResponse, RoleAssignment};
use werewolf_backend::messages::{ClientMessage, Delivery, Recipients, ServerMessage};
use werewolf_backend::models::{GameState, Player, RoleType};
use werewolf_backend::room::GameRoom;
use werewolf_backend::room_state::{RoleDealRequest, RoomState};

fn player(id: u128, user: u128, name: &str) -> Player {
    Player::with_id(id, user, name.to_string())
}

fn ids_of(d: &Delivery<u32>) -> Vec<u128> {
    match &d.to {
        Recipients::Sender => vec![],
        Recipients::Handles(v) => {
            let mut ids: Vec<u128> = v.iter().map(|(id, _)| *id).collect();
            ids.sort();
            ids
        }
    }
}

fn handles_of(d: &Delivery<u32>) -> Vec<(u128, u32)> {
    match &d.to {
        Recipients::Sender => vec![],
        Recipients::Handles(v) => {
            let mut v = v.clone();
            v.sort();
            v
        }
    }
}

fn is_sender(d: &Delivery<u32>) -> bool {
    matches!(d.to, Recipients::Sender)
}

fn error_text(d: &Delivery<u32>) -> String {
    match &d.message {
        ServerMessage::Error { message } => message.clone(),
        other => panic!("not an error: {:?}", other),
    }
}

#[test]
fn new_rooms_are_empty() {
    let room: GameRoom<u32> = GameRoom::new(1, "r".to_string(), 9);
    assert_eq!(room.max_players, 10);
    assert_eq!(room.game_state, GameState::Waiting);
    assert!(room.players.is_empty());
    let small: GameRoom<u32> = GameRoom::new_with_max(2, "s".to_string(), 3, 9);
    assert_eq!(small.max_players, 3);
}

#[test]
fn players_toggle_and_take_roles() {
    let mut p = Player::new(5, "ann".to_string());
    assert_eq!((p.user_id, p.role_id, p.is_ready), (5, None, false));
    assert_eq!((p.id >> 76) & 0xf, 4);
    p.toggle_ready();
    assert!(p.is_ready);
    p.toggle_ready();
    assert!(!p.is_ready);
    p.assign_role(77);
    assert_eq!(p.role_id, Some(77));
}

#[test]
fn seats_are_limited() {
    let mut room: GameRoom<u32> = GameRoom::new_with_max(1, "r".to_string(), 2, 9);
    assert!(room.add_player(player(1, 101, "a"), 1).is_ok());
    assert!(room.add_player(player(2, 102, "b"), 2).is_ok());
    assert_eq!(room.add_player(player(3, 103, "c"), 3).unwrap_err(), "Room is full");
    assert_eq!(room.players.len(), 2);
    assert_eq!(room.connections.get(&102), Some(&2));
}

#[test]
fn started_rooms_refuse_players() {
    let mut room: GameRoom<u32> = GameRoom::new(1, "r".to_string(), 9);
    for i in 0..2u128 {
        room.add_player(player(i, 100 + i, "p"), 0).unwrap();
    }
    assert_eq!(room.start_game().unwrap_err(), "Not enough players (minimum 3)");
    assert_eq!(room.game_state, GameState::Waiting);
    room.add_player(player(2, 102, "p"), 0).unwrap();
    assert!(room.start_game().is_ok());
    assert_eq!(room.game_state, GameState::Starting);
    assert_eq!(room.add_player(player(3, 103, "p"), 0).unwrap_err(), "Game already started");
}

#[test]
fn removing_takes_every_seat() {
    let mut room: GameRoom<u32> = GameRoom::new(1, "r".to_string(), 9);
    room.add_player(player(1, 101, "a"), 1).unwrap();
    room.add_player(player(2, 102, "b"), 2).unwrap();
    room.add_player(player(3, 101, "a"), 3).unwrap();
    assert_eq!(room.connections.get(&101), Some(&3));
    room.remove_player(101);
    assert_eq!(room.players.len(), 1);
    assert_eq!(room.players[0].user_id, 102);
    assert!(room.connections.get(&101).is_none());
    room.remove_player(555);
    assert_eq!(room.players.len(), 1);
}

#[test]
fn first_seat_lookup() {
    let mut room: GameRoom<u32> = GameRoom::new(1, "r".to_string(), 9);
    room.add_player(player(1, 101, "a"), 1).unwrap();
    room.add_player(player(2, 102, "b"), 2).unwrap();
    room.add_player(player(3, 102, "b"), 2).unwrap();
    assert_eq!(room.find_player(102), Some(1));
    assert!(room.has_player(101));
    assert!(!room.has_player(7));
    room.get_player_mut(102).unwrap().toggle_ready();
    assert!(room.players[1].is_ready);
    assert!(!room.players[2].is_ready);
    assert!(room.get_player_mut(7).is_none());
    room.players[0].role_id = Some(5);
    room.reset_for_new_game();
    assert!(room.players.iter().all(|p| p.role_id.is_none()));
}

#[test]
fn broadcasts_skip_the_excluded() {
    let mut room: GameRoom<u32> = GameRoom::new(1, "r".to_string(), 9);
    room.add_player(player(1, 101, "a"), 11).unwrap();
    room.add_player(player(2, 102, "b"), 12).unwrap();
    room.add_player(player(3, 103, "c"), 13).unwrap();
    let mut all = room.broadcast(None);
    all.sort();
    assert_eq!(all, vec![(101, 11), (102, 12), (103, 13)]);
    let mut some = room.broadcast(Some(102));
    some.sort();
    assert_eq!(some, vec![(101, 11), (103, 13)]);
    let info = room.info();
    assert_eq!((info.id, info.player_count, info.max_players), (1, 3, 10));
    let details = room.details();
    assert_eq!(details.players.iter().map(|p| p.user_id).collect::<Vec<u128>>(), vec![101, 102, 103]);
}

fn join(s: &mut RoomState<u32>, room: u128, user: u128, seat: u128) -> Vec<Delivery<u32>> {
    s.handle_client_message_with_id(ClientMessage::JoinRoom { room_id: room }, user, "name", &(user as u32), seat).0
}

fn room_with_players(n: u128) -> RoomState<u32> {
    let mut s: RoomState<u32> = RoomState::new();
    s.handle_client_message_with_id(ClientMessage::CreateRoom { room_name: "den".to_string() }, 100, "host", &100, 1);
    for u in 0..n {
        join(&mut s, 1, 100 + u, 1000 + u);
    }
    s
}

#[test]
fn creating_and_joining() {
    let mut s: RoomState<u32> = RoomState::new();
    let (out, deal) = s.handle_client_message_with_id(ClientMessage::CreateRoom { room_name: "den".to_string() }, 100, "host", &100, 1);
    assert!(deal.is_none());
    assert_eq!(out.len(), 1);
    assert!(is_sender(&out[0]));
    assert!(matches!(&out[0].message, ServerMessage::RoomCreated { room_id: 1, room_name } if room_name == "den"));
    let out = join(&mut s, 1, 100, 1000);
    assert_eq!(out.len(), 1, "the host rejoins quietly");
    let out = join(&mut s, 1, 101, 1001);
    assert_eq!(out.len(), 2);
    match &out[0].message {
        ServerMessage::RoomJoined { room_id, players, game_state, host_id, max_players, room_name } => {
            assert_eq!((*room_id, *host_id, *max_players, *game_state), (1, 100, 10, GameState::Waiting));
            assert_eq!(room_name, "den");
            assert_eq!(players.iter().map(|p| p.user_id).collect::<Vec<u128>>(), vec![100, 101]);
        }
        other => panic!("{:?}", other),
    }
    assert_eq!(handles_of(&out[1]), vec![(100, 100)]);
    assert!(matches!(&out[1].message, ServerMessage::PlayerJoined { room_id: 1, player } if player.user_id == 101 && player.id == 1001));
    let out = join(&mut s, 2, 101, 1002);
    assert_eq!(error_text(&out[0]), "Room not found");
    let out = join(&mut s, 1, 101, 1003);
    assert_eq!(out.len(), 1, "a seated user rejoins quietly");
    assert_eq!(s.rooms.get(&1).unwrap().players.len(), 3);
}

#[test]
fn room_state_requests() {
    let mut s = room_with_players(2);
    let out = s.handle_client_message_with_id(ClientMessage::GetRoomState { room_id: 1 }, 100, "host", &100, 0).0;
    assert!(matches!(&out[0].message, ServerMessage::RoomJoined { players, .. } if players.len() == 2));
    let out = s.handle_client_message_with_id(ClientMessage::GetRoomState { room_id: 5 }, 100, "host", &100, 0).0;
    assert_eq!(error_text(&out[0]), "Room not found");
    let out = s.handle_client_message_with_id(ClientMessage::SendMessage { room_id: 1, message: "hi".to_string() }, 101, "bo", &101, 0).0;
    assert_eq!(ids_of(&out[0]), vec![100, 101]);
    assert!(matches!(&out[0].message, ServerMessage::Message { user_id: 101, username, message, .. } if username == "bo" && message == "hi"));
    let out = s.handle_client_message_with_id(ClientMessage::SendMessage { room_id: 9, message: "x".to_string() }, 101, "bo", &101, 0).0;
    assert!(out.is_empty());
}

#[test]
fn toggling_ready() {
    let mut s = room_with_players(2);
    let out = s.handle_client_message_with_id(ClientMessage::ToggleReady { room_id: 1 }, 100, "host", &100, 0).0;
    assert!(out.is_empty(), "the host has no ready flag");
    let out = s.handle_client_message_with_id(ClientMessage::ToggleReady { room_id: 1 }, 101, "b", &101, 0).0;
    assert!(matches!(out[0].message, ServerMessage::PlayerReady { room_id: 1, user_id: 101, is_ready: true }));
    assert_eq!(ids_of(&out[0]), vec![100, 101]);
    let out = s.handle_client_message_with_id(ClientMessage::ToggleReady { room_id: 1 }, 101, "b", &101, 0).0;
    assert!(matches!(out[0].message, ServerMessage::PlayerReady { is_ready: false, .. }));
    assert!(!s.rooms.get(&1).unwrap().players[1].is_ready);
    let out = s.handle_client_message_with_id(ClientMessage::ToggleReady { room_id: 1 }, 999, "x", &999, 0).0;
    assert!(out.is_empty());
}

#[test]
fn leaving_closes_empty_rooms() {
    let mut s = room_with_players(2);
    let out = s.handle_client_message_with_id(ClientMessage::LeaveRoom { room_id: 1 }, 101, "b", &101, 0).0;
    assert_eq!(out.len(), 2);
    assert!(matches!(out[0].message, ServerMessage::RoomLeft { room_id: 1 }));
    assert_eq!(ids_of(&out[1]), vec![100]);
    assert!(matches!(out[1].message, ServerMessage::PlayerLeft { room_id: 1, user_id: 101 }));
    s.handle_client_message_with_id(ClientMessage::LeaveRoom { room_id: 1 }, 100, "h", &100, 0);
    assert!(s.rooms.get(&1).is_none());
    let out = s.handle_client_message_with_id(ClientMessage::LeaveRoom { room_id: 1 }, 100, "h", &100, 0).0;
    assert!(out.is_empty());
}

#[test]
fn join_then_leave_restores_the_room() {
    let mut s = room_with_players(2);
    let before: Vec<u128> = s.rooms.get(&1).unwrap().players.iter().map(|p| p.user_id).collect();
    join(&mut s, 1, 500, 5000);
    s.handle_client_message_with_id(ClientMessage::LeaveRoom { room_id: 1 }, 500, "z", &500, 0);
    let room = s.rooms.get(&1).unwrap();
    assert_eq!(room.players.iter().map(|p| p.user_id).collect::<Vec<u128>>(), before);
    assert!(room.connections.get(&500).is_none());
}

#[test]
fn only_the_host_starts() {
    let mut s = room_with_players(3);
    let (out, deal) = s.handle_client_message_with_id(ClientMessage::StartGame { room_id: 1 }, 101, "b", &101, 0);
    assert!(deal.is_none());
    assert_eq!(error_text(&out[0]), "Only host can start game");
    let mut few = room_with_players(2);
    let (out, deal) = few.handle_client_message_with_id(ClientMessage::StartGame { room_id: 1 }, 100, "h", &100, 0);
    assert!(deal.is_none());
    assert_eq!(error_text(&out[0]), "Not enough players (minimum 3)");
    let (out, deal) = s.handle_client_message_with_id(ClientMessage::StartGame { room_id: 1 }, 100, "h", &100, 0);
    let deal: RoleDealRequest = deal.unwrap();
    assert_eq!(deal.room_id, 1);
    assert_eq!(deal.player_ids, vec![100, 101, 102]);
    assert!(matches!(out[0].message, ServerMessage::GameStarting { room_id: 1 }));
    assert_eq!(ids_of(&out[0]), vec![100, 101, 102]);
    assert_eq!(s.rooms.get(&1).unwrap().game_state, GameState::Starting);
    let (out, deal) = s.handle_client_message_with_id(ClientMessage::StartGame { room_id: 8 }, 100, "h", &100, 0);
    assert!(out.is_empty() && deal.is_none());
}

fn roles() -> Vec<RoleResponse> {
    let r = |id: u128, slug: &str, t: RoleType| RoleResponse {
        id,
        name: slug.to_string(),
        slug: slug.to_string(),
        description: String::new(),
        image: None,
        role_type: t,
        priority: None,
    };
    vec![r(1, "werewolf", RoleType::Beast), r(2, "villager", RoleType::Citizen), r(3, "seer", RoleType::Citizen)]
}

#[test]
fn dealing_roles_to_a_room() {
    let mut s = room_with_players(3);
    let (_, deal) = s.handle_client_message_with_id(ClientMessage::StartGame { room_id: 1 }, 100, "h", &100, 0);
    let (out, summary_due) = s.finish_deal(deal.unwrap(), roles());
    assert!(summary_due);
    assert_eq!(out.len(), 3);
    let mut told: Vec<u128> = out.iter().flat_map(|d| ids_of(d)).collect();
    told.sort();
    assert_eq!(told, vec![100, 101, 102]);
    let room = s.rooms.get(&1).unwrap();
    let mut dealt: Vec<u128> = room.players.iter().map(|p| p.role_id.unwrap()).collect();
    for d in out.iter() {
        match (&d.to, &d.message) {
            (Recipients::Handles(v), ServerMessage::RoleAssigned { role_id }) => {
                let seat = room.players.iter().find(|p| p.user_id == v[0].0).unwrap();
                assert_eq!(seat.role_id, Some(*role_id));
            }
            other => panic!("{:?}", other.1),
        }
    }
    dealt.sort();
    assert_eq!(dealt, vec![1, 2, 2]);
    let summary = s.roles_summary(1, &roles()).unwrap();
    assert_eq!(ids_of(&summary), vec![100]);
    match &summary.message {
        ServerMessage::AllRolesAssigned { players } => {
            assert_eq!(players.len(), 3);
            assert!(players.iter().all(|p| p.role.as_ref().map(|r| r.id) == p.role_id));
        }
        other => panic!("{:?}", other),
    }
    assert!(s.roles_summary(1, &vec![]).map(|d| match d.message {
        ServerMessage::AllRolesAssigned { players } => players.iter().all(|p| p.role.is_none()),
        _ => false,
    }).unwrap());
    assert!(s.roles_summary(4, &roles()).is_none());
}

#[test]
fn failed_deals_owe_no_summary() {
    let mut s = room_with_players(3);
    let deal = RoleDealRequest { room_id: 1, player_ids: vec![100, 101, 102] };
    let (out, summary_due) = s.finish_deal(deal, vec![]);
    assert!(!summary_due);
    assert_eq!(error_text(&out[0]), "Failed to assign roles: No beasts available");
}

#[test]
fn failed_deals_are_broadcast() {
    let mut s = room_with_players(3);
    let out = s.apply_role_assignments(1, Err("No beasts available".to_string()));
    assert_eq!(out.len(), 1);
    assert_eq!(error_text(&out[0]), "Failed to assign roles: No beasts available");
    assert_eq!(ids_of(&out[0]), vec![100, 101, 102]);
    let out = s.apply_role_assignments(1, Ok(vec![
        RoleAssignment { player_id: 101, role_id: 7 },
        RoleAssignment { player_id: 999, role_id: 8 },
        RoleAssignment { player_id: 101, role_id: 9 },
    ]));
    assert_eq!(out.len(), 2);
    assert_eq!(s.rooms.get(&1).unwrap().players[1].role_id, Some(9));
    assert!(s.apply_role_assignments(5, Ok(vec![])).is_empty());
}

#[test]
fn host_removes_players() {
    let mut s = room_with_players(3);
    let out = s.handle_client_message_with_id(ClientMessage::RemovePlayer { room_id: 1, user_id: 102 }, 101, "b", &101, 0).0;
    assert_eq!(error_text(&out[0]), "Only host can remove players");
    let out = s.handle_client_message_with_id(ClientMessage::RemovePlayer { room_id: 1, user_id: 100 }, 100, "h", &100, 0).0;
    assert_eq!(error_text(&out[0]), "Cannot remove yourself");
    let out = s.handle_client_message_with_id(ClientMessage::RemovePlayer { room_id: 3, user_id: 102 }, 100, "h", &100, 0).0;
    assert_eq!(error_text(&out[0]), "Room not found");
    let out = s.handle_client_message_with_id(ClientMessage::RemovePlayer { room_id: 1, user_id: 102 }, 100, "h", &100, 0).0;
    assert_eq!(ids_of(&out[0]), vec![100, 101, 102], "the removed player is told too");
    assert!(matches!(out[0].message, ServerMessage::PlayerKicked { room_id: 1, user_id: 102 }));
    assert!(!s.rooms.get(&1).unwrap().has_player(102));
}

#[test]
fn host_redeals() {
    let mut s = room_with_players(3);
    let (out, deal) = s.handle_client_message_with_id(ClientMessage::ReassignRoles { room_id: 1 }, 101, "b", &101, 0);
    assert!(deal.is_none());
    assert_eq!(error_text(&out[0]), "Only host can reassign roles");
    s.apply_role_assignments(1, Ok(vec![RoleAssignment { player_id: 101, role_id: 7 }]));
    let (out, deal) = s.handle_client_message_with_id(ClientMessage::ReassignRoles { room_id: 1 }, 100, "h", &100, 0);
    assert_eq!(deal.unwrap().player_ids, vec![100, 101, 102]);
    assert!(matches!(out[0].message, ServerMessage::GameStarting { room_id: 1 }));
    assert!(s.rooms.get(&1).unwrap().players.iter().all(|p| p.role_id.is_none()));
}

#[test]
fn disconnecting_leaves_every_room() {
    let mut s = room_with_players(2);
    s.handle_client_message_with_id(ClientMessage::CreateRoom { room_name: "b".to_string() }, 101, "b", &101, 2);
    join(&mut s, 2, 101, 3000);
    s.handle_client_message_with_id(ClientMessage::CreateRoom { room_name: "c".to_string() }, 7, "c", &7, 3);
    let out = s.disconnect(101);
    assert_eq!(out.len(), 3);
    assert!(out.iter().all(|d| matches!(d.message, ServerMessage::PlayerLeft { user_id: 101, .. })));
    assert!(s.rooms.get(&2).is_none());
    assert!(s.rooms.get(&3).is_none(), "a room without players closes");
    let room = s.rooms.get(&1).unwrap();
    assert!(!room.has_player(101));
    assert_eq!(room.players.len(), 1);
}

#[test]
fn listing_rooms() {
    let mut s = room_with_players(3);
    s.handle_client_message_with_id(ClientMessage::CreateRoom { room_name: "b".to_string() }, 101, "b", &101, 2);
    s.handle_client_message_with_id(ClientMessage::StartGame { room_id: 1 }, 100, "h", &100, 0);
    let listed = s.waiting_rooms();
    assert_eq!(listed.len(), 1);
    assert_eq!((listed[0].id, listed[0].player_count), (2, 0));
    let details = s.room_details(1).unwrap();
    assert_eq!(details.players.len(), 3);
    assert_eq!(details.game_state, GameState::Starting);
    assert!(s.room_details(77).is_none());
    let info = s.open_room("new".to_string(), 6, 100);
    assert_eq!((info.max_players, info.player_count, info.host_id), (6, 0, 100));
    assert_eq!(s.waiting_rooms().len(), 2);
    let info = s.open_room_with_id(50, "fifty".to_string(), 4, 1);
    assert_eq!(info.id, 50);
}

#[test]
fn random_ids_for_new_rooms_and_seats() {
    let mut s: RoomState<u32> = RoomState::new();
    let (out, _) = s.handle_client_message(ClientMessage::CreateRoom { room_name: "x".to_string() }, 1, "a", &1);
    let room_id = match out[0].message {
        ServerMessage::RoomCreated { room_id, .. } => room_id,
        _ => panic!(),
    };
    assert_eq!((room_id >> 76) & 0xf, 4);
    let (out, _) = s.handle_client_message(ClientMessage::JoinRoom { room_id }, 1, "a", &1);
    assert_eq!(out.len(), 1);
    let seat = s.rooms.get(&room_id).unwrap().players[0].id;
    assert_eq!((seat >> 76) & 0xf, 4);
    assert_eq!((seat >> 62) & 0x3, 2);
    let info = s.open_room("y".to_string(), 6, 2);
    assert_eq!((info.id >> 76) & 0xf, 4);
    assert_eq!((info.id >> 62) & 0x3, 2);
    let p = Player::new(3, "c".to_string());
    assert_eq!((p.id >> 76) & 0xf, 4);
    assert_eq!((p.id >> 62) & 0x3, 2);
}
