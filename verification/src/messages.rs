//! The game protocol: what clients send, what the server answers, and to whom.
use vstd::prelude::*;
use crate::dto::{details_view, PlayerDetails, PlayerWithRole, RoleView};
use crate::models::{GameState, PlayerView};

verus! {

/// A request from a connected client.
#[derive(Debug)]
pub enum ClientMessage {
    CreateRoom { room_name: String },
    JoinRoom { room_id: u128 },
    LeaveRoom { room_id: u128 },
    GetRoomState { room_id: u128 },
    ToggleReady { room_id: u128 },
    SendMessage { room_id: u128, message: String },
    StartGame { room_id: u128 },
    RemovePlayer { room_id: u128, user_id: u128 },
    ReassignRoles { room_id: u128 },
}

/// A message from the server.
#[derive(Debug)]
#[allow(inconsistent_fields)]
pub enum ServerMessage {
    RoomCreated { room_id: u128, room_name: String },
    RoomJoined {
        room_id: u128,
        players: Vec<PlayerDetails>,
        game_state: GameState,
        room_name: String,
        host_id: u128,
        max_players: usize,
    },
    RoomLeft { room_id: u128 },
    PlayerJoined { room_id: u128, player: PlayerDetails },
    PlayerLeft { room_id: u128, user_id: u128 },
    PlayerReady { room_id: u128, user_id: u128, is_ready: bool },
    PlayerKicked { room_id: u128, user_id: u128 },
    Message { room_id: u128, user_id: u128, username: String, message: String },
    GameStarting { room_id: u128 },
    RoleAssigned { role_id: u128 },
    AllRolesAssigned { players: Vec<PlayerWithRole> },
    Error { message: String },
}

/// A message from the server, as the specifications see it.
#[allow(inconsistent_fields)]
pub enum ServerMessageView {
    RoomCreated { room_id: u128, room_name: Seq<char> },
    RoomJoined {
        room_id: u128,
        players: Seq<PlayerView>,
        game_state: GameState,
        room_name: Seq<char>,
        host_id: u128,
        max_players: usize,
    },
    RoomLeft { room_id: u128 },
    PlayerJoined { room_id: u128, player: PlayerView },
    PlayerLeft { room_id: u128, user_id: u128 },
    PlayerReady { room_id: u128, user_id: u128, is_ready: bool },
    PlayerKicked { room_id: u128, user_id: u128 },
    Message { room_id: u128, user_id: u128, username: Seq<char>, message: Seq<char> },
    GameStarting { room_id: u128 },
    RoleAssigned { role_id: u128 },
    AllRolesAssigned { players: Seq<(PlayerView, Option<RoleView>)> },
    Error { message: Seq<char> },
}

/// The views of a list of players with roles.
pub open spec fn with_roles_view(s: Seq<PlayerWithRole>) -> Seq<(PlayerView, Option<RoleView>)> {
    s.map_values(|p: PlayerWithRole| p@)
}

impl View for ServerMessage {
    type V = ServerMessageView;

    open spec fn view(&self) -> ServerMessageView {
        match self {
            ServerMessage::RoomCreated { room_id, room_name } => ServerMessageView::RoomCreated {
                room_id: *room_id,
                room_name: room_name@,
            },
            ServerMessage::RoomJoined { room_id, players, game_state, room_name, host_id, max_players } =>
                ServerMessageView::RoomJoined {
                room_id: *room_id,
                players: details_view(players@),
                game_state: *game_state,
                room_name: room_name@,
                host_id: *host_id,
                max_players: *max_players,
            },
            ServerMessage::RoomLeft { room_id } => ServerMessageView::RoomLeft { room_id: *room_id },
            ServerMessage::PlayerJoined { room_id, player } => ServerMessageView::PlayerJoined {
                room_id: *room_id,
                player: player@,
            },
            ServerMessage::PlayerLeft { room_id, user_id } => ServerMessageView::PlayerLeft {
                room_id: *room_id,
                user_id: *user_id,
            },
            ServerMessage::PlayerReady { room_id, user_id, is_ready } => ServerMessageView::PlayerReady {
                room_id: *room_id,
                user_id: *user_id,
                is_ready: *is_ready,
            },
            ServerMessage::PlayerKicked { room_id, user_id } => ServerMessageView::PlayerKicked {
                room_id: *room_id,
                user_id: *user_id,
            },
            ServerMessage::Message { room_id, user_id, username, message } => ServerMessageView::Message {
                room_id: *room_id,
                user_id: *user_id,
                username: username@,
                message: message@,
            },
            ServerMessage::GameStarting { room_id } => ServerMessageView::GameStarting { room_id: *room_id },
            ServerMessage::RoleAssigned { role_id } => ServerMessageView::RoleAssigned { role_id: *role_id },
            ServerMessage::AllRolesAssigned { players } => ServerMessageView::AllRolesAssigned {
                players: with_roles_view(players@),
            },
            ServerMessage::Error { message } => ServerMessageView::Error { message: message@ },
        }
    }
}

/// Who a server message goes to: back to the client that sent the request,
/// or to the listed users through copies of their handles.
pub enum Recipients<T> {
    Sender,
    Handles(Vec<(u128, T)>),
}

/// A server message and where it goes.
pub struct Delivery<T> {
    pub to: Recipients<T>,
    pub message: ServerMessage,
}

} // verus!
