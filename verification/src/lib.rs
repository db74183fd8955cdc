//! Game logic of a werewolf-style party game server: rooms, players, role
//! distribution, accounts and the room protocol, each function with a
//! contract that states what it does.
pub mod dto;
pub mod ids;
pub mod models;
pub mod room;
pub mod text;
pub mod roles;
pub mod users;
pub mod auth;
pub mod messages;
pub mod room_state;
