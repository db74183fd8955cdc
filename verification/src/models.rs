//! Game models: role kinds, game states, players, guests, users and identities.
use vstd::prelude::*;
use crate::ids::{is_v4_id, new_v4_id, uuid_text, uuid_to_string};

verus! {

/// The side a role plays for.
#[derive(Clone, Copy, Debug, PartialEq, Eq, Structural)]
pub enum RoleType {
    Beast,
    Citizen,
    Neutral,
}

/// The life cycle of a game room.
#[derive(Clone, Copy, Debug, PartialEq, Eq, Structural)]
pub enum GameState {
    Waiting,
    Starting,
    InProgress,
    Finished,
}

/// A player of a room, as the specifications see it.
pub struct PlayerView {
    pub id: u128,
    pub user_id: u128,
    pub username: Seq<char>,
    pub role_id: Option<u128>,
    pub is_ready: bool,
}

/// A player seated in a room.
#[derive(Debug)]
pub struct Player {
    pub id: u128,
    pub user_id: u128,
    pub username: String,
    pub role_id: Option<u128>,
    pub is_ready: bool,
}

impl View for Player {
    type V = PlayerView;

    open spec fn view(&self) -> PlayerView {
        PlayerView {
            id: self.id,
            user_id: self.user_id,
            username: self.username@,
            role_id: self.role_id,
            is_ready: self.is_ready,
        }
    }
}

/// The player with the ready flag flipped.
pub open spec fn ready_toggled(p: PlayerView) -> PlayerView {
    PlayerView { is_ready: !p.is_ready, ..p }
}

/// The view of a freshly seated player.
pub open spec fn fresh_player(id: u128, user_id: u128, username: Seq<char>) -> PlayerView {
    PlayerView { id, user_id, username, role_id: None, is_ready: false }
}

impl Player {
    /// A new player for the user, with a fresh random id, no role and not ready.
    pub fn new(user_id: u128, username: String) -> (p: Player)
        ensures
            p@ == fresh_player(p.id, user_id, username@),
            is_v4_id(p.id),
    {
        let id = new_v4_id();
        Player::with_id(id, user_id, username)
    }

    /// A new player with the given id, no role and not ready.
    pub fn with_id(id: u128, user_id: u128, username: String) -> (p: Player)
        ensures
            p@ == fresh_player(id, user_id, username@),
    {
        Player { id, user_id, username, role_id: None, is_ready: false }
    }

    /// Gives the player a role.
    pub fn assign_role(&mut self, role_id: u128)
        ensures
            final(self)@ == (PlayerView { role_id: Some(role_id), ..old(self)@ }),
    {
        self.role_id = Some(role_id);
    }

    /// Flips the player's ready flag.
    pub fn toggle_ready(&mut self)
        ensures
            final(self)@ == ready_toggled(old(self)@),
    {
        self.is_ready = !self.is_ready;
    }

    /// A copy of the player.
    pub fn duplicate(&self) -> (p: Player)
        ensures
            p@ == self@,
    {
        Player {
            id: self.id,
            user_id: self.user_id,
            username: self.username.clone(),
            role_id: self.role_id,
            is_ready: self.is_ready,
        }
    }
}

/// Toggling a player's ready flag twice gives back the player as it was.
pub proof fn lemma_toggle_ready_twice(p: PlayerView)
    ensures
        ready_toggled(ready_toggled(p)) == p,
{
}

/// A guest session: a player without an account.
#[derive(Debug)]
pub struct GuestSession {
    pub session_id: u128,
    pub username: String,
}

impl GuestSession {
    /// A guest session with a fresh random id.
    pub fn new(username: String) -> (g: GuestSession)
        ensures
            g.username@ == username@,
            is_v4_id(g.session_id),
    {
        GuestSession { session_id: new_v4_id(), username }
    }

    /// The session id in text form.
    pub fn session_id_text(&self) -> (s: String)
        ensures
            s@ == uuid_text(self.session_id),
    {
        uuid_to_string(self.session_id)
    }
}

/// A registered user as stored: id, user name and password hash.
#[derive(Debug)]
pub struct User {
    pub id: u128,
    pub username: String,
    pub password: String,
}

/// Who is behind a game connection.
#[derive(Debug)]
pub enum PlayerIdentity {
    Registered { user_id: u128, username: String },
    Guest { session_id: u128, username: String },
}

impl PlayerIdentity {
    /// The identity's id: the user id, or the guest session id.
    pub open spec fn spec_id(&self) -> u128 {
        match self {
            PlayerIdentity::Registered { user_id, .. } => *user_id,
            PlayerIdentity::Guest { session_id, .. } => *session_id,
        }
    }

    /// The identity's user name.
    pub open spec fn spec_username(&self) -> Seq<char> {
        match self {
            PlayerIdentity::Registered { username, .. } => username@,
            PlayerIdentity::Guest { username, .. } => username@,
        }
    }

    pub fn id(&self) -> (r: u128)
        ensures
            r == self.spec_id(),
    {
        match self {
            PlayerIdentity::Registered { user_id, .. } => *user_id,
            PlayerIdentity::Guest { session_id, .. } => *session_id,
        }
    }

    pub fn username(&self) -> (r: &str)
        ensures
            r@ == self.spec_username(),
    {
        match self {
            PlayerIdentity::Registered { username, .. } => username.as_str(),
            PlayerIdentity::Guest { username, .. } => username.as_str(),
        }
    }

    pub fn is_guest(&self) -> (r: bool)
        ensures
            r <==> self is Guest,
    {
        match self {
            PlayerIdentity::Guest { .. } => true,
            _ => false,
        }
    }
}

} // verus!
