//! Plain data exchanged with clients, and the role distribution table.
use vstd::prelude::*;
use crate::models::{GameState, PlayerView, RoleType};

verus! {

/// How many roles of each kind a game with a given number of players gets.
pub struct RoleDistribution {
    pub beast_count: usize,
    pub citizen_count: usize,
    pub special_count: usize,
}

/// The distribution table, as numbers: `(beasts, citizens, specials)` for `count` players.
pub open spec fn distribution_for(count: int) -> (int, int, int) {
    if 3 <= count <= 4 {
        (1, count - 1, 0)
    } else if 5 <= count <= 6 {
        (1, count - 2, 1)
    } else if 7 <= count <= 10 {
        (2, count - 4, 2)
    } else if 11 <= count <= 14 {
        (3, count - 6, 3)
    } else {
        (count / 4, count / 2, count / 4)
    }
}

impl RoleDistribution {
    /// The distribution as a triple of numbers.
    pub open spec fn counts(&self) -> (int, int, int) {
        (self.beast_count as int, self.citizen_count as int, self.special_count as int)
    }

    /// The total number of roles the distribution hands out.
    pub open spec fn total(&self) -> int {
        self.beast_count + self.citizen_count + self.special_count
    }

    /// Role distribution for a game of `count` players.
    pub fn for_players(count: usize) -> (d: Self)
        ensures
            d.counts() == distribution_for(count as int),
            3 <= count <= 4 ==> d.beast_count == 1 && d.citizen_count == count - 1 && d.special_count == 0,
            5 <= count <= 6 ==> d.beast_count == 1 && d.citizen_count == count - 2 && d.special_count == 1,
            7 <= count <= 10 ==> d.beast_count == 2 && d.citizen_count == count - 4 && d.special_count == 2,
            11 <= count <= 14 ==> d.beast_count == 3 && d.citizen_count == count - 6 && d.special_count == 3,
            count < 3 || count > 14 ==> d.beast_count == count / 4 && d.citizen_count == count / 2
                && d.special_count == count / 4,
    {
        if 3 <= count && count <= 4 {
            RoleDistribution { beast_count: 1, citizen_count: count - 1, special_count: 0 }
        } else if 5 <= count && count <= 6 {
            RoleDistribution { beast_count: 1, citizen_count: count - 2, special_count: 1 }
        } else if 7 <= count && count <= 10 {
            RoleDistribution { beast_count: 2, citizen_count: count - 4, special_count: 2 }
        } else if 11 <= count && count <= 14 {
            RoleDistribution { beast_count: 3, citizen_count: count - 6, special_count: 3 }
        } else {
            RoleDistribution { beast_count: count / 4, citizen_count: count / 2, special_count: count / 4 }
        }
    }
}

/// For every player count from 3 to 14 the table hands out exactly one role per
/// player, at least one of them a beast; for any count it never hands out more
/// roles than there are players.
pub proof fn lemma_distribution_covers_players(count: int)
    requires
        0 <= count,
    ensures
        distribution_for(count).0 + distribution_for(count).1 + distribution_for(count).2 <= count,
        3 <= count <= 14 ==> distribution_for(count).0 + distribution_for(count).1
            + distribution_for(count).2 == count,
        3 <= count ==> distribution_for(count).0 >= 1,
{
}

/// The table row by row: one beast and no special for three or four
/// players, one beast and one special for five or six, two beasts and two
/// specials for seven to ten, three of each for eleven to fourteen, citizens
/// filling the other seats; outside that range a quarter of the players are
/// beasts, half are citizens and a quarter are specials, rounded down.
pub proof fn lemma_distribution_rows(count: int)
    requires
        0 <= count,
    ensures
        3 <= count <= 4 ==> distribution_for(count) == (1int, count - 1, 0int),
        5 <= count <= 6 ==> distribution_for(count) == (1int, count - 2, 1int),
        7 <= count <= 10 ==> distribution_for(count) == (2int, count - 4, 2int),
        11 <= count <= 14 ==> distribution_for(count) == (3int, count - 6, 3int),
        count < 3 || count > 14 ==> distribution_for(count) == (count / 4, count / 2, count / 4),
        7 <= count <= 14 ==> distribution_for(count).0 == distribution_for(count).2,
{
}

/// Within the table, a game with more players never gets fewer beasts or
/// fewer specials.
pub proof fn lemma_distribution_grows(a: int, b: int)
    requires
        3 <= a <= b <= 14,
    ensures
        distribution_for(a).0 <= distribution_for(b).0,
        distribution_for(a).2 <= distribution_for(b).2,
{
}

/// A role, as the specifications see it.
pub struct RoleView {
    pub id: u128,
    pub name: Seq<char>,
    pub slug: Seq<char>,
    pub description: Seq<char>,
    pub image: Option<Seq<char>>,
    pub role_type: RoleType,
    pub priority: Option<i32>,
}

/// The view of an optional text.
pub open spec fn opt_text(s: Option<String>) -> Option<Seq<char>> {
    match s {
        Some(t) => Some(t@),
        None => None,
    }
}

/// A game role.
#[derive(Debug)]
pub struct RoleResponse {
    pub id: u128,
    pub name: String,
    pub slug: String,
    pub description: String,
    pub image: Option<String>,
    pub role_type: RoleType,
    pub priority: Option<i32>,
}

impl View for RoleResponse {
    type V = RoleView;

    open spec fn view(&self) -> RoleView {
        RoleView {
            id: self.id,
            name: self.name@,
            slug: self.slug@,
            description: self.description@,
            image: opt_text(self.image),
            role_type: self.role_type,
            priority: self.priority,
        }
    }
}

/// A copy of an optional text.
pub fn copy_opt_text(s: &Option<String>) -> (r: Option<String>)
    ensures
        opt_text(r) == opt_text(*s),
{
    match s {
        Some(t) => Some(t.clone()),
        None => None,
    }
}

impl RoleResponse {
    /// A copy of the role.
    pub fn duplicate(&self) -> (r: RoleResponse)
        ensures
            r@ == self@,
    {
        RoleResponse {
            id: self.id,
            name: self.name.clone(),
            slug: self.slug.clone(),
            description: self.description.clone(),
            image: copy_opt_text(&self.image),
            role_type: self.role_type,
            priority: self.priority,
        }
    }
}

/// The views of a list of roles.
pub open spec fn roles_view(s: Seq<RoleResponse>) -> Seq<RoleView> {
    s.map_values(|r: RoleResponse| r@)
}

/// The ids of a list of roles.
pub open spec fn role_ids(s: Seq<RoleView>) -> Seq<u128> {
    s.map_values(|r: RoleView| r.id)
}

/// A request to create a role.
#[derive(Debug)]
pub struct RoleCreateRequest {
    pub name: String,
    pub slug: String,
    pub description: String,
    pub image: Option<String>,
    pub role_type: RoleType,
    pub priority: Option<i32>,
}

/// A request to change some fields of a role; absent fields stay as they are.
#[derive(Debug)]
pub struct RoleUpdateRequest {
    pub name: Option<String>,
    pub slug: Option<String>,
    pub description: Option<String>,
    pub image: Option<String>,
    pub role_type: Option<RoleType>,
    pub priority: Option<i32>,
}

/// The role dealt to a player.
#[derive(Debug)]
pub struct RoleAssignment {
    pub player_id: u128,
    pub role_id: u128,
}

/// Roles sorted into the three groups the deal draws from.
#[derive(Debug)]
pub struct RolesByType {
    pub beasts: Vec<RoleResponse>,
    pub citizens: Vec<RoleResponse>,
    pub special: Vec<RoleResponse>,
}

/// A player with the details of the role dealt to them.
#[derive(Debug)]
pub struct PlayerWithRole {
    pub id: u128,
    pub user_id: u128,
    pub username: String,
    pub role_id: Option<u128>,
    pub is_ready: bool,
    pub role: Option<RoleResponse>,
}

/// The view of an optional role.
pub open spec fn opt_role(r: Option<RoleResponse>) -> Option<RoleView> {
    match r {
        Some(x) => Some(x@),
        None => None,
    }
}

impl View for PlayerWithRole {
    type V = (PlayerView, Option<RoleView>);

    open spec fn view(&self) -> (PlayerView, Option<RoleView>) {
        (
            PlayerView {
                id: self.id,
                user_id: self.user_id,
                username: self.username@,
                role_id: self.role_id,
                is_ready: self.is_ready,
            },
            opt_role(self.role),
        )
    }
}

/// A request for a guest session.
#[derive(Debug)]
pub struct CreateGuestRequest {
    pub username: String,
}

/// A granted guest session.
#[derive(Debug)]
pub struct GuestSessionResponse {
    pub session_id: String,
    pub username: String,
    pub token: String,
}

/// A registered user as shown to clients.
#[derive(Debug)]
pub struct UserResponse {
    pub id: u128,
    pub username: String,
}

/// Whether a user name is taken.
#[derive(Debug)]
pub struct VerifyUsernameResponse {
    pub exists: bool,
}

/// What a client sees of a player.
#[derive(Debug)]
pub struct PlayerDetails {
    pub id: u128,
    pub user_id: u128,
    pub username: String,
    pub role_id: Option<u128>,
    pub is_ready: bool,
}

impl View for PlayerDetails {
    type V = PlayerView;

    open spec fn view(&self) -> PlayerView {
        PlayerView {
            id: self.id,
            user_id: self.user_id,
            username: self.username@,
            role_id: self.role_id,
            is_ready: self.is_ready,
        }
    }
}

/// A request to open a room.
#[derive(Debug)]
pub struct CreateRoomRequest {
    pub name: String,
    pub max_players: usize,
}

/// A room as listed to clients.
#[derive(Debug)]
pub struct RoomInfo {
    pub id: u128,
    pub name: String,
    pub host_id: u128,
    pub player_count: usize,
    pub max_players: usize,
    pub game_state: GameState,
}

/// A room with its players.
#[derive(Debug)]
pub struct RoomDetails {
    pub id: u128,
    pub name: String,
    pub host_id: u128,
    pub players: Vec<PlayerDetails>,
    pub max_players: usize,
    pub game_state: GameState,
}

/// The views of a list of player details.
pub open spec fn details_view(s: Seq<PlayerDetails>) -> Seq<PlayerView> {
    s.map_values(|d: PlayerDetails| d@)
}

} // verus!
