//! A game room: its players, their connections and the game state.
//!
//! A room is generic over the handle `T` through which a connected user is
//! reached; the library stores handles and hands copies of them out, and never
//! looks inside one.
use vstd::prelude::*;
use vstd::string::*;
use std::collections::HashMap;
use vstd::std_specs::iter::IteratorSpec;
use crate::dto::{details_view, PlayerDetails, RoomDetails, RoomInfo};
use crate::models::{GameState, Player, PlayerView};

verus! {

broadcast use vstd::std_specs::hash::group_hash_axioms;

/// The number of seats of a room opened without an explicit size.
pub const DEFAULT_MAX_PLAYERS: usize = 10;

/// The fewest players a game can start with.
pub const MIN_PLAYERS_TO_START: usize = 3;

/// Who a broadcast reaches: every connected user but the excluded one.
pub open spec fn recipients_of(connected: Set<u128>, exclude: Option<u128>) -> Set<u128> {
    match exclude {
        Some(x) => connected.remove(x),
        None => connected,
    }
}

/// The user ids of a list of (user id, handle) pairs.
pub open spec fn ids_of<T>(s: Seq<(u128, T)>) -> Seq<u128> {
    s.map_values(|e: (u128, T)| e.0)
}

/// Whether the handles `v` reach exactly the users `targets`, each once, each
/// through a copy of the handle `conns` holds for them.
pub open spec fn reaches<T: Clone>(v: Seq<(u128, T)>, conns: Map<u128, T>, targets: Set<u128>) -> bool {
    &&& ids_of(v).no_duplicates()
    &&& ids_of(v).to_set() == targets
    &&& forall|i: int| 0 <= i < v.len() ==> handle_of(conns, #[trigger] v[i])
}

/// Whether the pair holds a user id of `conns` and a copy of that user's handle.
pub open spec fn handle_of<T: Clone>(conns: Map<u128, T>, e: (u128, T)) -> bool {
    conns.contains_key(e.0) && cloned(conns[e.0], e.1)
}

/// One copy of a user's handle reaches that user alone.
pub proof fn lemma_single_reach<T: Clone>(user_id: u128, c: T, conns: Map<u128, T>)
    requires
        conns.contains_key(user_id),
        cloned(conns[user_id], c),
    ensures
        reaches(seq![(user_id, c)], conns, set![user_id]),
{
    let v = seq![(user_id, c)];
    assert(ids_of(v) =~= seq![user_id]);
    assert forall|u: u128| ids_of(v).to_set().contains(u) <==> set![user_id].contains(u) by {
        if u == user_id {
            assert(ids_of(v)[0] == u);
        }
    }
    assert(ids_of(v).to_set() =~= set![user_id]);
}

/// A user with a seat has a first seat.
pub proof fn lemma_has_user_first_seat(s: Seq<PlayerView>, user_id: u128)
    requires
        has_user(s, user_id),
    ensures
        first_seat_of(s, user_id) is Some,
    decreases s.len(),
{
    let rest = s.drop_last();
    if has_user(rest, user_id) {
        lemma_has_user_first_seat(rest, user_id);
        let k = choose|k: int| is_first_seat(rest, user_id, k);
        assert forall|j: int| 0 <= j <= k implies rest[j] == s[j] by {}
        assert(is_first_seat(s, user_id, k));
    } else {
        let k = s.len() - 1;
        let w = choose|w: int| 0 <= w < s.len() && s[w].user_id == user_id;
        if w < k {
            assert(rest[w] == s[w]);
        }
        assert forall|j: int| 0 <= j < k implies s[j].user_id != user_id by {
            assert(rest[j] == s[j]);
        }
        assert(is_first_seat(s, user_id, k));
    }
}

/// The views of a list of players.
pub open spec fn players_view(s: Seq<Player>) -> Seq<PlayerView> {
    s.map_values(|p: Player| p@)
}

/// The users that have a seat among `s`.
pub open spec fn user_ids(s: Seq<PlayerView>) -> Set<u128> {
    Set::new(|u: u128| exists|i: int| 0 <= i < s.len() && s[i].user_id == u)
}

/// Whether some player of `s` belongs to `user_id`.
pub open spec fn has_user(s: Seq<PlayerView>, user_id: u128) -> bool {
    exists|i: int| 0 <= i < s.len() && s[i].user_id == user_id
}

/// Whether position `i` of `s` is the first seat of `user_id`.
pub open spec fn is_first_seat(s: Seq<PlayerView>, user_id: u128, i: int) -> bool {
    &&& 0 <= i < s.len()
    &&& s[i].user_id == user_id
    &&& forall|j: int| 0 <= j < i ==> s[j].user_id != user_id
}

/// The position of the first player of `s` that belongs to `user_id`.
pub open spec fn first_seat_of(s: Seq<PlayerView>, user_id: u128) -> Option<int> {
    if exists|i: int| is_first_seat(s, user_id, i) {
        Some(choose|i: int| is_first_seat(s, user_id, i))
    } else {
        None
    }
}

/// A first seat is the first seat.
pub proof fn lemma_first_seat_unique(s: Seq<PlayerView>, user_id: u128, i: int)
    requires
        is_first_seat(s, user_id, i),
    ensures
        first_seat_of(s, user_id) == Some(i),
{
    let c = choose|c: int| is_first_seat(s, user_id, c);
    assert(c == i) by {
        if c < i {
            assert(s[c].user_id != user_id);
        } else if c > i {
            assert(s[i].user_id != user_id);
        }
    }
}

/// The players of `s` that do not belong to `user_id`, in order.
pub open spec fn without_user(s: Seq<PlayerView>, user_id: u128) -> Seq<PlayerView> {
    s.filter(|p: PlayerView| p.user_id != user_id)
}

/// The players of `s` with their roles taken away.
pub open spec fn roles_cleared(s: Seq<PlayerView>) -> Seq<PlayerView> {
    s.map_values(|p: PlayerView| PlayerView { role_id: None, ..p })
}

/// A room as the specifications see it; the connection handles are left out,
/// only the set of connected users is kept.
pub struct RoomView {
    pub id: u128,
    pub name: Seq<char>,
    pub host_id: u128,
    pub players: Seq<PlayerView>,
    pub connected: Set<u128>,
    pub max_players: usize,
    pub game_state: GameState,
}

/// A game room.
pub struct GameRoom<T> {
    pub id: u128,
    pub name: String,
    pub host_id: u128,
    pub players: Vec<Player>,
    pub connections: HashMap<u128, T>,
    pub max_players: usize,
    pub game_state: GameState,
}

impl<T> View for GameRoom<T> {
    type V = RoomView;

    open spec fn view(&self) -> RoomView {
        RoomView {
            id: self.id,
            name: self.name@,
            host_id: self.host_id,
            players: players_view(self.players@),
            connected: self.connections@.dom(),
            max_players: self.max_players,
            game_state: self.game_state,
        }
    }
}

impl<T> GameRoom<T> {
    /// The room's invariant: exactly the seated users are connected, and the
    /// room holds no more players than it has seats.
    pub open spec fn well_formed(&self) -> bool {
        &&& self.connections@.dom() == user_ids(self@.players)
        &&& self.players@.len() <= self.max_players
    }

    /// An empty room with the default number of seats, waiting for players.
    pub fn new(id: u128, name: String, host_id: u128) -> (room: Self)
        ensures
            room@ == (RoomView {
                id,
                name: name@,
                host_id,
                players: Seq::empty(),
                connected: Set::empty(),
                max_players: DEFAULT_MAX_PLAYERS,
                game_state: GameState::Waiting,
            }),
            room.well_formed(),
    {
        Self::new_with_max(id, name, DEFAULT_MAX_PLAYERS, host_id)
    }

    /// An empty room with `max_players` seats, waiting for players.
    pub fn new_with_max(id: u128, name: String, max_players: usize, host_id: u128) -> (room: Self)
        ensures
            room@ == (RoomView {
                id,
                name: name@,
                host_id,
                players: Seq::empty(),
                connected: Set::empty(),
                max_players,
                game_state: GameState::Waiting,
            }),
            room.well_formed(),
    {
        let room = GameRoom {
            id,
            name,
            host_id,
            players: Vec::new(),
            connections: HashMap::new(),
            max_players,
            game_state: GameState::Waiting,
        };
        assert(room@.players =~= Seq::<PlayerView>::empty());
        assert(user_ids(room@.players) =~= Set::<u128>::empty());
        room
    }

    /// Seats a player and stores the handle that reaches them. A full room and
    /// a room whose game has begun refuse, and stay as they were.
    pub fn add_player(&mut self, player: Player, tx: T) -> (r: Result<(), String>)
        requires
            old(self).well_formed(),
        ensures
            final(self).well_formed(),
            old(self).players@.len() >= old(self).max_players ==> r is Err && r->Err_0@
                == "Room is full"@ && *final(self) == *old(self),
            old(self).players@.len() < old(self).max_players && old(self).game_state
                != GameState::Waiting ==> r is Err && r->Err_0@ == "Game already started"@
                && *final(self) == *old(self),
            old(self).players@.len() < old(self).max_players && old(self).game_state
                == GameState::Waiting ==> r is Ok && final(self)@ == (RoomView {
                players: old(self)@.players.push(player@),
                connected: old(self)@.connected.insert(player.user_id),
                ..old(self)@
            }) && final(self).connections@ == old(self).connections@.insert(player.user_id, tx),
    {
        if self.players.len() >= self.max_players {
            return Err(String::from_str("Room is full"));
        }
        if self.game_state != GameState::Waiting {
            return Err(String::from_str("Game already started"));
        }
        let ghost old_players = self@.players;
        let user_id = player.user_id;
        self.connections.insert(user_id, tx);
        self.players.push(player);
        assert(self@.players =~= old_players.push(player@));
        assert(user_ids(self@.players) =~= user_ids(old_players).insert(user_id)) by {
            assert(self@.players[old_players.len() as int].user_id == user_id);
            assert forall|u: u128| user_ids(old_players).contains(u) implies user_ids(self@.players).contains(u) by {
                let i = choose|i: int| 0 <= i < old_players.len() && old_players[i].user_id == u;
                assert(self@.players[i] == old_players[i]);
            }
            assert forall|u: u128| user_ids(self@.players).contains(u) && u != user_id
                implies user_ids(old_players).contains(u) by {
                let i = choose|i: int| 0 <= i < self@.players.len() && self@.players[i].user_id == u;
                assert(old_players[i] == self@.players[i]);
            }
        }
        Ok(())
    }

    /// Takes every seat of `user_id` away and drops the user's handle.
    pub fn remove_player(&mut self, user_id: u128)
        requires
            old(self).well_formed(),
        ensures
            final(self).well_formed(),
            final(self)@ == (RoomView {
                players: without_user(old(self)@.players, user_id),
                connected: old(self)@.connected.remove(user_id),
                ..old(self)@
            }),
            final(self).connections@ == old(self).connections@.remove(user_id),
    {
        let ghost old_players = self@.players;
        let mut kept: Vec<Player> = Vec::new();
        let n = self.players.len();
        let mut i: usize = 0;
        while i < n
            invariant
                n == self.players@.len(),
                old_players == players_view(self.players@),
                0 <= i <= n,
                players_view(kept@) == without_user(old_players.take(i as int), user_id),
            decreases n - i,
        {
            let ghost before = players_view(kept@);
            if self.players[i].user_id != user_id {
                kept.push(self.players[i].duplicate());
            }
            proof {
                reveal(Seq::filter);
                assert(old_players.take(i + 1).drop_last() =~= old_players.take(i as int));
                if old_players[i as int].user_id != user_id {
                    assert(players_view(kept@) =~= before.push(old_players[i as int]));
                } else {
                    assert(players_view(kept@) =~= before);
                }
            }
            i = i + 1;
        }
        assert(old_players.take(n as int) =~= old_players);
        self.players = kept;
        self.connections.remove(&user_id);
        proof {
            let newp = self@.players;
            let pred = |p: PlayerView| p.user_id != user_id;
            assert(user_ids(newp) =~= user_ids(old_players).remove(user_id)) by {
                assert forall|u: u128| #[trigger] user_ids(newp).contains(u) implies
                    user_ids(old_players).remove(user_id).contains(u) by {
                    let k = choose|k: int| 0 <= k < newp.len() && newp[k].user_id == u;
                    old_players.lemma_filter_pred(pred, k);
                    assert(old_players.filter(pred).contains(newp[k]));
                    old_players.lemma_filter_contains_rev(pred, newp[k]);
                }
                assert forall|u: u128| #[trigger] user_ids(old_players).remove(user_id).contains(u)
                    implies user_ids(newp).contains(u) by {
                    let k = choose|k: int| 0 <= k < old_players.len() && old_players[k].user_id == u;
                    old_players.lemma_filter_contains(pred, k);
                    let m = choose|m: int| 0 <= m < newp.len() && newp[m] == old_players[k];
                    assert(newp[m].user_id == u);
                }
            }
            old_players.lemma_filter_len(pred);
        }
    }

    /// Whether `user_id` has a seat in the room.
    pub fn has_player(&self, user_id: u128) -> (r: bool)
        ensures
            r == has_user(self@.players, user_id),
    {
        let n = self.players.len();
        let mut i: usize = 0;
        while i < n
            invariant
                n == self.players@.len(),
                0 <= i <= n,
                forall|j: int| 0 <= j < i ==> self@.players[j].user_id != user_id,
            decreases n - i,
        {
            if self.players[i].user_id == user_id {
                assert(self@.players[i as int].user_id == user_id);
                return true;
            }
            i = i + 1;
        }
        false
    }

    /// The position of the first seat of `user_id`.
    pub fn find_player(&self, user_id: u128) -> (r: Option<usize>)
        ensures
            match r {
                Some(i) => is_first_seat(self@.players, user_id, i as int) && first_seat_of(
                    self@.players,
                    user_id,
                ) == Some(i as int),
                None => !has_user(self@.players, user_id) && first_seat_of(self@.players, user_id)
                    is None,
            },
    {
        let n = self.players.len();
        let mut i: usize = 0;
        while i < n
            invariant
                n == self.players@.len(),
                0 <= i <= n,
                forall|j: int| 0 <= j < i ==> self@.players[j].user_id != user_id,
            decreases n - i,
        {
            if self.players[i].user_id == user_id {
                proof {
                    assert(is_first_seat(self@.players, user_id, i as int));
                    lemma_first_seat_unique(self@.players, user_id, i as int);
                }
                return Some(i);
            }
            i = i + 1;
        }
        assert forall|k: int| !is_first_seat(self@.players, user_id, k) by {}
        None
    }

    /// The first seat of `user_id`, to change in place.
    pub fn get_player_mut(&mut self, user_id: u128) -> (r: Option<&mut Player>)
        ensures
            match r {
                Some(p) => {
                    &&& first_seat_of(old(self)@.players, user_id) is Some
                    &&& *p == old(self).players@[first_seat_of(old(self)@.players, user_id)->0]
                    &&& final(self).players@ == old(self).players@.update(
                        first_seat_of(old(self)@.players, user_id)->0,
                        *final(p),
                    )
                    &&& final(self).id == old(self).id
                    &&& final(self).name == old(self).name
                    &&& final(self).host_id == old(self).host_id
                    &&& final(self).connections == old(self).connections
                    &&& final(self).max_players == old(self).max_players
                    &&& final(self).game_state == old(self).game_state
                },
                None => first_seat_of(old(self)@.players, user_id) is None && *final(self)
                    == *old(self),
            },
    {
        match self.find_player(user_id) {
            Some(i) => Some(&mut self.players[i]),
            None => None,
        }
    }

    /// Starts the game: at least three players are needed, else the room
    /// refuses and stays as it was.
    pub fn start_game(&mut self) -> (r: Result<(), String>)
        ensures
            old(self).players@.len() < MIN_PLAYERS_TO_START ==> r is Err && r->Err_0@
                == "Not enough players (minimum 3)"@ && *final(self) == *old(self),
            old(self).players@.len() >= MIN_PLAYERS_TO_START ==> r is Ok && final(self)@ == (
            RoomView { game_state: GameState::Starting, ..old(self)@ }) && final(self).connections
                == old(self).connections,
            old(self).well_formed() ==> final(self).well_formed(),
    {
        if self.players.len() < MIN_PLAYERS_TO_START {
            return Err(String::from_str("Not enough players (minimum 3)"));
        }
        self.game_state = GameState::Starting;
        Ok(())
    }

    /// Takes every player's role away, ready for a new deal.
    pub fn reset_for_new_game(&mut self)
        requires
            old(self).well_formed(),
        ensures
            final(self).well_formed(),
            final(self)@ == (RoomView { players: roles_cleared(old(self)@.players), ..old(self)@ }),
            final(self).connections == old(self).connections,
    {
        let ghost old_players = self@.players;
        let n = self.players.len();
        let mut i: usize = 0;
        while i < n
            invariant
                n == self.players@.len(),
                n == old_players.len(),
                0 <= i <= n,
                forall|j: int| 0 <= j < i ==> #[trigger] self@.players[j] == (PlayerView { role_id: None, ..old_players[j] }),
                forall|j: int| i <= j < n ==> #[trigger] self@.players[j] == old_players[j],
                self.connections@.dom() == user_ids(old_players),
                self.id == old(self).id,
                self.name == old(self).name,
                self.host_id == old(self).host_id,
                self.connections == old(self).connections,
                self.max_players == old(self).max_players,
                self.game_state == old(self).game_state,
            decreases n - i,
        {
            let ghost before = self.players@;
            assert(self@.players[i as int] == old_players[i as int]);
            assert(players_view(before)[i as int] == old_players[i as int]);
            let mut p = self.players.remove(i);
            assert(p@ == old_players[i as int]);
            p.role_id = None;
            assert(p@ == (PlayerView { role_id: None, ..old_players[i as int] }));
            self.players.insert(i, p);
            assert(self.players@ =~= before.update(i as int, p));
            assert forall|j: int| 0 <= j < n implies #[trigger] self@.players[j] == if j == i {
                PlayerView { role_id: None, ..old_players[j] }
            } else {
                players_view(before)[j]
            } by {
                assert(self@.players[j] == self.players@[j]@);
                assert(players_view(before)[j] == before[j]@);
                if j != i {
                    assert(self.players@[j] == before[j]);
                }
            }
            i = i + 1;
        }
        assert(self@.players =~= roles_cleared(old_players));
        assert(user_ids(roles_cleared(old_players)) =~= user_ids(old_players)) by {
            assert forall|u: u128| user_ids(old_players).contains(u) implies
                user_ids(roles_cleared(old_players)).contains(u) by {
                let k = choose|k: int| 0 <= k < old_players.len() && old_players[k].user_id == u;
                assert(roles_cleared(old_players)[k].user_id == u);
            }
        }
    }

    /// What clients are shown of the players, in seat order.
    pub fn player_details(&self) -> (r: Vec<PlayerDetails>)
        ensures
            details_view(r@) == self@.players,
    {
        let mut r: Vec<PlayerDetails> = Vec::new();
        let n = self.players.len();
        let mut i: usize = 0;
        while i < n
            invariant
                n == self.players@.len(),
                0 <= i <= n,
                details_view(r@) == self@.players.take(i as int),
            decreases n - i,
        {
            let p = &self.players[i];
            let ghost before = details_view(r@);
            r.push(PlayerDetails {
                id: p.id,
                user_id: p.user_id,
                username: p.username.clone(),
                role_id: p.role_id,
                is_ready: p.is_ready,
            });
            assert(details_view(r@) =~= before.push(self@.players[i as int]));
            assert(self@.players.take(i + 1) =~= self@.players.take(i as int).push(self@.players[i as int]));
            i = i + 1;
        }
        assert(self@.players.take(n as int) =~= self@.players);
        r
    }

    /// The room as listed to clients.
    pub fn info(&self) -> (r: RoomInfo)
        ensures
            r.id == self.id,
            r.name@ == self.name@,
            r.host_id == self.host_id,
            r.player_count == self.players@.len(),
            r.max_players == self.max_players,
            r.game_state == self.game_state,
    {
        RoomInfo {
            id: self.id,
            name: self.name.clone(),
            host_id: self.host_id,
            player_count: self.players.len(),
            max_players: self.max_players,
            game_state: self.game_state,
        }
    }

    /// The room with its players, as shown to clients.
    pub fn details(&self) -> (r: RoomDetails)
        ensures
            r.id == self.id,
            r.name@ == self.name@,
            r.host_id == self.host_id,
            details_view(r.players@) == self@.players,
            r.max_players == self.max_players,
            r.game_state == self.game_state,
    {
        RoomDetails {
            id: self.id,
            name: self.name.clone(),
            host_id: self.host_id,
            players: self.player_details(),
            max_players: self.max_players,
            game_state: self.game_state,
        }
    }
}

/// Filtering a sequence without duplicates gives a sequence without duplicates.
pub proof fn lemma_filter_no_duplicates<A>(s: Seq<A>, pred: spec_fn(A) -> bool)
    requires
        s.no_duplicates(),
    ensures
        s.filter(pred).no_duplicates(),
    decreases s.len(),
{
    reveal(Seq::filter);
    if s.len() > 0 {
        let rest = s.drop_last();
        assert(rest.no_duplicates());
        lemma_filter_no_duplicates(rest, pred);
        if pred(s.last()) {
            let f = rest.filter(pred);
            if f.contains(s.last()) {
                rest.lemma_filter_contains_rev(pred, s.last());
                let w = choose|w: int| 0 <= w < rest.len() && rest[w] == s.last();
                assert(s[w] == s[s.len() - 1]);
            }
            assert(f.push(s.last()).no_duplicates());
        }
    }
}

/// The keys of a map, each once, in the map's own order.
pub fn keys_of<V>(m: &HashMap<u128, V>) -> (r: Vec<u128>)
    ensures
        r@.no_duplicates(),
        r@.to_set() == m@.dom(),
{
    let mut r: Vec<u128> = Vec::new();
    proof {
        let keys = m.keys().remaining();
        assert(keys.unref().to_set() == m@.dom());
    }
    for k in it: m.keys()
        invariant
            r@.no_duplicates(),
            it.seq().no_duplicates(),
            it.seq() == m.keys().remaining(),
            r@.len() == it.index(),
            forall|i: int| 0 <= i < r@.len() ==> #[trigger] r@[i] == *it.seq()[i],
    {
        let ghost idx = it.index();
        proof {
            assert forall|i: int| 0 <= i < r@.len() implies r@[i] != *k by {
                assert(it.seq()[i] != it.seq()[idx]);
            }
        }
        r.push(*k);
    }
    proof {
        let keys = m.keys().remaining();
        assert(r@ =~= keys.unref());
    }
    r
}

impl<T: Clone> GameRoom<T> {
    /// Copies of the handles a broadcast goes to: every connection but the
    /// excluded user's, each listed once with its user id.
    #[verifier::spinoff_prover]
    pub fn broadcast(&self, exclude: Option<u128>) -> (r: Vec<(u128, T)>)
        ensures
            reaches(r@, self.connections@, recipients_of(self.connections@.dom(), exclude)),
    {
        let keys = keys_of(&self.connections);
        let mut r: Vec<(u128, T)> = Vec::new();
        let n = keys.len();
        let mut i: usize = 0;
        while i < n
            invariant
                n == keys@.len(),
                keys@.no_duplicates(),
                keys@.to_set() == self.connections@.dom(),
                0 <= i <= n,
                ids_of(r@) == keys@.take(i as int).filter(|k: u128| Some(k) != exclude),
                forall|j: int| 0 <= j < r@.len() ==> handle_of(self.connections@, #[trigger] r@[j]),
            decreases n - i,
        {
            let key = keys[i];
            let ghost before = ids_of(r@);
            assert(keys@.to_set().contains(key));
            if exclude != Some(key) {
                let h = self.connections.get(&key).unwrap();
                assert(*h == self.connections@[key]);
                let c = h.clone();
                assert(cloned(*h, c));
                let ghost old_r = r@;
                r.push((key, c));
                assert(ids_of(r@) =~= before.push(key));
                assert(handle_of(self.connections@, (key, c)));
                assert forall|j: int| 0 <= j < r@.len() implies handle_of(self.connections@, #[trigger] r@[j]) by {
                    if j < old_r.len() {
                        assert(r@[j] == old_r[j]);
                    } else {
                        assert(r@[j] == (key, c));
                    }
                }
            }
            proof {
                reveal(Seq::filter);
                assert(keys@.take(i + 1).drop_last() =~= keys@.take(i as int));
            }
            i = i + 1;
        }
        proof {
            let pred = |k: u128| Some(k) != exclude;
            assert(keys@.take(n as int) =~= keys@);
            broadcast use vstd::seq_lib::group_filter_ensures;
            lemma_filter_no_duplicates(keys@, pred);
            assert(ids_of(r@).to_set() =~= recipients_of(self.connections@.dom(), exclude)) by {
                assert forall|k: u128| #[trigger] ids_of(r@).to_set().contains(k) implies recipients_of(self.connections@.dom(), exclude).contains(k) by {
                    assert(ids_of(r@).contains(k));
                    keys@.lemma_filter_contains_rev(pred, k);
                }
                assert forall|k: u128| #[trigger] recipients_of(self.connections@.dom(), exclude).contains(k) implies ids_of(r@).to_set().contains(k) by {
                    assert(keys@.to_set().contains(k));
                    assert(keys@.contains(k));
                    let w = choose|w: int| 0 <= w < keys@.len() && keys@[w] == k;
                    keys@.lemma_filter_contains(pred, w);
                }
            }
        }
        r
    }
}

} // verus!
