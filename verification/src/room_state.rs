//! All open rooms, and the protocol's decisions: how each client request
//! changes the rooms and which messages go to whom.
use vstd::prelude::*;
use vstd::string::*;
use std::collections::HashMap;
use crate::dto::{roles_view, PlayerDetails, PlayerWithRole, RoleAssignment, RoleResponse, RoleView, RoomDetails, RoomInfo};
use crate::messages::{with_roles_view, ClientMessage, Delivery, Recipients, ServerMessage, ServerMessageView};
use crate::ids::{is_v4_id, new_v4_id};
use crate::models::{fresh_player, ready_toggled, GameState, Player, PlayerView};
use crate::roles::{assign_roles, assign_roles_outcome};
use crate::room::{
    first_seat_of, has_user, ids_of, keys_of, lemma_has_user_first_seat, lemma_single_reach, reaches,
    recipients_of, roles_cleared, user_ids, without_user, GameRoom, RoomView,
};

verus! {

broadcast use vstd::std_specs::hash::group_hash_axioms;

/// Whether `d` answers the client that sent the request with `m`.
pub open spec fn is_reply<T>(d: Delivery<T>, m: ServerMessageView) -> bool {
    d.to is Sender && d.message@ == m
}

/// Whether `d` sends `m` to every connection of `conns` but the excluded user's.
pub open spec fn is_broadcast<T: Clone>(d: Delivery<T>, conns: Map<u128, T>, exclude: Option<u128>, m: ServerMessageView) -> bool {
    &&& d.message@ == m
    &&& d.to matches Recipients::Handles(v) && reaches(v@, conns, recipients_of(conns.dom(), exclude))
}

/// Whether `d` sends `m` to the one user `user_id` through their handle in `conns`.
pub open spec fn is_direct<T: Clone>(d: Delivery<T>, conns: Map<u128, T>, user_id: u128, m: ServerMessageView) -> bool {
    &&& d.message@ == m
    &&& d.to matches Recipients::Handles(v) && reaches(v@, conns, set![user_id])
}

/// Whether `d` goes through handles to exactly the users `users`.
pub open spec fn sent_to<T>(d: Delivery<T>, users: Set<u128>) -> bool {
    match d.to {
        Recipients::Handles(v) => ids_of(v@).to_set() == users,
        Recipients::Sender => false,
    }
}

/// Whether `d` goes through handles to, among others, the user `user_id`.
pub open spec fn reaches_user<T>(d: Delivery<T>, user_id: u128) -> bool {
    match d.to {
        Recipients::Handles(v) => ids_of(v@).contains(user_id),
        Recipients::Sender => false,
    }
}

/// The error message with the given text.
pub open spec fn error_msg(text: Seq<char>) -> ServerMessageView {
    ServerMessageView::Error { message: text }
}

/// The message that shows a room to a client.
pub open spec fn room_joined_msg(room_id: u128, r: RoomView) -> ServerMessageView {
    ServerMessageView::RoomJoined {
        room_id,
        players: r.players,
        game_state: r.game_state,
        room_name: r.name,
        host_id: r.host_id,
        max_players: r.max_players,
    }
}

/// The deal a started game waits for: the room, and its players' user ids in
/// seat order.
pub struct RoleDealRequest {
    pub room_id: u128,
    pub player_ids: Vec<u128>,
}

/// The user ids of the players, in seat order.
pub open spec fn seat_user_ids(s: Seq<PlayerView>) -> Seq<u128> {
    s.map_values(|p: PlayerView| p.user_id)
}

/// The ids of listed rooms.
pub open spec fn info_ids(s: Seq<RoomInfo>) -> Seq<u128> {
    s.map_values(|i: RoomInfo| i.id)
}

/// The players after dealing the roles of `a`, in order: each assignment
/// gives its role to the first seat of its player, if the player has a seat.
pub open spec fn apply_assignments(s: Seq<PlayerView>, a: Seq<RoleAssignment>) -> Seq<PlayerView>
    decreases a.len(),
{
    if a.len() == 0 {
        s
    } else {
        let prev = apply_assignments(s, a.drop_last());
        let x = a.last();
        match first_seat_of(prev, x.player_id) {
            Some(i) => prev.update(i, PlayerView { role_id: Some(x.role_id), ..prev[i] }),
            None => prev,
        }
    }
}

/// Whether `t` has the same seats as `s`: same players in the same order,
/// roles aside.
pub open spec fn same_seats(s: Seq<PlayerView>, t: Seq<PlayerView>) -> bool {
    &&& t.len() == s.len()
    &&& forall|i: int| 0 <= i < s.len() ==> (PlayerView { role_id: None, ..#[trigger] t[i] }) == (PlayerView { role_id: None, ..s[i] })
}

/// Dealing roles changes no seat but its role.
pub proof fn lemma_assignments_keep_seats(s: Seq<PlayerView>, a: Seq<RoleAssignment>)
    ensures
        same_seats(s, apply_assignments(s, a)),
    decreases a.len(),
{
    if a.len() > 0 {
        lemma_assignments_keep_seats(s, a.drop_last());
        let prev = apply_assignments(s, a.drop_last());
        let x = a.last();
        match first_seat_of(prev, x.player_id) {
            Some(i) => {
                let c = choose|c: int| crate::room::is_first_seat(prev, x.player_id, c);
                assert(0 <= i < prev.len());
            },
            None => {},
        }
    }
}

/// Seats with the same players belong to the same users.
pub proof fn lemma_same_seats_same_users(s: Seq<PlayerView>, t: Seq<PlayerView>)
    requires
        same_seats(s, t),
    ensures
        user_ids(t) == user_ids(s),
        forall|u: u128| has_user(t, u) == has_user(s, u),
        forall|u: u128| first_seat_of(t, u) == first_seat_of(s, u),
{
    assert forall|i: int| 0 <= i < s.len() implies #[trigger] t[i].user_id == s[i].user_id by {
        assert((PlayerView { role_id: None, ..t[i] }).user_id == (PlayerView { role_id: None, ..s[i] }).user_id);
    }
    assert forall|u: u128| has_user(t, u) == has_user(s, u) by {
        if has_user(t, u) {
            let k = choose|k: int| 0 <= k < t.len() && t[k].user_id == u;
            assert(s[k].user_id == u);
        }
        if has_user(s, u) {
            let k = choose|k: int| 0 <= k < s.len() && s[k].user_id == u;
            assert(t[k].user_id == u);
        }
    }
    assert forall|u: u128| user_ids(t).contains(u) == user_ids(s).contains(u) by {
        assert(user_ids(t).contains(u) == has_user(t, u));
        assert(user_ids(s).contains(u) == has_user(s, u));
    }
    assert(user_ids(t) =~= user_ids(s));
    assert forall|u: u128| first_seat_of(t, u) == first_seat_of(s, u) by {
        assert forall|k: int| crate::room::is_first_seat(t, u, k) == crate::room::is_first_seat(s, u, k) by {
            if 0 <= k < s.len() {
                assert(t[k].user_id == s[k].user_id);
                assert forall|j: int| 0 <= j < k implies t[j].user_id == s[j].user_id by {}
            }
        }
    }
}

/// Taking away the seats of a user without one changes nothing.
pub proof fn lemma_without_absent_user(s: Seq<PlayerView>, user_id: u128)
    requires
        !has_user(s, user_id),
    ensures
        without_user(s, user_id) == s,
    decreases s.len(),
{
    reveal(Seq::filter);
    if s.len() > 0 {
        let rest = s.drop_last();
        assert(!has_user(rest, user_id)) by {
            if has_user(rest, user_id) {
                let k = choose|k: int| 0 <= k < rest.len() && rest[k].user_id == user_id;
                assert(s[k] == rest[k]);
            }
        }
        lemma_without_absent_user(rest, user_id);
        assert(s.last().user_id != user_id);
        assert(rest.push(s.last()) =~= s);
    }
}

/// The first role of `s` with the given id.
pub open spec fn find_role(s: Seq<RoleView>, id: u128) -> Option<RoleView>
    decreases s.len(),
{
    if s.len() == 0 {
        None
    } else if s[0].id == id {
        Some(s[0])
    } else {
        find_role(s.drop_first(), id)
    }
}

/// The details of a player's role among the known roles.
pub open spec fn role_of(known: Seq<RoleView>, p: PlayerView) -> Option<RoleView> {
    match p.role_id {
        Some(r) => find_role(known, r),
        None => None,
    }
}

/// The players of a room with the details of their roles.
pub open spec fn roles_summary_view(players: Seq<PlayerView>, known: Seq<RoleView>) -> Seq<(PlayerView, Option<RoleView>)> {
    players.map_values(|p: PlayerView| (p, role_of(known, p)))
}

/// The first known role with the given id.
pub fn lookup_role(known: &Vec<RoleResponse>, id: u128) -> (r: Option<RoleResponse>)
    ensures
        match r {
            Some(x) => find_role(roles_view(known@), id) == Some(x@),
            None => find_role(roles_view(known@), id) is None,
        },
{
    let ghost all = roles_view(known@);
    assert(all.skip(0) =~= all);
    let n = known.len();
    let mut i: usize = 0;
    while i < n
        invariant
            n == known@.len(),
            all == roles_view(known@),
            0 <= i <= n,
            find_role(all.skip(i as int), id) == find_role(all, id),
        decreases n - i,
    {
        assert(all.skip(i as int)[0] == all[i as int]);
        if known[i].id == id {
            return Some(known[i].duplicate());
        }
        assert(all.skip(i as int).drop_first() =~= all.skip(i + 1));
        i = i + 1;
    }
    assert(all.skip(n as int).len() == 0);
    None
}

/// All open rooms, by id.
pub struct RoomState<T> {
    pub rooms: HashMap<u128, GameRoom<T>>,
}

impl<T> RoomState<T> {
    /// Every room is well formed and filed under its own id.
    pub open spec fn well_formed(&self) -> bool {
        forall|id: u128| #[trigger] self.rooms@.contains_key(id) ==> self.rooms@[id].well_formed()
            && self.rooms@[id].id == id
    }

    /// Whether `new` is `old` with room `id` now in the given state, and every
    /// other room as it was.
    pub open spec fn room_now(old: &Self, new: &Self, id: u128, view: RoomView, conns: Map<u128, T>) -> bool {
        &&& new.rooms@.contains_key(id)
        &&& new.rooms@.remove(id) == old.rooms@.remove(id)
        &&& new.rooms@[id]@ == view
        &&& new.rooms@[id].connections@ == conns
    }

    /// No rooms yet.
    pub fn new() -> (s: Self)
        ensures
            s.rooms@ == Map::<u128, GameRoom<T>>::empty(),
            s.well_formed(),
    {
        RoomState { rooms: HashMap::new() }
    }
}

impl<T: Clone> RoomState<T> {
    /// What opening a room does: the room is filed under its id, empty and
    /// waiting, with the requesting user as host; the client is told.
    pub open spec fn create_room_post(old: &Self, new: &Self, out: Seq<Delivery<T>>, room_id: u128, room_name: Seq<char>, user_id: u128) -> bool {
        &&& Self::room_now(old, new, room_id, RoomView {
            id: room_id,
            name: room_name,
            host_id: user_id,
            players: Seq::empty(),
            connected: Set::empty(),
            max_players: crate::room::DEFAULT_MAX_PLAYERS,
            game_state: GameState::Waiting,
        }, Map::empty())
        &&& out.len() == 1
        &&& is_reply(out[0], ServerMessageView::RoomCreated { room_id, room_name })
    }

    /// Opens a room with the given id and name, hosted by `user_id`.
    pub fn create_room(&mut self, room_id: u128, room_name: String, user_id: u128) -> (out: Vec<Delivery<T>>)
        requires
            old(self).well_formed(),
        ensures
            final(self).well_formed(),
            Self::create_room_post(old(self), final(self), out@, room_id, room_name@, user_id),
    {
        let room = GameRoom::new(room_id, room_name.clone(), user_id);
        self.rooms.insert(room_id, room);
        proof {
            assert(self.rooms@.remove(room_id) =~= old(self).rooms@.remove(room_id));
            assert(self.rooms@[room_id].connections@ =~= Map::<u128, T>::empty());
        }
        vec![Delivery { to: Recipients::Sender, message: ServerMessage::RoomCreated { room_id, room_name } }]
    }

    /// What asking for a room's state does: nothing changes; the client is
    /// shown the room, or told that there is no such room.
    pub open spec fn get_room_state_post(old: &Self, new: &Self, out: Seq<Delivery<T>>, room_id: u128) -> bool {
        &&& new.rooms@ == old.rooms@
        &&& out.len() == 1
        &&& if old.rooms@.contains_key(room_id) {
            is_reply(out[0], room_joined_msg(room_id, old.rooms@[room_id]@))
        } else {
            is_reply(out[0], error_msg("Room not found"@))
        }
    }

    /// The message that shows room `room_id` to a client.
    fn room_joined_message(room: &GameRoom<T>, room_id: u128) -> (m: ServerMessage)
        ensures
            m@ == room_joined_msg(room_id, room@),
    {
        ServerMessage::RoomJoined {
            room_id,
            players: room.player_details(),
            game_state: room.game_state,
            room_name: room.name.clone(),
            host_id: room.host_id,
            max_players: room.max_players,
        }
    }

    /// A reply with an error text.
    fn error_reply(text: &str) -> (d: Delivery<T>)
        ensures
            is_reply(d, error_msg(text@)),
    {
        Delivery { to: Recipients::Sender, message: ServerMessage::Error { message: String::from_str(text) } }
    }

    /// Shows a room to the client that asks for it.
    pub fn get_room_state(&self, room_id: u128) -> (out: Vec<Delivery<T>>)
        ensures
            Self::get_room_state_post(self, self, out@, room_id),
    {
        match self.rooms.get(&room_id) {
            Some(room) => {
                vec![Delivery { to: Recipients::Sender, message: Self::room_joined_message(room, room_id) }]
            },
            None => vec![Self::error_reply("Room not found")],
        }
    }

    /// Whether joining room `room_id` is a return of a known user: they have a
    /// seat already, or they host the room.
    pub open spec fn is_reconnect(r: RoomView, user_id: u128) -> bool {
        has_user(r.players, user_id) || r.host_id == user_id
    }

    /// What a join request does. A missing room, a full room and a started
    /// game are refused with an error to the client, and nothing changes.
    /// Otherwise the user gets a new seat (the player id given, no role, not
    /// ready) and their handle is stored; the client is shown the room, and
    /// unless the user already had a seat or hosts the room, everyone else
    /// connected is told of the new player.
    pub open spec fn join_room_post(old: &Self, new: &Self, out: Seq<Delivery<T>>, room_id: u128, user_id: u128, username: Seq<char>, player_id: u128, tx: T) -> bool {
        if !old.rooms@.contains_key(room_id) {
            &&& new.rooms@ == old.rooms@
            &&& out.len() == 1
            &&& is_reply(out[0], error_msg("Room not found"@))
        } else {
            let r = old.rooms@[room_id];
            if r.players@.len() >= r.max_players {
                &&& new.rooms@ == old.rooms@
                &&& out.len() == 1
                &&& is_reply(out[0], error_msg("Room is full"@))
            } else if r.game_state != GameState::Waiting {
                &&& new.rooms@ == old.rooms@
                &&& out.len() == 1
                &&& is_reply(out[0], error_msg("Game already started"@))
            } else {
                let player = fresh_player(player_id, user_id, username);
                let view = RoomView {
                    players: r@.players.push(player),
                    connected: r@.connected.insert(user_id),
                    ..r@
                };
                let conns = new.rooms@[room_id].connections@;
                &&& Self::room_now(old, new, room_id, view, conns)
                &&& conns.remove(user_id) == r.connections@.remove(user_id)
                &&& conns.contains_key(user_id) && cloned(tx, conns[user_id])
                &&& out.len() == if Self::is_reconnect(r@, user_id) { 1int } else { 2int }
                &&& is_reply(out[0], room_joined_msg(room_id, view))
                &&& !Self::is_reconnect(r@, user_id) ==> is_broadcast(
                    out[1],
                    conns,
                    Some(user_id),
                    ServerMessageView::PlayerJoined { room_id, player },
                )
            }
        }
    }

    /// Seats the user in a room; `player_id` is the id of the new seat.
    pub fn join_room(&mut self, room_id: u128, user_id: u128, username: &str, player_id: u128, tx: &T) -> (out: Vec<Delivery<T>>)
        requires
            old(self).well_formed(),
        ensures
            final(self).well_formed(),
            Self::join_room_post(old(self), final(self), out@, room_id, user_id, username@, player_id, *tx),
    {
        if !self.rooms.contains_key(&room_id) {
            return vec![Self::error_reply("Room not found")];
        }
        let mut room = self.rooms.remove(&room_id).unwrap();
        assert(room == old(self).rooms@[room_id]);
        let player = Player::with_id(player_id, user_id, String::from_str(username));
        let details = PlayerDetails {
            id: player.id,
            user_id: player.user_id,
            username: player.username.clone(),
            role_id: player.role_id,
            is_ready: player.is_ready,
        };
        let is_reconnect = room.has_player(user_id) || room.host_id == user_id;
        let handle = tx.clone();
        match room.add_player(player, handle) {
            Err(e) => {
                self.rooms.insert(room_id, room);
                assert(self.rooms@ =~= old(self).rooms@);
                vec![Delivery { to: Recipients::Sender, message: ServerMessage::Error { message: e } }]
            },
            Ok(()) => {
                assert(room.connections@.remove(user_id) =~= old(self).rooms@[room_id].connections@.remove(user_id));
                let joined = Self::room_joined_message(&room, room_id);
                let mut out = vec![Delivery { to: Recipients::Sender, message: joined }];
                if !is_reconnect {
                    let recipients = room.broadcast(Some(user_id));
                    out.push(Delivery {
                        to: Recipients::Handles(recipients),
                        message: ServerMessage::PlayerJoined { room_id, player: details },
                    });
                }
                self.rooms.insert(room_id, room);
                assert(self.rooms@.remove(room_id) =~= old(self).rooms@.remove(room_id));
                out
            },
        }
    }

    /// What a leave request does. For a missing room nothing happens.
    /// Otherwise every seat of the user is taken away and their handle
    /// dropped; the client is told, and so is everyone still connected; a room
    /// left without players closes.
    pub open spec fn leave_room_post(old: &Self, new: &Self, out: Seq<Delivery<T>>, room_id: u128, user_id: u128) -> bool {
        if !old.rooms@.contains_key(room_id) {
            &&& new.rooms@ == old.rooms@
            &&& out.len() == 0
        } else {
            let r = old.rooms@[room_id];
            let view = RoomView {
                players: without_user(r@.players, user_id),
                connected: r@.connected.remove(user_id),
                ..r@
            };
            let conns = r.connections@.remove(user_id);
            &&& if view.players.len() == 0 {
                new.rooms@ == old.rooms@.remove(room_id)
            } else {
                Self::room_now(old, new, room_id, view, conns)
            }
            &&& out.len() == 2
            &&& is_reply(out[0], ServerMessageView::RoomLeft { room_id })
            &&& is_broadcast(out[1], conns, None, ServerMessageView::PlayerLeft { room_id, user_id })
        }
    }

    /// What a ready toggle does. Nothing happens for a missing room, for the
    /// host, or for a user without a seat. Otherwise the user's first seat
    /// flips its ready flag and everyone connected is told the new flag.
    pub open spec fn toggle_ready_post(old: &Self, new: &Self, out: Seq<Delivery<T>>, room_id: u128, user_id: u128) -> bool {
        if !old.rooms@.contains_key(room_id) || old.rooms@[room_id].host_id == user_id
            || first_seat_of(old.rooms@[room_id]@.players, user_id) is None {
            &&& new.rooms@ == old.rooms@
            &&& out.len() == 0
        } else {
            let r = old.rooms@[room_id];
            let i = first_seat_of(r@.players, user_id)->0;
            let p = r@.players[i];
            let view = RoomView {
                players: r@.players.update(i, ready_toggled(p)),
                ..r@
            };
            &&& Self::room_now(old, new, room_id, view, r.connections@)
            &&& out.len() == 1
            &&& is_broadcast(out[0], r.connections@, None, ServerMessageView::PlayerReady {
                room_id,
                user_id,
                is_ready: !p.is_ready,
            })
        }
    }

    /// Flips the user's ready flag in a room.
    pub fn toggle_ready(&mut self, room_id: u128, user_id: u128) -> (out: Vec<Delivery<T>>)
        requires
            old(self).well_formed(),
        ensures
            final(self).well_formed(),
            Self::toggle_ready_post(old(self), final(self), out@, room_id, user_id),
    {
        if !self.rooms.contains_key(&room_id) {
            return Vec::new();
        }
        let mut room = self.rooms.remove(&room_id).unwrap();
        assert(room == old(self).rooms@[room_id]);
        if room.host_id == user_id {
            self.rooms.insert(room_id, room);
            assert(self.rooms@ =~= old(self).rooms@);
            return Vec::new();
        }
        let ghost before = room;
        let mut out: Vec<Delivery<T>> = Vec::new();
        match room.get_player_mut(user_id) {
            Some(player) => {
                player.toggle_ready();
                let is_ready = player.is_ready;
                let ghost i = first_seat_of(before@.players, user_id)->0;
                proof {
                    assert(room.players@ == before.players@.update(i, room.players@[i]));
                    assert(room@.players =~= before@.players.update(i, ready_toggled(before@.players[i])));
                    assert(user_ids(room@.players) =~= user_ids(before@.players)) by {
                        assert forall|u: u128| user_ids(before@.players).contains(u) implies
                            user_ids(room@.players).contains(u) by {
                            let k = choose|k: int| 0 <= k < before@.players.len() && before@.players[k].user_id == u;
                            assert(room@.players[k].user_id == u);
                        }
                        assert forall|u: u128| user_ids(room@.players).contains(u) implies
                            user_ids(before@.players).contains(u) by {
                            let k = choose|k: int| 0 <= k < room@.players.len() && room@.players[k].user_id == u;
                            assert(before@.players[k].user_id == u);
                        }
                    }
                }
                assert(room.connections == before.connections);
                let recipients = room.broadcast(None);
                assert(reaches(recipients@, before.connections@, recipients_of(before.connections@.dom(), None)));
                out.push(Delivery {
                    to: Recipients::Handles(recipients),
                    message: ServerMessage::PlayerReady { room_id, user_id, is_ready },
                });
                assert(is_broadcast(out@[0], before.connections@, None, ServerMessageView::PlayerReady {
                    room_id,
                    user_id,
                    is_ready: !before@.players[i].is_ready,
                }));
            },
            None => {},
        }
        self.rooms.insert(room_id, room);
        assert(self.rooms@.remove(room_id) =~= old(self).rooms@.remove(room_id));
        proof {
            if first_seat_of(before@.players, user_id) is None {
                assert(self.rooms@ =~= old(self).rooms@);
            }
        }
        out
    }

    /// What a chat message does: nothing changes; for an open room everyone
    /// connected gets the message with the sender's id and name.
    pub open spec fn send_message_post(old: &Self, new: &Self, out: Seq<Delivery<T>>, room_id: u128, user_id: u128, username: Seq<char>, message: Seq<char>) -> bool {
        &&& new.rooms@ == old.rooms@
        &&& if old.rooms@.contains_key(room_id) {
            &&& out.len() == 1
            &&& is_broadcast(out[0], old.rooms@[room_id].connections@, None, ServerMessageView::Message {
                room_id,
                user_id,
                username,
                message,
            })
        } else {
            out.len() == 0
        }
    }

    /// Passes a chat message on to everyone in the room.
    pub fn send_message(&self, room_id: u128, user_id: u128, username: &str, message: String) -> (out: Vec<Delivery<T>>)
        ensures
            Self::send_message_post(self, self, out@, room_id, user_id, username@, message@),
    {
        match self.rooms.get(&room_id) {
            Some(room) => {
                assert(*room == self.rooms@[room_id]);
                let recipients = room.broadcast(None);
                assert(reaches(recipients@, room.connections@, recipients_of(room.connections@.dom(), None)));
                vec![Delivery {
                    to: Recipients::Handles(recipients),
                    message: ServerMessage::Message {
                        room_id,
                        user_id,
                        username: String::from_str(username),
                        message,
                    },
                }]
            },
            None => Vec::new(),
        }
    }

    /// What the host's start request does. Nothing happens for a missing
    /// room; a request from another user than the host, or with fewer than
    /// three players seated, is refused with an error to the client. Otherwise
    /// the game is starting, everyone connected is told, and a deal for the
    /// seated players, in seat order, is requested.
    pub open spec fn start_game_post(old: &Self, new: &Self, out: Seq<Delivery<T>>, deal: Option<RoleDealRequest>, room_id: u128, user_id: u128) -> bool {
        if !old.rooms@.contains_key(room_id) {
            &&& new.rooms@ == old.rooms@
            &&& out.len() == 0
            &&& deal is None
        } else {
            let r = old.rooms@[room_id];
            if r.host_id != user_id {
                &&& new.rooms@ == old.rooms@
                &&& out.len() == 1
                &&& is_reply(out[0], error_msg("Only host can start game"@))
                &&& deal is None
            } else if r.players@.len() < crate::room::MIN_PLAYERS_TO_START {
                &&& new.rooms@ == old.rooms@
                &&& out.len() == 1
                &&& is_reply(out[0], error_msg("Not enough players (minimum 3)"@))
                &&& deal is None
            } else {
                &&& Self::room_now(old, new, room_id, RoomView { game_state: GameState::Starting, ..r@ }, r.connections@)
                &&& out.len() == 1
                &&& is_broadcast(out[0], r.connections@, None, ServerMessageView::GameStarting { room_id })
                &&& deal is Some
                &&& deal->0.room_id == room_id
                &&& deal->0.player_ids@ == seat_user_ids(r@.players)
            }
        }
    }

    /// The seated players' user ids, in seat order.
    fn seated_user_ids(room: &GameRoom<T>) -> (r: Vec<u128>)
        ensures
            r@ == seat_user_ids(room@.players),
    {
        let mut r: Vec<u128> = Vec::new();
        let n = room.players.len();
        let mut i: usize = 0;
        while i < n
            invariant
                n == room.players@.len(),
                0 <= i <= n,
                r@ == seat_user_ids(room@.players).take(i as int),
            decreases n - i,
        {
            r.push(room.players[i].user_id);
            assert(r@ =~= seat_user_ids(room@.players).take(i + 1));
            i = i + 1;
        }
        assert(r@ =~= seat_user_ids(room@.players));
        r
    }

    /// Starts the game in a room, at the host's request.
    pub fn start_game(&mut self, room_id: u128, user_id: u128) -> (res: (Vec<Delivery<T>>, Option<RoleDealRequest>))
        requires
            old(self).well_formed(),
        ensures
            final(self).well_formed(),
            Self::start_game_post(old(self), final(self), res.0@, res.1, room_id, user_id),
            old(self).rooms@.contains_key(room_id) && old(self).rooms@[room_id].host_id == user_id
                && old(self).rooms@[room_id].players@.len() >= 3 ==> res.0@.len() == 1
                && res.0@[0].message@ == (ServerMessageView::GameStarting { room_id })
                && sent_to(res.0@[0], old(self).rooms@[room_id].connections@.dom()),
    {
        if !self.rooms.contains_key(&room_id) {
            return (Vec::new(), None);
        }
        let mut room = self.rooms.remove(&room_id).unwrap();
        assert(room == old(self).rooms@[room_id]);
        if room.host_id != user_id {
            self.rooms.insert(room_id, room);
            assert(self.rooms@ =~= old(self).rooms@);
            return (vec![Self::error_reply("Only host can start game")], None);
        }
        match room.start_game() {
            Err(e) => {
                self.rooms.insert(room_id, room);
                assert(self.rooms@ =~= old(self).rooms@);
                (vec![Delivery { to: Recipients::Sender, message: ServerMessage::Error { message: e } }], None)
            },
            Ok(()) => {
                let recipients = room.broadcast(None);
                assert(reaches(recipients@, old(self).rooms@[room_id].connections@, recipients_of(old(self).rooms@[room_id].connections@.dom(), None)));
                let out = vec![Delivery {
                    to: Recipients::Handles(recipients),
                    message: ServerMessage::GameStarting { room_id },
                }];
                let player_ids = Self::seated_user_ids(&room);
                self.rooms.insert(room_id, room);
                assert(self.rooms@.remove(room_id) =~= old(self).rooms@.remove(room_id));
                (out, Some(RoleDealRequest { room_id, player_ids }))
            },
        }
    }

    /// What the host's request to remove a player does. A missing room, a
    /// request from another user than the host, and a host removing
    /// themselves are refused with an error to the client. Otherwise everyone
    /// connected, the removed player included, is told, and then every seat of
    /// that player is taken away and their handle dropped.
    pub open spec fn remove_player_post(old: &Self, new: &Self, out: Seq<Delivery<T>>, room_id: u128, user_id: u128, target: u128) -> bool {
        if !old.rooms@.contains_key(room_id) {
            &&& new.rooms@ == old.rooms@
            &&& out.len() == 1
            &&& is_reply(out[0], error_msg("Room not found"@))
        } else {
            let r = old.rooms@[room_id];
            if r.host_id != user_id {
                &&& new.rooms@ == old.rooms@
                &&& out.len() == 1
                &&& is_reply(out[0], error_msg("Only host can remove players"@))
            } else if target == user_id {
                &&& new.rooms@ == old.rooms@
                &&& out.len() == 1
                &&& is_reply(out[0], error_msg("Cannot remove yourself"@))
            } else {
                &&& Self::room_now(old, new, room_id, RoomView {
                    players: without_user(r@.players, target),
                    connected: r@.connected.remove(target),
                    ..r@
                }, r.connections@.remove(target))
                &&& out.len() == 1
                &&& is_broadcast(out[0], r.connections@, None, ServerMessageView::PlayerKicked { room_id, user_id: target })
            }
        }
    }

    /// Removes a player from a room, at the host's request.
    pub fn remove_player(&mut self, room_id: u128, user_id: u128, target: u128) -> (out: Vec<Delivery<T>>)
        requires
            old(self).well_formed(),
        ensures
            final(self).well_formed(),
            Self::remove_player_post(old(self), final(self), out@, room_id, user_id, target),
    {
        if !self.rooms.contains_key(&room_id) {
            return vec![Self::error_reply("Room not found")];
        }
        let mut room = self.rooms.remove(&room_id).unwrap();
        assert(room == old(self).rooms@[room_id]);
        if room.host_id != user_id {
            self.rooms.insert(room_id, room);
            assert(self.rooms@ =~= old(self).rooms@);
            return vec![Self::error_reply("Only host can remove players")];
        }
        if target == user_id {
            self.rooms.insert(room_id, room);
            assert(self.rooms@ =~= old(self).rooms@);
            return vec![Self::error_reply("Cannot remove yourself")];
        }
        let recipients = room.broadcast(None);
        assert(reaches(recipients@, old(self).rooms@[room_id].connections@, recipients_of(old(self).rooms@[room_id].connections@.dom(), None)));
        let out = vec![Delivery {
            to: Recipients::Handles(recipients),
            message: ServerMessage::PlayerKicked { room_id, user_id: target },
        }];
        room.remove_player(target);
        self.rooms.insert(room_id, room);
        assert(self.rooms@.remove(room_id) =~= old(self).rooms@.remove(room_id));
        out
    }

    /// What the host's request for a new deal does. Nothing happens for a
    /// missing room; a request from another user than the host is refused
    /// with an error to the client. Otherwise every player's role is taken
    /// away, everyone connected is told a game is starting, and a deal for the
    /// seated players, in seat order, is requested.
    pub open spec fn reassign_roles_post(old: &Self, new: &Self, out: Seq<Delivery<T>>, deal: Option<RoleDealRequest>, room_id: u128, user_id: u128) -> bool {
        if !old.rooms@.contains_key(room_id) {
            &&& new.rooms@ == old.rooms@
            &&& out.len() == 0
            &&& deal is None
        } else {
            let r = old.rooms@[room_id];
            if r.host_id != user_id {
                &&& new.rooms@ == old.rooms@
                &&& out.len() == 1
                &&& is_reply(out[0], error_msg("Only host can reassign roles"@))
                &&& deal is None
            } else {
                &&& Self::room_now(old, new, room_id, RoomView { players: roles_cleared(r@.players), ..r@ }, r.connections@)
                &&& out.len() == 1
                &&& is_broadcast(out[0], r.connections@, None, ServerMessageView::GameStarting { room_id })
                &&& deal is Some
                &&& deal->0.room_id == room_id
                &&& deal->0.player_ids@ == seat_user_ids(r@.players)
            }
        }
    }

    /// Clears the roles of a room for a new deal, at the host's request.
    pub fn reassign_roles(&mut self, room_id: u128, user_id: u128) -> (res: (Vec<Delivery<T>>, Option<RoleDealRequest>))
        requires
            old(self).well_formed(),
        ensures
            final(self).well_formed(),
            Self::reassign_roles_post(old(self), final(self), res.0@, res.1, room_id, user_id),
            old(self).rooms@.contains_key(room_id) && old(self).rooms@[room_id].host_id == user_id ==> res.0@.len() == 1
                && res.0@[0].message@ == (ServerMessageView::GameStarting { room_id })
                && sent_to(res.0@[0], old(self).rooms@[room_id].connections@.dom()),
    {
        if !self.rooms.contains_key(&room_id) {
            return (Vec::new(), None);
        }
        let mut room = self.rooms.remove(&room_id).unwrap();
        assert(room == old(self).rooms@[room_id]);
        if room.host_id != user_id {
            self.rooms.insert(room_id, room);
            assert(self.rooms@ =~= old(self).rooms@);
            return (vec![Self::error_reply("Only host can reassign roles")], None);
        }
        room.reset_for_new_game();
        let recipients = room.broadcast(None);
        assert(reaches(recipients@, old(self).rooms@[room_id].connections@, recipients_of(old(self).rooms@[room_id].connections@.dom(), None)));
        let out = vec![Delivery {
            to: Recipients::Handles(recipients),
            message: ServerMessage::GameStarting { room_id },
        }];
        let player_ids = Self::seated_user_ids(&room);
        assert(seat_user_ids(room@.players) =~= seat_user_ids(old(self).rooms@[room_id]@.players));
        self.rooms.insert(room_id, room);
        assert(self.rooms@.remove(room_id) =~= old(self).rooms@.remove(room_id));
        (out, Some(RoleDealRequest { room_id, player_ids }))
    }

    /// What a finished deal does to a room. Nothing happens for a missing
    /// room. A failed deal changes nothing and everyone connected is told
    /// why. A successful deal gives each assigned role, in order, to the first
    /// seat of its player, and each assigned player who is connected is told
    /// their role, in the order of the assignments.
    pub open spec fn apply_role_assignments_post(old: &Self, new: &Self, out: Seq<Delivery<T>>, room_id: u128, outcome: Result<Seq<RoleAssignment>, Seq<char>>) -> bool {
        if !old.rooms@.contains_key(room_id) {
            &&& new.rooms@ == old.rooms@
            &&& out.len() == 0
        } else {
            let r = old.rooms@[room_id];
            match outcome {
                Err(e) => {
                    &&& new.rooms@ == old.rooms@
                    &&& out.len() == 1
                    &&& is_broadcast(out[0], r.connections@, None, error_msg("Failed to assign roles: "@ + e))
                },
                Ok(a) => {
                    let told = a.filter(|x: RoleAssignment| r.connections@.contains_key(x.player_id));
                    &&& Self::room_now(old, new, room_id, RoomView { players: apply_assignments(r@.players, a), ..r@ }, r.connections@)
                    &&& out.len() == told.len()
                    &&& forall|j: int| 0 <= j < told.len() ==> is_direct(#[trigger] out[j], r.connections@, told[j].player_id,
                        ServerMessageView::RoleAssigned { role_id: told[j].role_id })
                },
            }
        }
    }

    /// Deals the outcome of a role deal to a room.
    pub fn apply_role_assignments(&mut self, room_id: u128, outcome: Result<Vec<RoleAssignment>, String>) -> (out: Vec<Delivery<T>>)
        requires
            old(self).well_formed(),
        ensures
            final(self).well_formed(),
            Self::apply_role_assignments_post(old(self), final(self), out@, room_id, match outcome {
                Ok(a) => Ok(a@),
                Err(e) => Err(e@),
            }),
    {
        if !self.rooms.contains_key(&room_id) {
            return Vec::new();
        }
        let mut room = self.rooms.remove(&room_id).unwrap();
        let ghost orig = old(self).rooms@[room_id];
        assert(room == orig);
        let mut out: Vec<Delivery<T>> = Vec::new();
        match outcome {
            Err(e) => {
                let text = String::from_str("Failed to assign roles: ").concat(e.as_str());
                let recipients = room.broadcast(None);
                assert(reaches(recipients@, orig.connections@, recipients_of(orig.connections@.dom(), None)));
                out.push(Delivery { to: Recipients::Handles(recipients), message: ServerMessage::Error { message: text } });
                self.rooms.insert(room_id, room);
                assert(self.rooms@ =~= old(self).rooms@);
            },
            Ok(assignments) => {
                let ghost a = assignments@;
                let ghost pred = |x: RoleAssignment| orig.connections@.contains_key(x.player_id);
                let n = assignments.len();
                let mut i: usize = 0;
                while i < n
                    invariant
                        n == a.len(),
                        a == assignments@,
                        pred == (|x: RoleAssignment| orig.connections@.contains_key(x.player_id)),
                        orig.well_formed(),
                        0 <= i <= n,
                        room@ == (RoomView { players: apply_assignments(orig@.players, a.take(i as int)), ..orig@ }),
                        room.connections == orig.connections,
                        room.players@.len() <= room.max_players,
                        out@.len() == a.take(i as int).filter(pred).len(),
                        forall|j: int| 0 <= j < out@.len() ==> is_direct(#[trigger] out@[j], orig.connections@,
                            a.take(i as int).filter(pred)[j].player_id,
                            ServerMessageView::RoleAssigned { role_id: a.take(i as int).filter(pred)[j].role_id }),
                    decreases n - i,
                {
                    let player_id = assignments[i].player_id;
                    let role_id = assignments[i].role_id;
                    let ghost prev = room@.players;
                    let ghost before_out = out@;
                    proof {
                        lemma_assignments_keep_seats(orig@.players, a.take(i as int));
                        lemma_same_seats_same_users(orig@.players, prev);
                        reveal(Seq::filter);
                        assert(a.take(i + 1).drop_last() =~= a.take(i as int));
                        assert(a.take(i + 1).last() == a[i as int]);
                        assert(apply_assignments(orig@.players, a.take(i + 1)) == match first_seat_of(prev, player_id) {
                            Some(k) => prev.update(k, PlayerView { role_id: Some(role_id), ..prev[k] }),
                            None => prev,
                        });
                    }
                    match room.get_player_mut(player_id) {
                        Some(player) => {
                            player.assign_role(role_id);
                            proof {
                                let k = first_seat_of(prev, player_id)->0;
                                assert(room@.players =~= prev.update(k, PlayerView { role_id: Some(role_id), ..prev[k] }));
                            }
                            assert(orig.connections@.contains_key(player_id));
                            let h = room.connections.get(&player_id).unwrap();
                            let c = h.clone();
                            assert(cloned(orig.connections@[player_id], c));
                            let recipients = vec![(player_id, c)];
                            proof {
                                lemma_single_reach(player_id, c, orig.connections@);
                                assert(recipients@ =~= seq![(player_id, c)]);
                            }
                            out.push(Delivery {
                                to: Recipients::Handles(recipients),
                                message: ServerMessage::RoleAssigned { role_id },
                            });
                            proof {
                                assert(a.take(i + 1).filter(pred) == a.take(i as int).filter(pred).push(a[i as int]));
                            }
                        },
                        None => {
                            proof {
                                if has_user(prev, player_id) {
                                    lemma_has_user_first_seat(prev, player_id);
                                }
                                assert(!user_ids(prev).contains(player_id));
                                assert(!orig.connections@.contains_key(player_id));
                                assert(a.take(i + 1).filter(pred) == a.take(i as int).filter(pred));
                            }
                        },
                    }
                    i = i + 1;
                }
                proof {
                    assert(a.take(n as int) =~= a);
                    lemma_assignments_keep_seats(orig@.players, a);
                    lemma_same_seats_same_users(orig@.players, room@.players);
                }
                self.rooms.insert(room_id, room);
                assert(self.rooms@.remove(room_id) =~= old(self).rooms@.remove(room_id));
            },
        }
        out
    }

    /// The summary a successful deal sends to the host: nothing for a missing
    /// room or a host without a connection; otherwise every seated player,
    /// in seat order, with the details of their role among the known roles.
    pub open spec fn roles_summary_post(s: &Self, out: Option<Delivery<T>>, room_id: u128, known: Seq<RoleView>) -> bool {
        if !s.rooms@.contains_key(room_id) || !s.rooms@[room_id].connections@.contains_key(s.rooms@[room_id].host_id) {
            out is None
        } else {
            let r = s.rooms@[room_id];
            &&& out is Some
            &&& is_direct(out->0, r.connections@, r.host_id, ServerMessageView::AllRolesAssigned {
                players: roles_summary_view(r@.players, known),
            })
        }
    }

    /// The deal's summary for the host of a room.
    pub fn roles_summary(&self, room_id: u128, known_roles: &Vec<RoleResponse>) -> (out: Option<Delivery<T>>)
        ensures
            Self::roles_summary_post(self, out, room_id, roles_view(known_roles@)),
    {
        let room = match self.rooms.get(&room_id) {
            Some(room) => room,
            None => return None,
        };
        assert(*room == self.rooms@[room_id]);
        let host = room.host_id;
        let h = match room.connections.get(&host) {
            Some(h) => h,
            None => return None,
        };
        let c = h.clone();
        assert(cloned(room.connections@[host], c));
        let ghost known = roles_view(known_roles@);
        let mut players: Vec<PlayerWithRole> = Vec::new();
        let n = room.players.len();
        let mut i: usize = 0;
        while i < n
            invariant
                n == room.players@.len(),
                known == roles_view(known_roles@),
                0 <= i <= n,
                with_roles_view(players@) == roles_summary_view(room@.players, known).take(i as int),
            decreases n - i,
        {
            let p = &room.players[i];
            let role = match p.role_id {
                Some(rid) => lookup_role(known_roles, rid),
                None => None,
            };
            let ghost before = with_roles_view(players@);
            players.push(PlayerWithRole {
                id: p.id,
                user_id: p.user_id,
                username: p.username.clone(),
                role_id: p.role_id,
                is_ready: p.is_ready,
                role,
            });
            assert(with_roles_view(players@) =~= before.push(roles_summary_view(room@.players, known)[i as int]));
            assert(roles_summary_view(room@.players, known).take(i + 1) =~= roles_summary_view(room@.players, known).take(i as int).push(roles_summary_view(room@.players, known)[i as int]));
            i = i + 1;
        }
        assert(roles_summary_view(room@.players, known).take(n as int) =~= roles_summary_view(room@.players, known));
        let recipients = vec![(host, c)];
        proof {
            lemma_single_reach(host, c, room.connections@);
            assert(recipients@ =~= seq![(host, c)]);
        }
        Some(Delivery {
            to: Recipients::Handles(recipients),
            message: ServerMessage::AllRolesAssigned { players },
        })
    }

    /// The state of a room after `user_id` leaves it.
    pub open spec fn without_user_view(r: RoomView, user_id: u128) -> RoomView {
        RoomView {
            players: without_user(r.players, user_id),
            connected: r.connected.remove(user_id),
            ..r
        }
    }

    /// Whether `out` tells, room by room in the order `order`, everyone still
    /// connected to each room that `user_id` left it.
    pub open spec fn left_notices(old: &Self, out: Seq<Delivery<T>>, order: Seq<u128>, user_id: u128) -> bool {
        &&& order.no_duplicates()
        &&& order.to_set() == old.rooms@.dom()
        &&& out.len() == order.len()
        &&& forall|i: int| 0 <= i < order.len() ==> is_broadcast(
            #[trigger] out[i],
            old.rooms@[order[i]].connections@.remove(user_id),
            None,
            ServerMessageView::PlayerLeft { room_id: order[i], user_id },
        )
    }

    /// What a lost connection does: the user leaves every room. In each room
    /// every seat of the user is taken away and their handle dropped, everyone
    /// still connected is told, and a room left without players closes.
    pub open spec fn disconnect_post(old: &Self, new: &Self, out: Seq<Delivery<T>>, user_id: u128) -> bool {
        &&& forall|id: u128| #[trigger] new.rooms@.contains_key(id) <==> old.rooms@.contains_key(id)
            && without_user(old.rooms@[id]@.players, user_id).len() > 0
        &&& forall|id: u128| #[trigger] new.rooms@.contains_key(id) ==> new.rooms@[id]@
            == Self::without_user_view(old.rooms@[id]@, user_id) && new.rooms@[id].connections@
            == old.rooms@[id].connections@.remove(user_id)
        &&& exists|order: Seq<u128>| #[trigger] Self::left_notices(old, out, order, user_id)
    }

    /// Takes a user whose connection closed out of every room.
    #[verifier::spinoff_prover]
    pub fn disconnect(&mut self, user_id: u128) -> (out: Vec<Delivery<T>>)
        requires
            old(self).well_formed(),
        ensures
            final(self).well_formed(),
            Self::disconnect_post(old(self), final(self), out@, user_id),
    {
        let ids = keys_of(&self.rooms);
        let ghost old_rooms = self.rooms@;
        let mut out: Vec<Delivery<T>> = Vec::new();
        let n = ids.len();
        let mut i: usize = 0;
        while i < n
            invariant
                n == ids@.len(),
                ids@.no_duplicates(),
                ids@.to_set() == old_rooms.dom(),
                old_rooms == old(self).rooms@,
                old(self).well_formed(),
                self.well_formed(),
                0 <= i <= n,
                forall|id: u128| #[trigger] self.rooms@.contains_key(id) ==> old_rooms.contains_key(id),
                forall|j: int| i <= j < n ==> #[trigger] self.rooms@.contains_key(ids@[j])
                    && self.rooms@[ids@[j]] == old_rooms[ids@[j]],
                forall|j: int| 0 <= j < i ==> (#[trigger] self.rooms@.contains_key(ids@[j])
                    <==> without_user(old_rooms[ids@[j]]@.players, user_id).len() > 0),
                forall|j: int| 0 <= j < i && #[trigger] self.rooms@.contains_key(ids@[j]) ==>
                    self.rooms@[ids@[j]]@ == Self::without_user_view(old_rooms[ids@[j]]@, user_id)
                    && self.rooms@[ids@[j]].connections@ == old_rooms[ids@[j]].connections@.remove(user_id),
                out@.len() == i,
                forall|j: int| 0 <= j < i ==> is_broadcast(
                    #[trigger] out@[j],
                    old_rooms[ids@[j]].connections@.remove(user_id),
                    None,
                    ServerMessageView::PlayerLeft { room_id: ids@[j], user_id },
                ),
            decreases n - i,
        {
            let room_id = ids[i];
            let ghost before = self.rooms@;
            assert forall|j: int| i <= j < n implies #[trigger] before.contains_key(ids@[j])
                && before[ids@[j]] == old_rooms[ids@[j]] by {
                assert(self.rooms@.contains_key(ids@[j]));
            }
            let mut room = self.rooms.remove(&room_id).unwrap();
            assert(room == old_rooms[room_id]);
            room.remove_player(user_id);
            let recipients = room.broadcast(None);
            out.push(Delivery {
                to: Recipients::Handles(recipients),
                message: ServerMessage::PlayerLeft { room_id, user_id },
            });
            if room.players.len() > 0 {
                self.rooms.insert(room_id, room);
            }
            proof {
                assert forall|j: int| 0 <= j < n && j != i implies ids@[j] != room_id by {}
                assert forall|j: int| i + 1 <= j < n implies #[trigger] self.rooms@.contains_key(ids@[j])
                    && self.rooms@[ids@[j]] == old_rooms[ids@[j]] by {
                    assert(ids@[j] != room_id);
                    assert(i <= j && j < n);
                    assert(before.contains_key(ids@[j]));
                    assert(before[ids@[j]] == old_rooms[ids@[j]]);
                }
                assert forall|j: int| 0 <= j < n && j != i implies (#[trigger] self.rooms@.contains_key(ids@[j]) == before.contains_key(ids@[j])
                    && (self.rooms@.contains_key(ids@[j]) ==> self.rooms@[ids@[j]] == before[ids@[j]])) by {}
            }
            i = i + 1;
        }
        proof {
            assert forall|id: u128| #[trigger] self.rooms@.contains_key(id) <==> old_rooms.contains_key(id)
                && without_user(old_rooms[id]@.players, user_id).len() > 0 by {
                if old_rooms.contains_key(id) {
                    assert(ids@.to_set().contains(id));
                    assert(ids@.contains(id));
                    let j = choose|j: int| 0 <= j < n && ids@[j] == id;
                    assert(self.rooms@.contains_key(ids@[j]) <==> without_user(old_rooms[ids@[j]]@.players, user_id).len() > 0);
                }
            }
            assert forall|id: u128| #[trigger] self.rooms@.contains_key(id) implies self.rooms@[id]@
                == Self::without_user_view(old_rooms[id]@, user_id) && self.rooms@[id].connections@
                == old_rooms[id].connections@.remove(user_id) by {
                assert(ids@.to_set().contains(id));
                assert(ids@.contains(id));
                let j = choose|j: int| 0 <= j < n && ids@[j] == id;
                assert(self.rooms@.contains_key(ids@[j]));
            }
            assert(Self::left_notices(old(self), out@, ids@, user_id));
        }
        out
    }

    /// Whether `info` lists room `r`.
    pub open spec fn lists(info: RoomInfo, r: GameRoom<T>) -> bool {
        &&& info.id == r.id
        &&& info.name@ == r.name@
        &&& info.host_id == r.host_id
        &&& info.player_count == r.players@.len()
        &&& info.max_players == r.max_players
        &&& info.game_state == r.game_state
    }

    /// Whether `info` lists an open room that waits for players.
    pub open spec fn listed_waiting(s: &Self, info: RoomInfo) -> bool {
        &&& s.rooms@.contains_key(info.id)
        &&& s.rooms@[info.id].game_state == GameState::Waiting
        &&& Self::lists(info, s.rooms@[info.id])
    }

    /// The rooms still waiting for players, each listed once, in no
    /// particular order.
    pub fn waiting_rooms(&self) -> (r: Vec<RoomInfo>)
        requires
            self.well_formed(),
        ensures
            info_ids(r@).no_duplicates(),
            forall|k: int| 0 <= k < r@.len() ==> Self::listed_waiting(self, #[trigger] r@[k]),
            forall|id: u128| #[trigger] self.rooms@.contains_key(id) && self.rooms@[id].game_state == GameState::Waiting
                ==> info_ids(r@).contains(id),
    {
        let ids = keys_of(&self.rooms);
        let mut r: Vec<RoomInfo> = Vec::new();
        let n = ids.len();
        let mut i: usize = 0;
        while i < n
            invariant
                n == ids@.len(),
                ids@.no_duplicates(),
                ids@.to_set() == self.rooms@.dom(),
                self.well_formed(),
                0 <= i <= n,
                forall|k: int| 0 <= k < r@.len() ==> exists|j: int| 0 <= j < i && ids@[j] == #[trigger] r@[k].id,
                info_ids(r@).no_duplicates(),
                forall|k: int| 0 <= k < r@.len() ==> Self::listed_waiting(self, #[trigger] r@[k]),
                forall|j: int| 0 <= j < i && #[trigger] self.rooms@[ids@[j]].game_state == GameState::Waiting
                    ==> info_ids(r@).contains(ids@[j]),
            decreases n - i,
        {
            let room_id = ids[i];
            assert(ids@.to_set().contains(room_id));
            let room = self.rooms.get(&room_id).unwrap();
            assert(*room == self.rooms@[room_id]);
            let ghost before = r@;
            if room.game_state == GameState::Waiting {
                let info = room.info();
                proof {
                    assert forall|k: int| 0 <= k < before.len() implies before[k].id != room_id by {
                        let j = choose|j: int| 0 <= j < i && ids@[j] == before[k].id;
                        assert(ids@[j] != ids@[i as int]);
                    }
                }
                assert(Self::listed_waiting(self, info));
                r.push(info);
                proof {
                    assert forall|k: int| 0 <= k < r@.len() implies Self::listed_waiting(self, #[trigger] r@[k]) by {
                        if k < before.len() {
                            assert(r@[k] == before[k]);
                        }
                    }
                    assert(info_ids(r@) =~= info_ids(before).push(room_id));
                    assert(info_ids(r@)[before.len() as int] == room_id);
                }
            }
            proof {
                assert forall|j: int| 0 <= j < i + 1 && #[trigger] self.rooms@[ids@[j]].game_state == GameState::Waiting
                    implies info_ids(r@).contains(ids@[j]) by {
                    if j < i {
                        let bids = info_ids(before);
                        let w = choose|w: int| 0 <= w < bids.len() && #[trigger] bids[w] == ids@[j];
                        assert(info_ids(r@)[w] == ids@[j]);
                    }
                }
                assert forall|k: int| 0 <= k < r@.len() implies exists|j: int| 0 <= j < i + 1 && ids@[j] == #[trigger] r@[k].id by {
                    if k < before.len() {
                        assert(r@[k] == before[k]);
                    } else {
                        assert(ids@[i as int] == r@[k].id);
                    }
                }
            }
            i = i + 1;
        }
        proof {
            assert forall|id: u128| #[trigger] self.rooms@.contains_key(id) && self.rooms@[id].game_state == GameState::Waiting
                implies info_ids(r@).contains(id) by {
                assert(ids@.to_set().contains(id));
                assert(ids@.contains(id));
                let j = choose|j: int| 0 <= j < n && ids@[j] == id;
                assert(self.rooms@[ids@[j]].game_state == GameState::Waiting);
            }
        }
        r
    }

    /// A room with its players, if it is open.
    pub fn room_details(&self, room_id: u128) -> (r: Option<RoomDetails>)
        ensures
            r is Some <==> self.rooms@.contains_key(room_id),
            r is Some ==> ({
                let room = self.rooms@[room_id];
                let d = r->0;
                &&& d.id == room.id
                &&& d.name@ == room.name@
                &&& d.host_id == room.host_id
                &&& crate::dto::details_view(d.players@) == room@.players
                &&& d.max_players == room.max_players
                &&& d.game_state == room.game_state
            }),
    {
        match self.rooms.get(&room_id) {
            Some(room) => {
                assert(*room == self.rooms@[room_id]);
                Some(room.details())
            },
            None => None,
        }
    }

    /// Opens a room with the given id, size, name and host, as a listed room.
    pub fn open_room_with_id(&mut self, room_id: u128, name: String, max_players: usize, host_id: u128) -> (info: RoomInfo)
        requires
            old(self).well_formed(),
        ensures
            final(self).well_formed(),
            Self::room_now(old(self), final(self), room_id, RoomView {
                id: room_id,
                name: name@,
                host_id,
                players: Seq::empty(),
                connected: Set::empty(),
                max_players,
                game_state: GameState::Waiting,
            }, Map::empty()),
            Self::lists(info, final(self).rooms@[room_id]),
    {
        let room = GameRoom::new_with_max(room_id, name, max_players, host_id);
        let info = room.info();
        self.rooms.insert(room_id, room);
        proof {
            assert(self.rooms@.remove(room_id) =~= old(self).rooms@.remove(room_id));
            assert(self.rooms@[room_id].connections@ =~= Map::<u128, T>::empty());
        }
        info
    }

    /// Opens a room under a fresh random id, as a listed room.
    pub fn open_room(&mut self, name: String, max_players: usize, host_id: u128) -> (info: RoomInfo)
        requires
            old(self).well_formed(),
        ensures
            final(self).well_formed(),
            Self::room_now(old(self), final(self), info.id, RoomView {
                id: info.id,
                name: name@,
                host_id,
                players: Seq::empty(),
                connected: Set::empty(),
                max_players,
                game_state: GameState::Waiting,
            }, Map::empty()),
            Self::lists(info, final(self).rooms@[info.id]),
            is_v4_id(info.id),
    {
        let room_id = new_v4_id();
        self.open_room_with_id(room_id, name, max_players, host_id)
    }

    /// Deals roles for a started game from the available roles and applies
    /// the outcome to its room: the deal is one of those `assign_roles` may
    /// give, and the room and messages follow as `apply_role_assignments`
    /// says. The flag tells whether the host is now owed the deal's summary:
    /// the deal succeeded, the room is open and its host is connected.
    pub fn finish_deal(&mut self, deal: RoleDealRequest, available_roles: Vec<RoleResponse>) -> (res: (Vec<Delivery<T>>, bool))
        requires
            old(self).well_formed(),
        ensures
            final(self).well_formed(),
            exists|outcome: Result<Seq<RoleAssignment>, Seq<char>>|
                #[trigger] assign_roles_outcome(roles_view(available_roles@), deal.player_ids@, outcome)
                && Self::apply_role_assignments_post(old(self), final(self), res.0@, deal.room_id, outcome)
                && (res.1 <==> outcome is Ok && old(self).rooms@.contains_key(deal.room_id)
                    && old(self).rooms@[deal.room_id].connections@.contains_key(old(self).rooms@[deal.room_id].host_id)),
    {
        let ghost all = roles_view(available_roles@);
        let room_id = deal.room_id;
        let outcome = assign_roles(available_roles, deal.player_ids);
        let ghost outcome_view = match outcome {
            Ok(ref a) => Ok(a@),
            Err(ref e) => Err(e@),
        };
        let dealt = outcome.is_ok();
        let out = self.apply_role_assignments(room_id, outcome);
        let summary_due = dealt && match self.rooms.get(&room_id) {
            Some(room) => room.connections.contains_key(&room.host_id),
            None => false,
        };
        assert(assign_roles_outcome(all, deal.player_ids@, outcome_view));
        (out, summary_due)
    }

    /// What handling a client request does, for each kind of request;
    /// `fresh_id` names a room opened or a seat taken by the request.
    pub open spec fn handle_post(old: &Self, new: &Self, res: (Seq<Delivery<T>>, Option<RoleDealRequest>), msg: ClientMessage, user_id: u128, username: Seq<char>, tx: T, fresh_id: u128) -> bool {
        match msg {
            ClientMessage::CreateRoom { room_name } => Self::create_room_post(old, new, res.0, fresh_id, room_name@, user_id) && res.1 is None,
            ClientMessage::JoinRoom { room_id } => Self::join_room_post(old, new, res.0, room_id, user_id, username, fresh_id, tx) && res.1 is None,
            ClientMessage::LeaveRoom { room_id } => Self::leave_room_post(old, new, res.0, room_id, user_id) && res.1 is None,
            ClientMessage::GetRoomState { room_id } => Self::get_room_state_post(old, new, res.0, room_id) && res.1 is None,
            ClientMessage::ToggleReady { room_id } => Self::toggle_ready_post(old, new, res.0, room_id, user_id) && res.1 is None,
            ClientMessage::SendMessage { room_id, message } => Self::send_message_post(old, new, res.0, room_id, user_id, username, message@) && res.1 is None,
            ClientMessage::StartGame { room_id } => Self::start_game_post(old, new, res.0, res.1, room_id, user_id),
            ClientMessage::RemovePlayer { room_id, user_id: target } => Self::remove_player_post(old, new, res.0, room_id, user_id, target) && res.1 is None,
            ClientMessage::ReassignRoles { room_id } => Self::reassign_roles_post(old, new, res.0, res.1, room_id, user_id),
        }
    }

    /// Handles a request from a connected client, with `fresh_id` as the id
    /// of a room it opens or a seat it takes.
    pub fn handle_client_message_with_id(&mut self, msg: ClientMessage, user_id: u128, username: &str, tx: &T, fresh_id: u128) -> (res: (Vec<Delivery<T>>, Option<RoleDealRequest>))
        requires
            old(self).well_formed(),
        ensures
            final(self).well_formed(),
            Self::handle_post(old(self), final(self), (res.0@, res.1), msg, user_id, username@, *tx, fresh_id),
    {
        match msg {
            ClientMessage::CreateRoom { room_name } => (self.create_room(fresh_id, room_name, user_id), None),
            ClientMessage::JoinRoom { room_id } => (self.join_room(room_id, user_id, username, fresh_id, tx), None),
            ClientMessage::LeaveRoom { room_id } => (self.leave_room(room_id, user_id), None),
            ClientMessage::GetRoomState { room_id } => (self.get_room_state(room_id), None),
            ClientMessage::ToggleReady { room_id } => (self.toggle_ready(room_id, user_id), None),
            ClientMessage::SendMessage { room_id, message } => (self.send_message(room_id, user_id, username, message), None),
            ClientMessage::StartGame { room_id } => self.start_game(room_id, user_id),
            ClientMessage::RemovePlayer { room_id, user_id: target } => (self.remove_player(room_id, user_id, target), None),
            ClientMessage::ReassignRoles { room_id } => self.reassign_roles(room_id, user_id),
        }
    }

    /// Handles a request from a connected client; a room it opens or a seat
    /// it takes gets a fresh random id.
    pub fn handle_client_message(&mut self, msg: ClientMessage, user_id: u128, username: &str, tx: &T) -> (res: (Vec<Delivery<T>>, Option<RoleDealRequest>))
        requires
            old(self).well_formed(),
        ensures
            final(self).well_formed(),
            exists|fresh_id: u128| #[trigger] Self::handle_post(old(self), final(self), (res.0@, res.1), msg, user_id, username@, *tx, fresh_id)
                && is_v4_id(fresh_id),
    {
        let fresh_id = new_v4_id();
        self.handle_client_message_with_id(msg, user_id, username, tx, fresh_id)
    }

    /// A new deal asked for by the host of an open room is announced to
    /// every user connected to the room, the host included, just as a start
    /// of the game is: the `GameStarting` message goes to the same users in
    /// both cases, and no one is left out.
    pub proof fn lemma_new_deal_announced_to_all(old: &Self, s1: &Self, out1: Seq<Delivery<T>>, deal1: Option<RoleDealRequest>, s2: &Self, out2: Seq<Delivery<T>>, deal2: Option<RoleDealRequest>, room_id: u128, user_id: u128)
        requires
            old.rooms@.contains_key(room_id),
            old.rooms@[room_id].host_id == user_id,
            old.rooms@[room_id].players@.len() >= 3,
            Self::reassign_roles_post(old, s1, out1, deal1, room_id, user_id),
            Self::start_game_post(old, s2, out2, deal2, room_id, user_id),
        ensures
            out1.len() == 1,
            out2.len() == 1,
            out1[0].message@ == (ServerMessageView::GameStarting { room_id }),
            out1[0].message@ == out2[0].message@,
            sent_to(out1[0], old.rooms@[room_id].connections@.dom()),
            sent_to(out2[0], old.rooms@[room_id].connections@.dom()),
            old.rooms@[room_id].connections@.contains_key(user_id) ==> reaches_user(out1[0], user_id),
    {
    }

    /// Toggling the ready flag twice, as the same user in the same room,
    /// leaves the rooms as they were.
    pub proof fn lemma_toggle_ready_twice(s0: &Self, s1: &Self, s2: &Self, out1: Seq<Delivery<T>>, out2: Seq<Delivery<T>>, room_id: u128, user_id: u128)
        requires
            s0.well_formed(),
            Self::toggle_ready_post(s0, s1, out1, room_id, user_id),
            Self::toggle_ready_post(s1, s2, out2, room_id, user_id),
        ensures
            s2.rooms@.dom() == s0.rooms@.dom(),
            s2.rooms@.remove(room_id) == s0.rooms@.remove(room_id),
            s0.rooms@.contains_key(room_id) ==> s2.rooms@[room_id]@ == s0.rooms@[room_id]@
                && s2.rooms@[room_id].connections@ == s0.rooms@[room_id].connections@,
    {
        if s0.rooms@.contains_key(room_id) && s0.rooms@[room_id].host_id != user_id
            && first_seat_of(s0.rooms@[room_id]@.players, user_id) is Some {
            let p0 = s0.rooms@[room_id]@.players;
            let i = first_seat_of(p0, user_id)->0;
            let c = choose|c: int| crate::room::is_first_seat(p0, user_id, c);
            assert(i == c);
            let p1 = s1.rooms@[room_id]@.players;
            assert(p1 == p0.update(i, ready_toggled(p0[i])));
            assert(crate::room::is_first_seat(p1, user_id, i));
            crate::room::lemma_first_seat_unique(p1, user_id, i);
            assert(s2.rooms@[room_id]@.players =~= p0);
            assert(s2.rooms@.remove(room_id) =~= s0.rooms@.remove(room_id));
            assert(s2.rooms@.dom() =~= s0.rooms@.dom());
        }
    }

    /// A user without a seat who joins a room and then leaves it leaves the
    /// room's players and connections as they were.
    pub proof fn lemma_join_then_leave(s0: &Self, s1: &Self, s2: &Self, out1: Seq<Delivery<T>>, out2: Seq<Delivery<T>>, room_id: u128, user_id: u128, username: Seq<char>, player_id: u128, tx: T)
        requires
            s0.well_formed(),
            s0.rooms@.contains_key(room_id),
            !has_user(s0.rooms@[room_id]@.players, user_id),
            Self::join_room_post(s0, s1, out1, room_id, user_id, username, player_id, tx),
            Self::leave_room_post(s1, s2, out2, room_id, user_id),
        ensures
            s2.rooms@.contains_key(room_id) ==> s2.rooms@[room_id]@ == s0.rooms@[room_id]@
                && s2.rooms@[room_id].connections@ == s0.rooms@[room_id].connections@,
            s2.rooms@.remove(room_id) == s0.rooms@.remove(room_id),
    {
        let r0 = s0.rooms@[room_id];
        assert(r0.well_formed());
        assert(!r0.connections@.contains_key(user_id));
        if s1.rooms@ == s0.rooms@ {
            assert(without_user(r0@.players, user_id) =~= r0@.players) by {
                lemma_without_absent_user(r0@.players, user_id);
            }
            assert(r0@.connected.remove(user_id) =~= r0@.connected);
            assert(r0.connections@.remove(user_id) =~= r0.connections@);
        } else {
            let p = fresh_player(player_id, user_id, username);
            let p1 = r0@.players.push(p);
            assert(s1.rooms@[room_id]@.players == p1);
            lemma_without_absent_user(r0@.players, user_id);
            reveal(Seq::filter);
            assert(p1.drop_last() =~= r0@.players);
            assert(without_user(p1, user_id) =~= r0@.players);
            assert(r0@.connected.insert(user_id).remove(user_id) =~= r0@.connected);
            assert(s1.rooms@[room_id].connections@.remove(user_id) =~= r0.connections@);
        }
    }

    /// After a lost connection the user has no seat and no connection in any
    /// room that stays open.
    pub proof fn lemma_disconnect_leaves_no_trace(old: &Self, new: &Self, out: Seq<Delivery<T>>, user_id: u128)
        requires
            Self::disconnect_post(old, new, out, user_id),
        ensures
            forall|id: u128| #[trigger] new.rooms@.contains_key(id) ==> !has_user(new.rooms@[id]@.players, user_id)
                && !new.rooms@[id].connections@.contains_key(user_id),
    {
        assert forall|id: u128| #[trigger] new.rooms@.contains_key(id) implies !has_user(new.rooms@[id]@.players, user_id)
            && !new.rooms@[id].connections@.contains_key(user_id) by {
            let s = old.rooms@[id]@.players;
            let pred = |p: PlayerView| p.user_id != user_id;
            if has_user(without_user(s, user_id), user_id) {
                let k = choose|k: int| 0 <= k < without_user(s, user_id).len() && without_user(s, user_id)[k].user_id == user_id;
                s.lemma_filter_pred(pred, k);
            }
        }
    }

    /// Takes the user out of a room.
    pub fn leave_room(&mut self, room_id: u128, user_id: u128) -> (out: Vec<Delivery<T>>)
        requires
            old(self).well_formed(),
        ensures
            final(self).well_formed(),
            Self::leave_room_post(old(self), final(self), out@, room_id, user_id),
    {
        if !self.rooms.contains_key(&room_id) {
            return Vec::new();
        }
        let mut room = self.rooms.remove(&room_id).unwrap();
        assert(room == old(self).rooms@[room_id]);
        room.remove_player(user_id);
        let ghost removed = room;
        let recipients = room.broadcast(None);
        assert(room.connections@ == old(self).rooms@[room_id].connections@.remove(user_id));
        let out = vec![
            Delivery { to: Recipients::Sender, message: ServerMessage::RoomLeft { room_id } },
            Delivery { to: Recipients::Handles(recipients), message: ServerMessage::PlayerLeft { room_id, user_id } },
        ];
        if room.players.len() > 0 {
            self.rooms.insert(room_id, room);
            assert(self.rooms@.remove(room_id) =~= old(self).rooms@.remove(room_id));
            assert(self.rooms@[room_id] == removed);
        } else {
            assert(self.rooms@ =~= old(self).rooms@.remove(room_id));
        }
        assert(is_reply(out@[0], ServerMessageView::RoomLeft { room_id }));
        assert(is_broadcast(out@[1], removed.connections@, None, ServerMessageView::PlayerLeft { room_id, user_id }));
        out
    }
}

} // verus!
