//! Accounts and guests: user name rules, look-ups and searches.
use vstd::prelude::*;
use vstd::string::*;
use crate::dto::{GuestSessionResponse, UserResponse};
use crate::ids::{is_v4_id, new_v4_id, uuid_text};
use crate::models::{GuestSession, User};
use crate::text::{contains_text, lowercase, occurs_in, to_lowercase, trim, trimmed};

verus! {

/// The longest guest name, in bytes of UTF-8.
pub const MAX_GUEST_NAME_BYTES: usize = 50;

/// Two user names are the same name when their lower-case forms agree.
pub open spec fn same_name(a: Seq<char>, b: Seq<char>) -> bool {
    lowercase(a) == lowercase(b)
}

/// Whether some user of `users` goes by `name`, in any case.
pub open spec fn name_taken(users: Seq<User>, name: Seq<char>) -> bool {
    exists|i: int| 0 <= i < users.len() && same_name(#[trigger] users[i].username@, name)
}

/// Whether the text of user name `name` contains `query`, in any case.
pub open spec fn name_matches(name: Seq<char>, query: Seq<char>) -> bool {
    occurs_in(lowercase(query), lowercase(name))
}

/// A user as shown to clients.
pub open spec fn shown(u: User) -> (u128, Seq<char>) {
    (u.id, u.username@)
}

/// The views of a list of shown users.
pub open spec fn responses_view(s: Seq<UserResponse>) -> Seq<(u128, Seq<char>)> {
    s.map_values(|r: UserResponse| (r.id, r.username@))
}

impl User {
    /// A new account with a fresh random id.
    pub fn new(username: String, password_hash: String) -> (u: User)
        ensures
            u.username@ == username@,
            u.password@ == password_hash@,
            is_v4_id(u.id),
    {
        User { id: new_v4_id(), username, password: password_hash }
    }

    /// The user as shown to clients.
    pub fn response(&self) -> (r: UserResponse)
        ensures
            r.id == self.id,
            r.username@ == self.username@,
    {
        UserResponse { id: self.id, username: self.username.clone() }
    }
}

/// Whether two user names are the same name, in any case.
pub fn same_username(a: &str, b: &str) -> (r: bool)
    ensures
        r == same_name(a@, b@),
{
    let x = to_lowercase(a);
    let y = to_lowercase(b);
    x == y
}

/// Whether the name is taken by one of the users, in any case.
pub fn username_exists(users: &Vec<User>, username: &str) -> (r: bool)
    ensures
        r == name_taken(users@, username@),
{
    match find_user_by_username(users, username) {
        Some(_) => true,
        None => false,
    }
}

/// The first user that goes by the name, in any case.
pub fn find_user_by_username(users: &Vec<User>, username: &str) -> (r: Option<usize>)
    ensures
        match r {
            Some(i) => i < users@.len() && same_name(users@[i as int].username@, username@)
                && forall|j: int| 0 <= j < i ==> !same_name(#[trigger] users@[j].username@, username@),
            None => !name_taken(users@, username@),
        },
{
    let wanted = to_lowercase(username);
    let n = users.len();
    let mut i: usize = 0;
    while i < n
        invariant
            n == users@.len(),
            wanted@ == lowercase(username@),
            0 <= i <= n,
            forall|j: int| 0 <= j < i ==> !same_name(#[trigger] users@[j].username@, username@),
        decreases n - i,
    {
        let name = to_lowercase(users[i].username.as_str());
        if name == wanted {
            return Some(i);
        }
        i = i + 1;
    }
    None
}

/// Refuses a name that some user already has, in any case.
pub fn check_username_available(users: &Vec<User>, username: &str) -> (r: Result<(), String>)
    ensures
        r is Err <==> name_taken(users@, username@),
        r is Err ==> r->Err_0@ == "Username already exists"@,
{
    if username_exists(users, username) {
        Err(String::from_str("Username already exists"))
    } else {
        Ok(())
    }
}

/// Every user, as shown to clients, in order.
pub fn user_responses(users: &Vec<User>) -> (r: Vec<UserResponse>)
    ensures
        responses_view(r@) == users@.map_values(|u: User| shown(u)),
{
    let mut r: Vec<UserResponse> = Vec::new();
    let n = users.len();
    let mut i: usize = 0;
    while i < n
        invariant
            n == users@.len(),
            0 <= i <= n,
            responses_view(r@) == users@.take(i as int).map_values(|u: User| shown(u)),
        decreases n - i,
    {
        let ghost before = responses_view(r@);
        r.push(users[i].response());
        assert(responses_view(r@) =~= before.push(shown(users@[i as int])));
        assert(users@.take(i + 1).map_values(|u: User| shown(u)) =~= users@.take(i as int).map_values(|u: User| shown(u)).push(shown(users@[i as int])));
        i = i + 1;
    }
    assert(users@.take(n as int) =~= users@);
    r
}

/// The users whose name contains the query, in any case, in order.
pub fn search_users(users: &Vec<User>, query: &str) -> (r: Vec<UserResponse>)
    ensures
        responses_view(r@) == users@.filter(|u: User| name_matches(u.username@, query@)).map_values(
            |u: User| shown(u),
        ),
        query@.len() == 0 ==> responses_view(r@) == users@.map_values(|u: User| shown(u)),
{
    let q = to_lowercase(query);
    let ghost pred = |u: User| name_matches(u.username@, query@);
    let mut r: Vec<UserResponse> = Vec::new();
    let n = users.len();
    let mut i: usize = 0;
    assert(responses_view(r@) =~= users@.take(0).map_values(|u: User| shown(u)));
    while i < n
        invariant
            n == users@.len(),
            q@ == lowercase(query@),
            query@.len() == 0 ==> q@.len() == 0,
            pred == (|u: User| name_matches(u.username@, query@)),
            0 <= i <= n,
            responses_view(r@) == users@.take(i as int).filter(pred).map_values(|u: User| shown(u)),
            query@.len() == 0 ==> responses_view(r@) == users@.take(i as int).map_values(|u: User| shown(u)),
        decreases n - i,
    {
        let ghost before = responses_view(r@);
        let name = to_lowercase(users[i].username.as_str());
        let found = contains_text(name.as_str(), q.as_str());
        proof {
            if query@.len() == 0 {
                assert(name@.subrange(0int, 0int + q@.len()) =~= q@);
                assert(occurs_in(q@, name@));
                assert(found);
                assert(users@.take(i + 1).map_values(|u: User| shown(u)) =~= users@.take(i as int).map_values(
                    |u: User| shown(u),
                ).push(shown(users@[i as int])));
            }
        }
        assert(found == pred(users@[i as int]));
        if found {
            r.push(users[i].response());
            assert(responses_view(r@) =~= before.push(shown(users@[i as int])));
        }
        proof {
            reveal(Seq::filter);
            let t = users@.take(i + 1);
            assert(t.drop_last() =~= users@.take(i as int));
            assert(t.last() == users@[i as int]);
            if pred(users@[i as int]) {
                assert(t.filter(pred) == users@.take(i as int).filter(pred).push(users@[i as int]));
                assert(responses_view(r@) =~= t.filter(pred).map_values(|u: User| shown(u)));
            } else {
                assert(t.filter(pred) == users@.take(i as int).filter(pred));
                assert(responses_view(r@) =~= t.filter(pred).map_values(|u: User| shown(u)));
            }
        }
        i = i + 1;
    }
    assert(users@.take(n as int) =~= users@);
    r
}

/// Whether a trimmed guest name is acceptable: not empty and at most fifty
/// bytes of UTF-8.
pub open spec fn guest_name_ok(name: Seq<char>) -> bool {
    name.len() > 0 && vstd::utf8::encode_utf8(name).len() <= MAX_GUEST_NAME_BYTES
}

/// The guest name to use: the requested name trimmed, if it is acceptable.
pub fn validate_guest_username(raw: &str) -> (r: Result<String, String>)
    ensures
        guest_name_ok(trimmed(raw@)) ==> r is Ok && r->Ok_0@ == trimmed(raw@),
        !guest_name_ok(trimmed(raw@)) ==> r is Err && r->Err_0@
            == "Username must be between 1 and 50 characters"@,
{
    let name = trim(raw);
    if name.as_str().is_empty() || name.as_str().as_bytes().len() > MAX_GUEST_NAME_BYTES {
        return Err(String::from_str("Username must be between 1 and 50 characters"));
    }
    Ok(name)
}

/// Opens a guest session under the requested name, trimmed, with a fresh
/// random id; an unacceptable name is refused as `validate_guest_username`
/// refuses it.
pub fn start_guest_session(raw: &str) -> (r: Result<GuestSession, String>)
    ensures
        guest_name_ok(trimmed(raw@)) ==> r is Ok && r->Ok_0.username@ == trimmed(raw@)
            && is_v4_id(r->Ok_0.session_id),
        !guest_name_ok(trimmed(raw@)) ==> r is Err && r->Err_0@
            == "Username must be between 1 and 50 characters"@,
{
    match validate_guest_username(raw) {
        Ok(name) => Ok(GuestSession::new(name)),
        Err(e) => Err(e),
    }
}

impl GuestSession {
    /// The reply that grants the session, with its token.
    pub fn response(self, token: String) -> (r: GuestSessionResponse)
        ensures
            r.session_id@ == uuid_text(self.session_id),
            r.username@ == self.username@,
            r.token@ == token@,
    {
        let session_id = self.session_id_text();
        GuestSessionResponse { session_id, username: self.username, token }
    }
}

/// A search matches a name exactly when the lower-cased query occurs
/// somewhere in the lower-cased name as a contiguous piece, at its start, in
/// its middle or at its end.
pub proof fn lemma_search_matches_anywhere(name: Seq<char>, query: Seq<char>)
    ensures
        name_matches(name, query) <==> exists|i: int|
            0 <= i && i + lowercase(query).len() <= lowercase(name).len()
            && #[trigger] lowercase(name).subrange(i, i + lowercase(query).len()) == lowercase(query),
{
}

/// A name whose lower-cased form holds the lower-cased query at position `i`
/// is found by the search, wherever `i` lies.
pub proof fn lemma_search_finds_inner_match(name: Seq<char>, query: Seq<char>, i: int)
    requires
        0 <= i,
        i + lowercase(query).len() <= lowercase(name).len(),
        lowercase(name).subrange(i, i + lowercase(query).len()) == lowercase(query),
    ensures
        name_matches(name, query),
{
}

/// A name whose lower-cased form is shorter than the lower-cased query is
/// never found.
pub proof fn lemma_search_skips_shorter_names(name: Seq<char>, query: Seq<char>)
    requires
        lowercase(name).len() < lowercase(query).len(),
    ensures
        !name_matches(name, query),
{
}

/// Names that agree in lower case are taken or free together.
pub proof fn lemma_name_taken_ignores_case(users: Seq<User>, a: Seq<char>, b: Seq<char>)
    requires
        lowercase(a) == lowercase(b),
    ensures
        name_taken(users, a) == name_taken(users, b),
{
    if name_taken(users, a) {
        let i = choose|i: int| 0 <= i < users.len() && same_name(#[trigger] users[i].username@, a);
        assert(same_name(users[i].username@, b));
    }
    if name_taken(users, b) {
        let i = choose|i: int| 0 <= i < users.len() && same_name(#[trigger] users[i].username@, b);
        assert(same_name(users[i].username@, a));
    }
}

} // verus!
