//! Where a request's access token is found, and who a validated id belongs to.
use vstd::prelude::*;
use vstd::string::*;
use crate::models::{GuestSession, PlayerIdentity, User};
use crate::text::{is_prefix, strip_prefix};

verus! {

/// The scheme prefix of an `Authorization` header that carries a token.
pub open spec fn bearer_prefix() -> Seq<char> {
    seq!['B', 'e', 'a', 'r', 'e', 'r', ' ']
}

/// The name of the query parameter that carries a token, with its `=`.
pub open spec fn token_key() -> Seq<char> {
    seq!['t', 'o', 'k', 'e', 'n', '=']
}

/// The position where the query parameter starting at `start` ends: the next
/// `&` at or after `start`, or the end of the query.
pub open spec fn param_end(q: Seq<char>, start: int) -> int
    decreases q.len() - start,
{
    if start >= q.len() {
        q.len() as int
    } else if q[start] == '&' {
        start
    } else {
        param_end(q, start + 1)
    }
}

/// The end of a parameter lies between its start and the end of the query.
pub proof fn lemma_param_end_bounds(q: Seq<char>, start: int)
    requires
        0 <= start <= q.len(),
    ensures
        start <= param_end(q, start) <= q.len(),
        param_end(q, start) < q.len() ==> q[param_end(q, start)] == '&',
        forall|k: int| start <= k < param_end(q, start) ==> q[k] != '&',
    decreases q.len() - start,
{
    if start < q.len() && q[start] != '&' {
        lemma_param_end_bounds(q, start + 1);
    }
}

/// The value of the first parameter, among the `&`-separated parameters of the
/// query from position `start` on, whose text begins with `token=`.
pub open spec fn token_param_from(q: Seq<char>, start: int) -> Option<Seq<char>>
    decreases q.len() - start,
{
    if 0 <= start <= q.len() {
        let end = param_end(q, start);
        let param = q.subrange(start, end);
        proof {
            lemma_param_end_bounds(q, start);
        }
        if is_prefix(token_key(), param) {
            Some(param.subrange(token_key().len() as int, param.len() as int))
        } else if end < q.len() {
            token_param_from(q, end + 1)
        } else {
            None
        }
    } else {
        None
    }
}

/// The token of a query string: the value of its first `token=` parameter.
pub open spec fn token_in_query(q: Seq<char>) -> Option<Seq<char>> {
    token_param_from(q, 0)
}

/// The token of an `Authorization` header: what follows `Bearer `.
pub open spec fn token_in_header(h: Seq<char>) -> Option<Seq<char>> {
    if is_prefix(bearer_prefix(), h) {
        Some(h.subrange(bearer_prefix().len() as int, h.len() as int))
    } else {
        None
    }
}

/// A header that reads `Bearer ` and a token carries exactly that token.
pub proof fn lemma_bearer_round_trip(token: Seq<char>)
    ensures
        token_in_header(bearer_prefix() + token) == Some(token),
{
    let h = bearer_prefix() + token;
    assert(h.subrange(0, bearer_prefix().len() as int) =~= bearer_prefix());
    assert(h.subrange(bearer_prefix().len() as int, h.len() as int) =~= token);
}

/// Without a `&` from `start` on, the parameter runs to the end of the query.
proof fn lemma_param_end_without_separator(q: Seq<char>, start: int)
    requires
        0 <= start <= q.len(),
        forall|k: int| start <= k < q.len() ==> q[k] != '&',
    ensures
        param_end(q, start) == q.len(),
    decreases q.len() - start,
{
    if start < q.len() {
        lemma_param_end_without_separator(q, start + 1);
    }
}

/// A query that reads `token=` and a token without `&` carries exactly that
/// token.
pub proof fn lemma_query_round_trip(token: Seq<char>)
    requires
        !token.contains('&'),
    ensures
        token_in_query(token_key() + token) == Some(token),
{
    let q = token_key() + token;
    assert forall|k: int| 0 <= k < q.len() implies q[k] != '&' by {
        if k >= token_key().len() {
            assert(q[k] == token[k - token_key().len()]);
        }
    }
    lemma_param_end_without_separator(q, 0);
    assert(q.subrange(0, q.len() as int) =~= q);
    assert(q.subrange(0, token_key().len() as int) =~= token_key());
    assert(q.subrange(token_key().len() as int, q.len() as int) =~= token);
}

/// The view of an optional text.
pub open spec fn opt_view(s: Option<String>) -> Option<Seq<char>> {
    match s {
        Some(t) => Some(t@),
        None => None,
    }
}

/// The token of an `Authorization` header.
pub fn bearer_token(header: &str) -> (r: Option<String>)
    ensures
        opt_view(r) == token_in_header(header@),
{
    let prefix = "Bearer ";
    proof {
        reveal_strlit("Bearer ");
        assert(prefix@ =~= bearer_prefix());
    }
    strip_prefix(header, prefix)
}

/// The end of the query parameter that starts at `start`.
fn find_param_end(q: &str, start: usize, n: usize) -> (e: usize)
    requires
        n == q@.len(),
        start <= n,
    ensures
        e == param_end(q@, start as int),
{
    let mut i = start;
    while i < n && q.get_char(i) != '&'
        invariant
            n == q@.len(),
            start <= i <= n,
            param_end(q@, i as int) == param_end(q@, start as int),
        decreases n - i,
    {
        i = i + 1;
    }
    i
}

/// The token of a query string.
pub fn query_token(query: &str) -> (r: Option<String>)
    ensures
        opt_view(r) == token_in_query(query@),
{
    let key = "token=";
    proof {
        reveal_strlit("token=");
        assert(key@ =~= token_key());
    }
    let n = query.unicode_len();
    let mut start: usize = 0;
    loop
        invariant
            n == query@.len(),
            0 <= start <= n,
            key@ == token_key(),
            token_param_from(query@, start as int) == token_in_query(query@),
        decreases n - start,
    {
        let end = find_param_end(query, start, n);
        proof {
            lemma_param_end_bounds(query@, start as int);
        }
        let param = query.substring_char(start, end);
        match strip_prefix(param, key) {
            Some(value) => {
                return Some(value);
            },
            None => {
                if end < n {
                    start = end + 1;
                } else {
                    return None;
                }
            },
        }
    }
}

/// Where an authenticated request's token is read: a `Bearer` header first;
/// a header in another form, or none, sends the search on to the query.
pub open spec fn auth_user_token_of(header: Option<Seq<char>>, query: Seq<char>) -> Option<Seq<char>> {
    match header {
        Some(h) if token_in_header(h) is Some => token_in_header(h),
        _ => token_in_query(query),
    }
}

/// Where a player's token is read: from the header when there is one (a
/// header in another form than `Bearer` gives no token), else from the query.
pub open spec fn player_token_of(header: Option<Seq<char>>, query: Seq<char>) -> Option<Seq<char>> {
    match header {
        Some(h) => token_in_header(h),
        None => token_in_query(query),
    }
}

/// The token that authenticates a request to the account endpoints.
pub fn auth_user_token(header: Option<&str>, query: &str) -> (r: Option<String>)
    ensures
        opt_view(r) == auth_user_token_of(
            match header {
                Some(h) => Some(h@),
                None => None,
            },
            query@,
        ),
{
    if let Some(h) = header {
        if let Some(t) = bearer_token(h) {
            return Some(t);
        }
    }
    query_token(query)
}

/// The token that authenticates a player opening a game connection.
pub fn player_token(header: Option<&str>, query: &str) -> (r: Option<String>)
    ensures
        opt_view(r) == player_token_of(
            match header {
                Some(h) => Some(h@),
                None => None,
            },
            query@,
        ),
{
    match header {
        Some(h) => bearer_token(h),
        None => query_token(query),
    }
}

/// Who a validated id belongs to: a stored guest session comes first, then a
/// stored account; with neither the player is unknown.
pub fn resolve_identity(guest: Option<GuestSession>, user: Option<User>) -> (r: Option<PlayerIdentity>)
    ensures
        guest is Some ==> r is Some && r->0 is Guest && r->0.spec_id() == guest->0.session_id
            && r->0.spec_username() == guest->0.username@,
        guest is None && user is Some ==> r is Some && r->0 is Registered && r->0.spec_id()
            == user->0.id && r->0.spec_username() == user->0.username@,
        guest is None && user is None ==> r is None,
{
    match guest {
        Some(g) => Some(PlayerIdentity::Guest { session_id: g.session_id, username: g.username }),
        None => match user {
            Some(u) => Some(PlayerIdentity::Registered { user_id: u.id, username: u.username }),
            None => None,
        },
    }
}

} // verus!
