use werewolf_backend::auth::{auth_user_token, bearer_token, player_token, query_token, resolve_identity};
use werewolf_backend::models::{GuestSession, PlayerIdentity, User};
use werewolf_backend::text::{contains_text, decimal_text, strip_prefix, to_lowercase, trim};
use werewolf_backend::users::{
    check_username_available, find_user_by_username, search_users, start_guest_session, user_responses,
    same_username, username_exists, validate_guest_username,
};

fn user(id: u128, name: &str) -> User {
    User { id, username: name.to_string(), password: "hash".to_string() }
}

fn users() -> Vec<User> {
    vec![user(1, "Alice"), user(2, "bob"), user(3, "ALICIA"), user(4, "Élodie")]
}

#[test]
fn text_helpers() {
    assert_eq!(strip_prefix("Bearer abc", "Bearer "), Some("abc".to_string()));
    assert_eq!(strip_prefix("bearer abc", "Bearer "), None);
    assert_eq!(strip_prefix("Bear", "Bearer "), None);
    assert_eq!(strip_prefix("x", ""), Some("x".to_string()));
    assert!(contains_text("alicia", "lic"));
    assert!(contains_text("alicia", ""));
    assert!(!contains_text("alicia", "bob"));
    assert!(!contains_text("al", "alice"));
    assert_eq!(to_lowercase("ÉLodie"), "élodie");
    assert_eq!(to_lowercase("Villager-1 X@Z["), "villager-1 x@z[");
    assert_eq!(to_lowercase(""), "");
    assert_eq!(trim("  x y \n"), "x y");
    assert_eq!(trim("\u{3000}\u{85}\tx\u{a0}\u{2029}"), "x");
    assert_eq!(trim("\u{200b}x\u{200b}"), "\u{200b}x\u{200b}");
    assert_eq!(trim(" \r\n "), "");
}

#[test]
fn numbers_in_decimal() {
    assert_eq!(decimal_text(0), "0");
    assert_eq!(decimal_text(7), "7");
    assert_eq!(decimal_text(10), "10");
    assert_eq!(decimal_text(1204), "1204");
    assert_eq!(decimal_text(usize::MAX), usize::MAX.to_string());
}

#[test]
fn bearer_tokens() {
    assert_eq!(bearer_token("Bearer tok.en"), Some("tok.en".to_string()));
    assert_eq!(bearer_token("Bearer "), Some(String::new()));
    assert_eq!(bearer_token("Basic xyz"), None);
    assert_eq!(bearer_token(""), None);
}

#[test]
fn query_tokens() {
    assert_eq!(query_token("token=abc"), Some("abc".to_string()));
    assert_eq!(query_token("a=1&token=abc&token=def"), Some("abc".to_string()));
    assert_eq!(query_token("a=1&b=2"), None);
    assert_eq!(query_token("tokens=1&xtoken=2"), None);
    assert_eq!(query_token(""), None);
    assert_eq!(query_token("&&token="), Some(String::new()));
    assert_eq!(query_token("a&"), None);
}

#[test]
fn account_token_falls_back_to_query() {
    assert_eq!(auth_user_token(Some("Bearer h"), "token=q"), Some("h".to_string()));
    assert_eq!(auth_user_token(Some("Basic h"), "token=q"), Some("q".to_string()));
    assert_eq!(auth_user_token(None, "token=q"), Some("q".to_string()));
    assert_eq!(auth_user_token(None, ""), None);
}

#[test]
fn player_token_prefers_header() {
    assert_eq!(player_token(Some("Bearer h"), "token=q"), Some("h".to_string()));
    assert_eq!(player_token(Some("Basic h"), "token=q"), None);
    assert_eq!(player_token(None, "x=1&token=q"), Some("q".to_string()));
}

#[test]
fn identities() {
    let g = GuestSession { session_id: 7, username: "guest".to_string() };
    let id = resolve_identity(Some(g), Some(user(8, "reg"))).unwrap();
    assert!(id.is_guest());
    assert_eq!((id.id(), id.username()), (7, "guest"));
    let id = resolve_identity(None, Some(user(8, "reg"))).unwrap();
    assert!(!id.is_guest());
    assert_eq!((id.id(), id.username()), (8, "reg"));
    assert!(resolve_identity(None, None).is_none());
    let r = PlayerIdentity::Registered { user_id: 3, username: "z".to_string() };
    assert_eq!(r.id(), 3);
}

#[test]
fn names_compare_without_case() {
    let us = users();
    assert!(username_exists(&us, "alice"));
    assert!(username_exists(&us, "ÉLODIE"));
    assert!(!username_exists(&us, "ali"));
    assert_eq!(find_user_by_username(&us, "BOB"), Some(1));
    assert_eq!(find_user_by_username(&us, "carol"), None);
    assert_eq!(check_username_available(&us, "Bob").unwrap_err(), "Username already exists");
    assert!(check_username_available(&us, "carol").is_ok());
}

#[test]
fn same_names_ignore_case() {
    assert!(same_username("Alice", "aLICE"));
    assert!(same_username("Élodie", "élodie"));
    assert!(!same_username("Alice", "Alicia"));
}

#[test]
fn searching_users() {
    let us = users();
    let found = search_users(&us, "ALI");
    let names: Vec<&str> = found.iter().map(|u| u.username.as_str()).collect();
    assert_eq!(names, vec!["Alice", "ALICIA"]);
    assert_eq!(found[1].id, 3);
    assert_eq!(search_users(&us, "").len(), 4);
    assert!(search_users(&us, "zz").is_empty());
    let all = user_responses(&us);
    assert_eq!(all.iter().map(|u| u.id).collect::<Vec<u128>>(), vec![1, 2, 3, 4]);
}

#[test]
fn guest_names() {
    assert_eq!(validate_guest_username("  Ann  ").unwrap(), "Ann");
    let msg = "Username must be between 1 and 50 characters";
    assert_eq!(validate_guest_username("   ").unwrap_err(), msg);
    assert_eq!(validate_guest_username("").unwrap_err(), msg);
    let fifty = "a".repeat(50);
    assert_eq!(validate_guest_username(&fifty).unwrap(), fifty);
    assert_eq!(validate_guest_username(&"a".repeat(51)).unwrap_err(), msg);
    assert_eq!(validate_guest_username(&"é".repeat(26)).unwrap_err(), msg);
    assert!(validate_guest_username(&"é".repeat(25)).is_ok());
}

#[test]
fn guest_sessions() {
    let g = start_guest_session(" Zed ").unwrap();
    assert_eq!(g.username, "Zed");
    assert_eq!((g.session_id >> 76) & 0xf, 4);
    let sid = g.session_id;
    let expected = uuid::Uuid::from_u128(sid).to_string();
    let r = g.response("tok".to_string());
    assert_eq!(r.session_id, expected);
    assert_eq!(r.session_id.len(), 36);
    assert_eq!(r.username, "Zed");
    assert_eq!(r.token, "tok");
    assert!(start_guest_session("").is_err());
    let other = GuestSession::new("x".to_string());
    assert_ne!(other.session_id, sid);
}

#[test]
fn session_ids_in_text_form() {
    let g = GuestSession { session_id: 0xa1a2a3a4b1b2c1c2d1d2d3d4d5d6d7d8, username: "Kim".to_string() };
    assert_eq!(g.session_id_text(), "a1a2a3a4-b1b2-c1c2-d1d2-d3d4d5d6d7d8");
    let zero = GuestSession { session_id: 0x0f, username: "Kim".to_string() };
    assert_eq!(zero.response("t".to_string()).session_id, "00000000-0000-0000-0000-00000000000f");
}

#[test]
fn new_users_get_fresh_ids() {
    let a = User::new("a".to_string(), "h".to_string());
    let b = User::new("a".to_string(), "h".to_string());
    assert_ne!(a.id, b.id);
    assert_eq!(a.response().username, "a");
}
