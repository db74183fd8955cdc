use werewolf_backend::dto::{RoleCreateRequest, RoleDistribution, RoleResponse, RoleUpdateRequest, RolesByType};
use werewolf_backend::models::RoleType;
use werewolf_backend::roles::{
    assign_roles, create_role, deal_roles, group_roles_by_type, pair_roles, role_from_request,
    select_roles_for_game, update_role,
};

fn role(id: u128, slug: &str, role_type: RoleType) -> RoleResponse {
    RoleResponse {
        id,
        name: slug.to_string(),
        slug: slug.to_string(),
        description: format!("the {}", slug),
        image: None,
        role_type,
        priority: None,
    }
}

fn counts(d: &RoleDistribution) -> (usize, usize, usize) {
    (d.beast_count, d.citizen_count, d.special_count)
}

#[test]
fn distribution_table_rows() {
    assert_eq!(counts(&RoleDistribution::for_players(3)), (1, 2, 0));
    assert_eq!(counts(&RoleDistribution::for_players(4)), (1, 3, 0));
    assert_eq!(counts(&RoleDistribution::for_players(5)), (1, 3, 1));
    assert_eq!(counts(&RoleDistribution::for_players(6)), (1, 4, 1));
    assert_eq!(counts(&RoleDistribution::for_players(7)), (2, 3, 2));
    assert_eq!(counts(&RoleDistribution::for_players(10)), (2, 6, 2));
    assert_eq!(counts(&RoleDistribution::for_players(11)), (3, 5, 3));
    assert_eq!(counts(&RoleDistribution::for_players(14)), (3, 8, 3));
}

#[test]
fn distribution_outside_table() {
    assert_eq!(counts(&RoleDistribution::for_players(0)), (0, 0, 0));
    assert_eq!(counts(&RoleDistribution::for_players(2)), (0, 1, 0));
    assert_eq!(counts(&RoleDistribution::for_players(15)), (3, 7, 3));
    assert_eq!(counts(&RoleDistribution::for_players(16)), (4, 8, 4));
    assert_eq!(counts(&RoleDistribution::for_players(20)), (5, 10, 5));
}

#[test]
fn distribution_covers_every_player_from_3_to_14() {
    for n in 3..=14usize {
        let d = RoleDistribution::for_players(n);
        assert_eq!(d.beast_count + d.citizen_count + d.special_count, n);
        assert!(d.beast_count >= 1);
    }
    for n in 0..100usize {
        let d = RoleDistribution::for_players(n);
        assert!(d.beast_count + d.citizen_count + d.special_count <= n);
    }
}

fn sample_roles() -> Vec<RoleResponse> {
    vec![
        role(1, "werewolf", RoleType::Beast),
        role(2, "Villager", RoleType::Citizen),
        role(3, "seer", RoleType::Citizen),
        role(4, "tanner", RoleType::Neutral),
        role(5, "alpha", RoleType::Beast),
        role(6, "villager", RoleType::Neutral),
    ]
}

#[test]
fn grouping_sorts_roles_in_order() {
    let g = group_roles_by_type(sample_roles());
    let ids = |v: &Vec<RoleResponse>| v.iter().map(|r| r.id).collect::<Vec<u128>>();
    assert_eq!(ids(&g.beasts), vec![1, 5]);
    assert_eq!(ids(&g.citizens), vec![2]);
    assert_eq!(ids(&g.special), vec![3, 4, 6]);
}

#[test]
fn deal_without_beast_fails() {
    let g = RolesByType { beasts: vec![], citizens: vec![role(2, "villager", RoleType::Citizen)], special: vec![] };
    let d = RoleDistribution::for_players(4);
    assert_eq!(deal_roles(&g, &d, vec![]).unwrap_err(), "No beasts available");
    let g = RolesByType { beasts: vec![], citizens: vec![], special: vec![] };
    assert_eq!(select_roles_for_game(g, RoleDistribution::for_players(4)).unwrap_err(), "No beasts available");
}

#[test]
fn deal_without_villager_fails() {
    let g = RolesByType { beasts: vec![role(1, "werewolf", RoleType::Beast)], citizens: vec![], special: vec![] };
    assert_eq!(select_roles_for_game(g, RoleDistribution::for_players(4)).unwrap_err(), "No citizens available");
}

#[test]
fn deal_before_shuffle_is_exact() {
    let g = group_roles_by_type(sample_roles());
    let d = RoleDistribution::for_players(7);
    assert_eq!(deal_roles(&g, &d, vec![4, 3]).unwrap(), vec![1, 1, 2, 2, 2, 4, 3]);
}

#[test]
fn shuffled_deal_has_the_right_roles() {
    let g = group_roles_by_type(sample_roles());
    let mut v = select_roles_for_game(g, RoleDistribution::for_players(7)).unwrap();
    assert_eq!(v.len(), 7);
    assert_eq!(v.iter().filter(|x| **x == 1).count(), 2);
    assert_eq!(v.iter().filter(|x| **x == 2).count(), 3);
    v.sort();
    let specials: Vec<u128> = v.iter().copied().filter(|x| *x != 1 && *x != 2).collect();
    assert_eq!(specials.len(), 2);
    assert_ne!(specials[0], specials[1]);
    assert!(specials.iter().all(|x| [3u128, 4, 6].contains(x)));
}

#[test]
fn specials_are_capped_by_what_is_available() {
    let roles = vec![role(1, "werewolf", RoleType::Beast), role(2, "villager", RoleType::Citizen), role(3, "seer", RoleType::Citizen)];
    let v = select_roles_for_game(group_roles_by_type(roles), RoleDistribution::for_players(11)).unwrap();
    assert_eq!(v.len(), 3 + 5 + 1);
}

#[test]
fn assign_roles_pairs_each_player() {
    let players: Vec<u128> = vec![10, 11, 12, 13, 14];
    let a = assign_roles(sample_roles(), players.clone()).unwrap();
    assert_eq!(a.len(), 5);
    for (x, p) in a.iter().zip(players.iter()) {
        assert_eq!(x.player_id, *p);
    }
    assert_eq!(a.iter().filter(|x| x.role_id == 1).count(), 1);
    assert_eq!(a.iter().filter(|x| x.role_id == 2).count(), 3);
}

#[test]
fn assign_roles_reports_mismatch() {
    let roles = vec![role(1, "werewolf", RoleType::Beast), role(2, "villager", RoleType::Citizen)];
    let err = assign_roles(roles, vec![1, 2, 3, 4, 5]).unwrap_err();
    assert_eq!(err, "Role count 4 does not match player count 5");
}

#[test]
fn assign_roles_errors() {
    let only_villagers = vec![role(2, "villager", RoleType::Citizen)];
    assert_eq!(assign_roles(only_villagers, vec![1, 2, 3]).unwrap_err(), "No beasts available");
    let only_beasts = vec![role(1, "werewolf", RoleType::Beast)];
    assert_eq!(assign_roles(only_beasts, vec![1, 2, 3]).unwrap_err(), "No citizens available");
}

#[test]
fn pairing_checks_sizes() {
    assert_eq!(pair_roles(vec![1, 2], vec![7]).unwrap_err(), "Role count 1 does not match player count 2");
    let a = pair_roles(vec![1, 2], vec![7, 8]).unwrap();
    assert_eq!((a[0].player_id, a[0].role_id, a[1].player_id, a[1].role_id), (1, 7, 2, 8));
}

fn create_request() -> RoleCreateRequest {
    RoleCreateRequest {
        name: "Seer".to_string(),
        slug: "seer".to_string(),
        description: "sees".to_string(),
        image: Some("seer.png".to_string()),
        role_type: RoleType::Citizen,
        priority: Some(3),
    }
}

#[test]
fn roles_from_requests() {
    let r = role_from_request(42, create_request());
    assert_eq!(r.id, 42);
    assert_eq!(r.slug, "seer");
    assert_eq!(r.image.as_deref(), Some("seer.png"));
    assert_eq!(r.priority, Some(3));
    let a = create_role(create_request());
    let b = create_role(create_request());
    assert_ne!(a.id, b.id);
    assert_eq!((a.id >> 76) & 0xf, 4);
    assert_eq!((a.id >> 62) & 0x3, 2);
    assert_eq!(a.name, "Seer");
}

#[test]
fn role_updates() {
    let base = role_from_request(9, create_request());
    let none = RoleUpdateRequest { name: None, slug: None, description: None, image: None, role_type: None, priority: None };
    let same = update_role(base, none);
    assert_eq!((same.id, same.name.as_str(), same.slug.as_str(), same.priority), (9, "Seer", "seer", Some(3)));
    let change = RoleUpdateRequest {
        name: Some("Oracle".to_string()),
        slug: None,
        description: None,
        image: None,
        role_type: Some(RoleType::Neutral),
        priority: Some(1),
    };
    let changed = update_role(same, change);
    assert_eq!(changed.id, 9);
    assert_eq!(changed.name, "Oracle");
    assert_eq!(changed.slug, "seer");
    assert_eq!(changed.image.as_deref(), Some("seer.png"));
    assert_eq!(changed.role_type, RoleType::Neutral);
    assert_eq!(changed.priority, Some(1));
}
