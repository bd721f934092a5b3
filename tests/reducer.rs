use role_picker::reducer::{apply, assign_roles, reduce};
use role_picker::state::{is_valid_roster, AppCommand, AppState, Member, PickCommand, Picked, Role};
use role_picker::view::find_assignment;

fn member(id: &str, name: &str) -> Member {
    Member { id: id.to_string(), name: name.to_string() }
}

fn role(name: &str) -> Role {
    Role { name: name.to_string() }
}

fn roster() -> Vec<Member> {
    vec![member("a", "Alice"), member("b", "Bob"), member("c", "Cara")]
}

fn roles() -> Vec<Role> {
    vec![role("Hunter"), role("Witness"), role("Lookout")]
}

fn standby() -> AppState {
    AppState::Standby(roster())
}

fn pick(roles: Vec<Role>) -> AppCommand {
    AppCommand::Pick(PickCommand { roles })
}

fn role_names(a: &[(Member, Role)]) -> Vec<String> {
    a.iter().map(|(_, r)| r.name.clone()).collect()
}

#[test]
fn init_from_blank_keeps_roster_in_order() {
    let (next, accepted) = apply(AppState::Blank, AppCommand::Init(roster()), &vec![]);
    assert!(accepted);
    match next {
        AppState::Standby(ms) => assert!(ms == roster()),
        _ => panic!("expected Standby"),
    }
}

#[test]
fn init_rejects_empty_roster() {
    let (next, accepted) = apply(AppState::Blank, AppCommand::Init(vec![]), &vec![]);
    assert!(!accepted);
    assert!(matches!(next, AppState::Blank));
}

#[test]
fn init_rejects_duplicate_ids() {
    let ms = vec![member("a", "Alice"), member("a", "Alias")];
    assert!(!is_valid_roster(&ms));
    let (next, accepted) = apply(AppState::Blank, AppCommand::Init(ms), &vec![]);
    assert!(!accepted);
    assert!(matches!(next, AppState::Blank));
}

#[test]
fn duplicate_names_are_a_valid_roster() {
    let ms = vec![member("a", "Sam"), member("b", "Sam")];
    assert!(is_valid_roster(&ms));
}

#[test]
fn init_rejected_in_standby() {
    let (next, accepted) = apply(standby(), AppCommand::Init(vec![member("z", "Zed")]), &vec![]);
    assert!(!accepted);
    match next {
        AppState::Standby(ms) => assert!(ms == roster()),
        _ => panic!("expected Standby"),
    }
}

#[test]
fn init_rejected_when_picked() {
    let picked = AppState::Picked(Picked { picked: vec![(member("a", "Alice"), role("Hunter"))] });
    let (next, accepted) = apply(picked, AppCommand::Init(roster()), &vec![]);
    assert!(!accepted);
    match next {
        AppState::Picked(p) => assert_eq!(p.picked.len(), 1),
        _ => panic!("expected Picked"),
    }
}

#[test]
fn pick_rejected_on_length_mismatch() {
    let (next, accepted) = apply(standby(), pick(vec![role("Hunter"), role("Witness")]), &vec![]);
    assert!(!accepted);
    match next {
        AppState::Standby(ms) => assert!(ms == roster()),
        _ => panic!("expected Standby"),
    }
}

#[test]
fn pick_rejected_in_blank() {
    let (next, accepted) = apply(AppState::Blank, pick(roles()), &vec![0, 0, 0]);
    assert!(!accepted);
    assert!(matches!(next, AppState::Blank));
}

#[test]
fn pick_rejected_when_picked() {
    let picked = AppState::Picked(Picked { picked: vec![(member("a", "Alice"), role("Hunter"))] });
    let (next, accepted) = apply(picked, pick(vec![role("Witness")]), &vec![0]);
    assert!(!accepted);
    match next {
        AppState::Picked(p) => assert!(p.picked[0].1 == role("Hunter")),
        _ => panic!("expected Picked"),
    }
}

#[test]
fn pick_with_draws_deals_exactly() {
    let (next, accepted) = apply(standby(), pick(roles()), &vec![1, 1, 0]);
    assert!(accepted);
    match next {
        AppState::Picked(p) => {
            let ids: Vec<String> = p.picked.iter().map(|(m, _)| m.id.clone()).collect();
            assert_eq!(ids, vec!["a", "b", "c"]);
            assert_eq!(role_names(&p.picked), vec!["Witness", "Lookout", "Hunter"]);
        }
        _ => panic!("expected Picked"),
    }
}

#[test]
fn missing_draws_count_as_zero() {
    let a = assign_roles(roster(), roles(), &vec![]);
    assert_eq!(role_names(&a), vec!["Hunter", "Witness", "Lookout"]);
}

#[test]
fn large_draws_wrap_modulo_roles_left() {
    let a = assign_roles(roster(), roles(), &vec![u64::MAX, 5, 7]);
    // u64::MAX % 3 == 0, then 5 % 2 == 1, then the last one left
    assert_eq!(role_names(&a), vec!["Hunter", "Lookout", "Witness"]);
}

#[test]
fn random_pick_is_a_bijection() {
    for _ in 0..50 {
        let (next, accepted) = reduce(standby(), pick(roles()));
        assert!(accepted);
        match next {
            AppState::Picked(p) => {
                assert_eq!(p.picked.len(), 3);
                let ids: Vec<String> = p.picked.iter().map(|(m, _)| m.id.clone()).collect();
                assert_eq!(ids, vec!["a", "b", "c"]);
                let mut got = role_names(&p.picked);
                got.sort();
                assert_eq!(got, vec!["Hunter", "Lookout", "Witness"]);
            }
            _ => panic!("expected Picked"),
        }
    }
}

#[test]
fn pick_handles_repeated_role_names() {
    let rs = vec![role("Villager"), role("Villager"), role("Wolf")];
    let (next, accepted) = apply(standby(), pick(rs), &vec![2, 0, 0]);
    assert!(accepted);
    match next {
        AppState::Picked(p) => {
            assert_eq!(role_names(&p.picked), vec!["Wolf", "Villager", "Villager"]);
        }
        _ => panic!("expected Picked"),
    }
}

#[test]
fn reduce_rejects_like_apply() {
    let (next, accepted) = reduce(AppState::Blank, pick(roles()));
    assert!(!accepted);
    assert!(matches!(next, AppState::Blank));
    let (next, accepted) = reduce(standby(), AppCommand::Init(roster()));
    assert!(!accepted);
    assert!(matches!(next, AppState::Standby(_)));
}

#[test]
fn three_members_bob_sees_one_role_and_all_roles_occur() {
    let mut seen: Vec<String> = Vec::new();
    for _ in 0..300 {
        let (standby, ok) = reduce(AppState::Blank, AppCommand::Init(roster()));
        assert!(ok);
        let (picked, ok) = reduce(standby, pick(roles()));
        assert!(ok);
        let list = match picked {
            AppState::Picked(p) => p.picked,
            _ => panic!("expected Picked"),
        };
        let bob = "b".to_string();
        let matching = list.iter().filter(|(m, _)| m.id == bob).count();
        assert_eq!(matching, 1);
        let i = find_assignment(&list, &bob).expect("Bob has a role");
        assert_eq!(list[i].0.name, "Bob");
        let name = list[i].1.name.clone();
        if !seen.contains(&name) {
            seen.push(name);
        }
    }
    seen.sort();
    assert_eq!(seen, vec!["Hunter", "Lookout", "Witness"]);
}

#[test]
fn bob_gets_each_role_for_some_draws() {
    let mut seen: Vec<String> = Vec::new();
    for d0 in 0..3u64 {
        for d1 in 0..2u64 {
            let a = assign_roles(roster(), roles(), &vec![d0, d1, 0]);
            let i = find_assignment(&a, &"b".to_string()).unwrap();
            let name = a[i].1.name.clone();
            if !seen.contains(&name) {
                seen.push(name);
            }
        }
    }
    assert_eq!(seen.len(), 3);
}
