use group_views::store::GroupStore;
use group_views::types::Error;
use group_views::types::GetMembersQuery;
use group_views::types::Group;
use group_views::types::GroupType;
use group_views::types::Member;
use group_views::types::RoleType;
use group_views::views::group_details;

fn member(username: &str, role: RoleType, visibility: u64) -> Member {
    Member {
        username: username.to_string(),
        host: "host".to_string(),
        role,
        visibility,
    }
}

fn group(name: &str, members: Vec<Member>) -> Group {
    Group {
        name: name.to_string(),
        description: format!("the {} group", name),
        typ: GroupType::Open,
        members,
        invitation_count: 0,
        renewal_dates: Vec::new(),
    }
}

fn store_with(groups: Vec<Group>) -> GroupStore {
    let mut store = GroupStore::new();
    for g in groups {
        assert!(store.add_group(g));
    }
    store
}

fn query(next: Option<i64>, size: Option<i64>) -> GetMembersQuery {
    GetMembersQuery { next, size }
}

fn names(members: &[Member]) -> Vec<&str> {
    members.iter().map(|m| m.username.as_str()).collect()
}

#[test]
fn zero_members_zero_counts_and_empty_listings() {
    let store = store_with(vec![group("empty", vec![])]);
    let d = group_details(&store, &"empty".to_string(), 10, &query(None, None)).unwrap();
    assert_eq!(d.member_count, 0);
    assert!(d.members.members.is_empty());
    assert!(d.curators.members.is_empty());
    assert_eq!(d.members.next, None);
    assert_eq!(d.curators.next, None);
}

#[test]
fn page_size_defaults_to_twenty() {
    let mut members = Vec::new();
    for i in 0..25 {
        members.push(member(&format!("m{:02}", i), RoleType::Member, 0));
    }
    let store = store_with(vec![group("big", members)]);
    let d = group_details(&store, &"big".to_string(), 0, &query(None, None)).unwrap();
    assert_eq!(d.members.members.len(), 20);
    assert_eq!(d.members.next, Some(20));
    let explicit = group_details(&store, &"big".to_string(), 0, &query(None, Some(20))).unwrap();
    assert_eq!(d, explicit);
}

#[test]
fn consecutive_curator_pages_cover_the_staff_exactly_once() {
    let mut members = Vec::new();
    for i in 0..7 {
        members.push(member(&format!("c{}", i), RoleType::Curator, 0));
    }
    members.push(member("bystander", RoleType::Member, 0));
    let store = store_with(vec![group("staffed", members)]);
    let name = "staffed".to_string();

    let first = group_details(&store, &name, 0, &query(None, Some(3))).unwrap();
    assert_eq!(names(&first.curators.members), vec!["c0", "c1", "c2"]);
    assert_eq!(first.curators.next, Some(3));

    let second = group_details(&store, &name, 0, &query(first.curators.next, Some(3))).unwrap();
    assert_eq!(names(&second.curators.members), vec!["c3", "c4", "c5"]);
    assert_eq!(second.curators.next, Some(6));

    let third = group_details(&store, &name, 0, &query(second.curators.next, Some(3))).unwrap();
    assert_eq!(names(&third.curators.members), vec!["c6"]);
    assert_eq!(third.curators.next, None);
}

#[test]
fn missing_group_is_not_found_whatever_the_parameters() {
    let store = store_with(vec![group("present", vec![])]);
    let name = "absent".to_string();
    assert_eq!(
        group_details(&store, &name, 0, &query(None, None)),
        Err(Error::NotFound)
    );
    assert_eq!(
        group_details(&store, &name, 99, &query(Some(5), Some(3))),
        Err(Error::NotFound)
    );
    assert_eq!(
        group_details(&store, &name, 0, &query(Some(-1), Some(0))),
        Err(Error::NotFound)
    );
}

#[test]
fn curators_hold_staff_roles_and_members_all_roles() {
    let members = vec![
        member("plain", RoleType::Member, 0),
        member("curator", RoleType::Curator, 0),
        member("admin", RoleType::Admin, 0),
    ];
    let store = store_with(vec![group("mixed", members)]);
    let d = group_details(&store, &"mixed".to_string(), 0, &query(None, None)).unwrap();
    for m in &d.curators.members {
        assert!(m.role == RoleType::Admin || m.role == RoleType::Curator);
    }
    assert_eq!(names(&d.curators.members), vec!["admin", "curator"]);
    assert_eq!(names(&d.members.members), vec!["admin", "curator", "plain"]);
}

#[test]
fn identical_requests_give_identical_results() {
    let members = vec![
        member("admin", RoleType::Admin, 0),
        member("plain", RoleType::Member, 2),
    ];
    let store = store_with(vec![group("steady", members)]);
    let name = "steady".to_string();
    let q = query(Some(1), Some(1));
    let first = group_details(&store, &name, 2, &q);
    let second = group_details(&store, &name, 2, &q);
    assert_eq!(first, second);
}

#[test]
fn design_team_scenario() {
    let mut members = Vec::new();
    for i in 1..=3 {
        members.push(member(&format!("admin{}", i), RoleType::Admin, 0));
    }
    for i in 1..=2 {
        members.push(member(&format!("curator{}", i), RoleType::Curator, 0));
    }
    for i in 1..=10 {
        members.push(member(&format!("member{:02}", i), RoleType::Member, 0));
    }
    let store = store_with(vec![group("design-team", members)]);
    let d = group_details(
        &store,
        &"design-team".to_string(),
        0,
        &query(None, Some(5)),
    )
    .unwrap();
    assert_eq!(d.member_count, 15);
    assert_eq!(
        names(&d.curators.members),
        vec!["admin1", "admin2", "admin3", "curator1", "curator2"]
    );
    assert_eq!(d.curators.next, None);
    assert_eq!(
        names(&d.members.members),
        vec!["admin1", "admin2", "admin3", "curator1", "curator2"]
    );
    assert_eq!(d.members.next, Some(5));
}

#[test]
fn group_metadata_and_counts_are_reported() {
    let mut g = group("reporting", vec![member("only", RoleType::Admin, 0)]);
    g.description = "numbers".to_string();
    g.typ = GroupType::Reviewed;
    g.invitation_count = 4;
    g.renewal_dates = vec![3, 9, 27];
    let store = store_with(vec![g]);
    let d = group_details(&store, &"reporting".to_string(), 0, &query(None, None)).unwrap();
    assert_eq!(d.group.name, "reporting");
    assert_eq!(d.group.description, "numbers");
    assert_eq!(d.group.typ, GroupType::Reviewed);
    assert_eq!(d.member_count, 1);
    assert_eq!(d.invitation_count, 4);
    assert_eq!(d.renewal_count, 3);
}

#[test]
fn invalid_page_size_is_a_store_failure() {
    let store = store_with(vec![group("g", vec![member("a", RoleType::Admin, 0)])]);
    let name = "g".to_string();
    assert_eq!(
        group_details(&store, &name, 0, &query(None, Some(0))),
        Err(Error::StoreFailure)
    );
    assert_eq!(
        group_details(&store, &name, 0, &query(None, Some(-3))),
        Err(Error::StoreFailure)
    );
}

#[test]
fn negative_cursor_is_a_store_failure() {
    let store = store_with(vec![group("g", vec![member("a", RoleType::Admin, 0)])]);
    assert_eq!(
        group_details(&store, &"g".to_string(), 0, &query(Some(-1), None)),
        Err(Error::StoreFailure)
    );
}

#[test]
fn cursor_past_the_end_gives_an_empty_page() {
    let store = store_with(vec![group("small", vec![member("a", RoleType::Admin, 0)])]);
    let d = group_details(&store, &"small".to_string(), 0, &query(Some(50), None)).unwrap();
    assert!(d.curators.members.is_empty());
    assert_eq!(d.curators.next, None);
    assert_eq!(names(&d.members.members), vec!["a"]);
}

#[test]
fn member_cursor_is_ignored_and_members_restart_at_the_beginning() {
    let members = vec![
        member("a", RoleType::Admin, 0),
        member("b", RoleType::Curator, 0),
        member("c", RoleType::Member, 0),
    ];
    let store = store_with(vec![group("g", members)]);
    let d = group_details(&store, &"g".to_string(), 0, &query(Some(2), Some(2))).unwrap();
    assert_eq!(names(&d.curators.members), vec![] as Vec<&str>);
    assert_eq!(names(&d.members.members), vec!["a", "b"]);
}

#[test]
fn scope_hides_rows_but_not_the_member_count() {
    let members = vec![
        member("open_admin", RoleType::Admin, 0),
        member("guarded_curator", RoleType::Curator, 5),
        member("guarded_member", RoleType::Member, 9),
    ];
    let store = store_with(vec![group("scoped", members)]);
    let name = "scoped".to_string();

    let low = group_details(&store, &name, 1, &query(None, None)).unwrap();
    assert_eq!(names(&low.curators.members), vec!["open_admin"]);
    assert_eq!(names(&low.members.members), vec!["open_admin"]);
    assert_eq!(low.member_count, 3);

    let high = group_details(&store, &name, 9, &query(None, None)).unwrap();
    assert_eq!(
        names(&high.curators.members),
        vec!["open_admin", "guarded_curator"]
    );
    assert_eq!(
        names(&high.members.members),
        vec!["open_admin", "guarded_curator", "guarded_member"]
    );
}

#[test]
fn duplicate_group_names_are_refused() {
    let mut store = GroupStore::new();
    assert!(store.add_group(group("twice", vec![member("first", RoleType::Admin, 0)])));
    assert!(!store.add_group(group("twice", vec![member("second", RoleType::Admin, 0)])));
    let d = group_details(&store, &"twice".to_string(), 0, &query(None, None)).unwrap();
    assert_eq!(names(&d.curators.members), vec!["first"]);
}
