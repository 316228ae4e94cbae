use d2c::engine::{decide, find_record, plan, update_request, Action, PlanEntry, SkipReason, UpdateRequest};
use d2c::model::{DesiredRecord, Ipv4Address, RecordContent, RemoteRecord};

const TARGET: Ipv4Address = Ipv4Address(5, 6, 7, 8);
const T0: i64 = 1_700_000_000;

fn wanted(hostname: &str, proxied: bool) -> DesiredRecord {
    DesiredRecord { hostname: hostname.to_string(), proxied }
}

fn listed(id: &str, hostname: &str, modified_at: i64) -> RemoteRecord {
    RemoteRecord {
        id: id.to_string(),
        hostname: hostname.to_string(),
        content: RecordContent::Address(Ipv4Address(1, 2, 3, 4)),
        modified_at,
    }
}

fn apply(id: &str, previous: i64) -> Action {
    Action::ApplyUpdate { record_id: id.to_string(), content: TARGET, previous_modified_at: previous }
}

fn skip() -> Action {
    Action::Skip { reason: SkipReason::NotFound }
}

#[test]
fn hostname_listed_once_is_updated_by_its_record_id() {
    let desired = vec![wanted("home.example.com", true)];
    let remote = vec![
        listed("rec0", "other.example.com", T0),
        listed("rec1", "home.example.com", T0 + 5),
        listed("rec2", "mail.example.com", T0),
    ];
    let entries = plan(&desired, &remote, TARGET);
    assert_eq!(entries, vec![PlanEntry { desired: wanted("home.example.com", true), action: apply("rec1", T0 + 5) }]);
}

#[test]
fn hostname_not_listed_is_skipped_as_not_found() {
    let desired = vec![wanted("ghost.example.com", false)];
    let remote = vec![listed("rec1", "home.example.com", T0)];
    let entries = plan(&desired, &remote, TARGET);
    assert_eq!(entries, vec![PlanEntry { desired: wanted("ghost.example.com", false), action: skip() }]);
    assert_eq!(update_request(&"zone".to_string(), &entries[0]), None);
}

#[test]
fn home_record_is_planned_for_update() {
    let desired = vec![wanted("home.example.com", true)];
    let remote = vec![listed("rec1", "home.example.com", T0)];
    let entries = plan(&desired, &remote, TARGET);
    assert_eq!(entries.len(), 1);
    assert_eq!(entries[0].action, apply("rec1", T0));
    assert_eq!(entries[0].desired, wanted("home.example.com", true));
}

#[test]
fn ghost_record_with_empty_listing_is_skipped() {
    let desired = vec![wanted("ghost.example.com", false)];
    let remote: Vec<RemoteRecord> = vec![];
    let entries = plan(&desired, &remote, TARGET);
    assert_eq!(entries.len(), 1);
    assert_eq!(entries[0].action, skip());
}

#[test]
fn planning_twice_gives_the_same_plan() {
    let desired = vec![wanted("a.example.com", true), wanted("b.example.com", false), wanted("c.example.com", true)];
    let remote = vec![listed("r1", "c.example.com", T0), listed("r2", "a.example.com", T0 + 1)];
    let first = plan(&desired, &remote, TARGET);
    let second = plan(&desired, &remote, TARGET);
    assert_eq!(first, second);
    assert_eq!(first[0].action, apply("r2", T0 + 1));
    assert_eq!(first[1].action, skip());
    assert_eq!(first[2].action, apply("r1", T0));
}

#[test]
fn first_listed_record_wins_among_duplicates() {
    let desired = vec![wanted("dup.example.com", false)];
    let remote = vec![
        listed("x", "other.example.com", T0),
        listed("first", "dup.example.com", T0 + 10),
        listed("second", "dup.example.com", T0 + 20),
    ];
    let entries = plan(&desired, &remote, TARGET);
    assert_eq!(entries[0].action, apply("first", T0 + 10));
    assert_eq!(find_record(&remote, &"dup.example.com".to_string()), Some(1));
}

#[test]
fn matching_is_exact_and_case_sensitive() {
    let remote = vec![listed("r1", "Home.example.com", T0), listed("r2", "home.example.com.", T0)];
    assert_eq!(find_record(&remote, &"home.example.com".to_string()), None);
    assert_eq!(find_record(&remote, &"Home.example.com".to_string()), Some(0));
    assert_eq!(find_record(&remote, &"home.example.com.".to_string()), Some(1));
    assert_eq!(find_record(&remote, &"".to_string()), None);
    assert_eq!(decide(&wanted("HOME.EXAMPLE.COM", true), &remote, TARGET), skip());
}

#[test]
fn plan_answers_every_wanted_record_in_order() {
    let desired = vec![
        wanted("z.example.com", false),
        wanted("a.example.com", true),
        wanted("z.example.com", true),
        wanted("m.example.com", false),
    ];
    let remote = vec![listed("ra", "a.example.com", 1), listed("rz", "z.example.com", 2)];
    let entries = plan(&desired, &remote, TARGET);
    assert_eq!(entries.len(), 4);
    for k in 0..desired.len() {
        assert_eq!(entries[k].desired, desired[k]);
    }
    assert_eq!(entries[0].action, apply("rz", 2));
    assert_eq!(entries[1].action, apply("ra", 1));
    assert_eq!(entries[2].action, apply("rz", 2));
    assert_eq!(entries[3].action, skip());
}

#[test]
fn nothing_wanted_gives_an_empty_plan() {
    let remote = vec![listed("r1", "home.example.com", T0)];
    assert_eq!(plan(&vec![], &remote, TARGET), vec![]);
    assert_eq!(plan(&vec![], &vec![], TARGET), vec![]);
}

#[test]
fn record_already_holding_the_target_is_still_rewritten() {
    let desired = vec![wanted("home.example.com", false)];
    let remote = vec![RemoteRecord {
        id: "rec1".to_string(),
        hostname: "home.example.com".to_string(),
        content: RecordContent::Address(TARGET),
        modified_at: T0,
    }];
    let entries = plan(&desired, &remote, TARGET);
    assert_eq!(entries[0].action, apply("rec1", T0));
}

#[test]
fn record_of_another_kind_is_matched_by_hostname_alone() {
    let remote = vec![RemoteRecord {
        id: "txt".to_string(),
        hostname: "home.example.com".to_string(),
        content: RecordContent::Other,
        modified_at: 7,
    }];
    assert_eq!(decide(&wanted("home.example.com", true), &remote, TARGET), apply("txt", 7));
}

#[test]
fn plan_carries_the_address_it_was_given() {
    let desired = vec![wanted("home.example.com", true)];
    let remote = vec![listed("rec1", "home.example.com", T0)];
    let other = Ipv4Address(203, 0, 113, 9);
    let entries = plan(&desired, &remote, other);
    assert_eq!(
        entries[0].action,
        Action::ApplyUpdate { record_id: "rec1".to_string(), content: other, previous_modified_at: T0 }
    );
    assert_ne!(entries, plan(&desired, &remote, TARGET));
}

#[test]
fn request_names_zone_record_hostname_address_and_proxy_flag() {
    let entry = PlanEntry { desired: wanted("home.example.com", true), action: apply("rec1", T0) };
    assert_eq!(
        update_request(&"zone-1".to_string(), &entry),
        Some(UpdateRequest {
            zone_id: "zone-1".to_string(),
            record_id: "rec1".to_string(),
            hostname: "home.example.com".to_string(),
            content: TARGET,
            proxied: true,
        })
    );
    let unproxied = PlanEntry { desired: wanted("home.example.com", false), action: apply("rec1", T0) };
    assert_eq!(update_request(&"zone-1".to_string(), &unproxied).map(|r| r.proxied), Some(false));
}

#[test]
fn skipped_entry_gives_no_request() {
    let entry = PlanEntry { desired: wanted("ghost.example.com", false), action: skip() };
    assert_eq!(update_request(&"zone-1".to_string(), &entry), None);
}

#[test]
fn duplicate_keeps_a_record_unchanged() {
    let record = wanted("home.example.com", true);
    assert_eq!(record.duplicate(), record);
}
