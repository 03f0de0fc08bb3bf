use grok::groups::{
    list_step, name_matches, parse_group_spec, resolve, GroupSpec, ListAction, ListEvent,
    ListState, LIST_DELAY_MILLIS, MAX_GROUPS, NOTICE_ABOVE,
};

fn names(prefix: &str, count: usize) -> Vec<String> {
    (0..count).map(|i| format!("{prefix}-{i}")).collect()
}

#[test]
fn caps_match_the_resolver() {
    assert_eq!(MAX_GROUPS, 8);
    assert_eq!(NOTICE_ABOVE, 10);
    assert_eq!(LIST_DELAY_MILLIS, 100);
}

#[test]
fn explicit_list_is_used_verbatim() {
    match parse_group_spec("alpha,beta,,gamma delta") {
        GroupSpec::Named { names } => assert_eq!(names, vec!["alpha", "beta", "", "gamma delta"]),
        other => panic!("unexpected {:?}", other),
    }
    match parse_group_spec("") {
        GroupSpec::Named { names } => assert_eq!(names, vec![""]),
        other => panic!("unexpected {:?}", other),
    }
    match parse_group_spec("all") {
        GroupSpec::Named { names } => assert_eq!(names, vec!["all"]),
        other => panic!("unexpected {:?}", other),
    }
    match parse_group_spec("allied,forces") {
        GroupSpec::Named { names } => assert_eq!(names, vec!["allied", "forces"]),
        other => panic!("unexpected {:?}", other),
    }
}

#[test]
fn all_prefix_gives_filters() {
    let spec = parse_group_spec("all:prod,stage");
    assert!(spec.needs_listing());
    match spec {
        GroupSpec::Matching { filters } => assert_eq!(filters, vec!["prod", "stage"]),
        other => panic!("unexpected {:?}", other),
    }
    match parse_group_spec("all:") {
        GroupSpec::Matching { filters } => assert_eq!(filters, vec![""]),
        other => panic!("unexpected {:?}", other),
    }
    match parse_group_spec("all:a:b,c,") {
        GroupSpec::Matching { filters } => assert_eq!(filters, vec!["a:b", "c", ""]),
        other => panic!("unexpected {:?}", other),
    }
    assert!(!parse_group_spec("ALL:prod").needs_listing());
}

#[test]
fn filters_match_by_case_sensitive_substring() {
    let filters = vec!["prod".to_string(), "stage".to_string()];
    assert!(name_matches("/aws/prod/api", &filters));
    assert!(name_matches("stage", &filters));
    assert!(name_matches("xstagex", &filters));
    assert!(!name_matches("/aws/Prod/api", &filters));
    assert!(!name_matches("pro", &filters));
    assert!(!name_matches("", &filters));
    assert!(!name_matches("anything", &vec![]));
    assert!(name_matches("anything", &vec!["".to_string()]));
    assert!(name_matches("", &vec!["".to_string()]));
}

#[test]
fn twelve_matching_groups_give_eight_tailers_and_a_notice() {
    let mut all = names("svc-prod", 7);
    all.push("unrelated".to_string());
    all.extend(names("svc-stage", 5));
    all.push("dev".to_string());
    let chosen = resolve(&parse_group_spec("all:prod,stage"), &all);
    assert_eq!(chosen.groups.len(), 8);
    assert!(chosen.notice);
    let mut expected = names("svc-prod", 7);
    expected.push("svc-stage-0".to_string());
    assert_eq!(chosen.groups, expected);
}

#[test]
fn nine_or_ten_groups_are_capped_without_a_notice() {
    let nine = names("g", 9).join(",");
    let chosen = resolve(&parse_group_spec(&nine), &vec![]);
    assert_eq!(chosen.groups, names("g", 8));
    assert!(!chosen.notice);
    let ten = names("g", 10).join(",");
    let chosen = resolve(&parse_group_spec(&ten), &vec![]);
    assert_eq!(chosen.groups, names("g", 8));
    assert!(!chosen.notice);
    let eleven = names("g", 11).join(",");
    let chosen = resolve(&parse_group_spec(&eleven), &vec![]);
    assert_eq!(chosen.groups, names("g", 8));
    assert!(chosen.notice);
}

#[test]
fn few_groups_are_all_kept() {
    let chosen = resolve(&parse_group_spec("a,b,c"), &names("ignored", 20));
    assert_eq!(chosen.groups, vec!["a", "b", "c"]);
    assert!(!chosen.notice);
    let none = resolve(&parse_group_spec("all:zzz"), &names("svc", 20));
    assert!(none.groups.is_empty());
    assert!(!none.notice);
    let eight = resolve(&parse_group_spec("all:svc"), &names("svc", 8));
    assert_eq!(eight.groups, names("svc", 8));
}

fn list_page(items: &[&str], token: Option<&str>) -> ListEvent {
    ListEvent::Page {
        names: items.iter().map(|s| s.to_string()).collect(),
        next_token: token.map(|t| t.to_string()),
    }
}

#[test]
fn listing_follows_tokens_until_none_remains() {
    let state = ListState::new();
    assert!(matches!(state.action(), ListAction::Fetch { next_token: None, delay_millis: 0 }));
    let (state, action) = list_step(state, list_page(&["a", "b"], Some("t1")));
    match action {
        ListAction::Fetch { next_token, delay_millis } => {
            assert_eq!(next_token, Some("t1".to_string()));
            assert_eq!(delay_millis, 100);
        }
        other => panic!("unexpected {:?}", other),
    }
    let (state, _) = list_step(state, list_page(&[], Some("t2")));
    let (state, action) = list_step(state, list_page(&["c"], None));
    assert!(matches!(action, ListAction::Stop { failed: false }));
    match &state {
        ListState::Listed { names } => assert_eq!(names, &vec!["a", "b", "c"]),
        other => panic!("unexpected {:?}", other),
    }
    let (state, action) = list_step(state, list_page(&["late"], None));
    assert!(matches!(action, ListAction::Stop { failed: false }));
    match &state {
        ListState::Listed { names } => assert_eq!(names, &vec!["a", "b", "c"]),
        other => panic!("unexpected {:?}", other),
    }
}

#[test]
fn listing_fails_when_a_page_fails() {
    let (state, _) = list_step(ListState::new(), list_page(&["a"], Some("t")));
    let (state, action) = list_step(state, ListEvent::Failure);
    assert!(matches!(state, ListState::Failed));
    assert!(matches!(action, ListAction::Stop { failed: true }));
    let (state, _) = list_step(state, list_page(&["b"], None));
    assert!(matches!(state, ListState::Failed));
}
