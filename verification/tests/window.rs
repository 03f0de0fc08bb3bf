use grok::window::{
    build_query, resolve_window, step, DateInput, TailAction, TailEvent, TailState, TailWindow,
    CYCLE_DELAY_MILLIS, DEFAULT_SPAN_MILLIS, LAG_MILLIS, PAGE_DELAY_MILLIS,
};

const NOW: i64 = 1_608_579_508_000;

fn window(watch: bool) -> TailWindow {
    TailWindow {
        group: "app".to_string(),
        start_epoch_millis: NOW - 120_000,
        end_epoch_millis: NOW,
        pattern: Some("ERROR".to_string()),
        watch,
    }
}

fn page(token: Option<&str>) -> TailEvent {
    TailEvent::Page { next_token: token.map(|t| t.to_string()) }
}

#[test]
fn constants_match_the_service_limits() {
    assert_eq!(LAG_MILLIS, 10_000);
    assert_eq!(DEFAULT_SPAN_MILLIS, 120_000);
    assert_eq!(PAGE_DELAY_MILLIS, 100);
    assert_eq!(CYCLE_DELAY_MILLIS, 2_000);
}

#[test]
fn window_defaults_to_the_last_two_minutes_and_watches() {
    let w = resolve_window("app".to_string(), None, DateInput::Absent, DateInput::Absent, NOW);
    assert_eq!(w.group, "app");
    assert_eq!(w.start_epoch_millis, NOW - 120_000);
    assert_eq!(w.end_epoch_millis, NOW);
    assert_eq!(w.pattern, None);
    assert!(w.watch);
}

#[test]
fn explicit_end_stops_watching() {
    let w = resolve_window(
        "app".to_string(),
        Some("p".to_string()),
        DateInput::Absent,
        DateInput::At(5_000_000),
        NOW,
    );
    assert_eq!(w.start_epoch_millis, 5_000_000 - 120_000);
    assert_eq!(w.end_epoch_millis, 5_000_000);
    assert_eq!(w.pattern, Some("p".to_string()));
    assert!(!w.watch);
}

#[test]
fn explicit_start_stops_watching() {
    let w = resolve_window("app".to_string(), None, DateInput::At(7_000), DateInput::Absent, NOW);
    assert_eq!(w.start_epoch_millis, 7_000);
    assert_eq!(w.end_epoch_millis, NOW);
    assert!(!w.watch);
}

#[test]
fn unreadable_dates_fall_back_without_watching() {
    let w = resolve_window(
        "app".to_string(),
        None,
        DateInput::Unreadable,
        DateInput::Unreadable,
        NOW,
    );
    assert_eq!(w.start_epoch_millis, NOW - 120_000);
    assert_eq!(w.end_epoch_millis, NOW);
    assert!(!w.watch);
    let v = resolve_window(
        "app".to_string(),
        None,
        DateInput::Unreadable,
        DateInput::At(900_000),
        NOW,
    );
    assert_eq!(v.start_epoch_millis, 780_000);
    assert_eq!(v.end_epoch_millis, 900_000);
    assert!(!v.watch);
}

#[test]
fn query_is_shifted_back_by_the_lag() {
    let q = build_query(&window(true), &Some("tok".to_string()));
    assert_eq!(q.group, "app");
    assert_eq!(q.start_time, NOW - 130_000);
    assert_eq!(q.end_time, NOW - 10_000);
    assert_eq!(q.filter_pattern, Some("ERROR".to_string()));
    assert_eq!(q.next_token, Some("tok".to_string()));
    let first = build_query(&window(false), &None);
    assert_eq!(first.next_token, None);
}

#[test]
fn init_resolves_then_polls() {
    let state = TailState::new("app".to_string(), None);
    assert!(matches!(state.action(), TailAction::Resolve));
    let resolved = TailEvent::Resolved { start: DateInput::Absent, end: DateInput::Absent, now: NOW };
    assert!(state.accepts(&resolved));
    let (state, action) = step(state, resolved);
    assert!(matches!(action, TailAction::Continue));
    match &state {
        TailState::Polling { window } => {
            assert_eq!(window.start_epoch_millis, NOW - 120_000);
            assert_eq!(window.end_epoch_millis, NOW);
            assert!(window.watch);
        }
        other => panic!("unexpected state {:?}", other),
    }
    let (state, action) = step(state, TailEvent::Tick);
    assert!(matches!(state, TailState::Paginating { cursor: None, .. }));
    match action {
        TailAction::Fetch { query, delay_millis } => {
            assert_eq!(delay_millis, 0);
            assert_eq!(query.start_time, NOW - 130_000);
            assert_eq!(query.end_time, NOW - 10_000);
            assert_eq!(query.next_token, None);
        }
        other => panic!("unexpected action {:?}", other),
    }
}

#[test]
fn pages_follow_the_cursor_after_a_delay() {
    let state = TailState::Paginating { window: window(false), cursor: None };
    let (state, action) = step(state, page(Some("t1")));
    match action {
        TailAction::Fetch { query, delay_millis } => {
            assert_eq!(delay_millis, 100);
            assert_eq!(query.next_token, Some("t1".to_string()));
            assert_eq!(query.start_time, NOW - 130_000);
        }
        other => panic!("unexpected action {:?}", other),
    }
    let (state, action) = step(state, page(Some("t2")));
    assert!(matches!(&state, TailState::Paginating { cursor: Some(c), .. } if c == "t2"));
    assert!(matches!(action, TailAction::Fetch { delay_millis: 100, .. }));
    let (state, action) = step(state, page(None));
    assert!(matches!(state, TailState::Done));
    assert!(state.is_terminal());
    assert!(matches!(action, TailAction::Stop { failed: false }));
}

#[test]
fn last_page_leaves_paginating_at_once() {
    let (one_shot, _) = step(TailState::Paginating { window: window(false), cursor: None }, page(None));
    assert!(matches!(one_shot, TailState::Done));
    let (watching, action) =
        step(TailState::Paginating { window: window(true), cursor: Some("t".to_string()) }, page(None));
    assert!(matches!(watching, TailState::Sleeping { .. }));
    assert!(matches!(action, TailAction::Sleep { millis: 2_000 }));
}

#[test]
fn watching_window_starts_where_the_last_one_ended() {
    let state = TailState::Sleeping { window: window(true) };
    let woke = TailEvent::Woke { now: NOW + 2_345 };
    assert!(state.accepts(&woke));
    let (state, action) = step(state, woke);
    assert!(matches!(action, TailAction::Continue));
    match &state {
        TailState::Polling { window } => {
            assert_eq!(window.start_epoch_millis, NOW);
            assert_eq!(window.end_epoch_millis, NOW + 2_345);
            assert_eq!(window.group, "app");
            assert_eq!(window.pattern, Some("ERROR".to_string()));
            assert!(window.watch);
        }
        other => panic!("unexpected state {:?}", other),
    }
    let (state, _) = step(state, TailEvent::Tick);
    let (state, _) = step(state, page(None));
    let (state, _) = step(state, TailEvent::Woke { now: NOW + 5_000 });
    match &state {
        TailState::Polling { window } => {
            assert_eq!(window.start_epoch_millis, NOW + 2_345);
            assert_eq!(window.end_epoch_millis, NOW + 5_000);
        }
        other => panic!("unexpected state {:?}", other),
    }
}

#[test]
fn failure_ends_the_tailer() {
    let (state, action) =
        step(TailState::Paginating { window: window(true), cursor: None }, TailEvent::Failure);
    assert!(matches!(state, TailState::Failed));
    assert!(state.is_terminal());
    assert!(matches!(action, TailAction::Stop { failed: true }));
    let (state, action) = step(state, page(Some("t")));
    assert!(matches!(state, TailState::Failed));
    assert!(matches!(action, TailAction::Stop { failed: true }));
}

#[test]
fn unexpected_events_leave_the_state() {
    let (state, action) =
        step(TailState::Paginating { window: window(true), cursor: None }, TailEvent::Woke { now: 1 });
    assert!(matches!(state, TailState::Paginating { cursor: None, .. }));
    assert!(matches!(action, TailAction::Fetch { delay_millis: 0, .. }));
    let (state, action) = step(TailState::Sleeping { window: window(true) }, page(None));
    assert!(matches!(state, TailState::Sleeping { .. }));
    assert!(matches!(action, TailAction::Sleep { millis: 2_000 }));
    let (state, action) = step(TailState::new("g".to_string(), None), TailEvent::Tick);
    assert!(matches!(state, TailState::Init { .. }));
    assert!(matches!(action, TailAction::Resolve));
    let (state, action) = step(TailState::Polling { window: window(true) }, TailEvent::Failure);
    assert!(matches!(state, TailState::Polling { .. }));
    assert!(matches!(action, TailAction::Continue));
    let (state, _) = step(TailState::Done, TailEvent::Failure);
    assert!(matches!(state, TailState::Done));
}

#[test]
fn moments_too_early_to_shift_are_not_accepted() {
    let init = TailState::new("g".to_string(), None);
    let early = TailEvent::Resolved { start: DateInput::Absent, end: DateInput::Absent, now: i64::MIN };
    assert!(!init.accepts(&early));
    let edge = TailEvent::Resolved {
        start: DateInput::Absent,
        end: DateInput::Absent,
        now: i64::MIN + 130_000,
    };
    assert!(init.accepts(&edge));
    let below = TailEvent::Resolved {
        start: DateInput::At(i64::MIN + 9_999),
        end: DateInput::Absent,
        now: NOW,
    };
    assert!(!init.accepts(&below));
    let sleeping = TailState::Sleeping { window: window(true) };
    assert!(!sleeping.accepts(&TailEvent::Woke { now: i64::MIN }));
    assert!(sleeping.accepts(&TailEvent::Woke { now: i64::MIN + 10_000 }));
    assert!(sleeping.accepts(&TailEvent::Tick));
}
