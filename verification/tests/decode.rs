use grok::document::JsonValue;
use grok::json::{Cause, Instant, JSONMessage, SubCause, Thrown, Trace};
use grok::parser::record_of;
use grok::render::{render_raw, render_record, render_record_at};

fn text(s: &str) -> JsonValue {
    JsonValue::Text(s.to_string())
}

fn whole(n: i64) -> JsonValue {
    JsonValue::Number(Some(n), if n >= 0 { Some(n as u64) } else { None })
}

fn object(members: Vec<(&str, JsonValue)>) -> JsonValue {
    JsonValue::Object(members.into_iter().map(|(k, v)| (k.to_string(), v)).collect())
}

fn base() -> Vec<(&'static str, JsonValue)> {
    vec![
        ("thread", text("main")),
        ("level", text("INFO")),
        ("loggerName", text("a.B")),
        ("message", text("hello")),
        ("threadId", whole(-3)),
        ("threadPriority", whole(5)),
        ("endOfBatch", JsonValue::Bool(true)),
        ("loggerFqcn", text("f.Q")),
        ("instant", object(vec![("epochSecond", whole(86_400)), ("nanoOfSecond", whole(12))])),
    ]
}

fn with(extra: Vec<(&'static str, JsonValue)>) -> JsonValue {
    let mut members = base();
    members.extend(extra);
    object(members)
}

fn without(key: &str) -> JsonValue {
    object(base().into_iter().filter(|(k, _)| *k != key).collect())
}

#[test]
fn a_tree_with_every_required_member_is_a_record() {
    let record = record_of(&object(base())).expect("a record");
    assert_eq!(record.thread, "main");
    assert_eq!(record.level, "INFO");
    assert_eq!(record.loggerName, "a.B");
    assert_eq!(record.message, "hello");
    assert_eq!(record.threadId, -3);
    assert_eq!(record.threadPriority, 5);
    assert!(record.endOfBatch);
    assert_eq!(record.loggerFqcn, "f.Q");
    let instant = record.instant.expect("a moment");
    assert_eq!(instant.epochSecond, 86_400);
    assert_eq!(instant.nanoOfSecond, 12);
    assert_eq!(record.timeMillis, None);
    assert!(record.thrown.is_none());
    assert!(record.contextMap.is_none());
}

#[test]
fn each_required_member_is_needed() {
    for key in [
        "thread",
        "level",
        "loggerName",
        "message",
        "threadId",
        "threadPriority",
        "endOfBatch",
        "loggerFqcn",
        "instant",
    ] {
        assert!(record_of(&without(key)).is_none(), "{key} was not needed");
    }
}

#[test]
fn optional_members_may_be_null() {
    let record = record_of(&with(vec![
        ("timeMillis", JsonValue::Null),
        ("thrown", JsonValue::Null),
        ("contextMap", JsonValue::Null),
    ]))
    .expect("a record");
    assert_eq!(record.timeMillis, None);
    assert!(record.thrown.is_none());
    assert!(record.contextMap.is_none());
}

#[test]
fn numbers_are_held_to_their_ranges() {
    let big = JsonValue::Number(None, Some(u64::MAX));
    let record = record_of(&with(vec![("timeMillis", big)])).expect("a record");
    assert_eq!(record.timeMillis, Some(u64::MAX));
    assert!(record_of(&with(vec![("timeMillis", whole(-1))])).is_none());
    assert!(record_of(&with(vec![("timeMillis", JsonValue::Number(None, None))])).is_none());
    let unsigned_only = object(
        base()
            .into_iter()
            .map(|(k, v)| if k == "threadPriority" { (k, JsonValue::Number(None, Some(9))) } else { (k, v) })
            .collect(),
    );
    assert_eq!(record_of(&unsigned_only).map(|r| r.threadPriority), Some(9));
    let wide = object(
        base()
            .into_iter()
            .map(|(k, v)| if k == "threadPriority" { (k, whole(4_294_967_296)) } else { (k, v) })
            .collect(),
    );
    assert!(record_of(&wide).is_none());
    let low = object(
        base()
            .into_iter()
            .map(|(k, v)| if k == "threadId" { (k, whole(-2_147_483_649)) } else { (k, v) })
            .collect(),
    );
    assert!(record_of(&low).is_none());
}

#[test]
fn the_first_member_of_a_name_counts() {
    let mut members = base();
    members.push(("level", text("ERROR")));
    let record = record_of(&object(members)).expect("a record");
    assert_eq!(record.level, "INFO");
}

#[test]
fn context_values_must_be_texts() {
    let good = with(vec![("contextMap", object(vec![("b", text("2")), ("a", text("1"))]))]);
    let record = record_of(&good).expect("a record");
    assert_eq!(
        record.contextMap,
        Some(vec![("b".to_string(), "2".to_string()), ("a".to_string(), "1".to_string())])
    );
    let bad = with(vec![("contextMap", object(vec![("a", text("1")), ("b", whole(2))]))]);
    assert!(record_of(&bad).is_none());
    let list = with(vec![("contextMap", JsonValue::List(vec![]))]);
    assert!(record_of(&list).is_none());
}

#[test]
fn a_document_that_is_no_object_is_no_record() {
    assert!(record_of(&JsonValue::Null).is_none());
    assert!(record_of(&JsonValue::Bool(true)).is_none());
    assert!(record_of(&whole(1)).is_none());
    assert!(record_of(&text("x")).is_none());
    assert!(record_of(&JsonValue::List(vec![object(base())])).is_none());
}

#[test]
fn frames_must_all_decode() {
    let frame = |line: JsonValue| {
        object(vec![
            ("class", text("c")),
            ("method", text("m")),
            ("line", line),
            ("exact", JsonValue::Bool(false)),
            ("location", text("l")),
            ("version", text("v")),
        ])
    };
    let thrown = |frames: Vec<JsonValue>| {
        with(vec![(
            "thrown",
            object(vec![
                ("commonElementCount", whole(0)),
                ("name", text("E")),
                ("extendedStackTrace", JsonValue::List(frames)),
            ]),
        )])
    };
    let record = record_of(&thrown(vec![frame(whole(1)), frame(whole(2))])).expect("a record");
    let t = record.thrown.expect("an exception");
    assert_eq!(t.extendedStackTrace.len(), 2);
    assert_eq!(t.extendedStackTrace[1].line, 2);
    assert_eq!(t.extendedStackTrace[0].file, None);
    assert_eq!(t.message, None);
    assert!(record_of(&thrown(vec![frame(whole(1)), frame(text("2"))])).is_none());
    assert!(record_of(&thrown(vec![JsonValue::Null])).is_none());
}

fn sample() -> JSONMessage {
    let frame = Trace {
        class: "a.B".to_string(),
        method: "run".to_string(),
        file: Some("B.java".to_string()),
        line: 10,
        exact: true,
        location: "app.jar".to_string(),
        version: "1".to_string(),
    };
    JSONMessage {
        timeMillis: None,
        thread: "main".to_string(),
        level: "WARN".to_string(),
        loggerName: "a.B".to_string(),
        message: "careful".to_string(),
        thrown: Some(Thrown {
            commonElementCount: 0,
            name: "E0".to_string(),
            message: None,
            extendedStackTrace: vec![frame.clone()],
            cause: Some(Cause {
                commonElementCount: 1,
                name: "E1".to_string(),
                message: "first".to_string(),
                extendedStackTrace: vec![],
                cause: Some(SubCause {
                    commonElementCount: 2,
                    name: "E2".to_string(),
                    message: "second".to_string(),
                    extendedStackTrace: vec![frame],
                }),
            }),
        }),
        threadId: 1,
        threadPriority: 5,
        endOfBatch: false,
        loggerFqcn: "f".to_string(),
        instant: Some(Instant { epochSecond: 0, nanoOfSecond: 0 }),
        contextMap: Some(vec![("k".to_string(), "v".to_string())]),
    }
}

#[test]
fn a_record_renders_header_context_and_stack() {
    let out = render_record_at(&sample(), "g", "s", "WHEN", "WARN", true);
    assert_eq!(
        out,
        "g s -- WHEN [main] WARN a.B carefulContext map: \n\t k = v\nStacktrace: E0 - none\n\t at a.B.run (B.java:10) [app.jar]\nCaused by: E1 - first\nCaused by: E2 - second\n\t at a.B.run (B.java:10) [app.jar]\n"
    );
    assert_eq!(render_record_at(&sample(), "g", "s", "WHEN", "INFO", true), "");
}

#[test]
fn a_record_is_dated_by_its_second() {
    let out = render_record(&sample(), "g", "s", "ALL", true);
    assert!(out.starts_with("g s -- 1970-01-01 00:00:00 [main] WARN a.B careful"));
    let mut later = sample();
    later.instant = Some(Instant { epochSecond: -1, nanoOfSecond: 0 });
    later.thrown = None;
    later.contextMap = Some(vec![]);
    assert_eq!(
        render_record(&later, "", "", "ALL", true),
        "  -- 1969-12-31 23:59:59 [main] WARN a.B careful"
    );
}

#[test]
fn a_raw_line_keeps_its_text() {
    assert_eq!(render_raw("g", "s", "not json {"), "g s -- not json {");
    assert_eq!(render_raw("", "", ""), "  -- ");
}
