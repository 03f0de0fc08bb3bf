//! Decodes one line of input into a log record, or keeps it as it came.

use vstd::prelude::*;
use crate::calendar::{calendar_text, format_timestamp};
use crate::document::{items_of, json_document, lemma_list_view, lemma_object_view, members_of};
use crate::document::{read_document, JsonModel, JsonValue};
use crate::json::{Cause, CauseView, Instant, JSONMessage, LogRecord, StackFrame, SubCause};
use crate::json::{entries_of, frames_of, SubCauseView, Thrown, ThrownView, Trace};
use crate::text::opt_text;

verus! {

/// Why a line was kept as it came.
#[derive(Clone, Copy, Debug, PartialEq, Eq, Structural)]
pub enum ParseWarning {
    /// The line is not one JSON document.
    MalformedJson,
    /// The line is a JSON document that holds no log record.
    NotARecord,
}

/// A line that could not be decoded, kept word for word with its origin.
#[derive(Clone, Debug)]
pub struct RawPassthrough {
    pub text: String,
    pub group: String,
    pub stream: String,
    pub warning: ParseWarning,
}

/// What a line of input was read as.
#[derive(Clone, Debug)]
pub enum Parsed {
    /// A log record, with the group and the stream that it came from.
    Record { record: JSONMessage, group: String, stream: String },
    /// Anything else.
    Raw(RawPassthrough),
}

impl Parsed {
    /// A parsed line can be shown when its record, if it is one, can.
    pub open spec fn well_formed(&self) -> bool {
        match self {
            Parsed::Record { record, .. } => record.well_formed(),
            Parsed::Raw(_) => true,
        }
    }
}

/// The value of the first member of an object that is named `key`, if
/// there is one.
pub open spec fn member(members: Seq<(Seq<char>, JsonModel)>, key: Seq<char>) -> Option<JsonModel>
    decreases members.len(),
{
    if members.len() == 0 {
        None
    } else if members[0].0 == key {
        Some(members[0].1)
    } else {
        member(members.drop_first(), key)
    }
}

/// Whether an optional member is left out: it is missing, or it is `null`.
pub open spec fn left_out(value: Option<JsonModel>) -> bool {
    value is None || value == Some(JsonModel::Null)
}

/// A required text.
pub open spec fn text_field(members: Seq<(Seq<char>, JsonModel)>, key: Seq<char>) -> Option<
    Seq<char>,
> {
    match member(members, key) {
        Some(JsonModel::Text(s)) => Some(s),
        _ => None,
    }
}

/// An optional text: `Some(None)` where it is left out, `None` where the
/// member is no text.
pub open spec fn optional_text_field(
    members: Seq<(Seq<char>, JsonModel)>,
    key: Seq<char>,
) -> Option<Option<Seq<char>>> {
    match member(members, key) {
        Some(JsonModel::Text(s)) => Some(Some(s)),
        other => if left_out(other) {
            Some(None)
        } else {
            None
        },
    }
}

/// A required integer between `low` and `high`.
pub open spec fn integer_field(
    members: Seq<(Seq<char>, JsonModel)>,
    key: Seq<char>,
    low: int,
    high: int,
) -> Option<int> {
    match member(members, key) {
        Some(JsonModel::Number(Some(n))) => if low <= n <= high {
            Some(n)
        } else {
            None
        },
        _ => None,
    }
}

/// An optional integer between `low` and `high`.
pub open spec fn optional_integer_field(
    members: Seq<(Seq<char>, JsonModel)>,
    key: Seq<char>,
    low: int,
    high: int,
) -> Option<Option<int>> {
    match member(members, key) {
        Some(JsonModel::Number(Some(n))) => if low <= n <= high {
            Some(Some(n))
        } else {
            None
        },
        other => if left_out(other) {
            Some(None)
        } else {
            None
        },
    }
}

/// A required truth value.
pub open spec fn bool_field(members: Seq<(Seq<char>, JsonModel)>, key: Seq<char>) -> Option<bool> {
    match member(members, key) {
        Some(JsonModel::Bool(b)) => Some(b),
        _ => None,
    }
}

/// One stack frame: an object with its class, method, line, exactness,
/// location and version, and optionally its file.
pub open spec fn decode_frame(value: JsonModel) -> Option<StackFrame> {
    match value {
        JsonModel::Object(m) => {
            let class = text_field(m, "class"@);
            let method = text_field(m, "method"@);
            let file = optional_text_field(m, "file"@);
            let line = integer_field(m, "line"@, i32::MIN as int, i32::MAX as int);
            let exact = bool_field(m, "exact"@);
            let location = text_field(m, "location"@);
            let version = text_field(m, "version"@);
            if class is Some && method is Some && file is Some && line is Some && exact is Some
                && location is Some && version is Some {
                Some(
                    StackFrame {
                        class: class->0,
                        method: method->0,
                        file: file->0,
                        line: line->0,
                        exact: exact->0,
                        location: location->0,
                        version: version->0,
                    },
                )
            } else {
                None
            }
        },
        _ => None,
    }
}

/// A required stack trace: a list whose items all are stack frames.
pub open spec fn frames_field(members: Seq<(Seq<char>, JsonModel)>, key: Seq<char>) -> Option<
    Seq<StackFrame>,
> {
    match member(members, key) {
        Some(JsonModel::List(items)) => if forall|i: int|
            0 <= i < items.len() ==> (#[trigger] decode_frame(items[i])) is Some {
            Some(items.map_values(|item: JsonModel| decode_frame(item)->0))
        } else {
            None
        },
        _ => None,
    }
}

/// The cause of a cause: what it records of a cause of its own is not
/// read.
pub open spec fn decode_sub_cause(value: JsonModel) -> Option<SubCauseView> {
    match value {
        JsonModel::Object(m) => {
            let count = integer_field(m, "commonElementCount"@, 0, u32::MAX as int);
            let name = text_field(m, "name"@);
            let message = text_field(m, "message"@);
            let frames = frames_field(m, "extendedStackTrace"@);
            if count is Some && name is Some && message is Some && frames is Some {
                Some(
                    SubCauseView {
                        commonElementCount: count->0,
                        name: name->0,
                        message: message->0,
                        frames: frames->0,
                    },
                )
            } else {
                None
            }
        },
        _ => None,
    }
}

/// The optional cause of a cause.
pub open spec fn sub_cause_field(members: Seq<(Seq<char>, JsonModel)>) -> Option<
    Option<SubCauseView>,
> {
    let value = member(members, "cause"@);
    if left_out(value) {
        Some(None)
    } else {
        match decode_sub_cause(value->0) {
            Some(sub) => Some(Some(sub)),
            None => None,
        }
    }
}

/// The cause of an exception.
pub open spec fn decode_cause(value: JsonModel) -> Option<CauseView> {
    match value {
        JsonModel::Object(m) => {
            let count = integer_field(m, "commonElementCount"@, 0, u32::MAX as int);
            let name = text_field(m, "name"@);
            let message = text_field(m, "message"@);
            let frames = frames_field(m, "extendedStackTrace"@);
            let cause = sub_cause_field(m);
            if count is Some && name is Some && message is Some && frames is Some && cause is Some {
                Some(
                    CauseView {
                        commonElementCount: count->0,
                        name: name->0,
                        message: message->0,
                        frames: frames->0,
                        cause: cause->0,
                    },
                )
            } else {
                None
            }
        },
        _ => None,
    }
}

/// The optional cause of an exception.
pub open spec fn cause_field(members: Seq<(Seq<char>, JsonModel)>) -> Option<Option<CauseView>> {
    let value = member(members, "cause"@);
    if left_out(value) {
        Some(None)
    } else {
        match decode_cause(value->0) {
            Some(cause) => Some(Some(cause)),
            None => None,
        }
    }
}

/// The exception that a record carries.
pub open spec fn decode_thrown(value: JsonModel) -> Option<ThrownView> {
    match value {
        JsonModel::Object(m) => {
            let count = integer_field(m, "commonElementCount"@, 0, u32::MAX as int);
            let name = text_field(m, "name"@);
            let message = optional_text_field(m, "message"@);
            let frames = frames_field(m, "extendedStackTrace"@);
            let cause = cause_field(m);
            if count is Some && name is Some && message is Some && frames is Some && cause is Some {
                Some(
                    ThrownView {
                        commonElementCount: count->0,
                        name: name->0,
                        message: message->0,
                        frames: frames->0,
                        cause: cause->0,
                    },
                )
            } else {
                None
            }
        },
        _ => None,
    }
}

/// The optional exception of a record.
pub open spec fn thrown_field(members: Seq<(Seq<char>, JsonModel)>) -> Option<Option<ThrownView>> {
    let value = member(members, "thrown"@);
    if left_out(value) {
        Some(None)
    } else {
        match decode_thrown(value->0) {
            Some(thrown) => Some(Some(thrown)),
            None => None,
        }
    }
}

/// The moment of a record: an object with its second and its nanosecond.
pub open spec fn instant_field(members: Seq<(Seq<char>, JsonModel)>) -> Option<Instant> {
    match member(members, "instant"@) {
        Some(JsonModel::Object(m)) => {
            let second = integer_field(m, "epochSecond"@, i64::MIN as int, i64::MAX as int);
            let nano = integer_field(m, "nanoOfSecond"@, i64::MIN as int, i64::MAX as int);
            if second is Some && nano is Some {
                Some(Instant { epochSecond: second->0 as i64, nanoOfSecond: nano->0 as i64 })
            } else {
                None
            }
        },
        _ => None,
    }
}

/// The text of a value, if it is one.
pub open spec fn text_of_value(value: JsonModel) -> Option<Seq<char>> {
    match value {
        JsonModel::Text(s) => Some(s),
        _ => None,
    }
}

/// The optional context map of a record: an object whose values all are
/// texts. A map that is left out has no entries.
pub open spec fn context_field(members: Seq<(Seq<char>, JsonModel)>) -> Option<
    Seq<(Seq<char>, Seq<char>)>,
> {
    match member(members, "contextMap"@) {
        Some(JsonModel::Object(m)) => if forall|i: int|
            0 <= i < m.len() ==> (#[trigger] text_of_value(m[i].1)) is Some {
            Some(m.map_values(|e: (Seq<char>, JsonModel)| (e.0, text_of_value(e.1)->0)))
        } else {
            None
        },
        other => if left_out(other) {
            Some(Seq::empty())
        } else {
            None
        },
    }
}

/// The record that a document holds: an object with every required member
/// of the right kind, every optional member of the right kind or left out,
/// and a moment that the calendar can represent. Members that the record
/// does not know are not read.
pub open spec fn decode_record(doc: JsonModel) -> Option<LogRecord> {
    match doc {
        JsonModel::Object(m) => {
            let time = optional_integer_field(m, "timeMillis"@, 0, u64::MAX as int);
            let thread = text_field(m, "thread"@);
            let level = text_field(m, "level"@);
            let logger = text_field(m, "loggerName"@);
            let message = text_field(m, "message"@);
            let thrown = thrown_field(m);
            let thread_id = integer_field(m, "threadId"@, i32::MIN as int, i32::MAX as int);
            let priority = integer_field(m, "threadPriority"@, 0, u32::MAX as int);
            let end = bool_field(m, "endOfBatch"@);
            let fqcn = text_field(m, "loggerFqcn"@);
            let instant = instant_field(m);
            let context = context_field(m);
            if time is Some && thread is Some && level is Some && logger is Some && message is Some
                && thrown is Some && thread_id is Some && priority is Some && end is Some
                && fqcn is Some && instant is Some && context is Some && calendar_text(
                instant->0.epochSecond as int,
            ) is Some {
                Some(
                    LogRecord {
                        timeMillis: time->0,
                        thread: thread->0,
                        level: level->0,
                        loggerName: logger->0,
                        message: message->0,
                        thrown: thrown->0,
                        threadId: thread_id->0,
                        threadPriority: priority->0,
                        endOfBatch: end->0,
                        loggerFqcn: fqcn->0,
                        instant: Some(instant->0),
                        contextMap: context->0,
                    },
                )
            } else {
                None
            }
        },
        _ => None,
    }
}

/// The record that a line holds: the line is one JSON document, and the
/// document holds a record.
pub open spec fn parse_record(line: Seq<char>) -> Option<LogRecord> {
    match json_document(line) {
        Some(doc) => decode_record(doc),
        None => None,
    }
}

/// Looks a member up by its name.
fn find<'a>(members: &'a Vec<(String, JsonValue)>, key: &str) -> (found: Option<&'a JsonValue>)
    ensures
        match found {
            Some(value) => member(members_of(members@), key@) == Some(value@),
            None => member(members_of(members@), key@) is None,
        },
{
    let ghost all = members_of(members@);
    let mut i: usize = 0;
    assert(all.skip(0) =~= all);
    while i < members.len()
        invariant
            i <= members.len(),
            all == members_of(members@),
            member(all, key@) == member(all.skip(i as int), key@),
        decreases members.len() - i,
    {
        assert(all.skip(i as int)[0] == all[i as int]);
        if *members[i].0.as_str() == *key {
            return Some(&members[i].1);
        }
        assert(all.skip(i as int).drop_first() =~= all.skip(i + 1));
        i += 1;
    }
    None
}

fn get_text(members: &Vec<(String, JsonValue)>, key: &str) -> (text: Option<String>)
    ensures
        opt_text(text) == text_field(members_of(members@), key@),
{
    match find(members, key) {
        Some(JsonValue::Text(s)) => Some(s.clone()),
        _ => None,
    }
}

fn get_optional_text(members: &Vec<(String, JsonValue)>, key: &str) -> (text: Option<
    Option<String>,
>)
    ensures
        match text {
            Some(t) => optional_text_field(members_of(members@), key@) == Some(opt_text(t)),
            None => optional_text_field(members_of(members@), key@) is None,
        },
{
    match find(members, key) {
        Some(JsonValue::Text(s)) => Some(Some(s.clone())),
        Some(JsonValue::Null) => Some(None),
        None => Some(None),
        _ => None,
    }
}

/// The integer of a value, if it is one.
fn integer_value(value: &JsonValue) -> (n: Option<i128>)
    ensures
        match n {
            Some(i) => value@ == JsonModel::Number(Some(i as int)),
            None => !(value@ matches JsonModel::Number(Some(_))),
        },
{
    match value {
        JsonValue::Number(Some(i), _) => Some(*i as i128),
        JsonValue::Number(None, Some(u)) => Some(*u as i128),
        _ => None,
    }
}

fn get_integer(members: &Vec<(String, JsonValue)>, key: &str, low: i128, high: i128) -> (n: Option<
    i128,
>)
    ensures
        match n {
            Some(i) => low <= i <= high && integer_field(
                members_of(members@),
                key@,
                low as int,
                high as int,
            ) == Some(i as int),
            None => integer_field(members_of(members@), key@, low as int, high as int) is None,
        },
{
    match find(members, key) {
        Some(value) => match integer_value(value) {
            Some(i) => if low <= i && i <= high {
                Some(i)
            } else {
                None
            },
            None => None,
        },
        None => None,
    }
}

fn get_bool(members: &Vec<(String, JsonValue)>, key: &str) -> (b: Option<bool>)
    ensures
        b == bool_field(members_of(members@), key@),
{
    match find(members, key) {
        Some(JsonValue::Bool(b)) => Some(*b),
        _ => None,
    }
}

/// Decodes one stack frame.
fn trace_of(value: &JsonValue) -> (frame: Option<Trace>)
    ensures
        match frame {
            Some(t) => decode_frame(value@) == Some(t@),
            None => decode_frame(value@) is None,
        },
{
    let m = match value {
        JsonValue::Object(m) => m,
        _ => { return None; },
    };
    proof {
        lemma_object_view(*m);
    }
    let class = match get_text(m, "class") {
        Some(t) => t,
        None => { return None; },
    };
    let method = match get_text(m, "method") {
        Some(t) => t,
        None => { return None; },
    };
    let file = match get_optional_text(m, "file") {
        Some(t) => t,
        None => { return None; },
    };
    let line = match get_integer(m, "line", i32::MIN as i128, i32::MAX as i128) {
        Some(n) => n as i32,
        None => { return None; },
    };
    let exact = match get_bool(m, "exact") {
        Some(b) => b,
        None => { return None; },
    };
    let location = match get_text(m, "location") {
        Some(t) => t,
        None => { return None; },
    };
    let version = match get_text(m, "version") {
        Some(t) => t,
        None => { return None; },
    };
    Some(Trace { class, method, file, line, exact, location, version })
}

/// Decodes a required stack trace.
fn get_frames(members: &Vec<(String, JsonValue)>, key: &str) -> (frames: Option<Vec<Trace>>)
    ensures
        match frames {
            Some(f) => frames_field(members_of(members@), key@) == Some(frames_of(f@)),
            None => frames_field(members_of(members@), key@) is None,
        },
{
    let items = match find(members, key) {
        Some(JsonValue::List(items)) => items,
        _ => { return None; },
    };
    proof {
        lemma_list_view(*items);
    }
    let ghost models = items_of(items@);
    let mut frames: Vec<Trace> = Vec::new();
    let mut i: usize = 0;
    while i < items.len()
        invariant
            i <= items.len(),
            models == items_of(items@),
            member(members_of(members@), key@) == Some(JsonModel::List(models)),
            frames@.len() == i,
            forall|k: int| 0 <= k < i ==> decode_frame(models[k]) == Some(#[trigger] frames@[k]@),
        decreases items.len() - i,
    {
        match trace_of(&items[i]) {
            Some(frame) => frames.push(frame),
            None => {
                assert(decode_frame(models[i as int]) is None);
                return None;
            },
        }
        i += 1;
    }
    proof {
        assert forall|k: int| 0 <= k < models.len() implies (#[trigger] decode_frame(
            models[k],
        )) is Some by {
            assert(decode_frame(models[k]) == Some(frames@[k]@));
        }
        assert(frames_of(frames@) =~= models.map_values(|item: JsonModel| decode_frame(item)->0));
    }
    Some(frames)
}

/// Decodes the cause of a cause.
fn sub_cause_of(value: &JsonValue) -> (sub: Option<SubCause>)
    ensures
        match sub {
            Some(c) => decode_sub_cause(value@) == Some(c@),
            None => decode_sub_cause(value@) is None,
        },
{
    let m = match value {
        JsonValue::Object(m) => m,
        _ => { return None; },
    };
    proof {
        lemma_object_view(*m);
    }
    let count = match get_integer(m, "commonElementCount", 0, u32::MAX as i128) {
        Some(n) => n as u32,
        None => { return None; },
    };
    let name = match get_text(m, "name") {
        Some(t) => t,
        None => { return None; },
    };
    let message = match get_text(m, "message") {
        Some(t) => t,
        None => { return None; },
    };
    let frames = match get_frames(m, "extendedStackTrace") {
        Some(f) => f,
        None => { return None; },
    };
    Some(SubCause { commonElementCount: count, name, message, extendedStackTrace: frames })
}

/// Decodes the optional cause of a cause.
fn get_sub_cause(members: &Vec<(String, JsonValue)>) -> (sub: Option<Option<SubCause>>)
    ensures
        match sub {
            Some(Some(c)) => sub_cause_field(members_of(members@)) == Some(Some(c@)),
            Some(None) => sub_cause_field(members_of(members@)) == Some(None::<SubCauseView>),
            None => sub_cause_field(members_of(members@)) is None,
        },
{
    match find(members, "cause") {
        None => Some(None),
        Some(JsonValue::Null) => Some(None),
        Some(value) => match sub_cause_of(value) {
            Some(c) => Some(Some(c)),
            None => None,
        },
    }
}

/// Decodes the cause of an exception.
fn cause_of(value: &JsonValue) -> (cause: Option<Cause>)
    ensures
        match cause {
            Some(c) => decode_cause(value@) == Some(c@),
            None => decode_cause(value@) is None,
        },
{
    let m = match value {
        JsonValue::Object(m) => m,
        _ => { return None; },
    };
    proof {
        lemma_object_view(*m);
    }
    let count = match get_integer(m, "commonElementCount", 0, u32::MAX as i128) {
        Some(n) => n as u32,
        None => { return None; },
    };
    let name = match get_text(m, "name") {
        Some(t) => t,
        None => { return None; },
    };
    let message = match get_text(m, "message") {
        Some(t) => t,
        None => { return None; },
    };
    let frames = match get_frames(m, "extendedStackTrace") {
        Some(f) => f,
        None => { return None; },
    };
    let cause = match get_sub_cause(m) {
        Some(c) => c,
        None => { return None; },
    };
    Some(Cause { commonElementCount: count, name, message, extendedStackTrace: frames, cause })
}

/// Decodes the optional cause of an exception.
fn get_cause(members: &Vec<(String, JsonValue)>) -> (cause: Option<Option<Cause>>)
    ensures
        match cause {
            Some(Some(c)) => cause_field(members_of(members@)) == Some(Some(c@)),
            Some(None) => cause_field(members_of(members@)) == Some(None::<CauseView>),
            None => cause_field(members_of(members@)) is None,
        },
{
    match find(members, "cause") {
        None => Some(None),
        Some(JsonValue::Null) => Some(None),
        Some(value) => match cause_of(value) {
            Some(c) => Some(Some(c)),
            None => None,
        },
    }
}

/// Decodes the exception that a record carries.
fn thrown_of(value: &JsonValue) -> (thrown: Option<Thrown>)
    ensures
        match thrown {
            Some(t) => decode_thrown(value@) == Some(t@),
            None => decode_thrown(value@) is None,
        },
{
    let m = match value {
        JsonValue::Object(m) => m,
        _ => { return None; },
    };
    proof {
        lemma_object_view(*m);
    }
    let count = match get_integer(m, "commonElementCount", 0, u32::MAX as i128) {
        Some(n) => n as u32,
        None => { return None; },
    };
    let name = match get_text(m, "name") {
        Some(t) => t,
        None => { return None; },
    };
    let message = match get_optional_text(m, "message") {
        Some(t) => t,
        None => { return None; },
    };
    let frames = match get_frames(m, "extendedStackTrace") {
        Some(f) => f,
        None => { return None; },
    };
    let cause = match get_cause(m) {
        Some(c) => c,
        None => { return None; },
    };
    Some(Thrown { commonElementCount: count, name, message, extendedStackTrace: frames, cause })
}

/// Decodes the optional exception of a record.
fn get_thrown(members: &Vec<(String, JsonValue)>) -> (thrown: Option<Option<Thrown>>)
    ensures
        match thrown {
            Some(Some(t)) => thrown_field(members_of(members@)) == Some(Some(t@)),
            Some(None) => thrown_field(members_of(members@)) == Some(None::<ThrownView>),
            None => thrown_field(members_of(members@)) is None,
        },
{
    match find(members, "thrown") {
        None => Some(None),
        Some(JsonValue::Null) => Some(None),
        Some(value) => match thrown_of(value) {
            Some(t) => Some(Some(t)),
            None => None,
        },
    }
}

/// Decodes the moment of a record.
fn get_instant(members: &Vec<(String, JsonValue)>) -> (instant: Option<Instant>)
    ensures
        instant == instant_field(members_of(members@)),
{
    let m = match find(members, "instant") {
        Some(JsonValue::Object(m)) => m,
        _ => { return None; },
    };
    proof {
        lemma_object_view(*m);
    }
    let second = match get_integer(m, "epochSecond", i64::MIN as i128, i64::MAX as i128) {
        Some(n) => n as i64,
        None => { return None; },
    };
    let nano = match get_integer(m, "nanoOfSecond", i64::MIN as i128, i64::MAX as i128) {
        Some(n) => n as i64,
        None => { return None; },
    };
    Some(Instant { epochSecond: second, nanoOfSecond: nano })
}

/// Decodes the optional context map of a record.
fn get_context(members: &Vec<(String, JsonValue)>) -> (context: Option<
    Option<Vec<(String, String)>>,
>)
    ensures
        match context {
            Some(Some(e)) => context_field(members_of(members@)) == Some(entries_of(e@)),
            Some(None) => context_field(members_of(members@)) == Some(
                Seq::<(Seq<char>, Seq<char>)>::empty(),
            ),
            None => context_field(members_of(members@)) is None,
        },
{
    let m = match find(members, "contextMap") {
        None => { return Some(None); },
        Some(JsonValue::Null) => { return Some(None); },
        Some(JsonValue::Object(m)) => m,
        _ => { return None; },
    };
    proof {
        lemma_object_view(*m);
    }
    let ghost models = members_of(m@);
    let mut entries: Vec<(String, String)> = Vec::new();
    let mut i: usize = 0;
    while i < m.len()
        invariant
            i <= m.len(),
            models == members_of(m@),
            member(members_of(members@), "contextMap"@) == Some(JsonModel::Object(models)),
            entries@.len() == i,
            forall|k: int|
                0 <= k < i ==> models[k].0 == (#[trigger] entries@[k]).0@ && text_of_value(
                    models[k].1,
                ) == Some(entries@[k].1@),
        decreases m.len() - i,
    {
        match &m[i].1 {
            JsonValue::Text(value) => entries.push((m[i].0.clone(), value.clone())),
            _ => {
                assert(text_of_value(models[i as int].1) is None);
                return None;
            },
        }
        i += 1;
    }
    proof {
        assert forall|k: int| 0 <= k < models.len() implies (#[trigger] text_of_value(
            models[k].1,
        )) is Some by {
            assert(text_of_value(models[k].1) == Some(entries@[k].1@));
        }
        assert(entries_of(entries@) =~= models.map_values(
            |e: (Seq<char>, JsonModel)| (e.0, text_of_value(e.1)->0),
        ));
    }
    Some(Some(entries))
}

/// Decodes the record that a document holds.
pub fn record_of(doc: &JsonValue) -> (record: Option<JSONMessage>)
    ensures
        match record {
            Some(rec) => decode_record(doc@) == Some(rec@) && rec.well_formed(),
            None => decode_record(doc@) is None,
        },
{
    let m = match doc {
        JsonValue::Object(m) => m,
        _ => { return None; },
    };
    proof {
        lemma_object_view(*m);
    }
    let time = match find(m, "timeMillis") {
        None => None,
        Some(JsonValue::Null) => None,
        Some(value) => match integer_value(value) {
            Some(n) => if 0 <= n && n <= u64::MAX as i128 {
                Some(n as u64)
            } else {
                return None;
            },
            None => { return None; },
        },
    };
    let thread = match get_text(m, "thread") {
        Some(t) => t,
        None => { return None; },
    };
    let level = match get_text(m, "level") {
        Some(t) => t,
        None => { return None; },
    };
    let logger = match get_text(m, "loggerName") {
        Some(t) => t,
        None => { return None; },
    };
    let message = match get_text(m, "message") {
        Some(t) => t,
        None => { return None; },
    };
    let thrown = match get_thrown(m) {
        Some(t) => t,
        None => { return None; },
    };
    let thread_id = match get_integer(m, "threadId", i32::MIN as i128, i32::MAX as i128) {
        Some(n) => n as i32,
        None => { return None; },
    };
    let priority = match get_integer(m, "threadPriority", 0, u32::MAX as i128) {
        Some(n) => n as u32,
        None => { return None; },
    };
    let end = match get_bool(m, "endOfBatch") {
        Some(b) => b,
        None => { return None; },
    };
    let fqcn = match get_text(m, "loggerFqcn") {
        Some(t) => t,
        None => { return None; },
    };
    let instant = match get_instant(m) {
        Some(i) => i,
        None => { return None; },
    };
    let context = match get_context(m) {
        Some(c) => c,
        None => { return None; },
    };
    if format_timestamp(instant.epochSecond).is_none() {
        return None;
    }
    Some(
        JSONMessage {
            timeMillis: time,
            thread,
            level,
            loggerName: logger,
            message,
            thrown,
            threadId: thread_id,
            threadPriority: priority,
            endOfBatch: end,
            loggerFqcn: fqcn,
            instant: Some(instant),
            contextMap: context,
        },
    )
}

/// Why a line holds no record, where it holds none.
pub open spec fn warning_of(line: Seq<char>) -> ParseWarning {
    if json_document(line) is None {
        ParseWarning::MalformedJson
    } else {
        ParseWarning::NotARecord
    }
}

/// Reads one line of input that came from `stream` of `group`. Where the
/// line holds a record, the result is that record; else it is the line
/// itself, unchanged, with the reason. No line is lost and none fails.
pub fn parse(line: &str, group: &str, stream: &str) -> (parsed: Parsed)
    ensures
        parsed.well_formed(),
        match parsed {
            Parsed::Record { record, group: g, stream: s } => {
                &&& parse_record(line@) == Some(record@)
                &&& g@ == group@
                &&& s@ == stream@
            },
            Parsed::Raw(raw) => {
                &&& parse_record(line@) is None
                &&& raw.text@ == line@
                &&& raw.group@ == group@
                &&& raw.stream@ == stream@
                &&& raw.warning == warning_of(line@)
            },
        },
{
    let warning = match read_document(line) {
        Some(doc) => match record_of(&doc) {
            Some(record) => {
                return Parsed::Record {
                    record,
                    group: group.to_owned(),
                    stream: stream.to_owned(),
                };
            },
            None => ParseWarning::NotARecord,
        },
        None => ParseWarning::MalformedJson,
    };
    Parsed::Raw(
        RawPassthrough {
            text: line.to_owned(),
            group: group.to_owned(),
            stream: stream.to_owned(),
            warning,
        },
    )
}

/// The cause of a cause is read from four of its members alone: two
/// objects that agree on them decode alike, whatever else they hold. What
/// an input records as the cause of a second cause is therefore dropped.
pub proof fn lemma_deeper_cause_is_dropped(
    a: Seq<(Seq<char>, JsonModel)>,
    b: Seq<(Seq<char>, JsonModel)>,
)
    requires
        member(a, "commonElementCount"@) == member(b, "commonElementCount"@),
        member(a, "name"@) == member(b, "name"@),
        member(a, "message"@) == member(b, "message"@),
        member(a, "extendedStackTrace"@) == member(b, "extendedStackTrace"@),
    ensures
        decode_sub_cause(JsonModel::Object(a)) == decode_sub_cause(JsonModel::Object(b)),
{
}

/// A line that is no JSON document holds no record.
pub proof fn lemma_malformed_line_holds_no_record(line: Seq<char>)
    requires
        json_document(line) is None,
    ensures
        parse_record(line) is None,
        warning_of(line) == ParseWarning::MalformedJson,
{
}

} // verus!
