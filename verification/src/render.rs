//! Renders a decoded log line as text: a header, the context map, and the
//! exception with its causes.

use vstd::prelude::*;
use crate::calendar::format_timestamp;
use crate::color::{color_str, color_text, severity_color, severity_color_of, Color};
use crate::json::{JSONMessage, LogRecord, StackFrame, ThrownView, Trace};
use crate::json::{entries_of, frames_of, logged_at, Thrown};
use crate::parser::{parse, parse_record, Parsed};
use crate::text::{decimal_text, has_substring, occurs_at, push_decimal};

verus! {

/// The pieces of a text laid end to end.
pub open spec fn concat_all(pieces: Seq<Seq<char>>) -> Seq<char>
    decreases pieces.len(),
{
    if pieces.len() == 0 {
        Seq::empty()
    } else {
        concat_all(pieces.drop_last()) + pieces.last()
    }
}

/// The header of a record: where it came from, when, on which thread, its
/// level, its logger and its message. The level and the message are shown
/// in the colour of the record's severity.
pub open spec fn header_text(
    group: Seq<char>,
    stream: Seq<char>,
    when: Seq<char>,
    rec: LogRecord,
    colored: bool,
) -> Seq<char> {
    color_text(colored, Color::Reset) + group + " "@ + stream + " -- "@ + when + " ["@ + rec.thread
        + "] "@ + color_text(colored, severity_color_of(rec.level)) + rec.level + color_text(
        colored,
        Color::Reset,
    ) + " "@ + rec.loggerName + " "@ + color_text(colored, severity_color_of(rec.level))
        + rec.message + color_text(colored, Color::Reset)
}

/// The line that shows one entry of the context map.
pub open spec fn context_line(entry: (Seq<char>, Seq<char>)) -> Seq<char> {
    "\t "@ + entry.0 + " = "@ + entry.1 + "\n"@
}

/// The lines that show the entries of the context map, one per entry, in
/// the order of the entries.
pub open spec fn context_lines(entries: Seq<(Seq<char>, Seq<char>)>) -> Seq<Seq<char>> {
    entries.map_values(|e: (Seq<char>, Seq<char>)| context_line(e))
}

/// The context section: nothing for an empty map, else a title line and the
/// entries' lines.
pub open spec fn context_text(entries: Seq<(Seq<char>, Seq<char>)>) -> Seq<char> {
    if entries.len() == 0 {
        Seq::empty()
    } else {
        "Context map: \n"@ + concat_all(context_lines(entries))
    }
}

/// The line that shows one stack frame.
pub open spec fn frame_line(frame: StackFrame, colored: bool) -> Seq<char> {
    "\t at "@ + color_text(colored, Color::Red) + frame.class + "."@ + frame.method + " ("@ + (
    match frame.file {
        Some(file) => file,
        None => "Unknown"@,
    }) + ":"@ + decimal_text(frame.line) + ") ["@ + frame.location + "]"@ + color_text(
        colored,
        Color::Reset,
    ) + "\n"@
}

/// The lines that show the frames of one stack trace.
pub open spec fn frame_lines(frames: Seq<StackFrame>, colored: bool) -> Seq<Seq<char>> {
    frames.map_values(|f: StackFrame| frame_line(f, colored))
}

/// The section of the exception that a record carries.
pub open spec fn thrown_section(thrown: ThrownView, colored: bool) -> Seq<char> {
    "Stacktrace: "@ + thrown.name + " - "@ + (match thrown.message {
        Some(message) => message,
        None => "none"@,
    }) + "\n"@ + concat_all(frame_lines(thrown.frames, colored))
}

/// The section of a cause, of either level.
pub open spec fn cause_section(
    name: Seq<char>,
    message: Seq<char>,
    frames: Seq<StackFrame>,
    colored: bool,
) -> Seq<char> {
    "Caused by: "@ + name + " - "@ + message + "\n"@ + concat_all(frame_lines(frames, colored))
}

/// The stack sections of an exception: its own, then one for its cause and
/// one for the cause of that cause, as far as they exist.
pub open spec fn stack_sections(thrown: ThrownView, colored: bool) -> Seq<Seq<char>> {
    let root = seq![thrown_section(thrown, colored)];
    match thrown.cause {
        None => root,
        Some(cause) => {
            let two = root.push(cause_section(cause.name, cause.message, cause.frames, colored));
            match cause.cause {
                None => two,
                Some(sub) => two.push(cause_section(sub.name, sub.message, sub.frames, colored)),
            }
        },
    }
}

/// The stack part of a rendered record.
pub open spec fn stack_text(thrown: Option<ThrownView>, colored: bool) -> Seq<char> {
    match thrown {
        None => Seq::empty(),
        Some(t) => concat_all(stack_sections(t, colored)),
    }
}

/// Whether a record passes the level filter: the filter is `ALL`, or it is
/// the record's own level.
pub open spec fn level_passes(filter: Seq<char>, level: Seq<char>) -> bool {
    filter == "ALL"@ || filter == level
}

/// What a record renders to when its timestamp reads `when`: nothing where
/// the level filter rejects it, else the header, the context section and
/// the stack sections.
pub open spec fn record_text(
    rec: LogRecord,
    group: Seq<char>,
    stream: Seq<char>,
    when: Seq<char>,
    filter: Seq<char>,
    colored: bool,
) -> Seq<char> {
    if level_passes(filter, rec.level) {
        header_text(group, stream, when, rec, colored) + context_text(rec.contextMap) + stack_text(
            rec.thrown,
            colored,
        )
    } else {
        Seq::empty()
    }
}

/// What a line that could not be decoded renders to: its origin and the
/// line itself, whatever the level filter.
pub open spec fn raw_text(group: Seq<char>, stream: Seq<char>, line: Seq<char>) -> Seq<char> {
    group + " "@ + stream + " -- "@ + line
}

proof fn lemma_concat_step(pieces: Seq<Seq<char>>, i: int)
    requires
        0 <= i < pieces.len(),
    ensures
        concat_all(pieces.take(i + 1)) == concat_all(pieces.take(i)) + pieces[i],
{
    assert(pieces.take(i + 1).drop_last() =~= pieces.take(i));
}

/// The line that shows one entry of the context map.
fn context_entry(key: &str, value: &str) -> (line: String)
    ensures
        line@ == context_line((key@, value@)),
{
    let mut line = "\t ".to_owned();
    line.append(key);
    line.append(" = ");
    line.append(value);
    line.append("\n");
    line
}

/// Appends the context section of a record.
fn push_context(out: &mut String, entries: &Vec<(String, String)>)
    ensures
        final(out)@ == old(out)@ + context_text(entries_of(entries@)),
{
    let ghost lines = context_lines(entries_of(entries@));
    if entries.len() > 0 {
        let mut section = "Context map: \n".to_owned();
        let mut i: usize = 0;
        assert(section@ =~= "Context map: \n"@ + concat_all(lines.take(0)));
        while i < entries.len()
            invariant
                i <= entries.len(),
                lines == context_lines(entries_of(entries@)),
                section@ == "Context map: \n"@ + concat_all(lines.take(i as int)),
            decreases entries.len() - i,
        {
            let line = context_entry(entries[i].0.as_str(), entries[i].1.as_str());
            proof {
                lemma_concat_step(lines, i as int);
            }
            section.append(line.as_str());
            assert(section@ =~= "Context map: \n"@ + concat_all(lines.take(i + 1)));
            i += 1;
        }
        assert(lines.take(lines.len() as int) =~= lines);
        out.append(section.as_str());
    } else {
        assert(out@ =~= old(out)@ + context_text(entries_of(entries@)));
    }
}

/// The line that shows one stack frame.
fn frame_entry(frame: &Trace, colored: bool) -> (line: String)
    ensures
        line@ == frame_line(frame@, colored),
{
    let mut line = "\t at ".to_owned();
    line.append(color_str(colored, Color::Red).as_str());
    line.append(frame.class.as_str());
    line.append(".");
    line.append(frame.method.as_str());
    line.append(" (");
    match &frame.file {
        Some(file) => line.append(file.as_str()),
        None => line.append("Unknown"),
    }
    line.append(":");
    push_decimal(&mut line, frame.line);
    line.append(") [");
    line.append(frame.location.as_str());
    line.append("]");
    line.append(color_str(colored, Color::Reset).as_str());
    line.append("\n");
    line
}

/// Appends the lines of one stack trace.
fn push_frames(out: &mut String, frames: &Vec<Trace>, colored: bool)
    ensures
        final(out)@ == old(out)@ + concat_all(frame_lines(frames_of(frames@), colored)),
{
    let ghost lines = frame_lines(frames_of(frames@), colored);
    let mut block = String::new();
    let mut i: usize = 0;
    assert(block@ =~= concat_all(lines.take(0)));
    while i < frames.len()
        invariant
            i <= frames.len(),
            lines == frame_lines(frames_of(frames@), colored),
            block@ == concat_all(lines.take(i as int)),
        decreases frames.len() - i,
    {
        let line = frame_entry(&frames[i], colored);
        proof {
            lemma_concat_step(lines, i as int);
        }
        block.append(line.as_str());
        i += 1;
    }
    assert(lines.take(lines.len() as int) =~= lines);
    out.append(block.as_str());
}

/// The section of the exception that a record carries.
fn thrown_entry(thrown: &Thrown, colored: bool) -> (section: String)
    ensures
        section@ == thrown_section(thrown@, colored),
{
    let mut section = "Stacktrace: ".to_owned();
    section.append(thrown.name.as_str());
    section.append(" - ");
    match &thrown.message {
        Some(message) => section.append(message.as_str()),
        None => section.append("none"),
    }
    section.append("\n");
    push_frames(&mut section, &thrown.extendedStackTrace, colored);
    section
}

/// The section of a cause, of either level.
fn cause_entry(name: &str, message: &str, frames: &Vec<Trace>, colored: bool) -> (section: String)
    ensures
        section@ == cause_section(name@, message@, frames_of(frames@), colored),
{
    let mut section = "Caused by: ".to_owned();
    section.append(name);
    section.append(" - ");
    section.append(message);
    section.append("\n");
    push_frames(&mut section, frames, colored);
    section
}

proof fn lemma_concat_one(a: Seq<char>)
    ensures
        concat_all(seq![a]) == a,
{
    assert(seq![a].drop_last() =~= Seq::<Seq<char>>::empty());
    assert(concat_all(Seq::<Seq<char>>::empty()) =~= Seq::<char>::empty());
    assert(concat_all(seq![a]) =~= a);
}

proof fn lemma_concat_push(pieces: Seq<Seq<char>>, a: Seq<char>)
    ensures
        concat_all(pieces.push(a)) == concat_all(pieces) + a,
{
    assert(pieces.push(a).drop_last() =~= pieces);
}

/// Appends the stack sections of an exception.
fn push_stack(out: &mut String, thrown: &Thrown, colored: bool)
    ensures
        final(out)@ == old(out)@ + stack_text(Some(thrown@), colored),
{
    let mut stack = thrown_entry(thrown, colored);
    let ghost root = seq![thrown_section(thrown@, colored)];
    proof {
        lemma_concat_one(thrown_section(thrown@, colored));
    }
    match &thrown.cause {
        None => {},
        Some(cause) => {
            let second = cause_entry(
                cause.name.as_str(),
                cause.message.as_str(),
                &cause.extendedStackTrace,
                colored,
            );
            stack.append(second.as_str());
            proof {
                lemma_concat_push(root, second@);
            }
            match &cause.cause {
                None => {},
                Some(sub) => {
                    let third = cause_entry(
                        sub.name.as_str(),
                        sub.message.as_str(),
                        &sub.extendedStackTrace,
                        colored,
                    );
                    stack.append(third.as_str());
                    proof {
                        lemma_concat_push(root.push(second@), third@);
                    }
                },
            }
        },
    }
    out.append(stack.as_str());
}

/// The header of a record whose timestamp reads `when`.
fn header(group: &str, stream: &str, when: &str, rec: &JSONMessage, colored: bool) -> (line: String)
    ensures
        line@ == header_text(group@, stream@, when@, rec@, colored),
{
    let severity = severity_color(rec.level.as_str());
    let mut line = color_str(colored, Color::Reset);
    line.append(group);
    line.append(" ");
    line.append(stream);
    line.append(" -- ");
    line.append(when);
    line.append(" [");
    line.append(rec.thread.as_str());
    line.append("] ");
    line.append(color_str(colored, severity).as_str());
    line.append(rec.level.as_str());
    line.append(color_str(colored, Color::Reset).as_str());
    line.append(" ");
    line.append(rec.loggerName.as_str());
    line.append(" ");
    line.append(color_str(colored, severity).as_str());
    line.append(rec.message.as_str());
    line.append(color_str(colored, Color::Reset).as_str());
    line
}

/// Whether a record of the given level passes the level filter.
pub fn passes_filter(filter: &str, level: &str) -> (passes: bool)
    ensures
        passes == level_passes(filter@, level@),
{
    *filter == *"ALL" || *filter == *level
}

/// Renders a record whose timestamp reads `when`: the empty text where the
/// level filter rejects it, else its header, its context section and its
/// stack sections.
pub fn render_record_at(
    rec: &JSONMessage,
    group: &str,
    stream: &str,
    when: &str,
    filter: &str,
    nocolor: bool,
) -> (out: String)
    ensures
        out@ == record_text(rec@, group@, stream@, when@, filter@, !nocolor),
{
    if !passes_filter(filter, rec.level.as_str()) {
        return String::new();
    }
    let colored = !nocolor;
    let mut out = header(group, stream, when, rec, colored);
    match &rec.contextMap {
        Some(entries) => push_context(&mut out, entries),
        None => {},
    }
    match &rec.thrown {
        Some(thrown) => push_stack(&mut out, thrown, colored),
        None => {},
    }
    assert(out@ =~= record_text(rec@, group@, stream@, when@, filter@, !nocolor));
    out
}

/// Renders a well-formed record, with its timestamp in calendar form.
pub fn render_record(
    rec: &JSONMessage,
    group: &str,
    stream: &str,
    filter: &str,
    nocolor: bool,
) -> (out: String)
    requires
        rec.well_formed(),
    ensures
        out@ == record_text(rec@, group@, stream@, logged_at(rec@), filter@, !nocolor),
{
    let second: i64 = match &rec.instant {
        Some(instant) => instant.epochSecond,
        None => 0,
    };
    let when = match format_timestamp(second) {
        Some(text) => text,
        None => String::new(),
    };
    render_record_at(rec, group, stream, when.as_str(), filter, nocolor)
}

/// Renders a line that could not be decoded: its origin and the line as it
/// came, whatever the level filter.
pub fn render_raw(group: &str, stream: &str, line: &str) -> (out: String)
    ensures
        out@ == raw_text(group@, stream@, line@),
{
    let mut out = group.to_owned();
    out.append(" ");
    out.append(stream);
    out.append(" -- ");
    out.append(line);
    out
}

/// How a line is shown.
#[derive(Clone, Debug)]
pub struct RenderConfig {
    /// The level to show, or `ALL`.
    pub level: String,
    /// Whether colour is left out.
    pub nocolor: bool,
}

/// What a parsed line renders to.
pub open spec fn parsed_text(input: Parsed, filter: Seq<char>, colored: bool) -> Seq<char> {
    match input {
        Parsed::Record { record, group, stream } => record_text(
            record@,
            group@,
            stream@,
            logged_at(record@),
            filter,
            colored,
        ),
        Parsed::Raw(raw) => raw_text(raw.group@, raw.stream@, raw.text@),
    }
}

/// What a line of input renders to.
pub open spec fn line_text(
    line: Seq<char>,
    group: Seq<char>,
    stream: Seq<char>,
    filter: Seq<char>,
    colored: bool,
) -> Seq<char> {
    match parse_record(line) {
        Some(rec) => record_text(rec, group, stream, logged_at(rec), filter, colored),
        None => raw_text(group, stream, line),
    }
}

/// Renders a parsed line. The empty text means that nothing is to be shown:
/// only a record that the level filter rejects gives it.
pub fn render(input: &Parsed, config: &RenderConfig) -> (out: String)
    requires
        input.well_formed(),
    ensures
        out@ == parsed_text(*input, config.level@, !config.nocolor),
{
    match input {
        Parsed::Record { record, group, stream } => render_record(
            record,
            group.as_str(),
            stream.as_str(),
            config.level.as_str(),
            config.nocolor,
        ),
        Parsed::Raw(raw) => render_raw(raw.group.as_str(), raw.stream.as_str(), raw.text.as_str()),
    }
}

/// What is to be shown of a parsed line: its rendered text, or `None`
/// where the text is empty and the line is suppressed.
pub fn display(input: &Parsed, config: &RenderConfig) -> (shown: Option<String>)
    requires
        input.well_formed(),
    ensures
        match shown {
            Some(text) => text@ == parsed_text(*input, config.level@, !config.nocolor)
                && text@.len() > 0,
            None => parsed_text(*input, config.level@, !config.nocolor).len() == 0,
        },
{
    let text = render(input, config);
    if text.as_str().is_empty() {
        None
    } else {
        Some(text)
    }
}

/// Reads one line that came from `stream` of `group` and renders it: a
/// record by its level, header, context and stack, any other line as it
/// came.
pub fn create_log_string(
    level: String,
    group: String,
    stream: String,
    nocolor: bool,
    line: String,
) -> (out: String)
    ensures
        out@ == line_text(line@, group@, stream@, level@, !nocolor),
{
    let parsed = parse(line.as_str(), group.as_str(), stream.as_str());
    let config = RenderConfig { level, nocolor };
    render(&parsed, &config)
}

/// A record that passes the level filter is shown: its text is not empty
/// and holds the logger's name and the message.
pub proof fn lemma_shown_record_holds(
    rec: LogRecord,
    group: Seq<char>,
    stream: Seq<char>,
    when: Seq<char>,
    filter: Seq<char>,
    colored: bool,
)
    requires
        level_passes(filter, rec.level),
    ensures
        record_text(rec, group, stream, when, filter, colored).len() > 0,
        has_substring(record_text(rec, group, stream, when, filter, colored), rec.loggerName),
        has_substring(record_text(rec, group, stream, when, filter, colored), rec.message),
{
    let out = record_text(rec, group, stream, when, filter, colored);
    let severity = color_text(colored, severity_color_of(rec.level));
    let reset = color_text(colored, Color::Reset);
    let before_logger = reset + group + " "@ + stream + " -- "@ + when + " ["@ + rec.thread + "] "@
        + severity + rec.level + reset + " "@;
    let before_message = before_logger + rec.loggerName + " "@ + severity;
    let rest = reset + context_text(rec.contextMap) + stack_text(rec.thrown, colored);
    assert(out =~= before_message + rec.message + rest);
    assert(out.subrange(before_logger.len() as int, (before_logger.len() + rec.loggerName.len()) as int)
        =~= rec.loggerName);
    assert(occurs_at(out, rec.loggerName, before_logger.len() as int));
    assert(out.subrange(before_message.len() as int, (before_message.len() + rec.message.len()) as int)
        =~= rec.message);
    assert(occurs_at(out, rec.message, before_message.len() as int));
    reveal_strlit(" ");
}

/// A record of the level `WARN` is shown under the filters `ALL` and
/// `WARN`, with its logger's name and its message; under the filter
/// `ERROR` it renders to the empty text.
pub proof fn lemma_warn_filtering(
    line: Seq<char>,
    group: Seq<char>,
    stream: Seq<char>,
    colored: bool,
)
    requires
        parse_record(line) is Some,
        parse_record(line)->0.level == "WARN"@,
    ensures
        line_text(line, group, stream, "ALL"@, colored).len() > 0,
        has_substring(
            line_text(line, group, stream, "ALL"@, colored),
            parse_record(line)->0.loggerName,
        ),
        has_substring(line_text(line, group, stream, "ALL"@, colored), parse_record(line)->0.message),
        line_text(line, group, stream, "WARN"@, colored).len() > 0,
        has_substring(
            line_text(line, group, stream, "WARN"@, colored),
            parse_record(line)->0.loggerName,
        ),
        has_substring(
            line_text(line, group, stream, "WARN"@, colored),
            parse_record(line)->0.message,
        ),
        line_text(line, group, stream, "ERROR"@, colored) == Seq::<char>::empty(),
{
    let rec = parse_record(line)->0;
    lemma_shown_record_holds(rec, group, stream, logged_at(rec), "ALL"@, colored);
    lemma_shown_record_holds(rec, group, stream, logged_at(rec), "WARN"@, colored);
    reveal_strlit("ALL");
    reveal_strlit("WARN");
    reveal_strlit("ERROR");
    assert("ERROR"@.len() != "ALL"@.len());
    assert("ERROR"@.len() != "WARN"@.len());
}

/// A line that holds no record is shown as it came, under every filter:
/// its text ends with the line itself.
pub proof fn lemma_raw_line_is_kept(
    line: Seq<char>,
    group: Seq<char>,
    stream: Seq<char>,
    filter: Seq<char>,
    colored: bool,
)
    requires
        parse_record(line) is None,
    ensures
        line_text(line, group, stream, filter, colored) == raw_text(group, stream, line),
        line_text(line, group, stream, filter, colored).len() >= line.len(),
        line_text(line, group, stream, filter, colored).skip(
            line_text(line, group, stream, filter, colored).len() - line.len(),
        ) == line,
{
    let out = raw_text(group, stream, line);
    assert(out.skip(out.len() - line.len()) =~= line);
}

/// An empty context map, like an absent one, adds nothing to a record's
/// text; any other adds a title and one line for each of its entries, in
/// their order.
pub proof fn lemma_context_lines(rec: JSONMessage)
    ensures
        rec.contextMap is None ==> context_text(rec@.contextMap) == Seq::<char>::empty(),
        rec.contextMap is Some && rec.contextMap->0@.len() == 0 ==> context_text(rec@.contextMap)
            == Seq::<char>::empty(),
        rec.contextMap is Some && rec.contextMap->0@.len() > 0 ==> context_text(rec@.contextMap)
            == "Context map: \n"@ + concat_all(context_lines(rec@.contextMap)),
        rec.contextMap is Some ==> context_lines(rec@.contextMap).len() == rec.contextMap->0@.len(),
        forall|i: int|
            0 <= i < rec@.contextMap.len() ==> (#[trigger] context_lines(rec@.contextMap)[i])
                == context_line(rec@.contextMap[i]),
{
}

/// An exception renders to at most three stack sections: its own, one for
/// its cause and one for the cause of its cause, each only where it
/// exists. With both causes there are exactly three.
pub proof fn lemma_stack_sections(thrown: ThrownView, colored: bool)
    ensures
        1 <= stack_sections(thrown, colored).len() <= 3,
        stack_sections(thrown, colored).len() == 1 <==> thrown.cause is None,
        stack_sections(thrown, colored).len() == 2 <==> thrown.cause is Some
            && thrown.cause->0.cause is None,
        stack_sections(thrown, colored).len() == 3 <==> thrown.cause is Some
            && thrown.cause->0.cause is Some,
        stack_sections(thrown, colored)[0] == thrown_section(thrown, colored),
{
}

} // verus!
