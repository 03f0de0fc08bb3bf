//! The structured log envelope: one record per input line, with an optional
//! exception and its chain of causes.

use vstd::prelude::*;
use crate::calendar::calendar_text;
use crate::text::opt_text;

verus! {

/// One frame of a stack trace.
#[derive(Clone, Debug)]
pub struct Trace {
    pub class: String,
    pub method: String,
    pub file: Option<String>,
    pub line: i32,
    pub exact: bool,
    pub location: String,
    pub version: String,
}

/// The mathematical content of a `Trace`.
pub ghost struct StackFrame {
    pub class: Seq<char>,
    pub method: Seq<char>,
    pub file: Option<Seq<char>>,
    pub line: int,
    pub exact: bool,
    pub location: Seq<char>,
    pub version: Seq<char>,
}

/// The views of the frames of a stack trace, in order.
pub open spec fn frames_of(frames: Seq<Trace>) -> Seq<StackFrame> {
    frames.map_values(|t: Trace| t@)
}

impl View for Trace {
    type V = StackFrame;

    open spec fn view(&self) -> StackFrame {
        StackFrame {
            class: self.class@,
            method: self.method@,
            file: opt_text(self.file),
            line: self.line as int,
            exact: self.exact,
            location: self.location@,
            version: self.version@,
        }
    }
}

/// The second and last cause in a chain: it records no cause of its own.
#[derive(Clone, Debug)]
#[allow(non_snake_case)]
pub struct SubCause {
    pub commonElementCount: u32,
    pub name: String,
    pub message: String,
    pub extendedStackTrace: Vec<Trace>,
}

/// The mathematical content of a `SubCause`.
#[allow(non_snake_case)]
pub ghost struct SubCauseView {
    pub commonElementCount: int,
    pub name: Seq<char>,
    pub message: Seq<char>,
    pub frames: Seq<StackFrame>,
}

impl View for SubCause {
    type V = SubCauseView;

    open spec fn view(&self) -> SubCauseView {
        SubCauseView {
            commonElementCount: self.commonElementCount as int,
            name: self.name@,
            message: self.message@,
            frames: frames_of(self.extendedStackTrace@),
        }
    }
}

/// The direct cause of a thrown exception.
#[derive(Clone, Debug)]
#[allow(non_snake_case)]
pub struct Cause {
    pub commonElementCount: u32,
    pub name: String,
    pub message: String,
    pub extendedStackTrace: Vec<Trace>,
    pub cause: Option<SubCause>,
}

/// The mathematical content of a `Cause`.
#[allow(non_snake_case)]
pub ghost struct CauseView {
    pub commonElementCount: int,
    pub name: Seq<char>,
    pub message: Seq<char>,
    pub frames: Seq<StackFrame>,
    pub cause: Option<SubCauseView>,
}

impl View for Cause {
    type V = CauseView;

    open spec fn view(&self) -> CauseView {
        CauseView {
            commonElementCount: self.commonElementCount as int,
            name: self.name@,
            message: self.message@,
            frames: frames_of(self.extendedStackTrace@),
            cause: match self.cause {
                Some(c) => Some(c@),
                None => None,
            },
        }
    }
}

/// The exception that a record carries: the root of a chain of at most
/// three levels.
#[derive(Clone, Debug)]
#[allow(non_snake_case)]
pub struct Thrown {
    pub commonElementCount: u32,
    pub name: String,
    pub message: Option<String>,
    pub extendedStackTrace: Vec<Trace>,
    pub cause: Option<Cause>,
}

/// The mathematical content of a `Thrown`.
#[allow(non_snake_case)]
pub ghost struct ThrownView {
    pub commonElementCount: int,
    pub name: Seq<char>,
    pub message: Option<Seq<char>>,
    pub frames: Seq<StackFrame>,
    pub cause: Option<CauseView>,
}

impl View for Thrown {
    type V = ThrownView;

    open spec fn view(&self) -> ThrownView {
        ThrownView {
            commonElementCount: self.commonElementCount as int,
            name: self.name@,
            message: opt_text(self.message),
            frames: frames_of(self.extendedStackTrace@),
            cause: match self.cause {
                Some(c) => Some(c@),
                None => None,
            },
        }
    }
}

/// The moment at which a record was logged.
#[derive(Clone, Copy, Debug)]
#[allow(non_snake_case)]
pub struct Instant {
    pub epochSecond: i64,
    pub nanoOfSecond: i64,
}

/// The views of the entries of a context map, in order.
pub open spec fn entries_of(entries: Seq<(String, String)>) -> Seq<(Seq<char>, Seq<char>)> {
    entries.map_values(|e: (String, String)| (e.0@, e.1@))
}

/// One decoded log line.
///
/// `contextMap` keeps its entries in the order of the decoded document; an
/// absent map and an empty one mean the same.
#[derive(Clone, Debug)]
#[allow(non_snake_case)]
pub struct JSONMessage {
    pub timeMillis: Option<u64>,
    pub thread: String,
    pub level: String,
    pub loggerName: String,
    pub message: String,
    pub thrown: Option<Thrown>,
    pub threadId: i32,
    pub threadPriority: u32,
    pub endOfBatch: bool,
    pub loggerFqcn: String,
    pub instant: Option<Instant>,
    pub contextMap: Option<Vec<(String, String)>>,
}

/// The mathematical content of a `JSONMessage`.
#[allow(non_snake_case)]
pub ghost struct LogRecord {
    pub timeMillis: Option<int>,
    pub thread: Seq<char>,
    pub level: Seq<char>,
    pub loggerName: Seq<char>,
    pub message: Seq<char>,
    pub thrown: Option<ThrownView>,
    pub threadId: int,
    pub threadPriority: int,
    pub endOfBatch: bool,
    pub loggerFqcn: Seq<char>,
    pub instant: Option<Instant>,
    pub contextMap: Seq<(Seq<char>, Seq<char>)>,
}

impl View for JSONMessage {
    type V = LogRecord;

    open spec fn view(&self) -> LogRecord {
        LogRecord {
            timeMillis: match self.timeMillis {
                Some(t) => Some(t as int),
                None => None,
            },
            thread: self.thread@,
            level: self.level@,
            loggerName: self.loggerName@,
            message: self.message@,
            thrown: match self.thrown {
                Some(t) => Some(t@),
                None => None,
            },
            threadId: self.threadId as int,
            threadPriority: self.threadPriority as int,
            endOfBatch: self.endOfBatch,
            loggerFqcn: self.loggerFqcn@,
            instant: self.instant,
            contextMap: match self.contextMap {
                Some(m) => entries_of(m@),
                None => Seq::empty(),
            },
        }
    }
}

impl JSONMessage {
    /// A record can be shown when it says when it was logged and the
    /// calendar can represent that moment.
    pub open spec fn well_formed(&self) -> bool {
        match self.instant {
            Some(instant) => calendar_text(instant.epochSecond as int) is Some,
            None => false,
        }
    }
}

/// The calendar form of the moment at which a well-formed record was logged.
pub open spec fn logged_at(rec: LogRecord) -> Seq<char> {
    calendar_text(rec.instant->0.epochSecond as int)->0
}

} // verus!
