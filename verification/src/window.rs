//! The tailer of one log group: a state machine that polls a window of
//! time page by page and, when watching, moves the window forward.
//!
//! The machine decides; its driver does the outside work. The driver hands
//! each event to `step`, carries out the action that comes back, and
//! reports what happened as the next event.

use vstd::prelude::*;
use crate::text::opt_text;

verus! {

/// How far back every query is shifted, in milliseconds, to allow for the
/// time the service takes to index what it has received.
pub const LAG_MILLIS: i64 = 10000;

/// The length of the window, in milliseconds, where no start is known.
pub const DEFAULT_SPAN_MILLIS: i64 = 120000;

/// The pause before each page after the first, in milliseconds.
pub const PAGE_DELAY_MILLIS: u64 = 100;

/// The pause between two windows when watching, in milliseconds.
pub const CYCLE_DELAY_MILLIS: u64 = 2000;

/// The window of time that a tailer reads, in milliseconds since the Unix
/// epoch.
#[derive(Clone, Debug)]
pub struct TailWindow {
    pub group: String,
    pub start_epoch_millis: i64,
    pub end_epoch_millis: i64,
    pub pattern: Option<String>,
    pub watch: bool,
}

/// The mathematical content of a `TailWindow`.
pub ghost struct WindowModel {
    pub group: Seq<char>,
    pub start: int,
    pub end: int,
    pub pattern: Option<Seq<char>>,
    pub watch: bool,
}

impl View for TailWindow {
    type V = WindowModel;

    open spec fn view(&self) -> WindowModel {
        WindowModel {
            group: self.group@,
            start: self.start_epoch_millis as int,
            end: self.end_epoch_millis as int,
            pattern: opt_text(self.pattern),
            watch: self.watch,
        }
    }
}

/// A window can be queried when both of its ends, shifted back by the lag,
/// are still moments that the machine can count.
pub open spec fn window_in_range(w: WindowModel) -> bool {
    &&& i64::MIN + LAG_MILLIS <= w.start <= i64::MAX
    &&& i64::MIN + LAG_MILLIS <= w.end <= i64::MAX
}

/// What became of a date argument.
#[derive(Clone, Copy, Debug, PartialEq, Eq, Structural)]
pub enum DateInput {
    /// The argument was not given.
    Absent,
    /// The argument was given and could not be read as a date.
    Unreadable,
    /// The argument was read as this moment, in milliseconds.
    At(i64),
}

/// One query for a page of events.
#[derive(Clone, Debug)]
pub struct Query {
    pub group: String,
    pub start_time: i64,
    pub end_time: i64,
    pub filter_pattern: Option<String>,
    pub next_token: Option<String>,
}

/// The mathematical content of a `Query`.
pub ghost struct QueryModel {
    pub group: Seq<char>,
    pub start_time: int,
    pub end_time: int,
    pub filter_pattern: Option<Seq<char>>,
    pub next_token: Option<Seq<char>>,
}

impl View for Query {
    type V = QueryModel;

    open spec fn view(&self) -> QueryModel {
        QueryModel {
            group: self.group@,
            start_time: self.start_time as int,
            end_time: self.end_time as int,
            filter_pattern: opt_text(self.filter_pattern),
            next_token: opt_text(self.next_token),
        }
    }
}

/// Where a tailer stands.
#[derive(Clone, Debug)]
pub enum TailState {
    /// The window is not known yet.
    Init { group: String, pattern: Option<String> },
    /// The window is known and its query is to be built.
    Polling { window: TailWindow },
    /// The pages of the window are being fetched; `cursor` leads to the
    /// next page, and is `None` before the first.
    Paginating { window: TailWindow, cursor: Option<String> },
    /// The window is drained and the next one is awaited.
    Sleeping { window: TailWindow },
    /// The one window that was asked for is drained.
    Done,
    /// A query failed.
    Failed,
}

/// The mathematical content of a `TailState`.
pub ghost enum StateModel {
    Init { group: Seq<char>, pattern: Option<Seq<char>> },
    Polling { window: WindowModel },
    Paginating { window: WindowModel, cursor: Option<Seq<char>> },
    Sleeping { window: WindowModel },
    Done,
    Failed,
}

impl View for TailState {
    type V = StateModel;

    open spec fn view(&self) -> StateModel {
        match self {
            TailState::Init { group, pattern } => StateModel::Init {
                group: group@,
                pattern: opt_text(*pattern),
            },
            TailState::Polling { window } => StateModel::Polling { window: window@ },
            TailState::Paginating { window, cursor } => StateModel::Paginating {
                window: window@,
                cursor: opt_text(*cursor),
            },
            TailState::Sleeping { window } => StateModel::Sleeping { window: window@ },
            TailState::Done => StateModel::Done,
            TailState::Failed => StateModel::Failed,
        }
    }
}

/// What the driver reports to the tailer.
#[derive(Clone, Debug)]
pub enum TailEvent {
    /// The date arguments were read, at the moment `now`.
    Resolved { start: DateInput, end: DateInput, now: i64 },
    /// Nothing happened outside: the tailer may go on.
    Tick,
    /// A page arrived and its events were handed on; `next_token` leads to
    /// the page after it, if there is one.
    Page { next_token: Option<String> },
    /// The query failed.
    Failure,
    /// The pause between two windows is over, at the moment `now`.
    Woke { now: i64 },
}

/// The mathematical content of a `TailEvent`.
pub ghost enum EventModel {
    Resolved { start: DateInput, end: DateInput, now: int },
    Tick,
    Page { next_token: Option<Seq<char>> },
    Failure,
    Woke { now: int },
}

impl View for TailEvent {
    type V = EventModel;

    open spec fn view(&self) -> EventModel {
        match self {
            TailEvent::Resolved { start, end, now } => EventModel::Resolved {
                start: *start,
                end: *end,
                now: *now as int,
            },
            TailEvent::Tick => EventModel::Tick,
            TailEvent::Page { next_token } => EventModel::Page { next_token: opt_text(*next_token) },
            TailEvent::Failure => EventModel::Failure,
            TailEvent::Woke { now } => EventModel::Woke { now: *now as int },
        }
    }
}

/// What the tailer asks its driver to do next.
#[derive(Clone, Debug)]
pub enum TailAction {
    /// Read the date arguments and the clock, and report `Resolved`.
    Resolve,
    /// Nothing to do outside: report `Tick`.
    Continue,
    /// Wait `delay_millis`, send the query, hand on each event of the page
    /// as it comes, and report `Page`, or `Failure`.
    Fetch { query: Query, delay_millis: u64 },
    /// Wait `millis`, read the clock, and report `Woke`.
    Sleep { millis: u64 },
    /// The tailer has ended; `failed` tells whether a query failed.
    Stop { failed: bool },
}

/// The mathematical content of a `TailAction`.
pub ghost enum ActionModel {
    Resolve,
    Continue,
    Fetch { query: QueryModel, delay_millis: int },
    Sleep { millis: int },
    Stop { failed: bool },
}

impl View for TailAction {
    type V = ActionModel;

    open spec fn view(&self) -> ActionModel {
        match self {
            TailAction::Resolve => ActionModel::Resolve,
            TailAction::Continue => ActionModel::Continue,
            TailAction::Fetch { query, delay_millis } => ActionModel::Fetch {
                query: query@,
                delay_millis: *delay_millis as int,
            },
            TailAction::Sleep { millis } => ActionModel::Sleep { millis: *millis as int },
            TailAction::Stop { failed } => ActionModel::Stop { failed: *failed },
        }
    }
}

/// The window that the date arguments give at the moment `now`. A given end
/// that was read is the end, else `now` is. A given start that was read is
/// the start, else the start lies the default span before the end. The
/// tailer watches only where neither argument was given.
pub open spec fn resolved_window(
    group: Seq<char>,
    pattern: Option<Seq<char>>,
    start: DateInput,
    end: DateInput,
    now: int,
) -> WindowModel {
    let end_at = match end {
        DateInput::At(v) => v as int,
        _ => now,
    };
    let start_at = match start {
        DateInput::At(v) => v as int,
        _ => end_at - DEFAULT_SPAN_MILLIS,
    };
    WindowModel {
        group,
        start: start_at,
        end: end_at,
        pattern,
        watch: start is Absent && end is Absent,
    }
}

/// The window that follows `w` when watching: it starts where `w` ended and
/// ends at `now`.
pub open spec fn advanced_window(w: WindowModel, now: int) -> WindowModel {
    WindowModel { start: w.end, end: now, ..w }
}

/// The query for one page of a window: both ends shifted back by the lag,
/// the window's pattern, and the cursor.
pub open spec fn query_of(w: WindowModel, cursor: Option<Seq<char>>) -> QueryModel {
    QueryModel {
        group: w.group,
        start_time: w.start - LAG_MILLIS,
        end_time: w.end - LAG_MILLIS,
        filter_pattern: w.pattern,
        next_token: cursor,
    }
}

/// Whether a tailer has ended.
pub open spec fn is_terminal(state: StateModel) -> bool {
    state is Done || state is Failed
}

/// Every window that a state holds can be queried.
pub open spec fn state_in_range(state: StateModel) -> bool {
    match state {
        StateModel::Polling { window } => window_in_range(window),
        StateModel::Paginating { window, .. } => window_in_range(window),
        StateModel::Sleeping { window } => window_in_range(window),
        _ => true,
    }
}

/// The state that follows `state` on `event`.
///
/// `Init` becomes `Polling` when the dates are resolved. `Polling` becomes
/// `Paginating`, before the first page, on a tick. `Paginating` takes a
/// page: with a continuation token it goes on from that token; without one
/// it becomes `Done`, or `Sleeping` when watching; a failure makes it
/// `Failed`. `Sleeping` becomes `Polling` on waking, with the window moved
/// forward. An event that a state does not await leaves it as it is.
pub open spec fn next_state(state: StateModel, event: EventModel) -> StateModel {
    match state {
        StateModel::Init { group, pattern } => match event {
            EventModel::Resolved { start, end, now } => StateModel::Polling {
                window: resolved_window(group, pattern, start, end, now),
            },
            _ => state,
        },
        StateModel::Polling { window } => match event {
            EventModel::Tick => StateModel::Paginating { window, cursor: None },
            _ => state,
        },
        StateModel::Paginating { window, cursor } => match event {
            EventModel::Page { next_token: Some(token) } => StateModel::Paginating {
                window,
                cursor: Some(token),
            },
            EventModel::Page { next_token: None } => if window.watch {
                StateModel::Sleeping { window }
            } else {
                StateModel::Done
            },
            EventModel::Failure => StateModel::Failed,
            _ => state,
        },
        StateModel::Sleeping { window } => match event {
            EventModel::Woke { now } => StateModel::Polling { window: advanced_window(window, now) },
            _ => state,
        },
        StateModel::Done => state,
        StateModel::Failed => state,
    }
}

/// What a state asks of the driver.
pub open spec fn action_of(state: StateModel) -> ActionModel {
    match state {
        StateModel::Init { .. } => ActionModel::Resolve,
        StateModel::Polling { .. } => ActionModel::Continue,
        StateModel::Paginating { window, cursor } => ActionModel::Fetch {
            query: query_of(window, cursor),
            delay_millis: if cursor is Some {
                PAGE_DELAY_MILLIS as int
            } else {
                0
            },
        },
        StateModel::Sleeping { .. } => ActionModel::Sleep { millis: CYCLE_DELAY_MILLIS as int },
        StateModel::Done => ActionModel::Stop { failed: false },
        StateModel::Failed => ActionModel::Stop { failed: true },
    }
}

/// An event can be taken in a state when the window that it leads to can
/// be queried.
pub open spec fn event_in_range(state: StateModel, event: EventModel) -> bool {
    state_in_range(next_state(state, event))
}

/// A copy of an optional text.
fn copy_text(text: &Option<String>) -> (copy: Option<String>)
    ensures
        opt_text(copy) == opt_text(*text),
{
    match text {
        Some(t) => Some(t.clone()),
        None => None,
    }
}

/// The window that the date arguments give at the moment `now`.
pub fn resolve_window(
    group: String,
    pattern: Option<String>,
    start: DateInput,
    end: DateInput,
    now: i64,
) -> (window: TailWindow)
    requires
        window_in_range(resolved_window(group@, opt_text(pattern), start, end, now as int)),
    ensures
        window@ == resolved_window(group@, opt_text(pattern), start, end, now as int),
{
    let end_at: i64 = match end {
        DateInput::At(v) => v,
        _ => now,
    };
    let start_at: i64 = match start {
        DateInput::At(v) => v,
        _ => end_at - DEFAULT_SPAN_MILLIS,
    };
    let watch = match (start, end) {
        (DateInput::Absent, DateInput::Absent) => true,
        _ => false,
    };
    TailWindow {
        group,
        start_epoch_millis: start_at,
        end_epoch_millis: end_at,
        pattern,
        watch,
    }
}

/// The query for the page of `window` that `cursor` leads to.
pub fn build_query(window: &TailWindow, cursor: &Option<String>) -> (query: Query)
    requires
        window_in_range(window@),
    ensures
        query@ == query_of(window@, opt_text(*cursor)),
{
    Query {
        group: window.group.clone(),
        start_time: window.start_epoch_millis - LAG_MILLIS,
        end_time: window.end_epoch_millis - LAG_MILLIS,
        filter_pattern: copy_text(&window.pattern),
        next_token: copy_text(cursor),
    }
}

impl TailState {
    /// A tailer of `group` that has not resolved its window yet.
    pub fn new(group: String, pattern: Option<String>) -> (state: TailState)
        ensures
            state@ == (StateModel::Init { group: group@, pattern: opt_text(pattern) }),
    {
        TailState::Init { group, pattern }
    }

    /// Whether the tailer has ended.
    pub fn is_terminal(&self) -> (ended: bool)
        ensures
            ended == is_terminal(self@),
    {
        match self {
            TailState::Done => true,
            TailState::Failed => true,
            _ => false,
        }
    }

    /// What the tailer asks of its driver in this state.
    pub fn action(&self) -> (action: TailAction)
        requires
            state_in_range(self@),
        ensures
            action@ == action_of(self@),
    {
        match self {
            TailState::Init { .. } => TailAction::Resolve,
            TailState::Polling { .. } => TailAction::Continue,
            TailState::Paginating { window, cursor } => {
                let delay_millis: u64 = if cursor.is_some() {
                    PAGE_DELAY_MILLIS
                } else {
                    0
                };
                TailAction::Fetch { query: build_query(window, cursor), delay_millis }
            },
            TailState::Sleeping { .. } => TailAction::Sleep { millis: CYCLE_DELAY_MILLIS },
            TailState::Done => TailAction::Stop { failed: false },
            TailState::Failed => TailAction::Stop { failed: true },
        }
    }

    /// The state that follows on `event`.
    pub fn advance(self, event: TailEvent) -> (next: TailState)
        requires
            state_in_range(self@),
            event_in_range(self@, event@),
        ensures
            next@ == next_state(self@, event@),
            state_in_range(next@),
    {
        match self {
            TailState::Init { group, pattern } => match event {
                TailEvent::Resolved { start, end, now } => TailState::Polling {
                    window: resolve_window(group, pattern, start, end, now),
                },
                _ => TailState::Init { group, pattern },
            },
            TailState::Polling { window } => match event {
                TailEvent::Tick => TailState::Paginating { window, cursor: None },
                _ => TailState::Polling { window },
            },
            TailState::Paginating { window, cursor } => match event {
                TailEvent::Page { next_token: Some(token) } => TailState::Paginating {
                    window,
                    cursor: Some(token),
                },
                TailEvent::Page { next_token: None } => if window.watch {
                    TailState::Sleeping { window }
                } else {
                    TailState::Done
                },
                TailEvent::Failure => TailState::Failed,
                _ => TailState::Paginating { window, cursor },
            },
            TailState::Sleeping { window } => match event {
                TailEvent::Woke { now } => TailState::Polling {
                    window: TailWindow {
                        group: window.group,
                        start_epoch_millis: window.end_epoch_millis,
                        end_epoch_millis: now,
                        pattern: window.pattern,
                        watch: window.watch,
                    },
                },
                _ => TailState::Sleeping { window },
            },
            TailState::Done => TailState::Done,
            TailState::Failed => TailState::Failed,
        }
    }

    /// Whether `event` can be taken in this state: whether the window that
    /// it leads to can be queried.
    pub fn accepts(&self, event: &TailEvent) -> (fits: bool)
        requires
            state_in_range(self@),
        ensures
            fits == event_in_range(self@, event@),
    {
        let floor: i128 = i64::MIN as i128 + LAG_MILLIS as i128;
        match self {
            TailState::Init { .. } => match event {
                TailEvent::Resolved { start, end, now } => {
                    let end_at: i128 = match end {
                        DateInput::At(v) => *v as i128,
                        _ => *now as i128,
                    };
                    let start_at: i128 = match start {
                        DateInput::At(v) => *v as i128,
                        _ => end_at - DEFAULT_SPAN_MILLIS as i128,
                    };
                    floor <= start_at && floor <= end_at
                },
                _ => true,
            },
            TailState::Sleeping { .. } => match event {
                TailEvent::Woke { now } => floor <= *now as i128,
                _ => true,
            },
            _ => true,
        }
    }
}

/// Takes one event: the state that follows, and what the driver is to do
/// in it.
pub fn step(state: TailState, event: TailEvent) -> (turn: (TailState, TailAction))
    requires
        state_in_range(state@),
        event_in_range(state@, event@),
    ensures
        turn.0@ == next_state(state@, event@),
        turn.1@ == action_of(turn.0@),
        state_in_range(turn.0@),
{
    let next = state.advance(event);
    let action = next.action();
    (next, action)
}

/// The state that a tailer reaches from `state` through `events`, taken in
/// order.
pub open spec fn run(state: StateModel, events: Seq<EventModel>) -> StateModel
    decreases events.len(),
{
    if events.len() == 0 {
        state
    } else {
        next_state(run(state, events.drop_last()), events.last())
    }
}

/// The events of a run of pages, given the continuation token of each.
pub open spec fn page_events(tokens: Seq<Option<Seq<char>>>) -> Seq<EventModel> {
    tokens.map_values(|t: Option<Seq<char>>| EventModel::Page { next_token: t })
}

/// A run of pages of which only the last has no continuation token.
pub open spec fn ends_at_last_page(tokens: Seq<Option<Seq<char>>>) -> bool {
    &&& tokens.len() > 0
    &&& forall|i: int| 0 <= i < tokens.len() - 1 ==> (#[trigger] tokens[i]) is Some
    &&& tokens.last() is None
}

/// While the pages carry continuation tokens, the tailer stays in
/// `Paginating`, on its window, at the token of the last page.
pub proof fn lemma_paging_continues(
    window: WindowModel,
    cursor: Option<Seq<char>>,
    tokens: Seq<Option<Seq<char>>>,
    k: int,
)
    requires
        0 <= k <= tokens.len(),
        forall|i: int| 0 <= i < k ==> (#[trigger] tokens[i]) is Some,
    ensures
        run(StateModel::Paginating { window, cursor }, page_events(tokens).take(k)) == (
        StateModel::Paginating {
            window,
            cursor: if k == 0 {
                cursor
            } else {
                tokens[k - 1]
            },
        }),
    decreases k,
{
    let events = page_events(tokens);
    if k > 0 {
        lemma_paging_continues(window, cursor, tokens, k - 1);
        assert(events.take(k).drop_last() =~= events.take(k - 1));
        assert(events.take(k).last() == EventModel::Page { next_token: tokens[k - 1] });
    }
}

/// Pagination terminates: through a run of pages that ends in a page
/// without a continuation token, the tailer is in `Paginating` before each
/// page and has left it after the last: it is `Done`, or `Sleeping` when
/// watching.
pub proof fn lemma_pagination_terminates(
    window: WindowModel,
    cursor: Option<Seq<char>>,
    tokens: Seq<Option<Seq<char>>>,
)
    requires
        ends_at_last_page(tokens),
    ensures
        forall|k: int|
            0 <= k < tokens.len() ==> (#[trigger] run(
                StateModel::Paginating { window, cursor },
                page_events(tokens).take(k),
            )) is Paginating,
        run(StateModel::Paginating { window, cursor }, page_events(tokens)) == (if window.watch {
            StateModel::Sleeping { window }
        } else {
            StateModel::Done
        }),
        !(run(StateModel::Paginating { window, cursor }, page_events(tokens)) is Paginating),
{
    let start = StateModel::Paginating { window, cursor };
    let events = page_events(tokens);
    assert forall|k: int| 0 <= k < tokens.len() implies (#[trigger] run(start, events.take(k)))
        is Paginating by {
        lemma_paging_continues(window, cursor, tokens, k);
    }
    let n = tokens.len() as int;
    lemma_paging_continues(window, cursor, tokens, n - 1);
    assert(events.drop_last() =~= events.take(n - 1));
    assert(events.last() == EventModel::Page { next_token: tokens[n - 1] });
}

/// Window advancement is monotonic: waking from `Sleeping` gives the window
/// that starts where the last one ended and ends at the moment of waking;
/// group, pattern and watching stay.
pub proof fn lemma_window_advances(window: WindowModel, now: int)
    ensures
        next_state(StateModel::Sleeping { window }, EventModel::Woke { now }) == (
        StateModel::Polling { window: advanced_window(window, now) }),
        advanced_window(window, now).start == window.end,
        advanced_window(window, now).end == now,
        advanced_window(window, now).group == window.group,
        advanced_window(window, now).pattern == window.pattern,
        advanced_window(window, now).watch == window.watch,
{
}

/// One whole cycle of a watching tailer: polling a window, reading its
/// pages to the last and waking at `now` leads to polling the window that
/// starts where the last one ended.
pub proof fn lemma_watch_cycle(window: WindowModel, tokens: Seq<Option<Seq<char>>>, now: int)
    requires
        window.watch,
        ends_at_last_page(tokens),
    ensures
        run(
            StateModel::Polling { window },
            seq![EventModel::Tick] + page_events(tokens) + seq![EventModel::Woke { now }],
        ) == (StateModel::Polling { window: advanced_window(window, now) }),
        advanced_window(window, now).start == window.end,
{
    let polling = StateModel::Polling { window };
    let paging = StateModel::Paginating { window, cursor: None };
    let pages = page_events(tokens);
    let head = seq![EventModel::Tick];
    assert(run(polling, head) == paging) by {
        assert(head.drop_last() =~= Seq::<EventModel>::empty());
        assert(run(polling, head.drop_last()) == polling);
    }
    lemma_run_append(polling, head, pages);
    lemma_pagination_terminates(window, None, tokens);
    let tail = seq![EventModel::Woke { now }];
    assert((head + pages + tail).drop_last() =~= head + pages);
}

/// Running through two lists of events in turn is running through both at
/// once.
pub proof fn lemma_run_append(state: StateModel, first: Seq<EventModel>, second: Seq<EventModel>)
    ensures
        run(state, first + second) == run(run(state, first), second),
    decreases second.len(),
{
    if second.len() == 0 {
        assert(first + second =~= first);
    } else {
        lemma_run_append(state, first, second.drop_last());
        assert((first + second).drop_last() =~= first + second.drop_last());
        assert((first + second).last() == second.last());
    }
}

} // verus!
