//! Which log groups to tail: reading the group argument, listing the
//! remote groups page by page, and choosing among them.

use vstd::prelude::*;
use crate::text::{chars_of, contains_text, has_prefix, has_substring, opt_text, split_chars};
use crate::text::{split_on, starts_with_text, texts_of};

verus! {

/// The largest number of groups that are tailed at once.
pub const MAX_GROUPS: usize = 8;

/// A notice is given where more groups than this were asked for.
pub const NOTICE_ABOVE: usize = 10;

/// The pause before each page of the listing after the first, in
/// milliseconds.
pub const LIST_DELAY_MILLIS: u64 = 100;

/// What the group argument asks for.
#[derive(Clone, Debug)]
pub enum GroupSpec {
    /// Every remote group whose name holds one of the filters.
    Matching { filters: Vec<String> },
    /// The groups of these names, as given.
    Named { names: Vec<String> },
}

/// The mathematical content of a `GroupSpec`.
pub ghost enum GroupSpecModel {
    Matching { filters: Seq<Seq<char>> },
    Named { names: Seq<Seq<char>> },
}

impl View for GroupSpec {
    type V = GroupSpecModel;

    open spec fn view(&self) -> GroupSpecModel {
        match self {
            GroupSpec::Matching { filters } => GroupSpecModel::Matching {
                filters: texts_of(filters@),
            },
            GroupSpec::Named { names } => GroupSpecModel::Named { names: texts_of(names@) },
        }
    }
}

/// What a group argument asks for: behind the prefix `all:` stands a list
/// of filters, separated by commas; any other argument is a list of names,
/// separated by commas.
pub open spec fn group_spec_of(text: Seq<char>) -> GroupSpecModel {
    if has_prefix(text, "all:"@) {
        GroupSpecModel::Matching { filters: split_on(text.skip("all:"@.len() as int), ',') }
    } else {
        GroupSpecModel::Named { names: split_on(text, ',') }
    }
}

/// Whether a name holds one of the filters.
pub open spec fn matches_any(name: Seq<char>, filters: Seq<Seq<char>>) -> bool {
    exists|j: int| 0 <= j < filters.len() && has_substring(name, #[trigger] filters[j])
}

/// The names that hold one of the filters, in their order.
pub open spec fn keep_matching(names: Seq<Seq<char>>, filters: Seq<Seq<char>>) -> Seq<Seq<char>>
    decreases names.len(),
{
    if names.len() == 0 {
        Seq::empty()
    } else {
        let before = keep_matching(names.drop_last(), filters);
        if matches_any(names.last(), filters) {
            before.push(names.last())
        } else {
            before
        }
    }
}

/// The groups that a specification stands for, before any cap, given the
/// names of all remote groups.
pub open spec fn candidates(spec: GroupSpecModel, all: Seq<Seq<char>>) -> Seq<Seq<char>> {
    match spec {
        GroupSpecModel::Matching { filters } => keep_matching(all, filters),
        GroupSpecModel::Named { names } => names,
    }
}

/// The first `MAX_GROUPS` of the candidates, or all of them where they are
/// fewer.
pub open spec fn capped(names: Seq<Seq<char>>) -> Seq<Seq<char>> {
    if names.len() <= MAX_GROUPS {
        names
    } else {
        names.take(MAX_GROUPS as int)
    }
}

/// The groups to tail, and whether the notice of truncation is due.
#[derive(Clone, Debug)]
pub struct Resolution {
    pub groups: Vec<String>,
    pub notice: bool,
}

/// Reads the group argument.
pub fn parse_group_spec(text: &str) -> (spec: GroupSpec)
    ensures
        spec@ == group_spec_of(text@),
{
    let chars = chars_of(text);
    let prefix = chars_of("all:");
    if starts_with_text(&chars, &prefix) {
        GroupSpec::Matching { filters: split_chars(&chars, prefix.len(), ',') }
    } else {
        assert(chars@.skip(0) =~= chars@);
        GroupSpec::Named { names: split_chars(&chars, 0, ',') }
    }
}

impl GroupSpec {
    /// Whether the names of the remote groups are needed to resolve this
    /// specification.
    pub fn needs_listing(&self) -> (needed: bool)
        ensures
            needed == (self@ is Matching),
    {
        match self {
            GroupSpec::Matching { .. } => true,
            GroupSpec::Named { .. } => false,
        }
    }
}

/// Whether a name holds one of the filters.
pub fn name_matches(name: &str, filters: &Vec<String>) -> (found: bool)
    ensures
        found == matches_any(name@, texts_of(filters@)),
{
    let mut j: usize = 0;
    while j < filters.len()
        invariant
            j <= filters.len(),
            forall|k: int| 0 <= k < j ==> !has_substring(name@, #[trigger] texts_of(filters@)[k]),
        decreases filters.len() - j,
    {
        if contains_text(name, filters[j].as_str()) {
            assert(has_substring(name@, texts_of(filters@)[j as int]));
            return true;
        }
        j += 1;
    }
    false
}

/// Chooses the groups to tail: the candidates of the specification, capped
/// to the first `MAX_GROUPS`; the notice is due where there were more than
/// `NOTICE_ABOVE` candidates. `all` holds the names of the remote groups,
/// and is read only where the specification asks for matching groups.
pub fn resolve(spec: &GroupSpec, all: &Vec<String>) -> (chosen: Resolution)
    ensures
        texts_of(chosen.groups@) == capped(candidates(spec@, texts_of(all@))),
        chosen.groups@.len() <= MAX_GROUPS,
        chosen.notice == (candidates(spec@, texts_of(all@)).len() > NOTICE_ABOVE),
{
    match spec {
        GroupSpec::Named { names } => {
            let groups = first_of(names);
            Resolution { groups, notice: names.len() > NOTICE_ABOVE }
        },
        GroupSpec::Matching { filters } => {
            let matching = matching_names(all, filters);
            let groups = first_of(&matching);
            Resolution { groups, notice: matching.len() > NOTICE_ABOVE }
        },
    }
}

/// The names that hold one of the filters, in their order.
fn matching_names(names: &Vec<String>, filters: &Vec<String>) -> (kept: Vec<String>)
    ensures
        texts_of(kept@) == keep_matching(texts_of(names@), texts_of(filters@)),
{
    let ghost all = texts_of(names@);
    let mut kept: Vec<String> = Vec::new();
    let mut i: usize = 0;
    assert(all.take(0) =~= Seq::<Seq<char>>::empty());
    assert(texts_of(kept@) =~= Seq::<Seq<char>>::empty());
    while i < names.len()
        invariant
            i <= names.len(),
            all == texts_of(names@),
            texts_of(kept@) == keep_matching(all.take(i as int), texts_of(filters@)),
        decreases names.len() - i,
    {
        proof {
            assert(all.take(i + 1).drop_last() =~= all.take(i as int));
            assert(all.take(i + 1).last() == names@[i as int]@);
        }
        if name_matches(names[i].as_str(), filters) {
            let name = names[i].clone();
            assert(texts_of(kept@.push(name)) =~= texts_of(kept@).push(name@));
            kept.push(name);
        }
        i += 1;
    }
    assert(all.take(i as int) =~= all);
    kept
}

/// Copies of the first `MAX_GROUPS` names.
fn first_of(names: &Vec<String>) -> (first: Vec<String>)
    ensures
        texts_of(first@) == capped(texts_of(names@)),
        first@.len() <= MAX_GROUPS,
{
    let count: usize = if names.len() <= MAX_GROUPS {
        names.len()
    } else {
        MAX_GROUPS
    };
    let mut first: Vec<String> = Vec::new();
    let mut i: usize = 0;
    while i < count
        invariant
            i <= count <= names.len(),
            first@.len() == i,
            forall|k: int| 0 <= k < i ==> (#[trigger] first@[k])@ == names@[k]@,
        decreases count - i,
    {
        first.push(names[i].clone());
        i += 1;
    }
    assert(texts_of(first@) =~= capped(texts_of(names@)));
    first
}

/// Where the listing of the remote groups stands.
#[derive(Clone, Debug)]
pub enum ListState {
    /// Pages are being fetched; `names` holds what came so far and `cursor`
    /// leads to the next page, or is `None` before the first.
    Listing { names: Vec<String>, cursor: Option<String> },
    /// Every page has come.
    Listed { names: Vec<String> },
    /// A page request failed.
    Failed,
}

/// The mathematical content of a `ListState`.
pub ghost enum ListModel {
    Listing { names: Seq<Seq<char>>, cursor: Option<Seq<char>> },
    Listed { names: Seq<Seq<char>> },
    Failed,
}

impl View for ListState {
    type V = ListModel;

    open spec fn view(&self) -> ListModel {
        match self {
            ListState::Listing { names, cursor } => ListModel::Listing {
                names: texts_of(names@),
                cursor: opt_text(*cursor),
            },
            ListState::Listed { names } => ListModel::Listed { names: texts_of(names@) },
            ListState::Failed => ListModel::Failed,
        }
    }
}

/// What the driver of a listing reports.
#[derive(Clone, Debug)]
pub enum ListEvent {
    /// A page arrived with these names; `next_token` leads to the page
    /// after it, if there is one.
    Page { names: Vec<String>, next_token: Option<String> },
    /// The page request failed.
    Failure,
}

/// The mathematical content of a `ListEvent`.
pub ghost enum ListEventModel {
    Page { names: Seq<Seq<char>>, next_token: Option<Seq<char>> },
    Failure,
}

impl View for ListEvent {
    type V = ListEventModel;

    open spec fn view(&self) -> ListEventModel {
        match self {
            ListEvent::Page { names, next_token } => ListEventModel::Page {
                names: texts_of(names@),
                next_token: opt_text(*next_token),
            },
            ListEvent::Failure => ListEventModel::Failure,
        }
    }
}

/// What a listing asks its driver to do next.
#[derive(Clone, Debug)]
pub enum ListAction {
    /// Wait `delay_millis`, ask for the page that `next_token` leads to,
    /// and report `Page`, or `Failure`.
    Fetch { next_token: Option<String>, delay_millis: u64 },
    /// The listing has ended; `failed` tells whether a request failed.
    Stop { failed: bool },
}

/// The mathematical content of a `ListAction`.
pub ghost enum ListActionModel {
    Fetch { next_token: Option<Seq<char>>, delay_millis: int },
    Stop { failed: bool },
}

impl View for ListAction {
    type V = ListActionModel;

    open spec fn view(&self) -> ListActionModel {
        match self {
            ListAction::Fetch { next_token, delay_millis } => ListActionModel::Fetch {
                next_token: opt_text(*next_token),
                delay_millis: *delay_millis as int,
            },
            ListAction::Stop { failed } => ListActionModel::Stop { failed: *failed },
        }
    }
}

/// The state of a listing that follows on an event. A page adds its names
/// behind those that came before; with a continuation token the listing
/// goes on from it, without one it has ended. A failure ends it as
/// `Failed`. A listing that has ended stays as it is.
pub open spec fn next_listing(state: ListModel, event: ListEventModel) -> ListModel {
    match state {
        ListModel::Listing { names, cursor } => match event {
            ListEventModel::Page { names: page, next_token: Some(token) } => ListModel::Listing {
                names: names + page,
                cursor: Some(token),
            },
            ListEventModel::Page { names: page, next_token: None } => ListModel::Listed {
                names: names + page,
            },
            ListEventModel::Failure => ListModel::Failed,
        },
        _ => state,
    }
}

/// What a listing asks of its driver in a state.
pub open spec fn listing_action(state: ListModel) -> ListActionModel {
    match state {
        ListModel::Listing { cursor, .. } => ListActionModel::Fetch {
            next_token: cursor,
            delay_millis: if cursor is Some {
                LIST_DELAY_MILLIS as int
            } else {
                0
            },
        },
        ListModel::Listed { .. } => ListActionModel::Stop { failed: false },
        ListModel::Failed => ListActionModel::Stop { failed: true },
    }
}

impl ListState {
    /// A listing of which no page has come yet.
    pub fn new() -> (state: ListState)
        ensures
            state@ == (ListModel::Listing { names: Seq::empty(), cursor: None }),
    {
        let names: Vec<String> = Vec::new();
        assert(texts_of(names@) =~= Seq::<Seq<char>>::empty());
        ListState::Listing { names, cursor: None }
    }

    /// What the listing asks of its driver in this state.
    pub fn action(&self) -> (action: ListAction)
        ensures
            action@ == listing_action(self@),
    {
        match self {
            ListState::Listing { cursor, .. } => match cursor {
                Some(token) => ListAction::Fetch {
                    next_token: Some(token.clone()),
                    delay_millis: LIST_DELAY_MILLIS,
                },
                None => ListAction::Fetch { next_token: None, delay_millis: 0 },
            },
            ListState::Listed { .. } => ListAction::Stop { failed: false },
            ListState::Failed => ListAction::Stop { failed: true },
        }
    }

    /// The state that follows on `event`.
    pub fn advance(self, event: ListEvent) -> (next: ListState)
        ensures
            next@ == next_listing(self@, event@),
    {
        match self {
            ListState::Listing { names, cursor } => match event {
                ListEvent::Page { names: page, next_token } => {
                    let mut names = names;
                    let mut page = page;
                    let ghost before = names@;
                    let ghost added = page@;
                    names.append(&mut page);
                    assert(texts_of(names@) =~= texts_of(before) + texts_of(added));
                    match next_token {
                        Some(token) => ListState::Listing { names, cursor: Some(token) },
                        None => ListState::Listed { names },
                    }
                },
                ListEvent::Failure => ListState::Failed,
            },
            ListState::Listed { names } => ListState::Listed { names },
            ListState::Failed => ListState::Failed,
        }
    }
}

/// Takes one event of a listing: the state that follows, and what the
/// driver is to do in it.
pub fn list_step(state: ListState, event: ListEvent) -> (turn: (ListState, ListAction))
    ensures
        turn.0@ == next_listing(state@, event@),
        turn.1@ == listing_action(turn.0@),
{
    let next = state.advance(event);
    let action = next.action();
    (next, action)
}

/// The names of a run of pages, page behind page.
pub open spec fn all_names(pages: Seq<Seq<Seq<char>>>) -> Seq<Seq<char>>
    decreases pages.len(),
{
    if pages.len() == 0 {
        Seq::empty()
    } else {
        all_names(pages.drop_last()) + pages.last()
    }
}

/// The state that a listing reaches from `state` through `events`, taken
/// in order.
pub open spec fn run_listing(state: ListModel, events: Seq<ListEventModel>) -> ListModel
    decreases events.len(),
{
    if events.len() == 0 {
        state
    } else {
        next_listing(run_listing(state, events.drop_last()), events.last())
    }
}

/// A run of pages of which only the last has no continuation token.
pub open spec fn ends_with_last_page(events: Seq<ListEventModel>) -> bool {
    &&& events.len() > 0
    &&& forall|i: int|
        0 <= i < events.len() - 1 ==> (#[trigger] events[i] matches ListEventModel::Page {
            next_token: Some(_),
            ..
        })
    &&& events.last() matches ListEventModel::Page { next_token: None, .. }
}

/// The names that the pages of a run of events hold.
pub open spec fn page_names(events: Seq<ListEventModel>) -> Seq<Seq<Seq<char>>> {
    events.map_values(
        |e: ListEventModel|
            match e {
                ListEventModel::Page { names, .. } => names,
                ListEventModel::Failure => Seq::empty(),
            },
    )
}

/// While the pages carry continuation tokens, the listing goes on and
/// holds the names of every page so far, in order.
pub proof fn lemma_listing_continues(events: Seq<ListEventModel>, k: int)
    requires
        0 <= k <= events.len(),
        forall|i: int|
            0 <= i < k ==> (#[trigger] events[i] matches ListEventModel::Page {
                next_token: Some(_),
                ..
            }),
    ensures
        run_listing(ListModel::Listing { names: Seq::empty(), cursor: None }, events.take(k))
            matches ListModel::Listing { names, .. } && names == all_names(
            page_names(events).take(k),
        ),
    decreases k,
{
    if k > 0 {
        lemma_listing_continues(events, k - 1);
        assert(events.take(k).drop_last() =~= events.take(k - 1));
        assert(events.take(k).last() == events[k - 1]);
        assert(page_names(events).take(k).drop_last() =~= page_names(events).take(k - 1));
    } else {
        assert(all_names(page_names(events).take(0)) =~= Seq::<Seq<char>>::empty());
    }
}

/// Listing follows the continuation tokens until none remains: through a
/// run of pages that ends in a page without a token, a fresh listing ends
/// as `Listed`, with the names of all pages in order.
pub proof fn lemma_listing_collects(events: Seq<ListEventModel>)
    requires
        ends_with_last_page(events),
    ensures
        run_listing(ListModel::Listing { names: Seq::empty(), cursor: None }, events) == (
        ListModel::Listed { names: all_names(page_names(events)) }),
{
    let n = events.len() as int;
    lemma_listing_continues(events, n - 1);
    assert(events.drop_last() =~= events.take(n - 1));
    assert(page_names(events).drop_last() =~= page_names(events).take(n - 1));
}

} // verus!
