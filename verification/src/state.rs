//! The application's state and the rules by which it changes: paging,
//! accumulation, the loading and error states, the category filter, and what
//! the page shows for a state.
//!
//! The state changes only through [`AppState::reduce`] (or the method of one
//! event). A change may ask for a page to be fetched; the caller fetches it
//! and reports the outcome as the next event.

use crate::catalog::{
    distinct_ids, lemma_merge_idempotent, lemma_merge_keeps_ids_distinct,
    lemma_merge_keeps_positions, merge, merge_page,
};
use crate::ordering::lemma_filter_all;
use crate::pokemon::{Entry, Pokemon};
use crate::text::str_eq;
use vstd::prelude::*;

verus! {

/// The value of the category filter that shows every entry.
pub const NO_FILTER: &'static str = "all";

/// The last page that the cursor can point at.
pub const LAST_PAGE: u32 = 0xffff_ffff;

/// Something that happened and that the state answers to.
#[derive(Clone, Debug, PartialEq, Eq)]
pub enum Event {
    /// The page view has come up.
    Start,
    /// The fetch in flight has brought its page.
    FetchSucceeded(Vec<Pokemon>),
    /// The fetch in flight has failed, with this message.
    FetchFailed(String),
    /// The user has pressed the button that shows more or tries again.
    PrimaryAction,
    /// The user has picked a category.
    SelectCategory(String),
}

/// Model of an [`Event`].
pub enum EventModel {
    Start,
    FetchSucceeded(Seq<Entry>),
    FetchFailed(Seq<char>),
    PrimaryAction,
    SelectCategory(Seq<char>),
}

impl View for Event {
    type V = EventModel;

    open spec fn view(&self) -> EventModel {
        match self {
            Event::Start => EventModel::Start,
            Event::FetchSucceeded(page) => EventModel::FetchSucceeded(page.deep_view()),
            Event::FetchFailed(message) => EventModel::FetchFailed(message@),
            Event::PrimaryAction => EventModel::PrimaryAction,
            Event::SelectCategory(name) => EventModel::SelectCategory(name@),
        }
    }
}

/// The three states of paging.
#[derive(Clone, Copy, Debug, PartialEq, Eq)]
pub enum Phase {
    /// No fetch is in flight and the last one, if any, succeeded.
    Idle,
    /// A fetch is in flight.
    Loading,
    /// The last fetch failed and has not been tried again.
    Error,
}

/// What the button says.
#[derive(Clone, Copy, Debug, PartialEq, Eq)]
pub enum ButtonLabel {
    Loading,
    Retry,
    ShowMore,
}

/// Model of what the list region of the page shows.
pub enum ContentModel {
    /// Nothing has been fetched yet and nothing has failed.
    Loading,
    /// Nothing has been fetched and the fetch failed: the message.
    Error(Seq<char>),
    /// Entries have been fetched, but the filter lets none through.
    NoMatches,
    /// The entries that the filter lets through.
    Cards(Seq<Entry>),
}

/// What the list region of the page shows.
#[derive(Debug)]
pub enum Content<'a> {
    /// Nothing has been fetched yet and nothing has failed.
    Loading,
    /// Nothing has been fetched and the fetch failed: the message.
    Error(&'a str),
    /// Entries have been fetched, but the filter lets none through.
    NoMatches,
    /// The entries that the filter lets through.
    Cards(Vec<&'a Pokemon>),
}

impl<'a> View for Content<'a> {
    type V = ContentModel;

    open spec fn view(&self) -> ContentModel {
        match self {
            Content::Loading => ContentModel::Loading,
            Content::Error(message) => ContentModel::Error(message@),
            Content::NoMatches => ContentModel::NoMatches,
            Content::Cards(entries) => ContentModel::Cards(entries.deep_view()),
        }
    }
}

/// Whether `entry` has a category of exactly this name.
pub open spec fn in_category(entry: Entry, name: Seq<char>) -> bool {
    exists|i: int| 0 <= i < entry.categories.len() && (#[trigger] entry.categories[i]).name == name
}

/// The test that the filter `selected` makes of an entry: every entry
/// passes the filter "all", and any other only the entries with a category
/// of that name.
pub open spec fn passes(selected: Seq<char>) -> spec_fn(Entry) -> bool {
    |entry: Entry| selected == NO_FILTER@ || in_category(entry, selected)
}

/// Model of an [`AppState`].
pub struct StateModel {
    /// The page that was last asked for, or will be asked for first.
    pub page_cursor: nat,
    /// The accumulated catalog.
    pub catalog: Seq<Entry>,
    /// Whether a fetch is in flight.
    pub loading: bool,
    /// The message of the last fetch, if it failed and was not tried again.
    pub last_error: Option<Seq<char>>,
    /// The category filter.
    pub selected_category: Seq<char>,
}

impl StateModel {
    /// The state at startup.
    pub open spec fn initial() -> StateModel {
        StateModel {
            page_cursor: 0,
            catalog: Seq::empty(),
            loading: false,
            last_error: None,
            selected_category: NO_FILTER@,
        }
    }

    /// What holds of every state that can be reached: no id occurs twice in
    /// the catalog, and while a fetch is in flight no error is pending.
    pub open spec fn valid(self) -> bool {
        &&& distinct_ids(self.catalog)
        &&& self.loading ==> self.last_error is None
        &&& self.page_cursor <= LAST_PAGE
    }

    /// The state of paging.
    pub open spec fn phase(self) -> Phase {
        if self.loading {
            Phase::Loading
        } else if self.last_error is Some {
            Phase::Error
        } else {
            Phase::Idle
        }
    }

    /// The state after the page view has come up: from the idle state the
    /// fetch of the current page begins; otherwise nothing changes.
    pub open spec fn started(self) -> StateModel {
        if self.phase() == Phase::Idle {
            StateModel { loading: true, ..self }
        } else {
            self
        }
    }

    /// The state after a fetch has brought `page`: idle, without error, and
    /// with `page` merged into the catalog.
    pub open spec fn fetch_succeeded(self, page: Seq<Entry>) -> StateModel {
        StateModel {
            catalog: merge(self.catalog, page),
            loading: false,
            last_error: None,
            ..self
        }
    }

    /// The state after a fetch has failed: the message is kept; catalog and
    /// cursor are as they were.
    pub open spec fn fetch_failed(self, message: Seq<char>) -> StateModel {
        StateModel { loading: false, last_error: Some(message), ..self }
    }

    /// The state after the user's action. While a fetch is in flight the
    /// action does nothing. With an error pending it clears the error and
    /// the same page is fetched again. Otherwise the cursor moves to the next
    /// page and that page is fetched; on the last page nothing changes.
    pub open spec fn primary_action(self) -> StateModel {
        match self.phase() {
            Phase::Loading => self,
            Phase::Error => StateModel { loading: true, last_error: None, ..self },
            Phase::Idle => if self.page_cursor < LAST_PAGE {
                StateModel { page_cursor: self.page_cursor + 1, loading: true, ..self }
            } else {
                self
            },
        }
    }

    /// The state after the user has picked the category `name`.
    pub open spec fn category_selected(self, name: Seq<char>) -> StateModel {
        StateModel { selected_category: name, ..self }
    }

    /// The state after `event`.
    pub open spec fn next(self, event: EventModel) -> StateModel {
        match event {
            EventModel::Start => self.started(),
            EventModel::FetchSucceeded(page) => self.fetch_succeeded(page),
            EventModel::FetchFailed(message) => self.fetch_failed(message),
            EventModel::PrimaryAction => self.primary_action(),
            EventModel::SelectCategory(name) => self.category_selected(name),
        }
    }

    /// The page that is to be fetched because of `event`, if any: the page
    /// under the cursor of the next state, whenever `event` begins a fetch.
    pub open spec fn request(self, event: EventModel) -> Option<nat> {
        if !self.loading && self.next(event).loading {
            Some(self.next(event).page_cursor)
        } else {
            None
        }
    }

    /// The entries that the category filter lets through, in the order of
    /// the catalog.
    pub open spec fn visible(self) -> Seq<Entry> {
        self.catalog.filter(passes(self.selected_category))
    }

    /// What the button says: that a fetch is in flight, or that the action
    /// tries again, or that it shows more.
    pub open spec fn button_label(self) -> ButtonLabel {
        match self.phase() {
            Phase::Loading => ButtonLabel::Loading,
            Phase::Error => ButtonLabel::Retry,
            Phase::Idle => ButtonLabel::ShowMore,
        }
    }

    /// What the list region shows. With an empty catalog: the error, if one
    /// is pending, else that entries are being loaded. With entries in the
    /// catalog: those that pass the filter, or that none does.
    pub open spec fn content(self) -> ContentModel {
        if self.catalog.len() == 0 {
            match self.last_error {
                Some(message) => ContentModel::Error(message),
                None => ContentModel::Loading,
            }
        } else if self.visible().len() == 0 {
            ContentModel::NoMatches
        } else {
            ContentModel::Cards(self.visible())
        }
    }

    /// The error shown beside a catalog that is not empty; the entries
    /// already shown stay.
    pub open spec fn error_banner(self) -> Option<Seq<char>> {
        if self.catalog.len() == 0 {
            None
        } else {
            self.last_error
        }
    }
}

/// The application's state.
#[derive(Debug)]
pub struct AppState {
    page_cursor: u32,
    accumulated: Vec<Pokemon>,
    loading: bool,
    last_error: Option<String>,
    selected_category: String,
}

impl View for AppState {
    type V = StateModel;

    closed spec fn view(&self) -> StateModel {
        StateModel {
            page_cursor: self.page_cursor as nat,
            catalog: self.accumulated.deep_view(),
            loading: self.loading,
            last_error: match self.last_error {
                Some(message) => Some(message@),
                None => None,
            },
            selected_category: self.selected_category@,
        }
    }
}

/// The page that an answer asks for, as a number.
pub open spec fn page_asked(request: Option<u32>) -> Option<nat> {
    match request {
        Some(page) => Some(page as nat),
        None => None,
    }
}

/// Whether `entry` passes the category filter `selected`.
pub fn passes_filter(entry: &Pokemon, selected: &str) -> (pass: bool)
    ensures
        pass == passes(selected@)(entry@),
{
    if str_eq(selected, NO_FILTER) {
        return true;
    }
    let mut i: usize = 0;
    while i < entry.types.len()
        invariant
            i <= entry.types@.len(),
            forall|j: int| 0 <= j < i ==> (#[trigger] entry@.categories[j]).name != selected@,
        decreases entry.types@.len() - i,
    {
        if str_eq(entry.types[i].type_.name.as_str(), selected) {
            assert(entry@.categories[i as int].name == selected@);
            return true;
        }
        i = i + 1;
    }
    false
}

impl ButtonLabel {
    /// The words on the button.
    pub fn text(self) -> (words: &'static str)
        ensures
            words@ == match self {
                ButtonLabel::Loading => "Loading\u{2026}"@,
                ButtonLabel::Retry => "Retry"@,
                ButtonLabel::ShowMore => "Show More"@,
            },
    {
        match self {
            ButtonLabel::Loading => "Loading\u{2026}",
            ButtonLabel::Retry => "Retry",
            ButtonLabel::ShowMore => "Show More",
        }
    }
}

impl AppState {
    #[verifier::type_invariant]
    spec fn reachable(self) -> bool {
        self@.valid()
    }

    /// The state at startup: the cursor on the first page, nothing fetched,
    /// no fetch in flight, no error, every category shown.
    pub fn new() -> (state: AppState)
        ensures
            state@ == StateModel::initial(),
    {
        let state = AppState {
            page_cursor: 0,
            accumulated: Vec::new(),
            loading: false,
            last_error: None,
            selected_category: NO_FILTER.to_owned(),
        };
        assert(state.accumulated.deep_view() =~= Seq::<Entry>::empty());
        state
    }

    /// The page that was last asked for, or will be asked for first.
    pub fn page_cursor(&self) -> (page: u32)
        ensures
            page == self@.page_cursor,
    {
        self.page_cursor
    }

    /// The accumulated catalog. No two of its entries share an id.
    pub fn accumulated(&self) -> (catalog: &Vec<Pokemon>)
        ensures
            catalog.deep_view() == self@.catalog,
            distinct_ids(self@.catalog),
    {
        proof {
            use_type_invariant(self);
        }
        &self.accumulated
    }

    /// Whether a fetch is in flight.
    pub fn is_loading(&self) -> (loading: bool)
        ensures
            loading == self@.loading,
    {
        self.loading
    }

    /// The message of the last fetch, if it failed and was not tried again.
    pub fn last_error(&self) -> (message: Option<&str>)
        ensures
            message.deep_view() == self@.last_error,
    {
        match &self.last_error {
            Some(message) => Some(message.as_str()),
            None => None,
        }
    }

    /// The category filter.
    pub fn selected_category(&self) -> (name: &str)
        ensures
            name@ == self@.selected_category,
    {
        self.selected_category.as_str()
    }

    /// The state of paging.
    pub fn phase(&self) -> (phase: Phase)
        ensures
            phase == self@.phase(),
            self@.valid(),
    {
        proof {
            use_type_invariant(self);
        }
        if self.loading {
            Phase::Loading
        } else if self.last_error.is_some() {
            Phase::Error
        } else {
            Phase::Idle
        }
    }

    /// The page view has come up: from the idle state, begins the fetch of
    /// the page under the cursor and answers with that page.
    pub fn start(&mut self) -> (request: Option<u32>)
        ensures
            final(self)@ == old(self)@.started(),
            page_asked(request) == old(self)@.request(EventModel::Start),
    {
        match self.phase() {
            Phase::Idle => {
                self.loading = true;
                Some(self.page_cursor)
            },
            _ => None,
        }
    }

    /// The fetch in flight has brought `page`: merges it into the catalog,
    /// clears the error and ends the loading state.
    pub fn on_fetch_succeeded(&mut self, page: Vec<Pokemon>)
        ensures
            final(self)@ == old(self)@.fetch_succeeded(page.deep_view()),
    {
        proof {
            use_type_invariant(&*self);
            lemma_merge_keeps_ids_distinct(self@.catalog, page.deep_view());
        }
        self.loading = false;
        self.last_error = None;
        // The catalog is merged outside the state and put back whole.
        let mut catalog: Vec<Pokemon> = Vec::new();
        assert(catalog.deep_view() =~= Seq::<Entry>::empty());
        core::mem::swap(&mut self.accumulated, &mut catalog);
        merge_page(&mut catalog, page);
        self.accumulated = catalog;
    }

    /// The fetch in flight has failed: keeps the message and ends the
    /// loading state. Catalog and cursor stay as they are.
    pub fn on_fetch_failed(&mut self, message: String)
        ensures
            final(self)@ == old(self)@.fetch_failed(message@),
    {
        proof {
            use_type_invariant(&*self);
        }
        self.loading = false;
        self.last_error = Some(message);
    }

    /// The user's action, "show more" or "try again". Answers with the page
    /// to fetch, if the action begins a fetch.
    pub fn on_primary_action(&mut self) -> (request: Option<u32>)
        ensures
            final(self)@ == old(self)@.primary_action(),
            page_asked(request) == old(self)@.request(EventModel::PrimaryAction),
    {
        match self.phase() {
            Phase::Loading => None,
            Phase::Error => {
                self.last_error = None;
                self.loading = true;
                Some(self.page_cursor)
            },
            Phase::Idle => {
                if self.page_cursor < LAST_PAGE {
                    self.page_cursor = self.page_cursor + 1;
                    self.loading = true;
                    Some(self.page_cursor)
                } else {
                    None
                }
            },
        }
    }

    /// The user has picked the category `name`.
    pub fn on_select_category(&mut self, name: String)
        ensures
            final(self)@ == old(self)@.category_selected(name@),
    {
        proof {
            use_type_invariant(&*self);
        }
        self.selected_category = name;
    }

    /// Takes `event`: changes the state as the event demands and answers
    /// with the page that is to be fetched now, if any.
    pub fn reduce(&mut self, event: Event) -> (request: Option<u32>)
        ensures
            final(self)@ == old(self)@.next(event@),
            page_asked(request) == old(self)@.request(event@),
    {
        match event {
            Event::Start => self.start(),
            Event::FetchSucceeded(page) => {
                self.on_fetch_succeeded(page);
                None
            },
            Event::FetchFailed(message) => {
                self.on_fetch_failed(message);
                None
            },
            Event::PrimaryAction => self.on_primary_action(),
            Event::SelectCategory(name) => {
                self.on_select_category(name);
                None
            },
        }
    }

    /// The entries that the category filter lets through, in the order of
    /// the catalog.
    pub fn visible(&self) -> (shown: Vec<&Pokemon>)
        ensures
            shown.deep_view() == self@.visible(),
    {
        let ghost test = passes(self@.selected_category);
        let ghost catalog = self@.catalog;
        let mut shown: Vec<&Pokemon> = Vec::new();
        let mut i: usize = 0;
        assert(catalog.take(0) =~= Seq::<Entry>::empty());
        proof {
            reveal(Seq::filter);
        }
        while i < self.accumulated.len()
            invariant
                i <= self.accumulated@.len(),
                catalog == self.accumulated.deep_view(),
                test == passes(self.selected_category@),
                shown.deep_view() == catalog.take(i as int).filter(test),
            decreases self.accumulated@.len() - i,
        {
            let ghost before = shown.deep_view();
            let entry = &self.accumulated[i];
            proof {
                assert(catalog.take(i + 1) =~= catalog.take(i as int).push(entry@));
                catalog.take(i as int).lemma_filter_push(entry@, test);
            }
            if passes_filter(entry, self.selected_category.as_str()) {
                shown.push(entry);
                assert(shown.deep_view() =~= before.push(entry@));
            }
            i = i + 1;
        }
        assert(catalog.take(catalog.len() as int) =~= catalog);
        shown
    }

    /// What the button says.
    pub fn button_label(&self) -> (label: ButtonLabel)
        ensures
            label == self@.button_label(),
    {
        match self.phase() {
            Phase::Loading => ButtonLabel::Loading,
            Phase::Error => ButtonLabel::Retry,
            Phase::Idle => ButtonLabel::ShowMore,
        }
    }

    /// What the list region shows.
    pub fn content(&self) -> (content: Content<'_>)
        ensures
            content@ == self@.content(),
    {
        if self.accumulated.len() == 0 {
            match &self.last_error {
                Some(message) => Content::Error(message.as_str()),
                None => Content::Loading,
            }
        } else {
            let shown = self.visible();
            if shown.len() == 0 {
                Content::NoMatches
            } else {
                Content::Cards(shown)
            }
        }
    }

    /// The error to show beside the entries, if the last fetch failed while
    /// the catalog held entries already.
    pub fn error_banner(&self) -> (message: Option<&str>)
        ensures
            message.deep_view() == self@.error_banner(),
    {
        if self.accumulated.len() == 0 {
            None
        } else {
            self.last_error()
        }
    }
}

/// The state at startup is valid.
pub proof fn lemma_initial_valid()
    ensures
        StateModel::initial().valid(),
{
}

/// No event leads from a valid state to one that is not: in every state
/// that can be reached, no two entries of the catalog share an id.
pub proof fn lemma_next_valid(state: StateModel, event: EventModel)
    requires
        state.valid(),
    ensures
        state.next(event).valid(),
{
    if let EventModel::FetchSucceeded(page) = event {
        lemma_merge_keeps_ids_distinct(state.catalog, page);
    }
}

/// No event removes or moves an entry: the catalog before an event is the
/// front part of the catalog after it.
pub proof fn lemma_next_keeps_positions(state: StateModel, event: EventModel)
    ensures
        state.catalog.is_prefix_of(state.next(event).catalog),
{
    if let EventModel::FetchSucceeded(page) = event {
        lemma_merge_keeps_positions(state.catalog, page);
    }
}

/// The same page arriving twice leaves the state as it was after the first
/// time.
pub proof fn lemma_same_page_twice(state: StateModel, page: Seq<Entry>)
    ensures
        state.fetch_succeeded(page).fetch_succeeded(page) == state.fetch_succeeded(page),
{
    lemma_merge_idempotent(state.catalog, page);
}

/// While a fetch is in flight the user's action changes nothing and asks
/// for no fetch.
pub proof fn lemma_action_while_loading(state: StateModel)
    requires
        state.loading,
    ensures
        state.next(EventModel::PrimaryAction) == state,
        state.request(EventModel::PrimaryAction) is None,
{
}

/// A fetch is asked for only while none is in flight, and is in flight
/// from then on: there is never more than one.
pub proof fn lemma_one_fetch_in_flight(state: StateModel, event: EventModel)
    ensures
        state.request(event) is Some ==> !state.loading && state.next(event).loading,
        state.loading && !(event is FetchSucceeded) && !(event is FetchFailed) ==> state.next(
            event,
        ).loading,
{
}

/// With an error pending, the user's action fetches the page under the
/// cursor again and does not move the cursor.
pub proof fn lemma_retry_keeps_cursor(state: StateModel)
    requires
        state.phase() == Phase::Error,
    ensures
        state.request(EventModel::PrimaryAction) == Some(state.page_cursor),
        state.next(EventModel::PrimaryAction).page_cursor == state.page_cursor,
        state.next(EventModel::PrimaryAction).last_error is None,
{
}

/// Picking a category changes the filter and nothing else, and asks for no
/// fetch.
pub proof fn lemma_selection_is_local(state: StateModel, name: Seq<char>)
    ensures
        state.next(EventModel::SelectCategory(name)) == (StateModel {
            selected_category: name,
            ..state
        }),
        state.request(EventModel::SelectCategory(name)) is None,
{
}

/// The filter "all" shows the whole catalog.
pub proof fn lemma_no_filter_shows_all(state: StateModel)
    requires
        state.selected_category == NO_FILTER@,
    ensures
        state.visible() == state.catalog,
{
    lemma_filter_all(state.catalog, passes(state.selected_category));
}

/// A failed fetch leaves the catalog and the cursor as they were: nothing
/// of the page that failed is merged.
pub proof fn lemma_failure_keeps_catalog(state: StateModel, message: Seq<char>)
    ensures
        state.next(EventModel::FetchFailed(message)).catalog == state.catalog,
        state.next(EventModel::FetchFailed(message)).page_cursor == state.page_cursor,
        state.next(EventModel::FetchFailed(message)).phase() == Phase::Error,
{
}

} // verus!
