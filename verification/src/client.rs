//! The catalog client's decisions: which entries make up a page, in which
//! order they are asked for, what becomes of each answer and how a failure
//! is worded.
//!
//! The requests themselves are made by the caller. It asks a [`PageFetch`]
//! for the next id, performs the request and hands the outcome to
//! [`PageFetch::advance`], until that reports the page or a failure.

use crate::ordering::stable_sort_by_rank;
use crate::pokemon::{by_id, Entry, Pokemon};
use crate::text::{decimal, push_decimal};
use vstd::prelude::*;

verus! {

/// The number of entries in a page.
pub const POKEMON_BATCH_SIZE: u32 = 10;

/// The i-th id of a page, counting both from zero.
pub open spec fn id_in_page(page: nat, i: nat) -> nat {
    page * (POKEMON_BATCH_SIZE as nat) + 1 + i
}

/// The address at which the entry with this id is found.
pub open spec fn entry_url_text(id: nat) -> Seq<char> {
    "https://pokeapi.co/api/v2/pokemon/"@ + decimal(id)
}

/// The address at which the entry with this id is found.
pub fn entry_url(id: u64) -> (url: String)
    ensures
        url@ == entry_url_text(id as nat),
{
    let mut url = "https://pokeapi.co/api/v2/pokemon/".to_owned();
    push_decimal(&mut url, id);
    url
}

/// Why the request for one entry gave no entry. Each holds the cause in
/// words.
#[derive(Clone, Debug, PartialEq, Eq)]
pub enum FetchFailure {
    /// The request could not be sent or completed.
    Transport(String),
    /// An answer came, but not in the shape of an entry.
    Decode(String),
}

/// Model of a [`FetchFailure`].
pub enum Failure {
    Transport(Seq<char>),
    Decode(Seq<char>),
}

impl View for FetchFailure {
    type V = Failure;

    open spec fn view(&self) -> Failure {
        match self {
            FetchFailure::Transport(cause) => Failure::Transport(cause@),
            FetchFailure::Decode(cause) => Failure::Decode(cause@),
        }
    }
}

/// The message for a failed request: what failed, the id asked for, and the
/// cause.
pub open spec fn failure_message(id: nat, failure: Failure) -> Seq<char> {
    match failure {
        Failure::Transport(cause) => "request failed for id "@ + decimal(id) + ": "@ + cause,
        Failure::Decode(cause) => "invalid response payload for id "@ + decimal(id) + ": "@
            + cause,
    }
}

impl FetchFailure {
    /// The message for this failure of the request for `id`.
    pub fn message(&self, id: u64) -> (text: String)
        ensures
            text@ == failure_message(id as nat, self@),
    {
        match self {
            FetchFailure::Transport(cause) => {
                let mut text = "request failed for id ".to_owned();
                push_decimal(&mut text, id);
                text.append(": ");
                text.append(cause.as_str());
                text
            },
            FetchFailure::Decode(cause) => {
                let mut text = "invalid response payload for id ".to_owned();
                push_decimal(&mut text, id);
                text.append(": ");
                text.append(cause.as_str());
                text
            },
        }
    }
}

/// A page that is being fetched: which page, and the entries that have come
/// so far, in the order of their requests.
#[derive(Debug)]
pub struct PageFetch {
    page: u32,
    collected: Vec<Pokemon>,
}

/// Model of a [`PageFetch`].
pub struct Fetching {
    pub page: nat,
    pub collected: Seq<Entry>,
}

/// What a fetch has come to after an outcome.
#[derive(Debug)]
pub enum FetchProgress {
    /// More entries are to be asked for.
    Pending(PageFetch),
    /// All entries came: the page, ordered by id.
    Complete(Vec<Pokemon>),
    /// A request failed: the message. Nothing of the page is kept.
    Failed(String),
}

/// Model of a [`FetchProgress`].
pub enum Progress {
    Pending(Fetching),
    Complete(Seq<Entry>),
    Failed(Seq<char>),
}

impl View for PageFetch {
    type V = Fetching;

    closed spec fn view(&self) -> Fetching {
        Fetching { page: self.page as nat, collected: self.collected.deep_view() }
    }
}

impl View for FetchProgress {
    type V = Progress;

    open spec fn view(&self) -> Progress {
        match self {
            FetchProgress::Pending(fetch) => Progress::Pending(fetch@),
            FetchProgress::Complete(entries) => Progress::Complete(entries.deep_view()),
            FetchProgress::Failed(message) => Progress::Failed(message@),
        }
    }
}

/// The model of an outcome: the entry that came, or the failure.
pub open spec fn outcome_model(outcome: Result<Pokemon, FetchFailure>) -> Result<Entry, Failure> {
    match outcome {
        Ok(entry) => Ok(entry@),
        Err(failure) => Err(failure@),
    }
}

impl Fetching {
    /// The id to ask for next.
    pub open spec fn next_id(self) -> nat {
        id_in_page(self.page, self.collected.len())
    }

    /// What the fetch comes to when the request for `self.next_id()` ends in
    /// `outcome`.
    ///
    /// A failure ends the fetch with its message. An entry is put behind
    /// those that came before, with its categories ordered by slot rank; the
    /// entry that fills the page ends the fetch with the page ordered by id.
    pub open spec fn advance(self, outcome: Result<Entry, Failure>) -> Progress {
        match outcome {
            Err(failure) => Progress::Failed(failure_message(self.next_id(), failure)),
            Ok(entry) => {
                let collected = self.collected.push(entry.normalized());
                if collected.len() >= POKEMON_BATCH_SIZE {
                    Progress::Complete(by_id(collected))
                } else {
                    Progress::Pending(Fetching { page: self.page, collected })
                }
            },
        }
    }

    /// What the fetch comes to when its requests end in `outcomes`, one
    /// after the other. Outcomes behind the one that ends the fetch are not
    /// looked at.
    pub open spec fn run(self, outcomes: Seq<Result<Entry, Failure>>) -> Progress
        decreases outcomes.len(),
    {
        if outcomes.len() == 0 {
            Progress::Pending(self)
        } else {
            match self.advance(outcomes[0]) {
                Progress::Pending(next) => next.run(outcomes.drop_first()),
                ended => ended,
            }
        }
    }
}

/// The fetch of `page`, before its first request.
pub open spec fn fetch_of(page: nat) -> Fetching {
    Fetching { page, collected: Seq::empty() }
}

/// The entries of `outcomes`, each with its categories ordered by slot rank.
pub open spec fn normalized_entries(outcomes: Seq<Result<Entry, Failure>>) -> Seq<Entry> {
    Seq::new(outcomes.len(), |i: int| outcomes[i]->Ok_0.normalized())
}

/// While entries come, the requests of a page ask for its ids in ascending
/// order: after `outcomes.len()` entries the next id is the one at that
/// place of the page.
pub proof fn lemma_requests_in_order(fetch: Fetching, outcomes: Seq<Result<Entry, Failure>>)
    requires
        fetch.collected.len() + outcomes.len() < POKEMON_BATCH_SIZE,
        forall|i: int| 0 <= i < outcomes.len() ==> (#[trigger] outcomes[i]) is Ok,
    ensures
        fetch.run(outcomes) is Pending,
        fetch.run(outcomes)->Pending_0.page == fetch.page,
        fetch.run(outcomes)->Pending_0.collected == fetch.collected + normalized_entries(
            outcomes,
        ),
        fetch.run(outcomes)->Pending_0.next_id() == id_in_page(
            fetch.page,
            fetch.collected.len() + outcomes.len(),
        ),
    decreases outcomes.len(),
{
    if outcomes.len() == 0 {
        assert(fetch.collected + normalized_entries(outcomes) =~= fetch.collected);
    } else {
        let next = fetch.advance(outcomes[0])->Pending_0;
        let rest = outcomes.drop_first();
        assert forall|i: int| 0 <= i < rest.len() implies (#[trigger] rest[i]) is Ok by {
            assert(rest[i] == outcomes[i + 1]);
        }
        lemma_requests_in_order(next, rest);
        assert(next.collected + normalized_entries(rest) =~= fetch.collected
            + normalized_entries(outcomes)) by {
            assert forall|i: int| 0 <= i < rest.len() implies normalized_entries(rest)[i]
                == normalized_entries(outcomes)[i + 1] by {
                assert(rest[i] == outcomes[i + 1]);
            }
        }
    }
}

/// When every request of a page brings its entry, the fetch ends with the
/// page: the entries, each with its categories in order, ordered by id.
pub proof fn lemma_full_page(page: nat, outcomes: Seq<Result<Entry, Failure>>)
    requires
        outcomes.len() == POKEMON_BATCH_SIZE,
        forall|i: int| 0 <= i < outcomes.len() ==> (#[trigger] outcomes[i]) is Ok,
    ensures
        fetch_of(page).run(outcomes) == Progress::Complete(by_id(normalized_entries(outcomes))),
{
    lemma_run_split(fetch_of(page), outcomes, outcomes.len() - 1);
    let front = outcomes.take(outcomes.len() - 1);
    assert forall|i: int| 0 <= i < front.len() implies (#[trigger] front[i]) is Ok by {
        assert(front[i] == outcomes[i]);
    }
    lemma_requests_in_order(fetch_of(page), front);
    let before = fetch_of(page).run(front)->Pending_0;
    let last = outcomes[outcomes.len() - 1];
    let back = outcomes.skip(outcomes.len() - 1);
    assert(back[0] == last);
    assert(back.drop_first().len() == 0);
    assert(before.collected.push(last->Ok_0.normalized()) =~= normalized_entries(outcomes)) by {
        assert forall|i: int| 0 <= i < front.len() implies normalized_entries(front)[i]
            == normalized_entries(outcomes)[i] by {
            assert(front[i] == outcomes[i]);
        }
    }
}

/// The first request that fails ends the fetch with the message for its id
/// and cause, whatever came before and whatever would have come after:
/// nothing of the page is kept.
pub proof fn lemma_first_failure_ends_fetch(
    page: nat,
    outcomes: Seq<Result<Entry, Failure>>,
    k: int,
)
    requires
        0 <= k < outcomes.len(),
        k < POKEMON_BATCH_SIZE,
        outcomes[k] is Err,
        forall|i: int| 0 <= i < k ==> (#[trigger] outcomes[i]) is Ok,
    ensures
        fetch_of(page).run(outcomes) == Progress::Failed(
            failure_message(id_in_page(page, k as nat), outcomes[k]->Err_0),
        ),
{
    lemma_run_split(fetch_of(page), outcomes, k);
    let front = outcomes.take(k);
    assert forall|i: int| 0 <= i < front.len() implies (#[trigger] front[i]) is Ok by {
        assert(front[i] == outcomes[i]);
    }
    lemma_requests_in_order(fetch_of(page), front);
    assert(outcomes.skip(k)[0] == outcomes[k]);
}

proof fn lemma_run_split(fetch: Fetching, outcomes: Seq<Result<Entry, Failure>>, k: int)
    requires
        0 <= k <= outcomes.len(),
    ensures
        fetch.run(outcomes) == match fetch.run(outcomes.take(k)) {
            Progress::Pending(next) => next.run(outcomes.skip(k)),
            ended => ended,
        },
    decreases k,
{
    if k == 0 {
        assert(outcomes.skip(0) =~= outcomes);
    } else {
        let front = outcomes.take(k);
        assert(front[0] == outcomes[0]);
        assert(front.drop_first() =~= outcomes.drop_first().take(k - 1));
        assert(outcomes.skip(k) =~= outcomes.drop_first().skip(k - 1));
        if let Progress::Pending(next) = fetch.advance(outcomes[0]) {
            lemma_run_split(next, outcomes.drop_first(), k - 1);
        }
    }
}

impl PageFetch {
    #[verifier::type_invariant]
    spec fn in_progress(self) -> bool {
        self.collected@.len() < POKEMON_BATCH_SIZE
    }

    /// The fetch of `page`, before its first request.
    pub fn new(page: u32) -> (fetch: PageFetch)
        ensures
            fetch@ == fetch_of(page as nat),
    {
        let fetch = PageFetch { page, collected: Vec::new() };
        assert(fetch.collected.deep_view() =~= Seq::<Entry>::empty());
        fetch
    }

    /// The page that is being fetched.
    pub fn page(&self) -> (page: u32)
        ensures
            page == self@.page,
    {
        self.page
    }

    /// The number of entries that have come so far; always less than a full
    /// page.
    pub fn received(&self) -> (count: usize)
        ensures
            count == self@.collected.len(),
            count < POKEMON_BATCH_SIZE,
    {
        proof {
            use_type_invariant(self);
        }
        self.collected.len()
    }

    /// The id to ask for next.
    pub fn next_id(&self) -> (id: u64)
        ensures
            id == self@.next_id(),
    {
        proof {
            use_type_invariant(self);
        }
        let size: u64 = POKEMON_BATCH_SIZE as u64;
        assert(size == 10);
        self.page as u64 * size + 1 + self.collected.len() as u64
    }

    /// Takes the outcome of the request for `self.next_id()`.
    pub fn advance(self, outcome: Result<Pokemon, FetchFailure>) -> (progress: FetchProgress)
        ensures
            progress@ == self@.advance(outcome_model(outcome)),
    {
        proof {
            use_type_invariant(&self);
        }
        match outcome {
            Err(failure) => FetchProgress::Failed(failure.message(self.next_id())),
            Ok(entry) => {
                let ghost before = self.collected.deep_view();
                let PageFetch { page, collected } = self;
                let mut collected = collected;
                let normal = entry.normalize();
                collected.push(normal);
                assert(collected.deep_view() =~= before.push(entry@.normalized()));
                if collected.len() >= POKEMON_BATCH_SIZE as usize {
                    FetchProgress::Complete(stable_sort_by_rank(collected))
                } else {
                    FetchProgress::Pending(PageFetch { page, collected })
                }
            },
        }
    }
}

} // verus!
