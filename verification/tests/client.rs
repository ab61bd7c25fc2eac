use pokedex::client::{entry_url, FetchFailure, FetchProgress, PageFetch, POKEMON_BATCH_SIZE};
use pokedex::pokemon::{NamedResource, Pokemon, PokemonSprites, PokemonType};
use pokedex::state::AppState;

fn entry(id: u32) -> Pokemon {
    Pokemon {
        id,
        name: format!("entry-{id}"),
        sprites: PokemonSprites { front_default: None, other: None },
        types: Vec::new(),
        stats: Vec::new(),
    }
}

fn slot(slot: u8, name: &str) -> PokemonType {
    PokemonType { slot, type_: NamedResource { name: name.to_string() } }
}

/// Runs a fetch of `page` in which every request gives the entry asked for.
/// Returns the ids asked for and the page that came of it.
fn fetch_all(page: u32) -> (Vec<u64>, Vec<Pokemon>) {
    let mut asked = Vec::new();
    let mut fetch = PageFetch::new(page);
    loop {
        let id = fetch.next_id();
        asked.push(id);
        match fetch.advance(Ok(entry(id as u32))) {
            FetchProgress::Pending(next) => fetch = next,
            FetchProgress::Complete(entries) => return (asked, entries),
            FetchProgress::Failed(message) => panic!("{message}"),
        }
    }
}

#[test]
fn batch_size_is_ten() {
    assert_eq!(POKEMON_BATCH_SIZE, 10);
}

#[test]
fn batch_range() {
    let (asked, entries) = fetch_all(0);
    assert_eq!(asked, vec![1, 2, 3, 4, 5, 6, 7, 8, 9, 10]);
    assert_eq!(entries.iter().map(|p| p.id).collect::<Vec<_>>(), vec![1, 2, 3, 4, 5, 6, 7, 8, 9, 10]);

    let (asked, entries) = fetch_all(1);
    assert_eq!(asked, vec![11, 12, 13, 14, 15, 16, 17, 18, 19, 20]);
    assert_eq!(entries.len(), 10);
}

#[test]
fn batch_range_of_a_later_page() {
    let (asked, _) = fetch_all(7);
    assert_eq!(asked, (71..=80).collect::<Vec<u64>>());
}

#[test]
fn ids_of_the_last_page_do_not_wrap() {
    let fetch = PageFetch::new(u32::MAX);
    assert_eq!(fetch.page(), u32::MAX);
    assert_eq!(fetch.next_id(), 42_949_672_951);
}

#[test]
fn a_new_fetch_has_received_nothing() {
    let fetch = PageFetch::new(3);
    assert_eq!(fetch.page(), 3);
    assert_eq!(fetch.received(), 0);
    assert_eq!(fetch.next_id(), 31);
}

#[test]
fn requests_follow_each_other_one_at_a_time() {
    let mut fetch = PageFetch::new(2);
    for step in 0..9u64 {
        assert_eq!(fetch.received() as u64, step);
        assert_eq!(fetch.next_id(), 21 + step);
        fetch = match fetch.advance(Ok(entry(21 + step as u32))) {
            FetchProgress::Pending(next) => next,
            _ => panic!("the page is not full yet"),
        };
    }
    assert_eq!(fetch.next_id(), 30);
    assert!(matches!(fetch.advance(Ok(entry(30))), FetchProgress::Complete(_)));
}

#[test]
fn partial_failure_atomicity() {
    let mut state = AppState::new();
    assert_eq!(state.start(), Some(0));
    let (_, first) = fetch_all(0);
    state.on_fetch_succeeded(first);
    let page = state.on_primary_action().expect("the next page is asked for");
    assert_eq!(page, 1);

    let mut fetch = PageFetch::new(page);
    for id in 11..15u32 {
        assert_eq!(fetch.next_id(), id as u64);
        fetch = match fetch.advance(Ok(entry(id))) {
            FetchProgress::Pending(next) => next,
            _ => panic!("the page is not full yet"),
        };
    }
    assert_eq!(fetch.next_id(), 15);
    let message = match fetch.advance(Err(FetchFailure::Transport("connection reset".to_string()))) {
        FetchProgress::Failed(message) => message,
        _ => panic!("a failed request ends the fetch"),
    };
    assert_eq!(message, "request failed for id 15: connection reset");

    state.on_fetch_failed(message);
    let ids: Vec<u32> = state.accumulated().iter().map(|p| p.id).collect();
    assert_eq!(ids, vec![1, 2, 3, 4, 5, 6, 7, 8, 9, 10]);
    assert_eq!(state.page_cursor(), 1);
    assert_eq!(state.last_error(), Some("request failed for id 15: connection reset"));
}

#[test]
fn the_first_request_may_fail() {
    let fetch = PageFetch::new(0);
    match fetch.advance(Err(FetchFailure::Decode("missing field `name`".to_string()))) {
        FetchProgress::Failed(message) => {
            assert_eq!(message, "invalid response payload for id 1: missing field `name`")
        }
        _ => panic!("a failed request ends the fetch"),
    }
}

#[test]
fn the_last_request_may_fail() {
    let mut fetch = PageFetch::new(0);
    for id in 1..10u32 {
        fetch = match fetch.advance(Ok(entry(id))) {
            FetchProgress::Pending(next) => next,
            _ => panic!("the page is not full yet"),
        };
    }
    match fetch.advance(Err(FetchFailure::Decode("eof".to_string()))) {
        FetchProgress::Failed(message) => assert_eq!(message, "invalid response payload for id 10: eof"),
        _ => panic!("a failed request ends the fetch"),
    }
}

#[test]
fn failure_messages() {
    let transport = FetchFailure::Transport("timed out".to_string());
    let decode = FetchFailure::Decode("expected value at line 1 column 1".to_string());
    assert_eq!(transport.message(15), "request failed for id 15: timed out");
    assert_eq!(
        decode.message(1020),
        "invalid response payload for id 1020: expected value at line 1 column 1"
    );
    assert_eq!(transport.message(0), "request failed for id 0: timed out");
    assert_eq!(
        FetchFailure::Transport(String::new()).message(42_949_672_960),
        "request failed for id 42949672960: "
    );
}

#[test]
fn entry_urls() {
    assert_eq!(entry_url(1), "https://pokeapi.co/api/v2/pokemon/1");
    assert_eq!(entry_url(25), "https://pokeapi.co/api/v2/pokemon/25");
    assert_eq!(entry_url(1025), "https://pokeapi.co/api/v2/pokemon/1025");
}

#[test]
fn a_page_comes_out_ordered_by_id() {
    let answers = [17u32, 12, 20, 11, 19, 14, 13, 18, 16, 15];
    let mut fetch = PageFetch::new(1);
    let mut done = None;
    for id in answers {
        match fetch.advance(Ok(entry(id))) {
            FetchProgress::Pending(next) => fetch = next,
            FetchProgress::Complete(entries) => {
                done = Some(entries);
                fetch = PageFetch::new(1);
            }
            FetchProgress::Failed(message) => panic!("{message}"),
        }
    }
    let ids: Vec<u32> = done.expect("ten entries fill the page").iter().map(|p| p.id).collect();
    assert_eq!(ids, vec![11, 12, 13, 14, 15, 16, 17, 18, 19, 20]);
}

#[test]
fn entries_of_equal_id_keep_their_order_in_a_page() {
    let mut fetch = PageFetch::new(0);
    let mut done = None;
    for step in 0..10u32 {
        let mut answer = entry(if step % 2 == 0 { 8 } else { 3 });
        answer.name = format!("answer-{step}");
        match fetch.advance(Ok(answer)) {
            FetchProgress::Pending(next) => fetch = next,
            FetchProgress::Complete(entries) => {
                done = Some(entries);
                fetch = PageFetch::new(0);
            }
            FetchProgress::Failed(message) => panic!("{message}"),
        }
    }
    let names: Vec<String> = done.expect("ten entries fill the page").into_iter().map(|p| p.name).collect();
    assert_eq!(
        names,
        vec![
            "answer-1", "answer-3", "answer-5", "answer-7", "answer-9", "answer-0", "answer-2",
            "answer-4", "answer-6", "answer-8",
        ]
    );
}

#[test]
fn categories_come_out_ordered_by_slot() {
    let mut fetch = PageFetch::new(0);
    let mut done = None;
    for id in 1..=10u32 {
        let mut answer = entry(id);
        if id == 4 {
            answer.types = vec![slot(2, "poison"), slot(1, "grass")];
        }
        if id == 5 {
            answer.types = vec![slot(3, "c"), slot(1, "a1"), slot(2, "b"), slot(1, "a2"), slot(0, "z")];
        }
        match fetch.advance(Ok(answer)) {
            FetchProgress::Pending(next) => fetch = next,
            FetchProgress::Complete(entries) => {
                done = Some(entries);
                fetch = PageFetch::new(0);
            }
            FetchProgress::Failed(message) => panic!("{message}"),
        }
    }
    let entries = done.expect("ten entries fill the page");
    assert_eq!(entries[3].types, vec![slot(1, "grass"), slot(2, "poison")]);
    assert_eq!(
        entries[4].types,
        vec![slot(0, "z"), slot(1, "a1"), slot(1, "a2"), slot(2, "b"), slot(3, "c")]
    );
    assert_eq!(entries[3].primary_type(), Some("grass"));
}
