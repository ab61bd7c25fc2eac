use pokedex::catalog::{contains_id, merge_page};
use pokedex::pokemon::{Pokemon, PokemonSprites};

fn entry(id: u32, name: &str) -> Pokemon {
    Pokemon {
        id,
        name: name.to_string(),
        sprites: PokemonSprites { front_default: None, other: None },
        types: Vec::new(),
        stats: Vec::new(),
    }
}

fn names(catalog: &[Pokemon]) -> Vec<&str> {
    catalog.iter().map(|p| p.name.as_str()).collect()
}

#[test]
fn contains_id_finds_what_is_there() {
    let catalog = vec![entry(3, "c"), entry(1, "a"), entry(u32::MAX, "z")];
    assert!(contains_id(&catalog, 3));
    assert!(contains_id(&catalog, 1));
    assert!(contains_id(&catalog, u32::MAX));
    assert!(!contains_id(&catalog, 2));
    assert!(!contains_id(&catalog, 0));
    assert!(!contains_id(&Vec::new(), 1));
}

#[test]
fn merge_into_an_empty_catalog_takes_the_page() {
    let mut catalog = Vec::new();
    merge_page(&mut catalog, vec![entry(2, "b"), entry(1, "a")]);
    assert_eq!(names(&catalog), vec!["b", "a"]);
}

#[test]
fn merge_of_an_empty_page_changes_nothing() {
    let mut catalog = vec![entry(1, "a")];
    merge_page(&mut catalog, Vec::new());
    assert_eq!(names(&catalog), vec!["a"]);
}

#[test]
fn merge_appends_in_page_order_and_drops_known_ids() {
    let mut catalog = vec![entry(1, "a"), entry(2, "b")];
    merge_page(&mut catalog, vec![entry(4, "d"), entry(2, "other b"), entry(3, "c"), entry(4, "other d")]);
    assert_eq!(names(&catalog), vec!["a", "b", "d", "c"]);
}

#[test]
fn merge_is_idempotent() {
    let page = vec![entry(5, "e"), entry(2, "b2"), entry(6, "f"), entry(5, "e2")];
    let mut once = vec![entry(1, "a"), entry(2, "b")];
    merge_page(&mut once, page.clone());
    let mut twice = once.clone();
    merge_page(&mut twice, page);
    assert_eq!(once, twice);
    assert_eq!(names(&once), vec!["a", "b", "e", "f"]);
}
