use pokedex::ordering::stable_sort_by_rank;
use pokedex::pokemon::{
    NamedResource, Pokemon, PokemonArtwork, PokemonOtherSprites, PokemonSprites, PokemonStat,
    PokemonType,
};

fn slot(slot: u8, name: &str) -> PokemonType {
    PokemonType { slot, type_: NamedResource { name: name.to_string() } }
}

fn with_types(types: Vec<PokemonType>) -> Pokemon {
    Pokemon {
        id: 1,
        name: "bulbasaur".to_string(),
        sprites: PokemonSprites { front_default: None, other: None },
        types,
        stats: vec![PokemonStat { base_stat: 45, stat: NamedResource { name: "hp".to_string() } }],
    }
}

fn with_sprites(sprites: PokemonSprites) -> Pokemon {
    Pokemon { id: 1, name: "bulbasaur".to_string(), sprites, types: Vec::new(), stats: Vec::new() }
}

#[test]
fn artwork_prefers_the_official_artwork() {
    let entry = with_sprites(PokemonSprites {
        front_default: Some("front.png".to_string()),
        other: Some(PokemonOtherSprites {
            official_artwork: Some(PokemonArtwork { front_default: Some("official.png".to_string()) }),
        }),
    });
    assert_eq!(entry.artwork(), Some("official.png"));
}

#[test]
fn artwork_falls_back_to_the_front_sprite() {
    let no_other = with_sprites(PokemonSprites { front_default: Some("front.png".to_string()), other: None });
    assert_eq!(no_other.artwork(), Some("front.png"));

    let no_official = with_sprites(PokemonSprites {
        front_default: Some("front.png".to_string()),
        other: Some(PokemonOtherSprites { official_artwork: None }),
    });
    assert_eq!(no_official.artwork(), Some("front.png"));

    let no_image = with_sprites(PokemonSprites {
        front_default: Some("front.png".to_string()),
        other: Some(PokemonOtherSprites {
            official_artwork: Some(PokemonArtwork { front_default: None }),
        }),
    });
    assert_eq!(no_image.artwork(), Some("front.png"));
}

#[test]
fn artwork_may_be_missing() {
    let bare = with_sprites(PokemonSprites { front_default: None, other: None });
    assert_eq!(bare.artwork(), None);
    let hollow = with_sprites(PokemonSprites {
        front_default: None,
        other: Some(PokemonOtherSprites {
            official_artwork: Some(PokemonArtwork { front_default: None }),
        }),
    });
    assert_eq!(hollow.artwork(), None);
}

#[test]
fn primary_type_is_the_one_of_least_slot() {
    assert_eq!(with_types(vec![slot(1, "grass"), slot(2, "poison")]).primary_type(), Some("grass"));
    assert_eq!(with_types(vec![slot(2, "poison"), slot(1, "grass")]).primary_type(), Some("grass"));
    assert_eq!(
        with_types(vec![slot(9, "a"), slot(4, "b"), slot(7, "c"), slot(0, "d")]).primary_type(),
        Some("d")
    );
    assert_eq!(with_types(vec![slot(200, "only")]).primary_type(), Some("only"));
}

#[test]
fn primary_type_of_equal_slots_is_the_first() {
    assert_eq!(
        with_types(vec![slot(3, "late"), slot(1, "first"), slot(1, "second")]).primary_type(),
        Some("first")
    );
}

#[test]
fn primary_type_of_no_types_is_none() {
    assert_eq!(with_types(Vec::new()).primary_type(), None);
}

#[test]
fn normalize_orders_types_and_keeps_the_rest() {
    let entry = Pokemon {
        id: 6,
        name: "charizard".to_string(),
        sprites: PokemonSprites { front_default: Some("f.png".to_string()), other: None },
        types: vec![slot(2, "flying"), slot(1, "fire")],
        stats: vec![PokemonStat { base_stat: 78, stat: NamedResource { name: "hp".to_string() } }],
    };
    let normal = entry.clone().normalize();
    assert_eq!(normal.types, vec![slot(1, "fire"), slot(2, "flying")]);
    assert_eq!(normal.id, entry.id);
    assert_eq!(normal.name, entry.name);
    assert_eq!(normal.sprites, entry.sprites);
    assert_eq!(normal.stats, entry.stats);
}

#[test]
fn normalize_keeps_ties_in_their_order() {
    let entry = with_types(vec![slot(2, "x"), slot(1, "a"), slot(2, "y"), slot(1, "b"), slot(2, "z")]);
    let normal = entry.normalize();
    assert_eq!(normal.types, vec![slot(1, "a"), slot(1, "b"), slot(2, "x"), slot(2, "y"), slot(2, "z")]);
}

#[test]
fn normalize_keeps_the_primary_type() {
    let entry = with_types(vec![slot(5, "e"), slot(2, "first"), slot(2, "second"), slot(9, "n")]);
    let before = entry.primary_type().map(str::to_string);
    let normal = entry.normalize();
    assert_eq!(normal.primary_type().map(str::to_string), before);
    assert_eq!(normal.types[0].type_.name, "first");
}

#[test]
fn stable_sort_of_nothing_and_of_one() {
    assert_eq!(stable_sort_by_rank(Vec::<PokemonType>::new()), Vec::new());
    assert_eq!(stable_sort_by_rank(vec![slot(3, "a")]), vec![slot(3, "a")]);
}

#[test]
fn stable_sort_reaches_both_ends_of_the_slot_range() {
    let sorted = stable_sort_by_rank(vec![slot(255, "max"), slot(0, "min"), slot(255, "max2"), slot(128, "mid")]);
    assert_eq!(sorted, vec![slot(0, "min"), slot(128, "mid"), slot(255, "max"), slot(255, "max2")]);
}

#[test]
fn stable_sort_agrees_with_the_standard_stable_sort() {
    let mut seed: u32 = 12345;
    for round in 0..50usize {
        let mut items = Vec::new();
        for i in 0..(round % 17) {
            seed = seed.wrapping_mul(1_103_515_245).wrapping_add(12345);
            items.push(slot((seed >> 16) as u8 % 5, &format!("item-{i}")));
        }
        let mut expected = items.clone();
        expected.sort_by_key(|t| t.slot);
        assert_eq!(stable_sort_by_rank(items), expected);
    }
}

#[test]
fn stable_sort_orders_entries_by_id() {
    let mut a = with_types(Vec::new());
    a.id = u32::MAX;
    let mut b = with_types(Vec::new());
    b.id = 0;
    let mut c = with_types(Vec::new());
    c.id = 77;
    let sorted = stable_sort_by_rank(vec![a, b, c]);
    assert_eq!(sorted.iter().map(|p| p.id).collect::<Vec<_>>(), vec![0, 77, u32::MAX]);
}
