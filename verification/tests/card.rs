use pokedex::card::{
    card_number, card_style, card_view, stat_label, stat_row, tag_style, type_tag, StatRow, TypeTag,
    FALLBACK_IMAGE, STATS_SHOWN, UNKNOWN_TYPE,
};
use pokedex::pokemon::{
    NamedResource, Pokemon, PokemonArtwork, PokemonOtherSprites, PokemonSprites, PokemonStat,
    PokemonType,
};
use pokedex::theme::{default_theme, theme_for};

fn slot(slot: u8, name: &str) -> PokemonType {
    PokemonType { slot, type_: NamedResource { name: name.to_string() } }
}

fn stat(name: &str, base_stat: u32) -> PokemonStat {
    PokemonStat { base_stat, stat: NamedResource { name: name.to_string() } }
}

fn bulbasaur() -> Pokemon {
    Pokemon {
        id: 1,
        name: "bulbasaur".to_string(),
        sprites: PokemonSprites {
            front_default: Some("https://img.example/front/1.png".to_string()),
            other: Some(PokemonOtherSprites {
                official_artwork: Some(PokemonArtwork {
                    front_default: Some("https://img.example/official/1.png".to_string()),
                }),
            }),
        },
        types: vec![slot(1, "grass"), slot(2, "poison")],
        stats: vec![
            stat("hp", 45),
            stat("attack", 49),
            stat("defense", 49),
            stat("special-attack", 65),
            stat("special-defense", 65),
            stat("speed", 45),
        ],
    }
}

#[test]
fn card_numbers_have_at_least_three_digits() {
    assert_eq!(card_number(0), "#000");
    assert_eq!(card_number(1), "#001");
    assert_eq!(card_number(9), "#009");
    assert_eq!(card_number(10), "#010");
    assert_eq!(card_number(25), "#025");
    assert_eq!(card_number(99), "#099");
    assert_eq!(card_number(100), "#100");
    assert_eq!(card_number(150), "#150");
    assert_eq!(card_number(1000), "#1000");
    assert_eq!(card_number(u32::MAX), "#4294967295");
}

#[test]
fn card_numbers_agree_with_the_standard_formatting() {
    for id in (0..2000u32).chain([65_535, 1_000_000, u32::MAX - 1]) {
        assert_eq!(card_number(id), format!("#{:03}", id));
    }
}

#[test]
fn stat_labels() {
    assert_eq!(stat_label("hp"), "Hp");
    assert_eq!(stat_label("attack"), "Attack");
    assert_eq!(stat_label("special-attack"), "Special Attack");
    assert_eq!(stat_label("special-defense"), "Special Defense");
    assert_eq!(stat_label("a-b-c"), "A B C");
}

#[test]
fn stat_labels_of_odd_names() {
    assert_eq!(stat_label(""), "");
    assert_eq!(stat_label("-"), " ");
    assert_eq!(stat_label("--"), "  ");
    assert_eq!(stat_label("-x"), " X");
    assert_eq!(stat_label("x-"), "X ");
    assert_eq!(stat_label("a--b"), "A  B");
    assert_eq!(stat_label("Hp"), "Hp");
    assert_eq!(stat_label("hP-sP"), "HP SP");
    assert_eq!(stat_label("1up-2up"), "1up 2up");
    assert_eq!(stat_label("sp atk"), "Sp atk");
}

#[test]
fn stat_labels_use_the_full_uppercase_form() {
    assert_eq!(stat_label("\u{df}eta-\u{e9}lan"), "SSeta \u{c9}lan");
    assert_eq!(stat_label("\u{fb01}re"), "FIre");
}

#[test]
fn card_and_tag_styles() {
    assert_eq!(
        card_style(&theme_for("fire")),
        "border-color: #EE8130; background: linear-gradient(145deg, #fff3e0 0%, #ffe0b2 100%);"
    );
    assert_eq!(
        card_style(&default_theme()),
        "border-color: #2a75bb; background: linear-gradient(145deg, #f4f4f4 0%, #e8e8e8 100%);"
    );
    assert_eq!(
        tag_style(&theme_for("water")),
        "background: linear-gradient(135deg, #6390F0 0%, #4d74c7 100%); box-shadow: 0 4px 12px rgba(99, 144, 240, 0.5);"
    );
}

#[test]
fn stat_rows_and_type_tags() {
    assert_eq!(
        stat_row(&stat("special-attack", 65)),
        StatRow { label: "Special Attack".to_string(), value: "65".to_string() }
    );
    assert_eq!(stat_row(&stat("hp", 0)).value, "0");
    assert_eq!(stat_row(&stat("hp", u32::MAX)).value, "4294967295");
    assert_eq!(
        type_tag(&slot(2, "poison")),
        TypeTag {
            style: "background: linear-gradient(135deg, #A33EA1 0%, #832e81 100%); box-shadow: 0 4px 12px rgba(163, 62, 161, 0.5);".to_string(),
            label: "POISON".to_string(),
        }
    );
    assert_eq!(type_tag(&slot(1, "\u{e9}ther")).label, "\u{e9}THER");
    assert_eq!(type_tag(&slot(1, "\u{e9}ther")).style, tag_style(&default_theme()));
}

#[test]
fn card_of_a_full_entry() {
    let card = card_view(&bulbasaur());
    assert_eq!(card.primary_type, "grass");
    assert_eq!(
        card.card_style,
        "border-color: #7AC74C; background: linear-gradient(145deg, #e8f5e9 0%, #c8e6c9 100%);"
    );
    assert_eq!(card.number, "#001");
    assert_eq!(card.display_name, "BULBASAUR");
    assert_eq!(card.image_src, "https://img.example/official/1.png");
    assert_eq!(STATS_SHOWN, 3);
    assert_eq!(
        card.stats,
        vec![
            StatRow { label: "Hp".to_string(), value: "45".to_string() },
            StatRow { label: "Attack".to_string(), value: "49".to_string() },
            StatRow { label: "Defense".to_string(), value: "49".to_string() },
        ]
    );
    assert_eq!(card.tags.len(), 2);
    assert_eq!(card.tags[0], type_tag(&slot(1, "grass")));
    assert_eq!(card.tags[1].label, "POISON");
}

#[test]
fn card_of_a_bare_entry() {
    let entry = Pokemon {
        id: 1234,
        name: String::new(),
        sprites: PokemonSprites { front_default: None, other: None },
        types: Vec::new(),
        stats: vec![stat("speed", 7)],
    };
    let card = card_view(&entry);
    assert_eq!(card.primary_type, "unknown");
    assert_eq!(card.primary_type, UNKNOWN_TYPE);
    assert_eq!(card.card_style, card_style(&default_theme()));
    assert_eq!(card.number, "#1234");
    assert_eq!(card.display_name, "");
    assert_eq!(
        card.image_src,
        "https://raw.githubusercontent.com/PokeAPI/sprites/master/sprites/pokemon/0.png"
    );
    assert_eq!(card.image_src, FALLBACK_IMAGE);
    assert_eq!(card.stats, vec![StatRow { label: "Speed".to_string(), value: "7".to_string() }]);
    assert!(card.tags.is_empty());
}

#[test]
fn card_is_drawn_by_the_primary_type() {
    let mut entry = bulbasaur();
    entry.types = vec![slot(2, "flying"), slot(1, "fire")];
    let card = card_view(&entry);
    assert_eq!(card.primary_type, "fire");
    assert_eq!(card.card_style, card_style(&theme_for("fire")));
    assert_eq!(card.tags[0].label, "FLYING");
    assert_eq!(card.tags[1].label, "FIRE");
}

#[test]
fn display_name_is_the_full_uppercase_form() {
    let mut entry = bulbasaur();
    entry.name = "mr-mime stra\u{df}e \u{e9}".to_string();
    assert_eq!(card_view(&entry).display_name, "MR-MIME STRASSE \u{c9}");
    entry.name = "nidoran\u{2640}".to_string();
    assert_eq!(card_view(&entry).display_name, "NIDORAN\u{2640}");
}
