use pokedex::theme::{default_theme, known_theme, theme_for, TypeTheme};

const KNOWN: [&str; 18] = [
    "bug", "dark", "dragon", "electric", "fairy", "fighting", "fire", "flying", "ghost", "grass",
    "ground", "ice", "normal", "poison", "psychic", "rock", "steel", "water",
];

#[test]
fn default_theme_tokens() {
    assert_eq!(
        default_theme(),
        TypeTheme {
            card_border: "#2a75bb",
            card_bg_start: "#f4f4f4",
            card_bg_end: "#e8e8e8",
            tag_bg_start: "#7AC74C",
            tag_bg_end: "#5a9c3c",
            tag_shadow: "0 4px 12px rgba(122, 199, 76, 0.5)",
        }
    );
}

#[test]
fn theme_of_fire_and_water() {
    assert_eq!(
        theme_for("fire"),
        TypeTheme {
            card_border: "#EE8130",
            card_bg_start: "#fff3e0",
            card_bg_end: "#ffe0b2",
            tag_bg_start: "#EE8130",
            tag_bg_end: "#c86420",
            tag_shadow: "0 4px 12px rgba(238, 129, 48, 0.5)",
        }
    );
    assert_eq!(
        theme_for("water"),
        TypeTheme {
            card_border: "#6390F0",
            card_bg_start: "#e0ebff",
            card_bg_end: "#bad0ff",
            tag_bg_start: "#6390F0",
            tag_bg_end: "#4d74c7",
            tag_shadow: "0 4px 12px rgba(99, 144, 240, 0.5)",
        }
    );
}

#[test]
fn theme_of_bug_and_grass() {
    assert_eq!(theme_for("bug").card_border, "#A6B91A");
    assert_eq!(theme_for("bug").tag_bg_end, "#8a9c14");
    assert_eq!(theme_for("grass").card_bg_start, "#e8f5e9");
    assert_eq!(theme_for("grass").tag_shadow, "0 4px 12px rgba(122, 199, 76, 0.5)");
}

#[test]
fn every_known_category_has_its_own_border() {
    let mut borders = Vec::new();
    for name in KNOWN {
        let theme = known_theme(name).expect("a category of the table");
        assert_eq!(theme, theme_for(name));
        assert_ne!(theme.card_border, default_theme().card_border);
        assert_eq!(theme.card_border, theme.tag_bg_start);
        assert!(!borders.contains(&theme.card_border));
        borders.push(theme.card_border);
    }
    assert_eq!(borders.len(), 18);
}

#[test]
fn unknown_categories_have_the_default_theme() {
    for name in ["unknown", "", "shadow", "Fire", "FIRE", "fire ", " fire", "fir", "fires", "all"] {
        assert_eq!(known_theme(name), None);
        assert_eq!(theme_for(name), default_theme());
    }
}
