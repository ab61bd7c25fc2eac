//! What a card shows of one entry: texts and styles, ready to be put into
//! markup.

use crate::pokemon::{Category, Entry, Pokemon, PokemonStat, PokemonType, Stat};
use crate::text::{
    ascii_uppercase, char_to_uppercase, char_uppercase_of, decimal, decimal_string, pad_left,
    push_decimal, to_ascii_uppercase, to_uppercase, uppercase_of,
};
use crate::theme::{theme_for, theme_tokens, TypeTheme};
use vstd::prelude::*;

verus! {

/// The category under which an entry without categories is drawn.
pub const UNKNOWN_TYPE: &'static str = "unknown";

/// The image of an entry that has none.
pub const FALLBACK_IMAGE: &'static str =
    "https://raw.githubusercontent.com/PokeAPI/sprites/master/sprites/pokemon/0.png";

/// The number of statistics that a card shows.
pub const STATS_SHOWN: usize = 3;

/// One line of statistics on a card.
#[derive(Clone, Debug, PartialEq, Eq)]
pub struct StatRow {
    pub label: String,
    pub value: String,
}

/// One category tag on a card.
#[derive(Clone, Debug, PartialEq, Eq)]
pub struct TypeTag {
    pub style: String,
    pub label: String,
}

/// What a card shows.
#[derive(Clone, Debug, PartialEq, Eq)]
pub struct CardView {
    pub primary_type: String,
    pub card_style: String,
    pub number: String,
    pub display_name: String,
    pub image_src: String,
    pub stats: Vec<StatRow>,
    pub tags: Vec<TypeTag>,
}

/// Model of a [`StatRow`].
pub struct StatLine {
    pub label: Seq<char>,
    pub value: Seq<char>,
}

/// Model of a [`TypeTag`].
pub struct Tag {
    pub style: Seq<char>,
    pub label: Seq<char>,
}

/// Model of a [`CardView`].
pub struct Card {
    pub primary_type: Seq<char>,
    pub card_style: Seq<char>,
    pub number: Seq<char>,
    pub display_name: Seq<char>,
    pub image_src: Seq<char>,
    pub stats: Seq<StatLine>,
    pub tags: Seq<Tag>,
}

impl View for StatRow {
    type V = StatLine;

    open spec fn view(&self) -> StatLine {
        StatLine { label: self.label@, value: self.value@ }
    }
}

impl DeepView for StatRow {
    type V = StatLine;

    open spec fn deep_view(&self) -> StatLine {
        self@
    }
}

impl View for TypeTag {
    type V = Tag;

    open spec fn view(&self) -> Tag {
        Tag { style: self.style@, label: self.label@ }
    }
}

impl DeepView for TypeTag {
    type V = Tag;

    open spec fn deep_view(&self) -> Tag {
        self@
    }
}

impl View for CardView {
    type V = Card;

    open spec fn view(&self) -> Card {
        Card {
            primary_type: self.primary_type@,
            card_style: self.card_style@,
            number: self.number@,
            display_name: self.display_name@,
            image_src: self.image_src@,
            stats: self.stats.deep_view(),
            tags: self.tags.deep_view(),
        }
    }
}

/// What the character at place `i` of a statistic's name becomes in its
/// label: a hyphen becomes a space; a character that begins the name or
/// follows a hyphen becomes its uppercase form; any other stays.
pub open spec fn label_piece(name: Seq<char>, i: int) -> Seq<char> {
    if name[i] == '-' {
        seq![' ']
    } else if i == 0 || name[i - 1] == '-' {
        char_uppercase_of(name[i])
    } else {
        seq![name[i]]
    }
}

/// The pieces of the first `n` characters of `name`, one after the other.
pub open spec fn label_pieces(name: Seq<char>, n: nat) -> Seq<char>
    decreases n,
{
    if n == 0 {
        Seq::empty()
    } else {
        label_pieces(name, (n - 1) as nat) + label_piece(name, n - 1)
    }
}

/// The label of a statistic: its name with the hyphens turned into spaces
/// and each word begun with its uppercase form.
pub open spec fn stat_label_text(name: Seq<char>) -> Seq<char> {
    label_pieces(name, name.len())
}

/// The style of a card drawn with `theme`.
pub open spec fn card_style_text(theme: TypeTheme) -> Seq<char> {
    "border-color: "@ + theme.card_border@ + "; background: linear-gradient(145deg, "@
        + theme.card_bg_start@ + " 0%, "@ + theme.card_bg_end@ + " 100%);"@
}

/// The style of a tag drawn with `theme`.
pub open spec fn tag_style_text(theme: TypeTheme) -> Seq<char> {
    "background: linear-gradient(135deg, "@ + theme.tag_bg_start@ + " 0%, "@ + theme.tag_bg_end@
        + " 100%); box-shadow: "@ + theme.tag_shadow@ + ";"@
}

/// The number on a card: a hash sign and the id in at least three digits.
pub open spec fn card_number_text(id: nat) -> Seq<char> {
    seq!['#'] + pad_left(decimal(id), 3, '0')
}

/// The line that a card shows for `stat`.
pub open spec fn stat_line(stat: Stat) -> StatLine {
    StatLine { label: stat_label_text(stat.name), value: decimal(stat.value) }
}

/// The tag that a card shows for `category`.
pub open spec fn tag_of(category: Category) -> Tag {
    Tag {
        style: tag_style_text(theme_tokens(category.name)),
        label: ascii_uppercase(category.name),
    }
}

/// The category under which `entry` is drawn: its primary one, or
/// "unknown" where it has none.
pub open spec fn drawn_category(entry: Entry) -> Seq<char> {
    match entry.primary_category() {
        Some(name) => name,
        None => UNKNOWN_TYPE@,
    }
}

/// The number of statistics that the card of `entry` shows.
pub open spec fn stats_shown(entry: Entry) -> int {
    if entry.stats.len() < STATS_SHOWN {
        entry.stats.len() as int
    } else {
        STATS_SHOWN as int
    }
}

/// What the card of `entry` shows.
pub open spec fn card_of(entry: Entry) -> Card {
    Card {
        primary_type: drawn_category(entry),
        card_style: card_style_text(theme_tokens(drawn_category(entry))),
        number: card_number_text(entry.id),
        display_name: uppercase_of(entry.name),
        image_src: match entry.image_url {
            Some(url) => url,
            None => FALLBACK_IMAGE@,
        },
        stats: Seq::new(stats_shown(entry) as nat, |i: int| stat_line(entry.stats[i])),
        tags: Seq::new(entry.categories.len(), |i: int| tag_of(entry.categories[i])),
    }
}

/// The label of a statistic, made of its name: hyphens become spaces, and
/// each word begins with its uppercase form.
pub fn stat_label(label: &str) -> (text: String)
    ensures
        text@ == stat_label_text(label@),
{
    let mut text = String::new();
    let mut word_begins = true;
    for c in chars: label.chars()
        invariant
            chars.seq() == label@,
            text@ == label_pieces(label@, chars.index() as nat),
            word_begins == (chars.index() == 0 || label@[chars.index() - 1] == '-'),
    {
        let ghost before = text@;
        if c == '-' {
            text.push(' ');
            assert(text@ =~= before + seq![' ']);
            word_begins = true;
        } else if word_begins {
            let upper = char_to_uppercase(c);
            text.append(upper.as_str());
            word_begins = false;
        } else {
            text.push(c);
            assert(text@ =~= before + seq![c]);
            word_begins = false;
        }
    }
    text
}

/// The style of a card drawn with `theme`.
pub fn card_style(theme: &TypeTheme) -> (style: String)
    ensures
        style@ == card_style_text(*theme),
{
    let mut style = "border-color: ".to_owned();
    style.append(theme.card_border);
    style.append("; background: linear-gradient(145deg, ");
    style.append(theme.card_bg_start);
    style.append(" 0%, ");
    style.append(theme.card_bg_end);
    style.append(" 100%);");
    style
}

/// The style of a tag drawn with `theme`.
pub fn tag_style(theme: &TypeTheme) -> (style: String)
    ensures
        style@ == tag_style_text(*theme),
{
    let mut style = "background: linear-gradient(135deg, ".to_owned();
    style.append(theme.tag_bg_start);
    style.append(" 0%, ");
    style.append(theme.tag_bg_end);
    style.append(" 100%); box-shadow: ");
    style.append(theme.tag_shadow);
    style.append(";");
    style
}

/// The number on a card: a hash sign and the id in at least three digits.
pub fn card_number(id: u32) -> (number: String)
    ensures
        number@ == card_number_text(id as nat),
{
    let mut number = String::new();
    number.push('#');
    let ghost zeros = Seq::new((3 - decimal(id as nat).len()) as nat, |i: int| '0');
    proof {
        reveal_with_fuel(decimal, 3);
    }
    if id < 10 {
        number.push('0');
        number.push('0');
        assert(number@ =~= seq!['#'] + zeros);
    } else if id < 100 {
        number.push('0');
        assert(number@ =~= seq!['#'] + zeros);
    }
    push_decimal(&mut number, id as u64);
    assert(number@ =~= card_number_text(id as nat));
    number
}

/// The line that a card shows for `stat`.
pub fn stat_row(stat: &PokemonStat) -> (row: StatRow)
    ensures
        row@ == stat_line(stat@),
{
    StatRow {
        label: stat_label(stat.stat.name.as_str()),
        value: decimal_string(stat.base_stat as u64),
    }
}

/// The tag that a card shows for `category`.
pub fn type_tag(category: &PokemonType) -> (tag: TypeTag)
    ensures
        tag@ == tag_of(category@),
{
    let name = category.type_.name.as_str();
    let theme = theme_for(name);
    TypeTag { style: tag_style(&theme), label: to_ascii_uppercase(name) }
}

/// What the card of `entry` shows.
pub fn card_view(entry: &Pokemon) -> (card: CardView)
    ensures
        card@ == card_of(entry@),
{
    let primary_type = match entry.primary_type() {
        Some(name) => name.to_owned(),
        None => UNKNOWN_TYPE.to_owned(),
    };
    let theme = theme_for(primary_type.as_str());
    let image_src = match entry.artwork() {
        Some(url) => url.to_owned(),
        None => FALLBACK_IMAGE.to_owned(),
    };
    let mut stats: Vec<StatRow> = Vec::new();
    let mut i: usize = 0;
    while i < entry.stats.len() && i < STATS_SHOWN
        invariant
            i <= entry.stats@.len(),
            i <= STATS_SHOWN,
            stats@.len() == i,
            forall|j: int| 0 <= j < i ==> (#[trigger] stats@[j])@ == stat_line(entry@.stats[j]),
        decreases entry.stats@.len() - i,
    {
        stats.push(stat_row(&entry.stats[i]));
        i = i + 1;
    }
    let mut tags: Vec<TypeTag> = Vec::new();
    let mut k: usize = 0;
    while k < entry.types.len()
        invariant
            k <= entry.types@.len(),
            tags@.len() == k,
            forall|j: int| 0 <= j < k ==> (#[trigger] tags@[j])@ == tag_of(entry@.categories[j]),
        decreases entry.types@.len() - k,
    {
        tags.push(type_tag(&entry.types[k]));
        k = k + 1;
    }
    let card = CardView {
        primary_type,
        card_style: card_style(&theme),
        number: card_number(entry.id),
        display_name: to_uppercase(entry.name.as_str()),
        image_src,
        stats,
        tags,
    };
    assert(card@.stats =~= card_of(entry@).stats);
    assert(card@.tags =~= card_of(entry@).tags);
    card
}

} // verus!
