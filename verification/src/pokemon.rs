//! The catalog's data: one creature as the remote API describes it, and the
//! mathematical model of it that the contracts of this crate speak of.

use crate::ordering::{
    keyed, keys_below, lemma_group_first, lemma_same_groups_same_elements,
    lemma_stable_sort_is_stable, rank_key, same_groups, sorted_by, stable_sort,
    stable_sort_by_rank, Ranked,
};
use vstd::prelude::*;

verus! {

/// A named API resource; only the name is kept.
#[derive(Clone, Debug, PartialEq, Eq)]
pub struct NamedResource {
    pub name: String,
}

/// One category of a creature, with the rank of the slot it occupies.
#[derive(Clone, Debug, PartialEq, Eq)]
pub struct PokemonType {
    pub slot: u8,
    pub type_: NamedResource,
}

/// One base statistic of a creature.
#[derive(Clone, Debug, PartialEq, Eq)]
pub struct PokemonStat {
    pub base_stat: u32,
    pub stat: NamedResource,
}

/// The official artwork of a creature.
#[derive(Clone, Debug, PartialEq, Eq)]
pub struct PokemonArtwork {
    pub front_default: Option<String>,
}

/// The sprite sets beside the default one.
#[derive(Clone, Debug, PartialEq, Eq)]
pub struct PokemonOtherSprites {
    pub official_artwork: Option<PokemonArtwork>,
}

/// The images of a creature.
#[derive(Clone, Debug, PartialEq, Eq)]
pub struct PokemonSprites {
    pub front_default: Option<String>,
    pub other: Option<PokemonOtherSprites>,
}

/// One creature of the catalog.
#[derive(Clone, Debug, PartialEq, Eq)]
pub struct Pokemon {
    pub id: u32,
    pub name: String,
    pub sprites: PokemonSprites,
    pub types: Vec<PokemonType>,
    pub stats: Vec<PokemonStat>,
}

/// Model of a [`PokemonType`]: a category name and its slot rank.
pub struct Category {
    pub slot: nat,
    pub name: Seq<char>,
}

/// Model of a [`PokemonStat`]: a statistic's name and value.
pub struct Stat {
    pub name: Seq<char>,
    pub value: nat,
}

/// Model of a [`Pokemon`]: one entry of the catalog.
pub struct Entry {
    pub id: nat,
    pub name: Seq<char>,
    pub image_url: Option<Seq<char>>,
    pub categories: Seq<Category>,
    pub stats: Seq<Stat>,
}

impl View for NamedResource {
    type V = Seq<char>;

    open spec fn view(&self) -> Seq<char> {
        self.name@
    }
}

impl DeepView for NamedResource {
    type V = Seq<char>;

    open spec fn deep_view(&self) -> Seq<char> {
        self@
    }
}

impl View for PokemonType {
    type V = Category;

    open spec fn view(&self) -> Category {
        Category { slot: self.slot as nat, name: self.type_@ }
    }
}

impl DeepView for PokemonType {
    type V = Category;

    open spec fn deep_view(&self) -> Category {
        self@
    }
}

impl View for PokemonStat {
    type V = Stat;

    open spec fn view(&self) -> Stat {
        Stat { name: self.stat@, value: self.base_stat as nat }
    }
}

impl DeepView for PokemonStat {
    type V = Stat;

    open spec fn deep_view(&self) -> Stat {
        self@
    }
}

/// The front image of an artwork, if it has one.
pub open spec fn artwork_image(artwork: Option<PokemonArtwork>) -> Option<Seq<char>> {
    match artwork {
        Some(art) => match art.front_default {
            Some(url) => Some(url@),
            None => None,
        },
        None => None,
    }
}

/// The official artwork among the other sprite sets, if there is one.
pub open spec fn official_image(other: Option<PokemonOtherSprites>) -> Option<Seq<char>> {
    match other {
        Some(sets) => artwork_image(sets.official_artwork),
        None => None,
    }
}

impl View for PokemonSprites {
    type V = Option<Seq<char>>;

    /// The image to show: the official artwork where there is one, else the
    /// default front sprite, else nothing.
    open spec fn view(&self) -> Option<Seq<char>> {
        match official_image(self.other) {
            Some(url) => Some(url),
            None => match self.front_default {
                Some(url) => Some(url@),
                None => None,
            },
        }
    }
}

impl View for Pokemon {
    type V = Entry;

    open spec fn view(&self) -> Entry {
        Entry {
            id: self.id as nat,
            name: self.name@,
            image_url: self.sprites@,
            categories: self.types.deep_view(),
            stats: self.stats.deep_view(),
        }
    }
}

impl DeepView for Pokemon {
    type V = Entry;

    open spec fn deep_view(&self) -> Entry {
        self@
    }
}

impl Ranked for PokemonType {
    open spec fn rank_of(model: Category) -> nat {
        model.slot
    }

    open spec fn rank_bound() -> nat {
        0x100
    }

    fn rank(&self) -> (r: u64) {
        self.slot as u64
    }
}

impl Ranked for Pokemon {
    open spec fn rank_of(model: Entry) -> nat {
        model.id
    }

    open spec fn rank_bound() -> nat {
        0x1_0000_0000
    }

    fn rank(&self) -> (r: u64) {
        self.id as u64
    }
}

/// `categories` by ascending slot rank; categories of equal rank keep their
/// order.
pub open spec fn by_slot(categories: Seq<Category>) -> Seq<Category> {
    stable_sort(categories, rank_key::<PokemonType>(), 0x100)
}

/// `entries` by ascending id; entries of equal id keep their order.
pub open spec fn by_id(entries: Seq<Entry>) -> Seq<Entry> {
    stable_sort(entries, rank_key::<Pokemon>(), 0x1_0000_0000)
}

/// Whether `i` is the place of the primary category of `categories`: the
/// first place among those of least slot rank.
pub open spec fn is_primary(categories: Seq<Category>, i: int) -> bool {
    &&& 0 <= i < categories.len()
    &&& forall|j: int| 0 <= j < categories.len() ==> categories[i].slot <= (#[trigger] categories[j]).slot
    &&& forall|j: int| 0 <= j < i ==> categories[i].slot < (#[trigger] categories[j]).slot
}

impl Entry {
    /// The entry with its categories ordered by slot rank.
    pub open spec fn normalized(self) -> Entry {
        Entry { categories: by_slot(self.categories), ..self }
    }

    /// The name of the primary category, if the entry has any category.
    pub open spec fn primary_category(self) -> Option<Seq<char>> {
        if self.categories.len() == 0 {
            None
        } else {
            Some(self.categories[choose|i: int| is_primary(self.categories, i)].name)
        }
    }
}

/// At most one place is the primary one.
pub proof fn lemma_primary_unique(categories: Seq<Category>, i: int, j: int)
    requires
        is_primary(categories, i),
        is_primary(categories, j),
    ensures
        i == j,
{
    if i < j {
        assert(categories[j].slot < categories[i].slot);
        assert(categories[i].slot <= categories[j].slot);
    } else if j < i {
        assert(categories[i].slot < categories[j].slot);
        assert(categories[j].slot <= categories[i].slot);
    }
}

/// Categories that are not empty have a primary one.
pub proof fn lemma_primary_exists(categories: Seq<Category>) -> (i: int)
    requires
        categories.len() > 0,
    ensures
        is_primary(categories, i),
    decreases categories.len(),
{
    if categories.len() == 1 {
        0
    } else {
        let front = categories.drop_last();
        let last = categories.last();
        let k = lemma_primary_exists(front);
        assert(front[k] == categories[k]);
        if last.slot < front[k].slot {
            let i = categories.len() - 1;
            assert forall|j: int| 0 <= j < i implies categories[i].slot < (
            #[trigger] categories[j]).slot by {
                assert(front[j] == categories[j]);
            }
            i
        } else {
            assert forall|j: int| 0 <= j < categories.len() implies categories[k].slot <= (
            #[trigger] categories[j]).slot by {
                if j < front.len() {
                    assert(front[j] == categories[j]);
                }
            }
            assert forall|j: int| 0 <= j < k implies categories[k].slot < (
            #[trigger] categories[j]).slot by {
                assert(front[j] == categories[j]);
            }
            k
        }
    }
}

/// Among categories ordered by slot rank the first is the primary one.
pub proof fn lemma_ordered_primary_first(categories: Seq<Category>)
    requires
        sorted_by(categories, rank_key::<PokemonType>()),
        categories.len() > 0,
    ensures
        is_primary(categories, 0),
{
    assert forall|j: int| 0 <= j < categories.len() implies categories[0].slot <= (
    #[trigger] categories[j]).slot by {
        assert(rank_key::<PokemonType>()(categories[0]) <= rank_key::<PokemonType>()(
            categories[j],
        ));
    }
}

/// Ordering the categories of an entry by slot rank leaves its primary
/// category what it was, and puts it first.
pub proof fn lemma_normalized_primary(entry: Entry)
    requires
        keys_below(entry.categories, rank_key::<PokemonType>(), 0x100),
    ensures
        entry.normalized().primary_category() == entry.primary_category(),
        entry.normalized().categories.len() == 0 <==> entry.categories.len() == 0,
        entry.categories.len() > 0 ==> entry.primary_category() == Some(
            entry.normalized().categories[0].name,
        ),
{
    let key = rank_key::<PokemonType>();
    let given = entry.categories;
    let ordered = by_slot(given);
    lemma_stable_sort_is_stable(given, key, 0x100);
    if given.len() == 0 {
        if ordered.len() > 0 {
            lemma_same_groups_same_elements(ordered, given, key, 0);
        }
    } else {
        let i = lemma_primary_exists(given);
        lemma_primary_unique(given, i, choose|k: int| is_primary(given, k));
        assert forall|k: nat| #[trigger] keyed(given, key, k) == keyed(ordered, key, k) by {
            assert(keyed(ordered, key, k) == keyed(given, key, k));
        }
        assert(same_groups(given, ordered, key));
        lemma_same_groups_same_elements(given, ordered, key, i);
        let p = choose|p: int| 0 <= p < ordered.len() && ordered[p] == given[i];
        lemma_same_groups_same_elements(ordered, given, key, 0);
        let q = choose|q: int| 0 <= q < given.len() && given[q] == ordered[0];
        assert(key(ordered[0]) <= key(ordered[p]));
        assert(given[i].slot <= given[q].slot);
        assert(key(ordered[0]) == key(given[i]));
        assert forall|j: int| 0 <= j < i implies key(#[trigger] given[j]) != key(given[i]) by {
            assert(given[i].slot < given[j].slot);
        }
        lemma_group_first(given, key, i);
        lemma_group_first(ordered, key, 0);
        assert(keyed(ordered, key, key(given[i])) == keyed(given, key, key(given[i])));
        assert(ordered[0] == given[i]);
        lemma_ordered_primary_first(ordered);
        lemma_primary_unique(ordered, 0, choose|k: int| is_primary(ordered, k));
    }
}

impl Pokemon {
    /// Orders the creature's categories by slot rank, leaving the rest as it
    /// is.
    pub fn normalize(self) -> (normal: Pokemon)
        ensures
            normal@ == self@.normalized(),
    {
        let Pokemon { id, name, sprites, types, stats } = self;
        Pokemon { id, name, sprites, types: stable_sort_by_rank(types), stats }
    }

    /// The image to show for this creature: the official artwork's front
    /// image where there is one, else the default front sprite.
    pub fn artwork(&self) -> (url: Option<&str>)
        ensures
            match url {
                Some(s) => self@.image_url == Some(s@),
                None => self@.image_url is None,
            },
    {
        match &self.sprites.other {
            Some(other) => match &other.official_artwork {
                Some(art) => match &art.front_default {
                    Some(url) => {
                        return Some(url.as_str());
                    },
                    None => {},
                },
                None => {},
            },
            None => {},
        }
        match &self.sprites.front_default {
            Some(url) => Some(url.as_str()),
            None => None,
        }
    }

    /// The name of the category in the slot of least rank; of several such,
    /// the first. `None` exactly when the creature has no category.
    pub fn primary_type(&self) -> (name: Option<&str>)
        ensures
            match name {
                Some(s) => self@.primary_category() == Some(s@),
                None => self@.primary_category() is None,
            },
            name is None <==> self.types@.len() == 0,
    {
        if self.types.len() == 0 {
            return None;
        }
        let mut best: usize = 0;
        let mut i: usize = 1;
        while i < self.types.len()
            invariant
                0 <= best < i <= self.types@.len(),
                forall|j: int| 0 <= j < i ==> self.types@[best as int].slot <= self.types@[j].slot,
                forall|j: int| 0 <= j < best ==> self.types@[best as int].slot < self.types@[j].slot,
            decreases self.types@.len() - i,
        {
            if self.types[i].slot < self.types[best].slot {
                best = i;
            }
            i = i + 1;
        }
        proof {
            let categories = self@.categories;
            assert(is_primary(categories, best as int));
            let chosen = choose|k: int| is_primary(categories, k);
            lemma_primary_unique(categories, best as int, chosen);
        }
        Some(self.types[best].type_.name.as_str())
    }
}

} // verus!
