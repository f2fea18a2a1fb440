//! Dishes: the menu items and the catalog of options that each one offers.

use vstd::prelude::*;
use crate::callback_result::Result;
use crate::store::{dish_with, lemma_first_holds, Store, Tables};

verus! {

/// The parts of `text` between the occurrences of `separator`, in order. A
/// text without the separator is one part; a separator at either end borders
/// an empty part.
pub open spec fn split_on(text: Seq<char>, separator: char) -> Seq<Seq<char>>
    decreases text.len(),
{
    if text.len() == 0 {
        seq![Seq::empty()]
    } else {
        let before = split_on(text.drop_last(), separator);
        if text.last() == separator {
            before.push(Seq::empty())
        } else {
            before.update(before.len() - 1, before.last().push(text.last()))
        }
    }
}

/// The size labels that the text `sizes` lists, separated by commas.
pub open spec fn size_options(sizes: Seq<char>) -> Seq<Seq<char>> {
    split_on(sizes, ',')
}

/// A split text has at least one part.
pub proof fn lemma_split_on_nonempty(text: Seq<char>, separator: char)
    ensures
        split_on(text, separator).len() >= 1,
    decreases text.len(),
{
    if text.len() > 0 {
        lemma_split_on_nonempty(text.drop_last(), separator);
    }
}

/// The species of a dish that is filed under none.
pub const NO_SPECIES: i32 = -1;

/// A menu item. `variants` holds the JSON text of its variant groups, each a
/// pair of an exclusivity flag and a list of option labels; `sizes` holds its
/// size labels, separated by commas; `species` is the id of its species, or
/// [`NO_SPECIES`].
#[derive(Debug, PartialEq, Eq)]
pub struct Dish {
    pub id: i32,
    pub name: String,
    pub variants: String,
    pub sizes: String,
    pub species: i32,
}

/// The mathematical value of a [`Dish`].
pub struct DishView {
    pub id: i32,
    pub name: Seq<char>,
    pub variants: Seq<char>,
    pub sizes: Seq<char>,
    pub species: i32,
}

impl DishView {
    /// The dish with no species in place of the species `id`, and as it is
    /// where it is filed under another.
    pub open spec fn without_species(self, id: i32) -> DishView {
        if self.species == id {
            DishView { species: NO_SPECIES, ..self }
        } else {
            self
        }
    }
}

impl View for Dish {
    type V = DishView;

    open spec fn view(&self) -> DishView {
        DishView {
            id: self.id,
            name: self.name@,
            variants: self.variants@,
            sizes: self.sizes@,
            species: self.species,
        }
    }
}

impl DeepView for Dish {
    type V = DishView;

    open spec fn deep_view(&self) -> DishView {
        self@
    }
}

impl Clone for Dish {
    fn clone(&self) -> (copy: Self)
        ensures
            copy@ == self@,
    {
        Dish {
            id: self.id,
            name: self.name.clone(),
            variants: self.variants.clone(),
            sizes: self.sizes.clone(),
            species: self.species,
        }
    }
}

impl Dish {
    /// Stores a new dish under the next id. Neither the variant groups nor
    /// the sizes are read here.
    pub fn create(
        store: &mut Store,
        name: String,
        variants: String,
        sizes: String,
        species: i32,
    ) -> (outcome: Result)
        requires
            old(store)@.wf(),
            old(store)@.last_dish < i32::MAX,
        ensures
            final(store)@.wf(),
            outcome == Result::Success,
            final(store)@ == old(store)@.insert_dish(name@, variants@, sizes@, species),
    {
        proof {
            reveal(Tables::wf);
        }
        let ghost before = store@;
        let id = store.last_dish + 1;
        store.last_dish = id;
        store.dishes.push(Dish { id, name, variants, sizes, species });
        proof {
            let after = before.insert_dish(name@, variants@, sizes@, species);
            assert(store@ =~= after);
        }
        Result::Success
    }

    /// Replaces every field but the id of the dish with id `id`.
    pub fn edit(
        store: &mut Store,
        id: i32,
        name: String,
        variants: String,
        sizes: String,
        species: i32,
    ) -> (outcome: Result)
        requires
            old(store)@.wf(),
        ensures
            final(store)@.wf(),
            outcome == if old(store)@.has_dish(id) {
                Result::Success
            } else {
                Result::DoesntExist
            },
            final(store)@ == if old(store)@.has_dish(id) {
                old(store)@.update_dish(id, name@, variants@, sizes@, species)
            } else {
                old(store)@
            },
    {
        proof {
            reveal(Tables::wf);
        }
        match store.find_dish(id) {
            Some(at) => {
                proof {
                    lemma_first_holds(store@.dishes, dish_with(id));
                }
                let ghost before = store@;
                store.dishes.set(at, Dish { id, name, variants, sizes, species });
                proof {
                    let after = before.update_dish(id, name@, variants@, sizes@, species);
                    assert(store@ =~= after);
                }
                Result::Success
            },
            None => Result::DoesntExist,
        }
    }

    /// Removes the dish with id `id`.
    pub fn delete(store: &mut Store, id: i32) -> (outcome: Result)
        requires
            old(store)@.wf(),
        ensures
            final(store)@.wf(),
            outcome == if old(store)@.has_dish(id) {
                Result::Success
            } else {
                Result::DoesntExist
            },
            final(store)@ == if old(store)@.has_dish(id) {
                old(store)@.remove_dish(id)
            } else {
                old(store)@
            },
    {
        proof {
            reveal(Tables::wf);
        }
        match store.find_dish(id) {
            Some(at) => {
                let ghost before = store@;
                store.dishes.remove(at);
                proof {
                    assert(store@ =~= before.remove_dish(id));
                }
                Result::Success
            },
            None => Result::DoesntExist,
        }
    }

    /// The dish with id `id`, if it is stored.
    pub fn fetch(store: &Store, id: i32) -> (dish: Option<Dish>)
        ensures
            dish.deep_view() == store@.dish(id),
    {
        match store.find_dish(id) {
            Some(at) => {
                proof {
                    lemma_first_holds(store@.dishes, dish_with(id));
                }
                Some(store.dishes[at].clone())
            },
            None => None,
        }
    }

    /// Every dish, in the order of the table.
    pub fn fetch_all(store: &Store) -> (dishes: Vec<Dish>)
        ensures
            dishes.deep_view() == store@.dishes,
    {
        let mut dishes: Vec<Dish> = Vec::new();
        let mut i: usize = 0;
        while i < store.dishes.len()
            invariant
                i <= store.dishes.len(),
                dishes.len() == i,
                forall|k: int| 0 <= k < i ==> (#[trigger] dishes[k])@ == store.dishes[k]@,
            decreases store.dishes.len() - i,
        {
            dishes.push(store.dishes[i].clone());
            i += 1;
        }
        dishes
    }

    /// The size labels of the dish, in order.
    pub fn size_options(&self) -> (labels: Vec<String>)
        ensures
            labels.deep_view() == size_options(self.sizes@),
    {
        let text = self.sizes.as_str();
        let length = text.unicode_len();
        let mut labels: Vec<String> = Vec::new();
        let mut start: usize = 0;
        let mut i: usize = 0;
        for c in it: text.chars()
            invariant
                it.seq() == text@,
                length == text@.len(),
                i == it.index(),
                start <= i <= length,
                labels.deep_view() == split_on(text@.take(i as int), ',').drop_last(),
                split_on(text@.take(i as int), ',').last() == text@.subrange(
                    start as int,
                    i as int,
                ),
        {
            let ghost done = labels.deep_view();
            let ghost from = start as int;
            proof {
                lemma_split_on_nonempty(text@.take(i as int), ',');
                assert(text@.take(i + 1).drop_last() =~= text@.take(i as int));
            }
            if c == ',' {
                labels.push(text.substring_char(start, i).to_owned());
                start = i + 1;
                proof {
                    assert(labels.deep_view() =~= done.push(text@.subrange(from, i as int)));
                }
            }
            i += 1;
        }
        let ghost done = labels.deep_view();
        labels.push(text.substring_char(start, length).to_owned());
        proof {
            lemma_split_on_nonempty(text@, ',');
            assert(text@.take(length as int) =~= text@);
            assert(labels.deep_view() =~= done.push(text@.subrange(start as int, length as int)));
        }
        labels
    }

    /// The number of commas in `sizes`, which is one less than the number of
    /// size labels.
    pub fn last_size(sizes: &str) -> (last: usize)
        ensures
            last == size_options(sizes@).len() - 1,
    {
        let length = sizes.unicode_len();
        let mut commas: usize = 0;
        for c in it: sizes.chars()
            invariant
                it.seq() == sizes@,
                length == sizes@.len(),
                commas <= it.index() <= length,
                commas == split_on(sizes@.take(it.index() as int), ',').len() - 1,
        {
            proof {
                assert(sizes@.take(it.index() + 1).drop_last() =~= sizes@.take(it.index() as int));
            }
            if c == ',' {
                commas += 1;
            }
        }
        proof {
            assert(sizes@.take(sizes@.len() as int) =~= sizes@);
        }
        commas
    }
}

} // verus!
