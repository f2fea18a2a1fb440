//! Species: the categories that dishes are filed under.

use vstd::prelude::*;
use crate::callback_result::Result;
use crate::dish::NO_SPECIES;
use crate::store::{lemma_first_holds, species_named, species_with, Store, Tables};

verus! {

/// A category of dishes.
#[derive(Debug, PartialEq, Eq)]
pub struct Species {
    pub id: i32,
    pub name: String,
}

/// The mathematical value of a [`Species`].
pub struct SpeciesView {
    pub id: i32,
    pub name: Seq<char>,
}

impl View for Species {
    type V = SpeciesView;

    open spec fn view(&self) -> SpeciesView {
        SpeciesView { id: self.id, name: self.name@ }
    }
}

impl DeepView for Species {
    type V = SpeciesView;

    open spec fn deep_view(&self) -> SpeciesView {
        self@
    }
}

impl Clone for Species {
    fn clone(&self) -> (copy: Self)
        ensures
            copy@ == self@,
    {
        Species { id: self.id, name: self.name.clone() }
    }
}

impl Species {
    /// Stores a new species under the next id, unless one of that name is
    /// stored already.
    pub fn create(store: &mut Store, name: String) -> (outcome: Result)
        requires
            old(store)@.wf(),
            !old(store)@.has_species_named(name@) ==> old(store)@.last_species < i32::MAX,
        ensures
            final(store)@.wf(),
            outcome == if old(store)@.has_species_named(name@) {
                Result::Exists
            } else {
                Result::Success
            },
            final(store)@ == if old(store)@.has_species_named(name@) {
                old(store)@
            } else {
                old(store)@.insert_species(name@)
            },
    {
        proof {
            reveal(Tables::wf);
        }
        match store.find_species_named(&name) {
            Some(_) => Result::Exists,
            None => {
                let ghost before = store@;
                let id = store.last_species + 1;
                store.last_species = id;
                store.species.push(Species { id, name });
                proof {
                    let after = before.insert_species(name@);
                    assert(store@ =~= after);
                }
                Result::Success
            },
        }
    }

    /// Removes the species with id `id`. The dishes filed under it stay, filed
    /// under none.
    pub fn delete(store: &mut Store, id: i32) -> (outcome: Result)
        requires
            old(store)@.wf(),
        ensures
            final(store)@.wf(),
            outcome == if old(store)@.has_species(id) {
                Result::Success
            } else {
                Result::DoesntExist
            },
            final(store)@ == if old(store)@.has_species(id) {
                old(store)@.remove_species(id)
            } else {
                old(store)@
            },
    {
        proof {
            reveal(Tables::wf);
        }
        let at = match store.find_species(id) {
            Some(at) => at,
            None => {
                return Result::DoesntExist;
            },
        };
        let ghost before = store@;
        let mut i: usize = 0;
        while i < store.dishes.len()
            invariant
                i <= store.dishes.len(),
                store.dishes.len() == before.dishes.len(),
                forall|k: int|
                    0 <= k < i ==> (#[trigger] store.dishes[k])@
                        == before.dishes[k].without_species(id),
                forall|k: int|
                    i <= k < store.dishes.len() ==> (#[trigger] store.dishes[k])@
                        == before.dishes[k],
                store.species == old(store).species,
                store.desks == old(store).desks,
                store.sessions == old(store).sessions,
                store.requests == old(store).requests,
                store.admins == old(store).admins,
                store.last_dish == before.last_dish,
                store.last_species == before.last_species,
                store.last_session == before.last_session,
                store.last_request == before.last_request,
            decreases store.dishes.len() - i,
        {
            if store.dishes[i].species == id {
                let mut dish = store.dishes[i].clone();
                dish.species = NO_SPECIES;
                store.dishes.set(i, dish);
            }
            i += 1;
        }
        store.species.remove(at);
        proof {
            let after = before.remove_species(id);
            assert(store@ =~= after);
        }
        Result::Success
    }

    /// Renames the species with id `id`.
    pub fn edit(store: &mut Store, id: i32, new_name: String) -> (outcome: Result)
        requires
            old(store)@.wf(),
        ensures
            final(store)@.wf(),
            outcome == if old(store)@.has_species(id) {
                Result::Success
            } else {
                Result::DoesntExist
            },
            final(store)@ == if old(store)@.has_species(id) {
                old(store)@.rename_species(id, new_name@)
            } else {
                old(store)@
            },
    {
        proof {
            reveal(Tables::wf);
        }
        match store.find_species(id) {
            Some(at) => {
                proof {
                    lemma_first_holds(store@.species, species_with(id));
                }
                let ghost before = store@;
                store.species.set(at, Species { id, name: new_name });
                proof {
                    let after = before.rename_species(id, new_name@);
                    assert(store@ =~= after);
                }
                Result::Success
            },
            None => Result::DoesntExist,
        }
    }

    /// The species with id `id`, if it is stored.
    pub fn fetch(store: &Store, id: i32) -> (species: Option<Species>)
        ensures
            species.deep_view() == store@.species_by_id(id),
    {
        match store.find_species(id) {
            Some(at) => {
                proof {
                    lemma_first_holds(store@.species, species_with(id));
                }
                Some(store.species[at].clone())
            },
            None => None,
        }
    }

    /// The first species named `name`, if one is stored.
    pub fn fetch_by_name(store: &Store, name: &String) -> (species: Option<Species>)
        ensures
            species.deep_view() == store@.species_by_name(name@),
    {
        match store.find_species_named(name) {
            Some(at) => {
                proof {
                    lemma_first_holds(store@.species, species_named(name@));
                }
                Some(store.species[at].clone())
            },
            None => None,
        }
    }

    /// Every species, in the order of the table.
    pub fn fetch_all(store: &Store) -> (species: Vec<Species>)
        ensures
            species.deep_view() == store@.species,
    {
        let mut species: Vec<Species> = Vec::new();
        let mut i: usize = 0;
        while i < store.species.len()
            invariant
                i <= store.species.len(),
                species.len() == i,
                forall|k: int| 0 <= k < i ==> (#[trigger] species[k])@ == store.species[k]@,
            decreases store.species.len() - i,
        {
            species.push(store.species[i].clone());
            i += 1;
        }
        species
    }
}

} // verus!
