//! A pet store that keeps its pets in memory.

use crate::pet_store::{Pet, PetView, Pets};
use crate::text::str_equal;
use vstd::prelude::*;

verus! {

/// Why the store refused an operation.
#[derive(Debug, Clone, Copy, PartialEq, Eq, Structural)]
pub enum PetStoreError {
    /// A pet is kept under that name already.
    AlreadyExists,
    /// No pet is kept under that identifier.
    NotFound,
}

/// A pet and the key under which the store keeps it.
#[derive(Debug)]
struct Entry {
    key: String,
    pet: Pet,
}

/// The pets of a store, each under its key, in the order in which they were
/// created. A new store has no keys, and no operation makes a key occur
/// twice.
#[derive(Debug)]
pub struct PetStore {
    entries: Vec<Entry>,
}

impl View for PetStore {
    type V = Seq<(Seq<char>, PetView)>;

    closed spec fn view(&self) -> Seq<(Seq<char>, PetView)> {
        Seq::new(self.entries@.len(), |i: int| (self.entries@[i].key@, self.entries@[i].pet@))
    }
}

/// Whether a pet is kept under a key.
pub open spec fn has_key(entries: Seq<(Seq<char>, PetView)>, key: Seq<char>) -> bool {
    exists|i: int| 0 <= i < entries.len() && (#[trigger] entries[i]).0 == key
}

/// Whether `i` is the first place at which a pet is kept under a key.
pub open spec fn is_first(entries: Seq<(Seq<char>, PetView)>, key: Seq<char>, i: int) -> bool {
    &&& 0 <= i < entries.len()
    &&& entries[i].0 == key
    &&& forall|j: int| 0 <= j < i ==> (#[trigger] entries[j]).0 != key
}

/// Whether no key occurs twice.
pub open spec fn distinct_keys(entries: Seq<(Seq<char>, PetView)>) -> bool {
    forall|i: int, j: int|
        0 <= i < j < entries.len() ==> (#[trigger] entries[i]).0 != (#[trigger] entries[j]).0
}

/// The pets of a store, without their keys.
pub open spec fn pets_of(entries: Seq<(Seq<char>, PetView)>) -> Seq<PetView> {
    Seq::new(entries.len(), |i: int| entries[i].1)
}

/// What listing does: it hands out every pet, in order, and changes nothing.
pub open spec fn list_of(
    before: Seq<(Seq<char>, PetView)>,
    r: Result<Vec<Pet>, PetStoreError>,
    after: Seq<(Seq<char>, PetView)>,
) -> bool {
    &&& after == before
    &&& r is Ok
    &&& r->Ok_0.deep_view() == pets_of(before)
}

/// What creating does: a pet whose name is taken is refused as
/// `AlreadyExists`, and nothing changes; any other pet is put behind the
/// others under its name, and handed back.
pub open spec fn creation_of(
    before: Seq<(Seq<char>, PetView)>,
    pet: PetView,
    r: Result<Pet, PetStoreError>,
    after: Seq<(Seq<char>, PetView)>,
) -> bool {
    if has_key(before, pet.name) {
        r == Err::<Pet, PetStoreError>(PetStoreError::AlreadyExists) && after == before
    } else {
        r is Ok && r->Ok_0@ == pet && after == before.push((pet.name, pet))
    }
}

/// What updating does: an identifier under which nothing is kept is refused
/// as `NotFound`, and nothing changes; otherwise the pet under it is
/// replaced, in its place and under the same key, and the new one is handed
/// back.
pub open spec fn update_of(
    before: Seq<(Seq<char>, PetView)>,
    id: Seq<char>,
    pet: PetView,
    r: Result<Pet, PetStoreError>,
    after: Seq<(Seq<char>, PetView)>,
) -> bool {
    if has_key(before, id) {
        &&& r is Ok
        &&& r->Ok_0@ == pet
        &&& exists|i: int| #[trigger] is_first(before, id, i) && after == before.update(i, (id, pet))
    } else {
        r == Err::<Pet, PetStoreError>(PetStoreError::NotFound) && after == before
    }
}

/// What deleting does: an identifier under which nothing is kept is refused
/// as `NotFound`, and nothing changes; otherwise the pet under it leaves the
/// store, and the others keep their order.
pub open spec fn deletion_of(
    before: Seq<(Seq<char>, PetView)>,
    id: Seq<char>,
    failure: Option<PetStoreError>,
    after: Seq<(Seq<char>, PetView)>,
) -> bool {
    if has_key(before, id) {
        &&& failure is None
        &&& exists|i: int| #[trigger] is_first(before, id, i) && after == before.remove(i)
    } else {
        failure == Some(PetStoreError::NotFound) && after == before
    }
}

impl PetStore {
    /// A store without pets.
    pub fn new() -> (store: PetStore)
        ensures
            store@ == Seq::<(Seq<char>, PetView)>::empty(),
    {
        let store = PetStore { entries: Vec::new() };
        assert(store@ =~= Seq::<(Seq<char>, PetView)>::empty());
        store
    }

    /// The number of pets in the store.
    pub fn len(&self) -> (n: usize)
        ensures
            n == self@.len(),
    {
        self.entries.len()
    }

    /// The first place at which a pet is kept under a key.
    fn find(&self, key: &str) -> (place: Option<usize>)
        ensures
            match place {
                Some(i) => is_first(self@, key@, i as int),
                None => !has_key(self@, key@),
            },
    {
        let mut i: usize = 0;
        while i < self.entries.len()
            invariant
                0 <= i <= self.entries.len(),
                forall|j: int| 0 <= j < i ==> (#[trigger] self@[j]).0 != key@,
            decreases self.entries.len() - i,
        {
            if str_equal(self.entries[i].key.as_str(), key) {
                return Some(i);
            }
            i += 1;
        }
        None
    }
}

impl Pets for PetStore {
    type Error = PetStoreError;

    open spec fn lists(&self, r: Result<Vec<Pet>, PetStoreError>, after: Self) -> bool {
        list_of(self@, r, after@)
    }

    open spec fn creates(&self, pet: PetView, r: Result<Pet, PetStoreError>, after: Self) -> bool {
        creation_of(self@, pet, r, after@)
    }

    open spec fn updates(
        &self,
        id: Seq<char>,
        pet: PetView,
        r: Result<Pet, PetStoreError>,
        after: Self,
    ) -> bool {
        update_of(self@, id, pet, r, after@)
    }

    open spec fn deletes(&self, id: Seq<char>, failure: Option<PetStoreError>, after: Self) -> bool {
        deletion_of(self@, id, failure, after@)
    }

    fn list(&mut self) -> (r: Result<Vec<Pet>, PetStoreError>) {
        let mut pets: Vec<Pet> = Vec::new();
        let mut i: usize = 0;
        while i < self.entries.len()
            invariant
                0 <= i <= self.entries.len(),
                *self == *old(self),
                pets@.len() == i,
                forall|j: int| 0 <= j < i ==> (#[trigger] pets@[j])@ == self@[j].1,
            decreases self.entries.len() - i,
        {
            pets.push(self.entries[i].pet.clone());
            i += 1;
        }
        assert(pets.deep_view() =~= pets_of(self@));
        Ok(pets)
    }

    fn create(&mut self, pet: Pet) -> (r: Result<Pet, PetStoreError>) {
        match self.find(pet.name.as_str()) {
            Some(_) => Err(PetStoreError::AlreadyExists),
            None => {
                self.entries.push(Entry { key: pet.name.clone(), pet: pet.clone() });
                assert(self@ =~= old(self)@.push((pet@.name, pet@)));
                Ok(pet)
            },
        }
    }

    fn update(&mut self, id: &str, pet: Pet) -> (r: Result<Pet, PetStoreError>) {
        match self.find(id) {
            None => Err(PetStoreError::NotFound),
            Some(i) => {
                self.entries.remove(i);
                self.entries.insert(i, Entry { key: id.to_owned(), pet: pet.clone() });
                assert(self@ =~= old(self)@.update(i as int, (id@, pet@)));
                assert(is_first(old(self)@, id@, i as int));
                Ok(pet)
            },
        }
    }

    fn delete(&mut self, id: &str) -> (r: Result<(), PetStoreError>) {
        match self.find(id) {
            None => Err(PetStoreError::NotFound),
            Some(i) => {
                self.entries.remove(i);
                assert(self@ =~= old(self)@.remove(i as int));
                assert(is_first(old(self)@, id@, i as int));
                Ok(())
            },
        }
    }
}

/// Creating a pet leaves the keys of a store distinct.
pub proof fn lemma_create_keeps_keys_distinct(
    before: Seq<(Seq<char>, PetView)>,
    pet: PetView,
    r: Result<Pet, PetStoreError>,
    after: Seq<(Seq<char>, PetView)>,
)
    requires
        distinct_keys(before),
        creation_of(before, pet, r, after),
    ensures
        distinct_keys(after),
{
    if !has_key(before, pet.name) {
        assert forall|i: int, j: int| 0 <= i < j < after.len() implies (#[trigger] after[i]).0 != (
        #[trigger] after[j]).0 by {
            if j == before.len() {
                assert(before[i].0 != pet.name);
            }
        }
    }
}

/// Updating a pet leaves the keys of a store distinct.
pub proof fn lemma_update_keeps_keys_distinct(
    before: Seq<(Seq<char>, PetView)>,
    id: Seq<char>,
    pet: PetView,
    r: Result<Pet, PetStoreError>,
    after: Seq<(Seq<char>, PetView)>,
)
    requires
        distinct_keys(before),
        update_of(before, id, pet, r, after),
    ensures
        distinct_keys(after),
{
    if has_key(before, id) {
        let k = choose|k: int| #[trigger]
            is_first(before, id, k) && after == before.update(k, (id, pet));
        assert forall|i: int, j: int| 0 <= i < j < after.len() implies (#[trigger] after[i]).0 != (
        #[trigger] after[j]).0 by {
            assert(after[i].0 == before[i].0);
            assert(after[j].0 == before[j].0);
        }
    }
}

/// Deleting a pet leaves the keys of a store distinct.
pub proof fn lemma_delete_keeps_keys_distinct(
    before: Seq<(Seq<char>, PetView)>,
    id: Seq<char>,
    failure: Option<PetStoreError>,
    after: Seq<(Seq<char>, PetView)>,
)
    requires
        distinct_keys(before),
        deletion_of(before, id, failure, after),
    ensures
        distinct_keys(after),
{
    if has_key(before, id) {
        let k = choose|k: int| #[trigger] is_first(before, id, k) && after == before.remove(k);
        assert forall|i: int, j: int| 0 <= i < j < after.len() implies (#[trigger] after[i]).0 != (
        #[trigger] after[j]).0 by {
            let x = if i < k {
                i
            } else {
                i + 1
            };
            let y = if j < k {
                j
            } else {
                j + 1
            };
            assert(after[i] == before[x]);
            assert(after[j] == before[y]);
        }
    }
}

} // verus!
