//! The record store: person records by name with the five operations on
//! them, their model over mathematical maps, and the laws that relate
//! them.

use crate::person::{patched, PatchView, Person, PersonPatch, PersonView};
use vstd::hash_map::StringHashMap;
use vstd::prelude::*;

verus! {

/// Why a store operation did nothing.
#[derive(Clone, Copy, Debug, PartialEq, Eq, Structural)]
pub enum StoreError {
    /// A record with that name is already there.
    Conflict,
    /// No record has that name.
    NotFound,
}

/// What a store holds: records by key.
pub type Records = Map<Seq<char>, PersonView>;

/// Whether every record of `db` stands under its own name.
pub open spec fn named(db: Records) -> bool {
    forall|k: Seq<char>| db.contains_key(k) ==> (#[trigger] db[k]).name == k
}

/// What `create` returns.
pub open spec fn create_result(db: Records, p: PersonView) -> Result<PersonView, StoreError> {
    if db.contains_key(p.name) {
        Err(StoreError::Conflict)
    } else {
        Ok(p)
    }
}

/// The store after `create`: the record stands under its name, as given.
pub open spec fn after_create(db: Records, p: PersonView) -> Records {
    if db.contains_key(p.name) {
        db
    } else {
        db.insert(p.name, p)
    }
}

/// What `read` returns.
pub open spec fn read_result(db: Records, key: Seq<char>) -> Result<PersonView, StoreError> {
    if db.contains_key(key) {
        Ok(db[key])
    } else {
        Err(StoreError::NotFound)
    }
}

/// What `replace` returns.
pub open spec fn replace_result(db: Records, key: Seq<char>, p: PersonView) -> Result<
    PersonView,
    StoreError,
> {
    if db.contains_key(key) {
        Ok(p)
    } else {
        Err(StoreError::NotFound)
    }
}

/// The store after `replace`: the record under `key` leaves, and `p`
/// stands under its own name.
pub open spec fn after_replace(db: Records, key: Seq<char>, p: PersonView) -> Records {
    if db.contains_key(key) {
        db.remove(key).insert(p.name, p)
    } else {
        db
    }
}

/// What `patch` returns.
pub open spec fn patch_result(db: Records, key: Seq<char>, f: PatchView) -> Result<
    PersonView,
    StoreError,
> {
    if db.contains_key(key) {
        Ok(patched(db[key], f))
    } else {
        Err(StoreError::NotFound)
    }
}

/// The store after `patch`: the patched record takes the place of the one
/// under `key` and stands under its own name, so a patch that gives a name
/// moves the record.
pub open spec fn after_patch(db: Records, key: Seq<char>, f: PatchView) -> Records {
    after_replace(db, key, patched(db[key], f))
}

/// What `delete` returns.
pub open spec fn delete_result(db: Records, key: Seq<char>) -> Result<(), StoreError> {
    if db.contains_key(key) {
        Ok(())
    } else {
        Err(StoreError::NotFound)
    }
}

/// The store after `delete`.
pub open spec fn after_delete(db: Records, key: Seq<char>) -> Records {
    db.remove(key)
}

/// What a returned record holds.
pub open spec fn outcome(r: Result<Person, StoreError>) -> Result<PersonView, StoreError> {
    match r {
        Ok(p) => Ok(p@),
        Err(e) => Err(e),
    }
}

/// The store after the creates of `items`, one after the other.
pub open spec fn after_creates(db: Records, items: Seq<PersonView>) -> Records
    decreases items.len(),
{
    if items.len() == 0 {
        db
    } else {
        after_create(after_creates(db, items.drop_last()), items.last())
    }
}

/// Whether the names of `items` differ from one another and from the keys
/// of `db`.
pub open spec fn fresh_names(db: Records, items: Seq<PersonView>) -> bool {
    &&& forall|a: int, b: int|
        0 <= a < items.len() && 0 <= b < items.len() && a != b ==> items[a].name != items[b].name
    &&& forall|a: int| 0 <= a < items.len() ==> !db.contains_key((#[trigger] items[a]).name)
}

/// After creates under fresh names the store holds what it held, and each
/// created record under its name.
proof fn lemma_after_creates(db: Records, items: Seq<PersonView>)
    requires
        fresh_names(db, items),
    ensures
        forall|k: Seq<char>| #[trigger]
            after_creates(db, items).contains_key(k) <==> (db.contains_key(k) || exists|j: int|
                0 <= j < items.len() && items[j].name == k),
        forall|j: int|
            0 <= j < items.len() ==> after_creates(db, items)[(#[trigger] items[j]).name]
                == items[j],
    decreases items.len(),
{
    if items.len() > 0 {
        let front = items.drop_last();
        let last = items.len() - 1;
        assert forall|a: int| 0 <= a < front.len() implies !db.contains_key(
            (#[trigger] front[a]).name,
        ) by {
            assert(front[a] == items[a]);
        }
        lemma_after_creates(db, front);
        let before = after_creates(db, front);
        assert(!before.contains_key(items[last].name)) by {
            if before.contains_key(items[last].name) {
                let j = choose|j: int| 0 <= j < front.len() && front[j].name == items[last].name;
                assert(front[j] == items[j]);
            }
        }
        assert forall|k: Seq<char>| #[trigger]
            after_creates(db, items).contains_key(k) <==> (db.contains_key(k) || exists|j: int|
                0 <= j < items.len() && items[j].name == k) by {
            if before.contains_key(k) && !db.contains_key(k) {
                let j = choose|j: int| 0 <= j < front.len() && front[j].name == k;
                assert(front[j] == items[j]);
            }
            if exists|j: int| 0 <= j < items.len() && items[j].name == k {
                let j = choose|j: int| 0 <= j < items.len() && items[j].name == k;
                if j < last {
                    assert(front[j] == items[j]);
                }
            }
        }
        assert forall|j: int| 0 <= j < items.len() implies after_creates(
            db,
            items,
        )[(#[trigger] items[j]).name] == items[j] by {
            if j < last {
                assert(front[j] == items[j]);
            }
        }
    }
}

/// Creates of records whose names differ from one another, on a store that
/// holds none of these names, all succeed, and a read of each name, right
/// after its create and after all of them, returns the record that was
/// created.
pub proof fn law_creates_under_distinct_names(db: Records, items: Seq<PersonView>, i: int)
    requires
        fresh_names(db, items),
        0 <= i < items.len(),
    ensures
        create_result(after_creates(db, items.take(i)), items[i]) == Ok::<PersonView, StoreError>(
            items[i],
        ),
        read_result(after_creates(db, items.take(i + 1)), items[i].name) == Ok::<
            PersonView,
            StoreError,
        >(items[i]),
        read_result(after_creates(db, items), items[i].name) == Ok::<PersonView, StoreError>(
            items[i],
        ),
{
    let front = items.take(i);
    assert forall|a: int| 0 <= a < front.len() implies !db.contains_key(
        (#[trigger] front[a]).name,
    ) by {
        assert(front[a] == items[a]);
    }
    lemma_after_creates(db, front);
    lemma_after_creates(db, items);
    if after_creates(db, front).contains_key(items[i].name) {
        let j = choose|j: int| 0 <= j < front.len() && front[j].name == items[i].name;
        assert(front[j] == items[j]);
    }
    assert(items.take(i + 1).drop_last() == front);
    assert(items.take(i + 1).last() == items[i]);
}

/// A create of a name that is present fails with `Conflict` and leaves the
/// store as it was.
pub proof fn law_create_never_overwrites(db: Records, p: PersonView)
    requires
        db.contains_key(p.name),
    ensures
        create_result(db, p) == Err::<PersonView, StoreError>(StoreError::Conflict),
        after_create(db, p) == db,
{
}

/// A patch changes the fields that it gives and no other field of the
/// record; the record then stands under its name, and no record under
/// another key than the old one and that name has changed.
pub proof fn law_patch_is_field_local(db: Records, key: Seq<char>, f: PatchView)
    requires
        db.contains_key(key),
    ensures
        patch_result(db, key, f) == Ok::<PersonView, StoreError>(patched(db[key], f)),
        read_result(after_patch(db, key, f), patched(db[key], f).name) == Ok::<
            PersonView,
            StoreError,
        >(patched(db[key], f)),
        f.name is None ==> patched(db[key], f).name == db[key].name,
        f.age is None ==> patched(db[key], f).age == db[key].age,
        f.drinks is None ==> patched(db[key], f).drinks == db[key].drinks,
        f.name matches Some(n) ==> patched(db[key], f).name == n,
        f.age matches Some(a) ==> patched(db[key], f).age == a,
        f.drinks matches Some(d) ==> patched(db[key], f).drinks == d,
        forall|k: Seq<char>|
            k != key && k != patched(db[key], f).name ==> (after_patch(db, key, f).contains_key(k)
                <==> db.contains_key(k)) && after_patch(db, key, f)[k] == db[k],
{
}

/// A patch that gives no name, of a record that stands under its name,
/// leaves the record where it is and the set of keys as it was.
pub proof fn law_patch_without_name_keeps_the_key(db: Records, key: Seq<char>, f: PatchView)
    requires
        db.contains_key(key),
        db[key].name == key,
        f.name is None,
    ensures
        after_patch(db, key, f) == db.insert(key, patched(db[key], f)),
        after_patch(db, key, f).dom() == db.dom(),
{
    assert(after_patch(db, key, f) =~= db.insert(key, patched(db[key], f)));
    assert(after_patch(db, key, f).dom() =~= db.dom());
}

/// A patch that gives another name moves the record: a read of the old key
/// then fails with `NotFound`, and a read of the new name returns the
/// patched record.
pub proof fn law_patch_rename_moves_the_key(db: Records, key: Seq<char>, f: PatchView)
    requires
        db.contains_key(key),
        f.name is Some,
        f.name->0 != key,
    ensures
        read_result(after_patch(db, key, f), key) == Err::<PersonView, StoreError>(
            StoreError::NotFound,
        ),
        read_result(after_patch(db, key, f), f.name->0) == Ok::<PersonView, StoreError>(
            patched(db[key], f),
        ),
{
}

/// A replace that renames moves the record: a read of the old key then
/// fails with `NotFound`, and a read of the new name returns the new
/// record.
pub proof fn law_replace_moves_the_key(db: Records, key: Seq<char>, p: PersonView)
    requires
        db.contains_key(key),
        p.name != key,
    ensures
        read_result(after_replace(db, key, p), key) == Err::<PersonView, StoreError>(
            StoreError::NotFound,
        ),
        read_result(after_replace(db, key, p), p.name) == Ok::<PersonView, StoreError>(p),
{
}

/// After a delete that succeeded, a second delete and a read of the same
/// key both fail with `NotFound`.
pub proof fn law_delete_is_terminal(db: Records, key: Seq<char>)
    requires
        delete_result(db, key) is Ok,
    ensures
        delete_result(after_delete(db, key), key) == Err::<(), StoreError>(StoreError::NotFound),
        read_result(after_delete(db, key), key) == Err::<PersonView, StoreError>(
            StoreError::NotFound,
        ),
{
}

/// Where every record stands under its own name, it does so after each of
/// the operations.
pub proof fn law_records_stand_under_their_names(
    db: Records,
    key: Seq<char>,
    p: PersonView,
    f: PatchView,
)
    requires
        named(db),
    ensures
        named(after_create(db, p)),
        named(after_replace(db, key, p)),
        named(after_patch(db, key, f)),
        named(after_delete(db, key)),
{
}

/// The partial update that gives the age `age` and nothing else.
pub open spec fn age_patch(age: u32) -> PatchView {
    PatchView { name: None, age: Some(age), drinks: None }
}

/// The store after `n` patches of the record under `key`, one after the
/// other, each of which gives the age that it finds plus one.
pub open spec fn after_increments(db: Records, key: Seq<char>, n: nat) -> Records
    decreases n,
{
    if n == 0 {
        db
    } else {
        let before = after_increments(db, key, (n - 1) as nat);
        after_patch(before, key, age_patch((before[key].age + 1) as u32))
    }
}

/// Patches of one record that are applied one after the other lose no
/// update: after `n` of them, each adding one to the age, the age is `n`
/// more than it was, and nothing else has changed.
pub proof fn law_patches_in_turn_lose_no_update(db: Records, key: Seq<char>, n: nat)
    requires
        db.contains_key(key),
        db[key].name == key,
        db[key].age + n <= u32::MAX,
    ensures
        after_increments(db, key, n).dom() == db.dom(),
        after_increments(db, key, n)[key].age == db[key].age + n,
        after_increments(db, key, n)[key].name == db[key].name,
        after_increments(db, key, n)[key].drinks == db[key].drinks,
        forall|k: Seq<char>|
            db.contains_key(k) && k != key ==> after_increments(db, key, n)[k] == db[k],
    decreases n,
{
    if n > 0 {
        law_patches_in_turn_lose_no_update(db, key, (n - 1) as nat);
        let before = after_increments(db, key, (n - 1) as nat);
        law_patch_without_name_keeps_the_key(
            before,
            key,
            age_patch((before[key].age + 1) as u32),
        );
        assert(after_increments(db, key, n).dom() =~= db.dom());
    }
}

/// The views of the records of `m`, by key.
spec fn views_of(m: Map<Seq<char>, Person>) -> Records {
    Map::new(|k: Seq<char>| m.contains_key(k), |k: Seq<char>| m[k]@)
}

/// The record store. Every record stands under its own name.
pub struct Database {
    records: StringHashMap<Person>,
}

impl View for Database {
    type V = Records;

    /// The records by key.
    closed spec fn view(&self) -> Records {
        views_of(self.records@)
    }
}

impl Database {
    #[verifier::type_invariant]
    spec fn stands_under_names(self) -> bool {
        named(views_of(self.records@))
    }

    /// An empty store.
    pub fn new() -> (db: Database)
        ensures
            db@ == Records::empty(),
    {
        let db = Database { records: StringHashMap::new() };
        assert(db@ =~= Records::empty());
        db
    }

    /// Whether the store holds no record.
    pub fn is_empty(&self) -> (r: bool)
        ensures
            r == (self@ == Records::empty()),
            named(self@),
    {
        proof {
            use_type_invariant(self);
        }
        let r = self.records.is_empty();
        proof {
            if r {
                assert(self@ =~= Records::empty());
            } else {
                let k = choose|k: Seq<char>| self.records@.contains_key(k);
                assert(self@.contains_key(k));
            }
        }
        r
    }

    /// Whether a record stands under `key`.
    pub fn contains_key(&self, key: &str) -> (r: bool)
        ensures
            r == self@.contains_key(key@),
            named(self@),
    {
        proof {
            use_type_invariant(self);
        }
        self.records.contains_key(key)
    }

    /// The record under `key`.
    pub fn get(&self, key: &str) -> (r: Option<&Person>)
        ensures
            r.is_some() == self@.contains_key(key@),
            r matches Some(p) ==> p@ == self@[key@],
            named(self@),
    {
        proof {
            use_type_invariant(self);
        }
        self.records.get(key)
    }

    /// Stores `person` under its name, as given, unless a record stands
    /// there, and returns the stored record.
    pub fn create(&mut self, person: Person) -> (r: Result<Person, StoreError>)
        ensures
            outcome(r) == create_result(old(self)@, person@),
            final(self)@ == after_create(old(self)@, person@),
            named(final(self)@),
    {
        proof {
            use_type_invariant(&*self);
        }
        if self.records.contains_key(person.name.as_str()) {
            return Err(StoreError::Conflict);
        }
        let stored = person.clone();
        let mut records: StringHashMap<Person> = StringHashMap::new();
        core::mem::swap(&mut self.records, &mut records);
        let ghost before = records@;
        records.insert(person.name.clone(), person);
        assert(views_of(records@) =~= views_of(before).insert(person@.name, person@));
        core::mem::swap(&mut self.records, &mut records);
        Ok(stored)
    }

    /// The record under `key`.
    pub fn read(&self, key: &str) -> (r: Result<Person, StoreError>)
        ensures
            outcome(r) == read_result(self@, key@),
            named(self@),
    {
        match self.get(key) {
            Some(p) => Ok(p.clone()),
            None => Err(StoreError::NotFound),
        }
    }

    /// Takes the record under `key` out and stores `person` under its own
    /// name, over any record that stands there; returns the stored record.
    pub fn replace(&mut self, key: &str, person: Person) -> (r: Result<Person, StoreError>)
        ensures
            outcome(r) == replace_result(old(self)@, key@, person@),
            final(self)@ == after_replace(old(self)@, key@, person@),
            named(final(self)@),
    {
        proof {
            use_type_invariant(&*self);
        }
        if !self.records.contains_key(key) {
            return Err(StoreError::NotFound);
        }
        let stored = person.clone();
        let mut records: StringHashMap<Person> = StringHashMap::new();
        core::mem::swap(&mut self.records, &mut records);
        let ghost before = records@;
        records.remove(key);
        records.insert(person.name.clone(), person);
        assert(views_of(records@) =~= views_of(before).remove(key@).insert(person@.name, person@));
        core::mem::swap(&mut self.records, &mut records);
        Ok(stored)
    }

    /// Writes the given fields over the record under `key` and returns the
    /// record as it then is. The record then stands under its name: a patch
    /// that gives a name moves it.
    pub fn patch(&mut self, key: &str, fields: &PersonPatch) -> (r: Result<Person, StoreError>)
        ensures
            outcome(r) == patch_result(old(self)@, key@, fields@),
            final(self)@ == after_patch(old(self)@, key@, fields@),
            named(final(self)@),
    {
        let mut person = match self.get(key) {
            Some(found) => found.clone(),
            None => {
                return Err(StoreError::NotFound);
            },
        };
        person.apply(fields);
        self.replace(key, person)
    }

    /// Takes the record under `key` out.
    pub fn delete(&mut self, key: &str) -> (r: Result<(), StoreError>)
        ensures
            r == delete_result(old(self)@, key@),
            final(self)@ == after_delete(old(self)@, key@),
            named(final(self)@),
    {
        proof {
            use_type_invariant(&*self);
        }
        if !self.records.contains_key(key) {
            assert(self@.remove(key@) =~= self@);
            return Err(StoreError::NotFound);
        }
        let mut records: StringHashMap<Person> = StringHashMap::new();
        core::mem::swap(&mut self.records, &mut records);
        let ghost before = records@;
        records.remove(key);
        assert(views_of(records@) =~= views_of(before).remove(key@));
        core::mem::swap(&mut self.records, &mut records);
        Ok(())
    }
}

} // verus!
