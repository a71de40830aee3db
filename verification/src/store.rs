use vstd::prelude::*;

use crate::chars::{lower_of, lowercase};
use crate::error::{AppResult, Error};
use crate::models::{
    Beer, BeerV, Brewery, BreweryV, Drink, DrinkV, ExpandedDrink, ExpandedDrinkV, Identity,
    IdentityV, Person, PersonV, Session, SessionV,
};

verus! {

/// The first element of `rows` that satisfies `p`, if any: relational
/// stores answer point lookups this way, and the well-formedness
/// invariant makes the first match the only match for the predicates the
/// store uses.
pub open spec fn find_first<T>(rows: Seq<T>, p: spec_fn(T) -> bool) -> Option<T>
    decreases rows.len(),
{
    if rows.len() == 0 {
        None
    } else if p(rows[0]) {
        Some(rows[0])
    } else {
        find_first(rows.drop_first(), p)
    }
}

pub proof fn lemma_find_first_none<T>(rows: Seq<T>, p: spec_fn(T) -> bool)
    requires
        forall|i: int| 0 <= i < rows.len() ==> !p(#[trigger] rows[i]),
    ensures
        find_first(rows, p) is None,
    decreases rows.len(),
{
    if rows.len() > 0 {
        assert(forall|i: int|
            0 <= i < rows.drop_first().len() ==> !p(#[trigger] rows.drop_first()[i]));
        lemma_find_first_none(rows.drop_first(), p);
    }
}

pub proof fn lemma_find_first_at<T>(rows: Seq<T>, p: spec_fn(T) -> bool, i: int)
    requires
        0 <= i < rows.len(),
        p(rows[i]),
        forall|j: int| 0 <= j < i ==> !p(#[trigger] rows[j]),
    ensures
        find_first(rows, p) == Some(rows[i]),
    decreases rows.len(),
{
    if i > 0 {
        assert(forall|j: int| 0 <= j < i - 1 ==> rows.drop_first()[j] == rows[j + 1]);
        lemma_find_first_at(rows.drop_first(), p, i - 1);
    }
}

pub proof fn lemma_find_first_props<T>(rows: Seq<T>, p: spec_fn(T) -> bool)
    ensures
        match find_first(rows, p) {
            Some(x) => p(x) && exists|i: int| 0 <= i < rows.len() && rows[i] == x,
            None => forall|i: int| 0 <= i < rows.len() ==> !p(#[trigger] rows[i]),
        },
    decreases rows.len(),
{
    if rows.len() > 0 && !p(rows[0]) {
        lemma_find_first_props(rows.drop_first(), p);
        match find_first(rows.drop_first(), p) {
            Some(x) => {
                let i = choose|i: int|
                    0 <= i < rows.drop_first().len() && rows.drop_first()[i] == x;
                assert(rows[i + 1] == x);
            },
            None => {
                assert(forall|i: int|
                    1 <= i < rows.len() ==> rows.drop_first()[i - 1] == #[trigger] rows[i]);
            },
        }
    }
}

pub proof fn lemma_find_first_push<T>(rows: Seq<T>, p: spec_fn(T) -> bool, x: T)
    ensures
        find_first(rows, p) is Some ==> find_first(rows.push(x), p) == find_first(rows, p),
        find_first(rows, p) is None && p(x) ==> find_first(rows.push(x), p) == Some(x),
        find_first(rows, p) is None && !p(x) ==> find_first(rows.push(x), p) is None,
    decreases rows.len(),
{
    if rows.len() == 0 {
        assert(rows.push(x)[0] == x);
        assert(rows.push(x).drop_first() =~= Seq::<T>::empty());
        assert(find_first(Seq::<T>::empty(), p) is None);
    } else {
        assert(rows.push(x)[0] == rows[0]);
        assert(rows.push(x).drop_first() =~= rows.drop_first().push(x));
        lemma_find_first_push(rows.drop_first(), p, x);
    }
}

/// The mathematical image of the whole backing store.
#[verifier::ext_equal]
pub struct StoreV {
    pub breweries: Seq<BreweryV>,
    pub beers: Seq<BeerV>,
    pub drinks: Seq<DrinkV>,
    pub persons: Seq<PersonV>,
    pub identities: Seq<IdentityV>,
    pub sessions: Seq<SessionV>,
    pub next_id: int,
}

/// The predicate a brewery lookup by case-insensitive name uses.
pub open spec fn brewery_named(key: Seq<char>) -> spec_fn(BreweryV) -> bool {
    |b: BreweryV| lower_of(b.name) == key
}

/// The predicate a beer lookup by case-insensitive name within one
/// brewery uses.
pub open spec fn beer_named(key: Seq<char>, brewery_id: int) -> spec_fn(BeerV) -> bool {
    |b: BeerV| lower_of(b.name) == key && b.brewery_id == brewery_id
}

/// The predicate a lookup of a row by its id uses.
pub open spec fn brewery_with_id(id: int) -> spec_fn(BreweryV) -> bool {
    |b: BreweryV| b.id == id
}

pub open spec fn beer_with_id(id: int) -> spec_fn(BeerV) -> bool {
    |b: BeerV| b.id == id
}

pub open spec fn person_with_id(id: int) -> spec_fn(PersonV) -> bool {
    |p: PersonV| p.id == id
}

pub open spec fn drink_with_id(id: int) -> spec_fn(DrinkV) -> bool {
    |d: DrinkV| d.id == id
}

pub open spec fn identity_named(identifier: Seq<char>) -> spec_fn(IdentityV) -> bool {
    |it: IdentityV| it.identifier == identifier
}

pub open spec fn session_with_id(token: Seq<char>) -> spec_fn(SessionV) -> bool {
    |s: SessionV| s.id == token
}

/// Whether some brewery row carries the given id.
pub open spec fn has_brewery_id(rows: Seq<BreweryV>, id: int) -> bool {
    exists|k: int| 0 <= k < rows.len() && (#[trigger] rows[k]).id == id
}

/// Whether some beer row carries the given id.
pub open spec fn has_beer_id(rows: Seq<BeerV>, id: int) -> bool {
    exists|k: int| 0 <= k < rows.len() && (#[trigger] rows[k]).id == id
}

/// Whether some person row carries the given id.
pub open spec fn has_person_id(rows: Seq<PersonV>, id: int) -> bool {
    exists|k: int| 0 <= k < rows.len() && (#[trigger] rows[k]).id == id
}

/// Well-formedness of the store: the uniqueness constraints the schema
/// declares, referential integrity, and id allocation discipline.
pub open spec fn store_wf(s: StoreV) -> bool {
    &&& forall|i: int, j: int| #![trigger s.breweries[i], s.breweries[j]]
        0 <= i < j < s.breweries.len() ==> s.breweries[i].id != s.breweries[j].id
            && lower_of(s.breweries[i].name) != lower_of(s.breweries[j].name)
    &&& forall|i: int| 0 <= i < s.breweries.len() ==> 0 <= (#[trigger] s.breweries[i]).id
        < s.next_id
    &&& forall|i: int, j: int| #![trigger s.beers[i], s.beers[j]]
        0 <= i < j < s.beers.len() ==> s.beers[i].id != s.beers[j].id && !(lower_of(
            s.beers[i].name,
        ) == lower_of(s.beers[j].name) && s.beers[i].brewery_id == s.beers[j].brewery_id)
    &&& forall|i: int| 0 <= i < s.beers.len() ==> 0 <= (#[trigger] s.beers[i]).id < s.next_id
        && has_brewery_id(s.breweries, s.beers[i].brewery_id)
    &&& forall|i: int, j: int| #![trigger s.drinks[i], s.drinks[j]]
        0 <= i < j < s.drinks.len() ==> s.drinks[i].id != s.drinks[j].id
    &&& forall|i: int| 0 <= i < s.drinks.len() ==> 0 <= (#[trigger] s.drinks[i]).id < s.next_id
        && has_beer_id(s.beers, s.drinks[i].beer_id) && has_person_id(
            s.persons,
            s.drinks[i].person_id,
        )
    &&& forall|i: int, j: int| #![trigger s.persons[i], s.persons[j]]
        0 <= i < j < s.persons.len() ==> s.persons[i].id != s.persons[j].id
    &&& forall|i: int| 0 <= i < s.persons.len() ==> 0 <= (#[trigger] s.persons[i]).id
        < s.next_id
    &&& forall|i: int, j: int| #![trigger s.identities[i], s.identities[j]]
        0 <= i < j < s.identities.len() ==> s.identities[i].identifier
            != s.identities[j].identifier
    &&& forall|i: int| 0 <= i < s.identities.len() ==> has_person_id(
            s.persons,
            (#[trigger] s.identities[i]).person_id,
        )
    &&& forall|i: int| 0 <= i < s.sessions.len() ==> has_person_id(
            s.persons,
            (#[trigger] s.sessions[i]).person_id,
        )
    &&& 0 <= s.next_id <= i32::MAX
}

/// The relational tables of the service, as plain data.
#[derive(Debug)]
struct Tables {
    breweries: Vec<Brewery>,
    beers: Vec<Beer>,
    drinks: Vec<Drink>,
    persons: Vec<Person>,
    identities: Vec<Identity>,
    sessions: Vec<Session>,
    next_id: i32,
}


/// The views of a vector of brewery rows.
pub open spec fn breweries_view(rows: Seq<Brewery>) -> Seq<BreweryV> {
    rows.map_values(|b: Brewery| b@)
}

/// The views of a vector of beer rows.
pub open spec fn beers_view(rows: Seq<Beer>) -> Seq<BeerV> {
    rows.map_values(|b: Beer| b@)
}

/// The views of a vector of drink rows.
pub open spec fn drinks_view(rows: Seq<Drink>) -> Seq<DrinkV> {
    rows.map_values(|d: Drink| d@)
}

/// The views of a vector of person rows.
pub open spec fn persons_view(rows: Seq<Person>) -> Seq<PersonV> {
    rows.map_values(|p: Person| p@)
}

/// The views of a vector of identity rows.
pub open spec fn identities_view(rows: Seq<Identity>) -> Seq<IdentityV> {
    rows.map_values(|it: Identity| it@)
}

/// The views of a vector of session rows.
pub open spec fn sessions_view(rows: Seq<Session>) -> Seq<SessionV> {
    rows.map_values(|s: Session| s@)
}

/// The mathematical image of the tables.
spec fn tables_view(t: Tables) -> StoreV {
    StoreV {
        breweries: breweries_view(t.breweries@),
        beers: beers_view(t.beers@),
        drinks: drinks_view(t.drinks@),
        persons: persons_view(t.persons@),
        identities: identities_view(t.identities@),
        sessions: sessions_view(t.sessions@),
        next_id: t.next_id as int,
    }
}

impl Tables {
    /// Tables with no rows at all.
    fn empty() -> (t: Tables)
        ensures
            tables_view(t) == empty_store(),
    {
        let t = Tables {
            breweries: Vec::new(),
            beers: Vec::new(),
            drinks: Vec::new(),
            persons: Vec::new(),
            identities: Vec::new(),
            sessions: Vec::new(),
            next_id: 0,
        };
        proof {
            assert(tables_view(t) =~~= empty_store());
        }
        t
    }
}

proof fn lemma_empty_store_wf()
    ensures
        store_wf(empty_store()),
{
}

/// The in-memory backing store: the relational tables of the service,
/// with the schema's constraints as an invariant.
#[derive(Debug)]
pub struct Store {
    t: Tables,
}

impl View for Store {
    type V = StoreV;

    closed spec fn view(&self) -> StoreV {
        tables_view(self.t)
    }
}

impl Store {
    /// Every store the library hands out satisfies [`store_wf`]: the
    /// constraints are kept as a type invariant.
    #[verifier::type_invariant]
    pub open spec fn wf(self) -> bool {
        store_wf(self@)
    }

    /// An empty store: no rows in any table.
    pub fn new() -> (s: Store)
        ensures
            s@ == empty_store(),
    {
        proof {
            lemma_empty_store_wf();
        }
        Store { t: Tables::empty() }
    }

    pub fn brewery_count(&self) -> (n: usize)
        ensures
            n == self@.breweries.len(),
    {
        self.t.breweries.len()
    }

    pub fn beer_count(&self) -> (n: usize)
        ensures
            n == self@.beers.len(),
    {
        self.t.beers.len()
    }

    pub fn drink_count(&self) -> (n: usize)
        ensures
            n == self@.drinks.len(),
    {
        self.t.drinks.len()
    }

    pub fn person_count(&self) -> (n: usize)
        ensures
            n == self@.persons.len(),
    {
        self.t.persons.len()
    }

    pub fn identity_count(&self) -> (n: usize)
        ensures
            n == self@.identities.len(),
    {
        self.t.identities.len()
    }

    pub fn session_count(&self) -> (n: usize)
        ensures
            n == self@.sessions.len(),
    {
        self.t.sessions.len()
    }
}

/// The store with no rows at all.
pub open spec fn empty_store() -> StoreV {
    StoreV {
        breweries: Seq::empty(),
        beers: Seq::empty(),
        drinks: Seq::empty(),
        persons: Seq::empty(),
        identities: Seq::empty(),
        sessions: Seq::empty(),
        next_id: 0,
    }
}

/// Lookup of a brewery by case-insensitive name.
pub open spec fn spec_get_brewery(s: StoreV, name: Seq<char>) -> Option<BreweryV> {
    find_first(s.breweries, brewery_named(lower_of(name)))
}

/// Creation of a brewery row: fails when the name is already taken (the
/// unique constraint) or the id space is exhausted.
pub open spec fn spec_create_brewery(s: StoreV, name: Seq<char>) -> Option<(StoreV, BreweryV)> {
    if spec_get_brewery(s, name) is Some || s.next_id == i32::MAX {
        None
    } else {
        let b = BreweryV { id: s.next_id, name: name };
        Some((StoreV { breweries: s.breweries.push(b), next_id: s.next_id + 1, ..s }, b))
    }
}

/// Message for looking a brewery up by case-insensitive name match.
pub struct GetBreweryByName {
    pub name: String,
}

impl GetBreweryByName {
    pub fn execute(&self, store: &Store) -> (r: AppResult<Option<Brewery>>)
        ensures
            r is Ok,
            match r->Ok_0 {
                Some(b) => spec_get_brewery(store@, self.name@) == Some(b@),
                None => spec_get_brewery(store@, self.name@) is None,
            },
    {
        match store.find_brewery(&self.name) {
            Some(b) => Ok(Some(b)),
            None => Ok(None),
        }
    }
}

/// Message for creating a new brewery row.
pub struct CreateBrewery {
    pub name: String,
}

impl CreateBrewery {
    pub fn execute(&self, store: &mut Store) -> (r: AppResult<Brewery>)
        ensures
            match r {
                Ok(b) => spec_create_brewery(old(store)@, self.name@) == Some(
                    (final(store)@, b@),
                ),
                Err(e) => {
                    &&& spec_create_brewery(old(store)@, self.name@) is None
                    &&& e == Error::BackingStoreError
                    &&& final(store)@ == old(store)@
                },
            },
    {
        store.insert_brewery(&self.name)
    }
}

impl Store {
    /// Scan the brewery table for a case-insensitive name match.
    fn find_brewery(&self, name: &String) -> (r: Option<Brewery>)
        ensures
            match r {
                Some(b) => spec_get_brewery(self@, name@) == Some(b@),
                None => spec_get_brewery(self@, name@) is None,
            },
    {
        let key = lowercase(name.as_str());
        let ghost p = brewery_named(lower_of(name@));
        let ghost rows = self@.breweries;
        let n = self.t.breweries.len();
        let mut i: usize = 0;
        while i < n
            invariant
                n == self.t.breweries@.len(),
                rows == self@.breweries,
                p == brewery_named(lower_of(name@)),
                i <= n,
                key@ == lower_of(name@),
                forall|j: int| 0 <= j < i ==> !p(#[trigger] rows[j]),
            decreases n - i,
        {
            proof {
                assert(rows[i as int] == self.t.breweries@[i as int]@);
            }
            let row_key = lowercase(self.t.breweries[i].name.as_str());
            proof {
                assert(row_key@ == lower_of(rows[i as int].name));
                assert(brewery_named(lower_of(name@))(rows[i as int]) == (lower_of(
                    rows[i as int].name,
                ) == lower_of(name@)));
            }
            if row_key == key {
                proof {
                    assert(p(rows[i as int]));
                    lemma_find_first_at(rows, p, i as int);
                }
                return Some(self.t.breweries[i].duplicate());
            }
            proof {
                assert(!p(rows[i as int]));
            }
            i += 1;
        }
        proof {
            lemma_find_first_none(rows, p);
        }
        None
    }

    /// Insert a brewery row, enforcing the case-insensitive unique
    /// constraint on its name.
    fn insert_brewery(&mut self, name: &String) -> (r: AppResult<Brewery>)
        ensures
            match r {
                Ok(b) => spec_create_brewery(old(self)@, name@) == Some((final(self)@, b@)),
                Err(e) => {
                    &&& spec_create_brewery(old(self)@, name@) is None
                    &&& e == Error::BackingStoreError
                    &&& final(self)@ == old(self)@
                },
            },
    {
        proof {
            use_type_invariant(&*self);
            lemma_empty_store_wf();
        }
        if self.find_brewery(name).is_some() {
            return Err(Error::BackingStoreError);
        }
        if self.t.next_id == i32::MAX {
            return Err(Error::BackingStoreError);
        }
        let ghost old_view = self@;
        let mut t = Tables::empty();
        core::mem::swap(&mut self.t, &mut t);
        let row = Brewery { id: t.next_id, name: name.clone() };
        t.breweries.push(row.duplicate());
        t.next_id = t.next_id + 1;
        proof {
            let nv = StoreV {
                breweries: old_view.breweries.push(row@),
                next_id: old_view.next_id + 1,
                ..old_view
            };
            assert(tables_view(t) =~~= nv);
            lemma_find_first_props(old_view.breweries, brewery_named(lower_of(name@)));
            assert forall|i: int| 0 <= i < nv.beers.len() implies has_brewery_id(
                nv.breweries,
                nv.beers[i].brewery_id,
            ) by {
                assert(has_brewery_id(old_view.breweries, old_view.beers[i].brewery_id));
                let k = choose|k: int|
                    0 <= k < old_view.breweries.len() && (#[trigger] old_view.breweries[k]).id
                        == old_view.beers[i].brewery_id;
                assert(nv.breweries[k].id == old_view.beers[i].brewery_id);
            }
            assert(store_wf(tables_view(t)));
        }
        core::mem::swap(&mut self.t, &mut t);
        proof {
            assert(spec_create_brewery(old_view, name@) == Some((self@, row@)));
        }
        Ok(row)
    }
}


/// Lookup of a beer by case-insensitive name within one brewery.
pub open spec fn spec_get_beer(s: StoreV, name: Seq<char>, brewery_id: int) -> Option<BeerV> {
    find_first(s.beers, beer_named(lower_of(name), brewery_id))
}

/// Creation of a beer row: fails when the `(name, brewery)` pair is
/// already taken, the brewery does not exist (referential integrity), or
/// the id space is exhausted.
pub open spec fn spec_create_beer(s: StoreV, name: Seq<char>, brewery_id: int) -> Option<
    (StoreV, BeerV),
> {
    if spec_get_beer(s, name, brewery_id) is Some || !has_brewery_id(s.breweries, brewery_id)
        || s.next_id == i32::MAX {
        None
    } else {
        let b = BeerV { id: s.next_id, name: name, brewery_id: brewery_id };
        Some((StoreV { beers: s.beers.push(b), next_id: s.next_id + 1, ..s }, b))
    }
}

/// Message for looking a beer up by case-insensitive name match, scoped
/// to one brewery.
pub struct GetBeerByName {
    pub name: String,
    pub brewery_id: i32,
}

impl GetBeerByName {
    pub fn execute(&self, store: &Store) -> (r: AppResult<Option<Beer>>)
        ensures
            r is Ok,
            match r->Ok_0 {
                Some(b) => spec_get_beer(store@, self.name@, self.brewery_id as int) == Some(b@),
                None => spec_get_beer(store@, self.name@, self.brewery_id as int) is None,
            },
    {
        match store.find_beer(&self.name, self.brewery_id) {
            Some(b) => Ok(Some(b)),
            None => Ok(None),
        }
    }
}

/// Message for creating a new beer row.
pub struct CreateBeer {
    pub name: String,
    pub brewery_id: i32,
}

impl CreateBeer {
    pub fn execute(&self, store: &mut Store) -> (r: AppResult<Beer>)
        ensures
            match r {
                Ok(b) => spec_create_beer(old(store)@, self.name@, self.brewery_id as int)
                    == Some((final(store)@, b@)),
                Err(e) => {
                    &&& spec_create_beer(old(store)@, self.name@, self.brewery_id as int)
                        is None
                    &&& e == Error::BackingStoreError
                    &&& final(store)@ == old(store)@
                },
            },
    {
        store.insert_beer(&self.name, self.brewery_id)
    }
}

impl Store {
    /// Scan the beer table for a case-insensitive name match within the
    /// given brewery.
    fn find_beer(&self, name: &String, brewery_id: i32) -> (r: Option<Beer>)
        ensures
            match r {
                Some(b) => spec_get_beer(self@, name@, brewery_id as int) == Some(b@),
                None => spec_get_beer(self@, name@, brewery_id as int) is None,
            },
    {
        let key = lowercase(name.as_str());
        let ghost p = beer_named(lower_of(name@), brewery_id as int);
        let ghost rows = self@.beers;
        let n = self.t.beers.len();
        let mut i: usize = 0;
        while i < n
            invariant
                n == self.t.beers@.len(),
                rows == self@.beers,
                p == beer_named(lower_of(name@), brewery_id as int),
                i <= n,
                key@ == lower_of(name@),
                forall|j: int| 0 <= j < i ==> !p(#[trigger] rows[j]),
            decreases n - i,
        {
            proof {
                assert(rows[i as int] == self.t.beers@[i as int]@);
            }
            let row_key = lowercase(self.t.beers[i].name.as_str());
            if row_key == key && self.t.beers[i].brewery_id == brewery_id {
                proof {
                    assert(p(rows[i as int]));
                    lemma_find_first_at(rows, p, i as int);
                }
                return Some(self.t.beers[i].duplicate());
            }
            proof {
                assert(!p(rows[i as int]));
            }
            i += 1;
        }
        proof {
            lemma_find_first_none(rows, p);
        }
        None
    }

    /// Scan the brewery table for an id match.
    fn brewery_by_id(&self, id: i32) -> (r: Option<Brewery>)
        ensures
            match r {
                Some(b) => find_first(self@.breweries, brewery_with_id(id as int)) == Some(b@)
                    && has_brewery_id(self@.breweries, id as int),
                None => find_first(self@.breweries, brewery_with_id(id as int)) is None
                    && !has_brewery_id(self@.breweries, id as int),
            },
    {
        let ghost p = brewery_with_id(id as int);
        let ghost rows = self@.breweries;
        let n = self.t.breweries.len();
        let mut i: usize = 0;
        while i < n
            invariant
                n == self.t.breweries@.len(),
                rows == self@.breweries,
                p == brewery_with_id(id as int),
                i <= n,
                forall|j: int| 0 <= j < i ==> !p(#[trigger] rows[j]),
            decreases n - i,
        {
            proof {
                assert(rows[i as int] == self.t.breweries@[i as int]@);
            }
            if self.t.breweries[i].id == id {
                proof {
                    assert(p(rows[i as int]));
                    lemma_find_first_at(rows, p, i as int);
                }
                return Some(self.t.breweries[i].duplicate());
            }
            proof {
                assert(!p(rows[i as int]));
            }
            i += 1;
        }
        proof {
            lemma_find_first_none(rows, p);
            assert(!has_brewery_id(rows, id as int));
        }
        None
    }

    /// Insert a beer row, enforcing the case-insensitive unique
    /// constraint on `(name, brewery)` and the foreign key to breweries.
    fn insert_beer(&mut self, name: &String, brewery_id: i32) -> (r: AppResult<Beer>)
        ensures
            match r {
                Ok(b) => spec_create_beer(old(self)@, name@, brewery_id as int) == Some(
                    (final(self)@, b@),
                ),
                Err(e) => {
                    &&& spec_create_beer(old(self)@, name@, brewery_id as int) is None
                    &&& e == Error::BackingStoreError
                    &&& final(self)@ == old(self)@
                },
            },
    {
        proof {
            use_type_invariant(&*self);
            lemma_empty_store_wf();
        }
        if self.find_beer(name, brewery_id).is_some() {
            return Err(Error::BackingStoreError);
        }
        if self.brewery_by_id(brewery_id).is_none() {
            return Err(Error::BackingStoreError);
        }
        if self.t.next_id == i32::MAX {
            return Err(Error::BackingStoreError);
        }
        let ghost old_view = self@;
        let mut t = Tables::empty();
        core::mem::swap(&mut self.t, &mut t);
        let row = Beer { id: t.next_id, name: name.clone(), brewery_id };
        t.beers.push(row.duplicate());
        t.next_id = t.next_id + 1;
        proof {
            let nv = StoreV {
                beers: old_view.beers.push(row@),
                next_id: old_view.next_id + 1,
                ..old_view
            };
            assert(tables_view(t) =~~= nv);
            lemma_find_first_props(
                old_view.beers,
                beer_named(lower_of(name@), brewery_id as int),
            );
            assert forall|i: int| 0 <= i < nv.drinks.len() implies has_beer_id(
                nv.beers,
                nv.drinks[i].beer_id,
            ) by {
                assert(has_beer_id(old_view.beers, old_view.drinks[i].beer_id));
                let k = choose|k: int|
                    0 <= k < old_view.beers.len() && (#[trigger] old_view.beers[k]).id
                        == old_view.drinks[i].beer_id;
                assert(nv.beers[k].id == old_view.drinks[i].beer_id);
            }
            assert(store_wf(tables_view(t)));
        }
        core::mem::swap(&mut self.t, &mut t);
        proof {
            assert(spec_create_beer(old_view, name@, brewery_id as int) == Some((self@, row@)));
        }
        Ok(row)
    }
}


/// Creation of a drink row: fails when the referenced beer or person
/// does not exist (referential integrity) or the id space is exhausted.
pub open spec fn spec_create_drink(
    s: StoreV,
    person_id: int,
    drank_on: int,
    beer_id: int,
    rating: int,
    comment: Option<Seq<char>>,
) -> Option<(StoreV, DrinkV)> {
    if !has_beer_id(s.beers, beer_id) || !has_person_id(s.persons, person_id) || s.next_id
        == i32::MAX {
        None
    } else {
        let d = DrinkV {
            id: s.next_id,
            person_id: person_id,
            drank_on: drank_on,
            beer_id: beer_id,
            rating: rating,
            comment: comment,
        };
        Some((StoreV { drinks: s.drinks.push(d), next_id: s.next_id + 1, ..s }, d))
    }
}

/// Message for recording a new drink.
pub struct CreateDrink {
    pub person_id: i32,
    pub drank_on: i32,
    pub beer_id: i32,
    pub rating: i16,
    pub comment: Option<String>,
}

impl CreateDrink {
    pub fn execute(&self, store: &mut Store) -> (r: AppResult<Drink>)
        ensures
            match r {
                Ok(d) => spec_create_drink(
                    old(store)@,
                    self.person_id as int,
                    self.drank_on as int,
                    self.beer_id as int,
                    self.rating as int,
                    self.comment.deep_view(),
                ) == Some((final(store)@, d@)),
                Err(e) => {
                    &&& spec_create_drink(
                        old(store)@,
                        self.person_id as int,
                        self.drank_on as int,
                        self.beer_id as int,
                        self.rating as int,
                        self.comment.deep_view(),
                    ) is None
                    &&& e == Error::BackingStoreError
                    &&& final(store)@ == old(store)@
                },
            },
    {
        store.insert_drink(self)
    }
}

impl Store {
    /// Scan the beer table for an id match.
    fn beer_by_id(&self, id: i32) -> (r: Option<Beer>)
        ensures
            match r {
                Some(b) => find_first(self@.beers, beer_with_id(id as int)) == Some(b@)
                    && has_beer_id(self@.beers, id as int),
                None => find_first(self@.beers, beer_with_id(id as int)) is None
                    && !has_beer_id(self@.beers, id as int),
            },
    {
        let ghost p = beer_with_id(id as int);
        let ghost rows = self@.beers;
        let n = self.t.beers.len();
        let mut i: usize = 0;
        while i < n
            invariant
                n == self.t.beers@.len(),
                rows == self@.beers,
                p == beer_with_id(id as int),
                i <= n,
                forall|j: int| 0 <= j < i ==> !p(#[trigger] rows[j]),
            decreases n - i,
        {
            proof {
                assert(rows[i as int] == self.t.beers@[i as int]@);
            }
            if self.t.beers[i].id == id {
                proof {
                    assert(p(rows[i as int]));
                    lemma_find_first_at(rows, p, i as int);
                }
                return Some(self.t.beers[i].duplicate());
            }
            proof {
                assert(!p(rows[i as int]));
            }
            i += 1;
        }
        proof {
            lemma_find_first_none(rows, p);
            assert(!has_beer_id(rows, id as int));
        }
        None
    }

    /// Scan the person table for an id match.
    fn person_by_id(&self, id: i32) -> (r: Option<Person>)
        ensures
            match r {
                Some(p) => find_first(self@.persons, person_with_id(id as int)) == Some(p@)
                    && has_person_id(self@.persons, id as int),
                None => find_first(self@.persons, person_with_id(id as int)) is None
                    && !has_person_id(self@.persons, id as int),
            },
    {
        let ghost p = person_with_id(id as int);
        let ghost rows = self@.persons;
        let n = self.t.persons.len();
        let mut i: usize = 0;
        while i < n
            invariant
                n == self.t.persons@.len(),
                rows == self@.persons,
                p == person_with_id(id as int),
                i <= n,
                forall|j: int| 0 <= j < i ==> !p(#[trigger] rows[j]),
            decreases n - i,
        {
            proof {
                assert(rows[i as int] == self.t.persons@[i as int]@);
            }
            if self.t.persons[i].id == id {
                proof {
                    assert(p(rows[i as int]));
                    lemma_find_first_at(rows, p, i as int);
                }
                return Some(Person { id: self.t.persons[i].id });
            }
            proof {
                assert(!p(rows[i as int]));
            }
            i += 1;
        }
        proof {
            lemma_find_first_none(rows, p);
            assert(!has_person_id(rows, id as int));
        }
        None
    }

    /// Insert a drink row, enforcing the foreign keys to beers and
    /// persons.
    fn insert_drink(&mut self, msg: &CreateDrink) -> (r: AppResult<Drink>)
        ensures
            match r {
                Ok(d) => spec_create_drink(
                    old(self)@,
                    msg.person_id as int,
                    msg.drank_on as int,
                    msg.beer_id as int,
                    msg.rating as int,
                    msg.comment.deep_view(),
                ) == Some((final(self)@, d@)),
                Err(e) => {
                    &&& spec_create_drink(
                        old(self)@,
                        msg.person_id as int,
                        msg.drank_on as int,
                        msg.beer_id as int,
                        msg.rating as int,
                        msg.comment.deep_view(),
                    ) is None
                    &&& e == Error::BackingStoreError
                    &&& final(self)@ == old(self)@
                },
            },
    {
        proof {
            use_type_invariant(&*self);
            lemma_empty_store_wf();
        }
        if self.beer_by_id(msg.beer_id).is_none() {
            return Err(Error::BackingStoreError);
        }
        if self.person_by_id(msg.person_id).is_none() {
            return Err(Error::BackingStoreError);
        }
        if self.t.next_id == i32::MAX {
            return Err(Error::BackingStoreError);
        }
        let ghost old_view = self@;
        let mut t = Tables::empty();
        core::mem::swap(&mut self.t, &mut t);
        let row = Drink {
            id: t.next_id,
            person_id: msg.person_id,
            drank_on: msg.drank_on,
            beer_id: msg.beer_id,
            rating: msg.rating,
            comment: match &msg.comment {
                Some(c) => Some(c.clone()),
                None => None,
            },
        };
        t.drinks.push(row.duplicate());
        t.next_id = t.next_id + 1;
        proof {
            let nv = StoreV {
                drinks: old_view.drinks.push(row@),
                next_id: old_view.next_id + 1,
                ..old_view
            };
            assert(tables_view(t) =~~= nv);
            assert(store_wf(tables_view(t)));
        }
        core::mem::swap(&mut self.t, &mut t);
        proof {
            assert(spec_create_drink(
                old_view,
                msg.person_id as int,
                msg.drank_on as int,
                msg.beer_id as int,
                msg.rating as int,
                msg.comment.deep_view(),
            ) == Some((self@, row@)));
        }
        Ok(row)
    }
}


/// The predicate a scoped delete uses: the drink with the given id, but
/// only if the caller owns it.
pub open spec fn drink_owned_by(drink_id: int, person_id: int) -> spec_fn(DrinkV) -> bool {
    |d: DrinkV| d.id == drink_id && d.person_id == person_id
}

/// The join of one drink with its beer and brewery names.
pub open spec fn spec_expand(s: StoreV, d: DrinkV) -> Option<ExpandedDrinkV> {
    match find_first(s.beers, beer_with_id(d.beer_id)) {
        None => None,
        Some(be) => match find_first(s.breweries, brewery_with_id(be.brewery_id)) {
            None => None,
            Some(br) => Some(
                ExpandedDrinkV {
                    id: d.id,
                    drank_on: d.drank_on,
                    name: be.name,
                    brewery: br.name,
                    rating: d.rating,
                    comment: d.comment,
                },
            ),
        },
    }
}

/// Lookup of one drink by id, joined with its beer and brewery names.
pub open spec fn spec_get_drink(s: StoreV, drink_id: int) -> Option<ExpandedDrinkV> {
    match find_first(s.drinks, drink_with_id(drink_id)) {
        None => None,
        Some(d) => spec_expand(s, d),
    }
}

/// Deletion of a drink, scoped to its owner: the store afterwards, and
/// how many rows went away.
pub open spec fn spec_delete_drink(s: StoreV, drink_id: int, person_id: int) -> (StoreV, int) {
    let remaining = s.drinks.filter(|d: DrinkV| !drink_owned_by(drink_id, person_id)(d));
    (StoreV { drinks: remaining, ..s }, s.drinks.len() - remaining.len())
}

/// Message for fetching one drink by id, joined for display.
pub struct GetDrink {
    pub drink_id: i32,
}

impl GetDrink {
    pub fn execute(&self, store: &Store) -> (r: AppResult<ExpandedDrink>)
        ensures
            match r {
                Ok(ed) => spec_get_drink(store@, self.drink_id as int) == Some(ed@),
                Err(e) => {
                    &&& spec_get_drink(store@, self.drink_id as int) is None
                    &&& e == Error::BackingStoreError
                },
            },
    {
        let d = match store.drink_by_id(self.drink_id) {
            Some(d) => d,
            None => {
                return Err(Error::BackingStoreError);
            },
        };
        let be = match store.beer_by_id(d.beer_id) {
            Some(b) => b,
            None => {
                return Err(Error::BackingStoreError);
            },
        };
        let br = match store.brewery_by_id(be.brewery_id) {
            Some(b) => b,
            None => {
                return Err(Error::BackingStoreError);
            },
        };
        Ok(ExpandedDrink {
            id: d.id,
            drank_on: d.drank_on,
            name: be.name,
            brewery: br.name,
            rating: d.rating,
            comment: d.comment,
        })
    }
}

/// Message for deleting a drink; only a drink the caller owns is
/// deleted.
pub struct DeleteDrink {
    pub drink_id: i32,
    pub person_id: i32,
}

impl DeleteDrink {
    pub fn execute(&self, store: &mut Store) -> (r: AppResult<usize>)
        ensures
            r is Ok,
            ({
                let (after, count) = spec_delete_drink(
                    old(store)@,
                    self.drink_id as int,
                    self.person_id as int,
                );
                final(store)@ == after && r->Ok_0 == count
            }),
    {
        store.remove_drink(self.drink_id, self.person_id)
    }
}

impl Store {
    /// Scan the drink table for an id match.
    fn drink_by_id(&self, id: i32) -> (r: Option<Drink>)
        ensures
            match r {
                Some(d) => find_first(self@.drinks, drink_with_id(id as int)) == Some(d@),
                None => find_first(self@.drinks, drink_with_id(id as int)) is None,
            },
    {
        let ghost p = drink_with_id(id as int);
        let ghost rows = self@.drinks;
        let n = self.t.drinks.len();
        let mut i: usize = 0;
        while i < n
            invariant
                n == self.t.drinks@.len(),
                rows == self@.drinks,
                p == drink_with_id(id as int),
                i <= n,
                forall|j: int| 0 <= j < i ==> !p(#[trigger] rows[j]),
            decreases n - i,
        {
            proof {
                assert(rows[i as int] == self.t.drinks@[i as int]@);
            }
            if self.t.drinks[i].id == id {
                proof {
                    assert(p(rows[i as int]));
                    lemma_find_first_at(rows, p, i as int);
                }
                return Some(self.t.drinks[i].duplicate());
            }
            proof {
                assert(!p(rows[i as int]));
            }
            i += 1;
        }
        proof {
            lemma_find_first_none(rows, p);
        }
        None
    }

    /// Remove every drink that matches both the id and the owner; report
    /// how many rows went away.
    fn remove_drink(&mut self, drink_id: i32, person_id: i32) -> (r: AppResult<usize>)
        ensures
            r is Ok,
            ({
                let (after, count) = spec_delete_drink(
                    old(self)@,
                    drink_id as int,
                    person_id as int,
                );
                final(self)@ == after && r->Ok_0 == count
            }),
    {
        broadcast use vstd::seq_lib::group_filter_ensures;

        proof {
            use_type_invariant(&*self);
            lemma_empty_store_wf();
        }
        let ghost old_view = self@;
        let ghost keep = |d: DrinkV| !drink_owned_by(drink_id as int, person_id as int)(d);
        let mut t = Tables::empty();
        core::mem::swap(&mut self.t, &mut t);
        let rows = t.drinks;
        let ghost rows_v = old_view.drinks;
        let n = rows.len();
        let mut kept: Vec<Drink> = Vec::new();
        let mut i: usize = 0;
        proof {
            reveal_with_fuel(Seq::filter, 2);
            assert(drinks_view(kept@) =~= rows_v.subrange(0, 0).filter(keep));
        }
        while i < n
            invariant
                n == rows@.len(),
                drinks_view(rows@) == rows_v,
                rows_v == old_view.drinks,
                store_wf(old_view),
                i <= n,
                keep == (|d: DrinkV| !drink_owned_by(drink_id as int, person_id as int)(d)),
                drinks_view(kept@) == rows_v.subrange(0, i as int).filter(keep),
                forall|a: int| 0 <= a < kept@.len() ==> exists|j: int|
                    0 <= j < i && (#[trigger] kept@[a])@ == rows_v[j],
                forall|a: int, b: int| #![trigger kept@[a], kept@[b]]
                    0 <= a < b < kept@.len() ==> kept@[a]@.id != kept@[b]@.id,
            decreases n - i,
        {
            proof {
                assert(rows@[i as int]@ == rows_v[i as int]);
                assert(rows_v.subrange(0, i + 1 as int).drop_last() =~= rows_v.subrange(
                    0,
                    i as int,
                ));
            }
            let d = &rows[i];
            let ghost kept_before = kept@;
            if !(d.id == drink_id && d.person_id == person_id) {
                kept.push(d.duplicate());
                proof {
                    reveal_with_fuel(Seq::filter, 2);
                    assert(keep(rows_v[i as int]));
                    assert(rows_v.subrange(0, i + 1 as int).last() == rows_v[i as int]);
                    assert(drinks_view(kept@) =~= rows_v.subrange(0, i + 1 as int).filter(keep));
                    assert(kept@[kept_before.len() as int]@ == rows_v[i as int]);
                    assert forall|a: int, b: int| #![trigger kept@[a], kept@[b]]
                        0 <= a < b < kept@.len() implies kept@[a]@.id != kept@[b]@.id by {
                        if b == kept_before.len() {
                            assert(kept@[a] == kept_before[a]);
                            let j = choose|j: int|
                                0 <= j < i && (#[trigger] kept_before[a])@ == rows_v[j];
                            assert(rows_v[j].id != rows_v[i as int].id);
                        } else {
                            assert(kept@[a] == kept_before[a]);
                            assert(kept@[b] == kept_before[b]);
                        }
                    }
                }
            } else {
                proof {
                    reveal_with_fuel(Seq::filter, 2);
                    assert(!keep(rows_v[i as int]));
                    assert(rows_v.subrange(0, i + 1 as int).last() == rows_v[i as int]);
                    assert(drinks_view(kept@) =~= rows_v.subrange(0, i + 1 as int).filter(keep));
                }
            }
            i += 1;
        }
        proof {
            assert(rows_v.subrange(0, n as int) =~= rows_v);
        }
        let ghost kept_v = drinks_view(kept@);
        proof {
            assert(kept_v.len() <= rows_v.len());
            assert forall|a: int| 0 <= a < kept_v.len() implies exists|j: int|
                0 <= j < n && (#[trigger] kept_v[a]) == rows_v[j] by {
                let j = choose|j: int| 0 <= j < i && (#[trigger] kept@[a])@ == rows_v[j];
                assert(kept_v[a] == rows_v[j]);
            }
        }
        let count = n - kept.len();
        t.drinks = kept;
        proof {
            let nv = StoreV { drinks: kept_v, ..old_view };
            assert(tables_view(t) =~~= nv);
            assert forall|a: int| 0 <= a < kept_v.len() implies (0 <= (
            #[trigger] kept_v[a]).id < nv.next_id && has_beer_id(nv.beers, kept_v[a].beer_id)
                && has_person_id(nv.persons, kept_v[a].person_id)) by {
                let j = choose|j: int| 0 <= j < n && kept_v[a] == rows_v[j];
                assert(rows_v[j] == old_view.drinks[j]);
            }
            assert(store_wf(tables_view(t)));
        }
        core::mem::swap(&mut self.t, &mut t);
        Ok(count)
    }
}


/// The views of a vector of expanded drinks.
pub open spec fn expanded_view(rows: Seq<ExpandedDrink>) -> Seq<ExpandedDrinkV> {
    rows.map_values(|e: ExpandedDrink| e@)
}

/// The predicate selecting the drinks one person owns.
pub open spec fn drink_of_person(person_id: int) -> spec_fn(DrinkV) -> bool {
    |d: DrinkV| d.person_id == person_id
}

/// The join of one drink with its beer and brewery names; a dangling
/// reference (which well-formed stores never hold) joins as an empty
/// name.
pub open spec fn spec_expand_row(s: StoreV, d: DrinkV) -> ExpandedDrinkV {
    ExpandedDrinkV {
        id: d.id,
        drank_on: d.drank_on,
        name: match find_first(s.beers, beer_with_id(d.beer_id)) {
            Some(be) => be.name,
            None => Seq::empty(),
        },
        brewery: match find_first(s.beers, beer_with_id(d.beer_id)) {
            Some(be) => match find_first(s.breweries, brewery_with_id(be.brewery_id)) {
                Some(br) => br.name,
                None => Seq::empty(),
            },
            None => Seq::empty(),
        },
        rating: d.rating,
        comment: d.comment,
    }
}

/// The joined display rows for a sequence of drinks.
pub open spec fn spec_expand_all(s: StoreV, ds: Seq<DrinkV>) -> Seq<ExpandedDrinkV> {
    ds.map_values(|d: DrinkV| spec_expand_row(s, d))
}

/// The drinks one person owns, in store order.
pub open spec fn spec_person_drinks(s: StoreV, person_id: int) -> Seq<DrinkV> {
    s.drinks.filter(drink_of_person(person_id))
}

/// Message for listing one person's drinks, joined for display and
/// ordered by the day they were drunk on, ascending.
#[derive(Clone)]
pub struct GetDrinks {
    pub person_id: i32,
}

impl GetDrinks {
    pub fn execute(&self, store: &Store) -> (r: AppResult<Vec<ExpandedDrink>>)
        ensures
            r is Ok,
            ({
                let out = expanded_view(r->Ok_0@);
                let expected = spec_expand_all(
                    store@,
                    spec_person_drinks(store@, self.person_id as int),
                );
                &&& out.to_multiset() == expected.to_multiset()
                &&& forall|a: int, b: int|
                    0 <= a < b < out.len() ==> (#[trigger] out[a]).drank_on <= (
                    #[trigger] out[b]).drank_on
            }),
    {
        let unsorted = store.person_drinks_expanded(self.person_id);
        Ok(sort_by_drank_on(unsorted))
    }
}

impl Store {
    /// The joined display rows for one person's drinks, in store order.
    fn person_drinks_expanded(&self, person_id: i32) -> (r: Vec<ExpandedDrink>)
        ensures
            expanded_view(r@) == spec_expand_all(
                self@,
                spec_person_drinks(self@, person_id as int),
            ),
    {
        let ghost sv = self@;
        let ghost pred = drink_of_person(person_id as int);
        let ghost rows_v = sv.drinks;
        let n = self.t.drinks.len();
        let mut out: Vec<ExpandedDrink> = Vec::new();
        let mut i: usize = 0;
        proof {
            reveal_with_fuel(Seq::filter, 2);
            assert(expanded_view(out@) =~= spec_expand_all(
                sv,
                rows_v.subrange(0, 0).filter(pred),
            ));
        }
        while i < n
            invariant
                n == self.t.drinks@.len(),
                sv == self@,
                rows_v == sv.drinks,
                pred == drink_of_person(person_id as int),
                i <= n,
                expanded_view(out@) == spec_expand_all(
                    sv,
                    rows_v.subrange(0, i as int).filter(pred),
                ),
            decreases n - i,
        {
            proof {
                reveal_with_fuel(Seq::filter, 2);
                assert(self.t.drinks@[i as int]@ == rows_v[i as int]);
                assert(rows_v.subrange(0, i + 1 as int).drop_last() =~= rows_v.subrange(
                    0,
                    i as int,
                ));
                assert(rows_v.subrange(0, i + 1 as int).last() == rows_v[i as int]);
            }
            let d = &self.t.drinks[i];
            if d.person_id == person_id {
                let e = self.expand_drink(d);
                let ghost ev = e@;
                let ghost out_before = out@;
                out.push(e);
                proof {
                    reveal_with_fuel(Seq::filter, 2);
                    let fl = rows_v.subrange(0, i as int).filter(pred);
                    assert(pred(rows_v[i as int]));
                    assert(rows_v.subrange(0, i + 1 as int).filter(pred) == fl.push(
                        rows_v[i as int],
                    ));
                    assert(ev == spec_expand_row(sv, rows_v[i as int]));
                    assert(expanded_view(out@) =~= expanded_view(out_before).push(ev));
                    assert(spec_expand_all(sv, fl).push(ev) =~= spec_expand_all(
                        sv,
                        fl.push(rows_v[i as int]),
                    ));
                    assert(expanded_view(out@) == spec_expand_all(
                        sv,
                        rows_v.subrange(0, i + 1 as int).filter(pred),
                    ));
                }
            } else {
                proof {
                    reveal_with_fuel(Seq::filter, 2);
                    assert(!pred(rows_v[i as int]));
                    assert(expanded_view(out@) =~= spec_expand_all(
                        sv,
                        rows_v.subrange(0, i + 1 as int).filter(pred),
                    ));
                }
            }
            i += 1;
        }
        proof {
            assert(rows_v.subrange(0, n as int) =~= rows_v);
        }
        out
    }

    /// Join one drink row with its beer and brewery names.
    fn expand_drink(&self, d: &Drink) -> (r: ExpandedDrink)
        ensures
            r@ == spec_expand_row(self@, d@),
    {
        let (name, brewery) = match self.beer_by_id(d.beer_id) {
            Some(be) => {
                let brewery = match self.brewery_by_id(be.brewery_id) {
                    Some(br) => br.name,
                    None => String::new(),
                };
                (be.name, brewery)
            },
            None => (String::new(), String::new()),
        };
        ExpandedDrink {
            id: d.id,
            drank_on: d.drank_on,
            name,
            brewery,
            rating: d.rating,
            comment: match &d.comment {
                Some(c) => Some(c.clone()),
                None => None,
            },
        }
    }
}

/// Sort display rows by the day they were drunk on, ascending: a
/// selection sort, whose output is a permutation of its input.
fn sort_by_drank_on(list: Vec<ExpandedDrink>) -> (r: Vec<ExpandedDrink>)
    ensures
        expanded_view(r@).to_multiset() == expanded_view(list@).to_multiset(),
        forall|a: int, b: int|
            0 <= a < b < r@.len() ==> (#[trigger] r@[a]).drank_on <= (#[trigger] r@[b]).drank_on,
{
    broadcast use vstd::seq_lib::group_to_multiset_ensures, vstd::multiset::group_multiset_axioms;

    let ghost orig = expanded_view(list@);
    let mut input = list;
    let mut out: Vec<ExpandedDrink> = Vec::new();
    proof {
        assert(expanded_view(out@).to_multiset().add(expanded_view(input@).to_multiset())
            =~= orig.to_multiset());
    }
    while input.len() > 0
        invariant
            expanded_view(out@).to_multiset().add(expanded_view(input@).to_multiset())
                == orig.to_multiset(),
            forall|a: int, b: int|
                0 <= a < b < out@.len() ==> (#[trigger] out@[a]).drank_on <= (
                #[trigger] out@[b]).drank_on,
            forall|a: int, k: int|
                0 <= a < out@.len() && 0 <= k < input@.len() ==> (#[trigger] out@[a]).drank_on
                    <= (#[trigger] input@[k]).drank_on,
        decreases input@.len(),
    {
        let mut m: usize = 0;
        let mut k: usize = 1;
        while k < input.len()
            invariant
                m < k <= input@.len(),
                forall|j: int| 0 <= j < k ==> input@[m as int].drank_on <= (
                #[trigger] input@[j]).drank_on,
            decreases input@.len() - k,
        {
            if input[k].drank_on < input[m].drank_on {
                m = k;
            }
            k += 1;
        }
        let ghost in_before = input@;
        let ghost out_before = out@;
        let x = input.remove(m);
        let ghost xv = x@;
        out.push(x);
        proof {
            assert(expanded_view(out@) =~= expanded_view(out_before).push(xv));
            assert(expanded_view(input@) =~= expanded_view(in_before).remove(m as int));
            assert(expanded_view(in_before)[m as int] == in_before[m as int]@);
            assert(xv == in_before[m as int]@);
            assert(expanded_view(in_before).contains(xv));
            vstd::seq_lib::to_multiset_contains(expanded_view(in_before), xv);
            vstd::seq_lib::to_multiset_build(expanded_view(out_before), xv);
            vstd::seq_lib::to_multiset_remove(expanded_view(in_before), m as int);
            assert(expanded_view(in_before).to_multiset().count(xv) > 0);
            assert(expanded_view(out_before).push(xv).to_multiset() == expanded_view(
                out_before,
            ).to_multiset().insert(xv));
            assert(expanded_view(in_before).remove(m as int).to_multiset() == expanded_view(
                in_before,
            ).to_multiset().remove(xv));
            assert(expanded_view(out@).to_multiset().add(expanded_view(input@).to_multiset())
                =~= orig.to_multiset());
        }
    }
    out
}


/// How long a session lives: two weeks, in milliseconds.
pub const SESSION_LIFETIME_MILLIS: i64 = 14 * 24 * 60 * 60 * 1000;

/// When a session created now expires: two weeks later, saturating at
/// the far end of the representable range.
pub open spec fn spec_expiry(now: int) -> int {
    if now + SESSION_LIFETIME_MILLIS > i64::MAX {
        i64::MAX as int
    } else {
        now + SESSION_LIFETIME_MILLIS
    }
}

/// Lookup-or-create of the identity bound to an external identifier: a
/// matching identity is returned as it stands; otherwise a new person
/// and a new identity bound to it are created together.
pub open spec fn spec_lookup_identity(s: StoreV, ident: Seq<char>) -> Option<
    (StoreV, IdentityV),
> {
    match find_first(s.identities, identity_named(ident)) {
        Some(it) => Some((s, it)),
        None => if s.next_id == i32::MAX {
            None
        } else {
            let p = PersonV { id: s.next_id };
            let it = IdentityV { identifier: ident, person_id: s.next_id };
            Some(
                (
                    StoreV {
                        persons: s.persons.push(p),
                        identities: s.identities.push(it),
                        next_id: s.next_id + 1,
                        ..s
                    },
                    it,
                ),
            )
        },
    }
}

/// Lookup of a live session by its token: an expired session is treated
/// as absent.
pub open spec fn spec_get_session(s: StoreV, token: Seq<char>, now: int) -> Option<SessionV> {
    match find_first(s.sessions, session_with_id(token)) {
        None => None,
        Some(sess) => if sess.expires_at <= now {
            None
        } else {
            Some(sess)
        },
    }
}

/// Lookup of the person behind a live session.
pub open spec fn spec_person_by_session(s: StoreV, token: Seq<char>, now: int) -> Option<
    PersonV,
> {
    match spec_get_session(s, token, now) {
        None => None,
        Some(sess) => find_first(s.persons, person_with_id(sess.person_id)),
    }
}

/// Relies on chrono's Utc::now (read as timestamp_millis): the current
/// time, in milliseconds since the Unix epoch.  The result depends on
/// the clock, so nothing is promised of it.
#[verifier::external_body]
pub(crate) fn now_millis() -> i64 {
    chrono::Utc::now().timestamp_millis()
}

/// Relies on textnonce's TextNonce::sized: a fresh 64-character
/// base64-alphabet token drawn from the clock and the system's
/// randomness; it fails only when the clock reads before the Unix epoch.
#[verifier::external_body]
pub(crate) fn fresh_session_token() -> (r: Option<String>)
    ensures
        match r {
            Some(token) => token@.len() == 64,
            None => true,
        },
{
    match textnonce::TextNonce::sized(64) {
        Ok(nonce) => Some(nonce.into_string()),
        Err(_) => None,
    }
}

/// Message for resolving an external identifier to its identity,
/// creating the person and the binding on first sight.
pub struct LookupIdentiy {
    pub identifier: String,
}

impl LookupIdentiy {
    pub fn execute(&self, store: &mut Store) -> (r: AppResult<Identity>)
        ensures
            match r {
                Ok(it) => spec_lookup_identity(old(store)@, self.identifier@) == Some(
                    (final(store)@, it@),
                ),
                Err(e) => {
                    &&& spec_lookup_identity(old(store)@, self.identifier@) is None
                    &&& e == Error::BackingStoreError
                    &&& final(store)@ == old(store)@
                },
            },
    {
        store.lookup_or_create_identity(&self.identifier)
    }
}

/// Message for starting a session for a person.
pub struct StartSession {
    pub person_id: i32,
}

impl StartSession {
    /// Start a session from a token and a creation time the caller
    /// supplies.
    pub fn execute_at(&self, store: &mut Store, token: String, now: i64) -> (r: AppResult<
        Session,
    >)
        ensures
            match r {
                Ok(sess) => {
                    &&& has_person_id(old(store)@.persons, self.person_id as int)
                    &&& sess@ == (SessionV {
                        id: token@,
                        person_id: self.person_id as int,
                        expires_at: spec_expiry(now as int),
                    })
                    &&& final(store)@ == (StoreV {
                        sessions: old(store)@.sessions.push(sess@),
                        ..old(store)@
                    })
                },
                Err(e) => {
                    &&& !has_person_id(old(store)@.persons, self.person_id as int)
                    &&& e == Error::BackingStoreError
                    &&& final(store)@ == old(store)@
                },
            },
    {
        store.insert_session(self.person_id, token, now)
    }

    /// Start a session with a fresh token and the clock's time.  The
    /// token and the time come from outside, so only their shape is
    /// promised; [`StartSession::execute_at`] pins the rest down.
    pub fn execute(&self, store: &mut Store) -> (r: AppResult<Session>)
        ensures
            match r {
                Ok(sess) => {
                    &&& sess@.person_id == self.person_id as int
                    &&& sess@.id.len() == 64
                    &&& final(store)@ == (StoreV {
                        sessions: old(store)@.sessions.push(sess@),
                        ..old(store)@
                    })
                },
                Err(e) => {
                    &&& e == Error::BackingStoreError
                    &&& final(store)@ == old(store)@
                },
            },
    {
        let token = match fresh_session_token() {
            Some(t) => t,
            None => {
                return Err(Error::BackingStoreError);
            },
        };
        let now = now_millis();
        self.execute_at(store, token, now)
    }
}

/// Message for fetching a session by its token.
pub struct GetSession {
    pub session_id: String,
}

impl GetSession {
    /// Fetch the session live at the given time.
    pub fn execute_at(&self, store: &Store, now: i64) -> (r: AppResult<Session>)
        ensures
            match r {
                Ok(sess) => spec_get_session(store@, self.session_id@, now as int) == Some(
                    sess@,
                ),
                Err(e) => {
                    &&& spec_get_session(store@, self.session_id@, now as int) is None
                    &&& e == Error::SessionNotFound
                },
            },
    {
        let sess = match store.session_by_token(&self.session_id) {
            Some(s) => s,
            None => {
                return Err(Error::SessionNotFound);
            },
        };
        if sess.expires_at <= now {
            return Err(Error::SessionNotFound);
        }
        Ok(sess)
    }

    /// Fetch the session live now, by the clock.
    pub fn execute(&self, store: &Store) -> (r: AppResult<Session>)
        ensures
            r is Err ==> r->Err_0 == Error::SessionNotFound,
            find_first(store@.sessions, session_with_id(self.session_id@)) is None ==> r
                is Err,
            r is Ok ==> find_first(store@.sessions, session_with_id(self.session_id@)) == Some(
                r->Ok_0@,
            ),
    {
        self.execute_at(store, now_millis())
    }
}

/// Message for resolving a session token to its logged-in person.
#[derive(Clone)]
pub struct GetLoggedInPerson {
    pub session_id: String,
}

impl GetLoggedInPerson {
    pub fn from_session(session_id: String) -> (r: GetLoggedInPerson)
        ensures
            r.session_id == session_id,
    {
        GetLoggedInPerson { session_id }
    }

    /// Resolve the token against the sessions live at the given time.
    pub fn execute_at(&self, store: &Store, now: i64) -> (r: AppResult<Person>)
        ensures
            match r {
                Ok(p) => spec_person_by_session(store@, self.session_id@, now as int) == Some(
                    p@,
                ),
                Err(e) => {
                    &&& spec_person_by_session(store@, self.session_id@, now as int) is None
                    &&& e == Error::SessionNotFound
                },
            },
    {
        proof {
            use_type_invariant(&*store);
        }
        let msg = GetSession { session_id: self.session_id.clone() };
        let sess = match msg.execute_at(store, now) {
            Ok(s) => s,
            Err(_) => {
                return Err(Error::SessionNotFound);
            },
        };
        match store.person_by_id(sess.person_id) {
            Some(p) => Ok(p),
            None => {
                proof {
                    lemma_find_first_props(
                        store@.sessions,
                        session_with_id(self.session_id@),
                    );
                }
                Err(Error::SessionNotFound)
            },
        }
    }

    /// Resolve the token against the sessions live now, by the clock.
    pub fn execute(&self, store: &Store) -> (r: AppResult<Person>)
        ensures
            r is Err ==> r->Err_0 == Error::SessionNotFound,
            find_first(store@.sessions, session_with_id(self.session_id@)) is None ==> r
                is Err,
            r is Ok ==> exists|t: int|
                spec_person_by_session(store@, self.session_id@, t) == Some(r->Ok_0@),
    {
        let now = now_millis();
        let ghost t = now as int;
        let r = self.execute_at(store, now);
        proof {
            if r is Ok {
                assert(spec_person_by_session(store@, self.session_id@, t) == Some(
                    r->Ok_0@,
                ));
            }
        }
        r
    }
}

impl Store {
    /// Scan the identity table for an exact identifier match.
    fn find_identity(&self, identifier: &String) -> (r: Option<Identity>)
        ensures
            match r {
                Some(it) => find_first(self@.identities, identity_named(identifier@)) == Some(
                    it@,
                ),
                None => find_first(self@.identities, identity_named(identifier@)) is None,
            },
    {
        let key = identifier.clone();
        let ghost p = identity_named(identifier@);
        let ghost rows = self@.identities;
        let n = self.t.identities.len();
        let mut i: usize = 0;
        while i < n
            invariant
                n == self.t.identities@.len(),
                rows == self@.identities,
                p == identity_named(identifier@),
                key@ == identifier@,
                i <= n,
                forall|j: int| 0 <= j < i ==> !p(#[trigger] rows[j]),
            decreases n - i,
        {
            proof {
                assert(rows[i as int] == self.t.identities@[i as int]@);
            }
            if self.t.identities[i].identifier == key {
                proof {
                    assert(p(rows[i as int]));
                    lemma_find_first_at(rows, p, i as int);
                }
                return Some(self.t.identities[i].duplicate());
            }
            proof {
                assert(!p(rows[i as int]));
            }
            i += 1;
        }
        proof {
            lemma_find_first_none(rows, p);
        }
        None
    }

    /// Scan the session table for a token match.
    fn session_by_token(&self, token: &String) -> (r: Option<Session>)
        ensures
            match r {
                Some(sess) => find_first(self@.sessions, session_with_id(token@)) == Some(
                    sess@,
                ),
                None => find_first(self@.sessions, session_with_id(token@)) is None,
            },
    {
        let key = token.clone();
        let ghost p = session_with_id(token@);
        let ghost rows = self@.sessions;
        let n = self.t.sessions.len();
        let mut i: usize = 0;
        while i < n
            invariant
                n == self.t.sessions@.len(),
                rows == self@.sessions,
                p == session_with_id(token@),
                key@ == token@,
                i <= n,
                forall|j: int| 0 <= j < i ==> !p(#[trigger] rows[j]),
            decreases n - i,
        {
            proof {
                assert(rows[i as int] == self.t.sessions@[i as int]@);
            }
            if self.t.sessions[i].id == key {
                proof {
                    assert(p(rows[i as int]));
                    lemma_find_first_at(rows, p, i as int);
                }
                return Some(self.t.sessions[i].duplicate());
            }
            proof {
                assert(!p(rows[i as int]));
            }
            i += 1;
        }
        proof {
            lemma_find_first_none(rows, p);
        }
        None
    }

    /// Look an identifier up; on first sight, create the person and the
    /// identity binding together.
    fn lookup_or_create_identity(&mut self, identifier: &String) -> (r: AppResult<Identity>)
        ensures
            match r {
                Ok(it) => spec_lookup_identity(old(self)@, identifier@) == Some(
                    (final(self)@, it@),
                ),
                Err(e) => {
                    &&& spec_lookup_identity(old(self)@, identifier@) is None
                    &&& e == Error::BackingStoreError
                    &&& final(self)@ == old(self)@
                },
            },
    {
        proof {
            use_type_invariant(&*self);
            lemma_empty_store_wf();
        }
        if let Some(existing) = self.find_identity(identifier) {
            return Ok(existing);
        }
        if self.t.next_id == i32::MAX {
            return Err(Error::BackingStoreError);
        }
        let ghost old_view = self@;
        let mut t = Tables::empty();
        core::mem::swap(&mut self.t, &mut t);
        let person = Person { id: t.next_id };
        let identity = Identity { identifier: identifier.clone(), person_id: t.next_id };
        t.persons.push(Person { id: person.id });
        t.identities.push(identity.duplicate());
        t.next_id = t.next_id + 1;
        proof {
            let nv = StoreV {
                persons: old_view.persons.push(person@),
                identities: old_view.identities.push(identity@),
                next_id: old_view.next_id + 1,
                ..old_view
            };
            assert(tables_view(t) =~~= nv);
            lemma_find_first_props(old_view.identities, identity_named(identifier@));
            assert(nv.persons[old_view.persons.len() as int].id == identity@.person_id);
            assert(has_person_id(nv.persons, identity@.person_id));
            assert forall|i: int| 0 <= i < nv.identities.len() - 1 implies has_person_id(
                nv.persons,
                (#[trigger] nv.identities[i]).person_id,
            ) by {
                assert(nv.identities[i] == old_view.identities[i]);
                let k = choose|k: int|
                    0 <= k < old_view.persons.len() && (#[trigger] old_view.persons[k]).id
                        == old_view.identities[i].person_id;
                assert(nv.persons[k].id == old_view.identities[i].person_id);
            }
            assert forall|i: int| 0 <= i < nv.sessions.len() implies has_person_id(
                nv.persons,
                (#[trigger] nv.sessions[i]).person_id,
            ) by {
                let k = choose|k: int|
                    0 <= k < old_view.persons.len() && (#[trigger] old_view.persons[k]).id
                        == old_view.sessions[i].person_id;
                assert(nv.persons[k].id == old_view.sessions[i].person_id);
            }
            assert forall|i: int| 0 <= i < nv.drinks.len() implies has_person_id(
                nv.persons,
                (#[trigger] nv.drinks[i]).person_id,
            ) by {
                let k = choose|k: int|
                    0 <= k < old_view.persons.len() && (#[trigger] old_view.persons[k]).id
                        == old_view.drinks[i].person_id;
                assert(nv.persons[k].id == old_view.drinks[i].person_id);
            }
            assert(store_wf(tables_view(t)));
        }
        core::mem::swap(&mut self.t, &mut t);
        proof {
            assert(spec_lookup_identity(old_view, identifier@) == Some((self@, identity@)));
        }
        Ok(identity)
    }

    /// Insert a session row for an existing person.
    fn insert_session(&mut self, person_id: i32, token: String, now: i64) -> (r: AppResult<
        Session,
    >)
        ensures
            match r {
                Ok(sess) => {
                    &&& has_person_id(old(self)@.persons, person_id as int)
                    &&& sess@ == (SessionV {
                        id: token@,
                        person_id: person_id as int,
                        expires_at: spec_expiry(now as int),
                    })
                    &&& final(self)@ == (StoreV {
                        sessions: old(self)@.sessions.push(sess@),
                        ..old(self)@
                    })
                },
                Err(e) => {
                    &&& !has_person_id(old(self)@.persons, person_id as int)
                    &&& e == Error::BackingStoreError
                    &&& final(self)@ == old(self)@
                },
            },
    {
        proof {
            use_type_invariant(&*self);
            lemma_empty_store_wf();
        }
        if self.person_by_id(person_id).is_none() {
            return Err(Error::BackingStoreError);
        }
        let expires_at = if now > i64::MAX - SESSION_LIFETIME_MILLIS {
            i64::MAX
        } else {
            now + SESSION_LIFETIME_MILLIS
        };
        let ghost old_view = self@;
        let mut t = Tables::empty();
        core::mem::swap(&mut self.t, &mut t);
        let row = Session { id: token, person_id, expires_at };
        t.sessions.push(row.duplicate());
        proof {
            let nv = StoreV { sessions: old_view.sessions.push(row@), ..old_view };
            assert(tables_view(t) =~~= nv);
            assert(store_wf(tables_view(t)));
        }
        core::mem::swap(&mut self.t, &mut t);
        proof {
            assert(final(self)@ == (StoreV {
                sessions: old_view.sessions.push(row@),
                ..old_view
            }));
        }
        Ok(row)
    }
}


impl Store {
    /// Every brewery row, in store order.
    pub fn breweries_list(&self) -> (r: Vec<Brewery>)
        ensures
            breweries_view(r@) == self@.breweries,
    {
        let n = self.t.breweries.len();
        let mut out: Vec<Brewery> = Vec::new();
        let mut i: usize = 0;
        while i < n
            invariant
                n == self.t.breweries@.len(),
                i <= n,
                out@.len() == i,
                breweries_view(out@) == self@.breweries.subrange(0, i as int),
            decreases n - i,
        {
            out.push(self.t.breweries[i].duplicate());
            proof {
                assert(self@.breweries[i as int] == self.t.breweries@[i as int]@);
                assert(breweries_view(out@) =~~= self@.breweries.subrange(0, i + 1 as int));
            }
            i += 1;
        }
        proof {
            assert(self@.breweries.subrange(0, n as int) =~= self@.breweries);
        }
        out
    }

    /// Every beer row, in store order.
    pub fn beers_list(&self) -> (r: Vec<Beer>)
        ensures
            beers_view(r@) == self@.beers,
    {
        let n = self.t.beers.len();
        let mut out: Vec<Beer> = Vec::new();
        let mut i: usize = 0;
        while i < n
            invariant
                n == self.t.beers@.len(),
                i <= n,
                out@.len() == i,
                beers_view(out@) == self@.beers.subrange(0, i as int),
            decreases n - i,
        {
            out.push(self.t.beers[i].duplicate());
            proof {
                assert(self@.beers[i as int] == self.t.beers@[i as int]@);
                assert(beers_view(out@) =~~= self@.beers.subrange(0, i + 1 as int));
            }
            i += 1;
        }
        proof {
            assert(self@.beers.subrange(0, n as int) =~= self@.beers);
        }
        out
    }
}

} // verus!
