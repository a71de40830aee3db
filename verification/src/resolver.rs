use vstd::prelude::*;

use crate::error::{AppResult, Error};
use crate::models::{BeerV, BreweryV, ExpandedDrink, ExpandedDrinkV};
use crate::store::{
    beer_with_id, brewery_with_id, drink_with_id, find_first, lemma_find_first_at,
    lemma_find_first_props, spec_create_beer, spec_create_brewery, spec_create_drink,
    spec_get_beer, spec_get_brewery, spec_get_drink, CreateBeer, CreateBrewery,
    CreateDrink, GetBeerByName, GetBreweryByName, GetDrink, Store, StoreV,
};

verus! {

/// A proposed drink submission: the form a client posts, with the names
/// of the beer and its brewery instead of row ids.
pub struct DrinkSubmission {
    pub drank_on: i32,
    pub beer: String,
    pub brewery: String,
    pub rating: i16,
    pub comment: Option<String>,
}

/// The mathematical image of a [`DrinkSubmission`].
#[verifier::ext_equal]
pub struct DrinkSubmissionV {
    pub drank_on: int,
    pub beer: Seq<char>,
    pub brewery: Seq<char>,
    pub rating: int,
    pub comment: Option<Seq<char>>,
}

impl View for DrinkSubmission {
    type V = DrinkSubmissionV;

    open spec fn view(&self) -> DrinkSubmissionV {
        DrinkSubmissionV {
            drank_on: self.drank_on as int,
            beer: self.beer@,
            brewery: self.brewery@,
            rating: self.rating as int,
            comment: self.comment.deep_view(),
        }
    }
}

/// Stage one of the pipeline: the brewery row for a name, created if no
/// case-insensitive match exists.
pub open spec fn spec_resolve_brewery(s: StoreV, name: Seq<char>) -> Option<(StoreV, BreweryV)> {
    match spec_get_brewery(s, name) {
        Some(b) => Some((s, b)),
        None => spec_create_brewery(s, name),
    }
}

/// Stage two of the pipeline: the beer row for a name within the
/// resolved brewery, created if no case-insensitive match exists.
pub open spec fn spec_resolve_beer(s: StoreV, name: Seq<char>, brewery_id: int) -> Option<
    (StoreV, BeerV),
> {
    match spec_get_beer(s, name, brewery_id) {
        Some(b) => Some((s, b)),
        None => spec_create_beer(s, name, brewery_id),
    }
}

/// The whole find-or-create pipeline: resolve the brewery, then the
/// beer within it, then record the drink, then read the joined record
/// back.  The pair is the store afterwards and the response payload;
/// a failed stage aborts the pipeline but keeps what earlier stages
/// created — reference rows are valid data regardless.
pub open spec fn spec_submit(s: StoreV, person_id: int, sub: DrinkSubmissionV) -> (
    StoreV,
    Option<ExpandedDrinkV>,
) {
    match spec_resolve_brewery(s, sub.brewery) {
        None => (s, None),
        Some((s1, br)) => match spec_resolve_beer(s1, sub.beer, br.id) {
            None => (s1, None),
            Some((s2, be)) => match spec_create_drink(
                s2,
                person_id,
                sub.drank_on,
                be.id,
                sub.rating,
                sub.comment,
            ) {
                None => (s2, None),
                Some((s3, d)) => (
                    s3,
                    Some(
                        ExpandedDrinkV {
                            id: d.id,
                            drank_on: d.drank_on,
                            name: be.name,
                            brewery: br.name,
                            rating: d.rating,
                            comment: d.comment,
                        },
                    ),
                ),
            },
        },
    }
}

/// A row found at a known index whose id no other row shares is what a
/// lookup by that id returns.
proof fn lemma_beer_found_by_id(rows: Seq<BeerV>, be: BeerV, i: int)
    requires
        0 <= i < rows.len(),
        rows[i] == be,
        forall|j: int| 0 <= j < rows.len() && j != i ==> (#[trigger] rows[j]).id != be.id,
    ensures
        find_first(rows, beer_with_id(be.id)) == Some(be),
{
    lemma_find_first_at(rows, beer_with_id(be.id), i);
}

proof fn lemma_brewery_found_by_id(rows: Seq<BreweryV>, br: BreweryV, i: int)
    requires
        0 <= i < rows.len(),
        rows[i] == br,
        forall|j: int| 0 <= j < rows.len() && j != i ==> (#[trigger] rows[j]).id != br.id,
    ensures
        find_first(rows, brewery_with_id(br.id)) == Some(br),
{
    lemma_find_first_at(rows, brewery_with_id(br.id), i);
}

/// Record a proposed drink for an authenticated person: ensure the
/// brewery and beer reference rows exist (creating them if absent),
/// insert the drink, and read the joined record back for the response.
///
/// The stages are strictly ordered, and a failure aborts the pipeline
/// without rolling back reference rows created by earlier stages.
pub fn submit_drink(store: &mut Store, person_id: i32, submission: &DrinkSubmission) -> (r:
    AppResult<ExpandedDrink>)
    ensures
        ({
            let (after, payload) = spec_submit(old(store)@, person_id as int, submission@);
            &&& final(store)@ == after
            &&& match r {
                Ok(ed) => payload == Some(ed@),
                Err(e) => payload is None && e == Error::BackingStoreError,
            }
        }),
{
    let ghost s0 = store@;
    // Stage one: find or create the brewery.
    let get_brewery = GetBreweryByName { name: submission.brewery.clone() };
    let brewery = match get_brewery.execute(store) {
        Ok(Some(b)) => b,
        Ok(None) => {
            let create_brewery = CreateBrewery { name: submission.brewery.clone() };
            match create_brewery.execute(store) {
                Ok(b) => b,
                Err(_) => {
                    return Err(Error::BackingStoreError);
                },
            }
        },
        Err(_) => {
            return Err(Error::BackingStoreError);
        },
    };
    let ghost s1 = store@;
    let ghost brv = brewery@;
    proof {
        assert(spec_resolve_brewery(s0, submission@.brewery) == Some((s1, brv)));
    }
    // Stage two: find or create the beer within that brewery.
    let get_beer = GetBeerByName { name: submission.beer.clone(), brewery_id: brewery.id };
    let beer = match get_beer.execute(store) {
        Ok(Some(b)) => b,
        Ok(None) => {
            let create_beer = CreateBeer {
                name: submission.beer.clone(),
                brewery_id: brewery.id,
            };
            match create_beer.execute(store) {
                Ok(b) => b,
                Err(_) => {
                    return Err(Error::BackingStoreError);
                },
            }
        },
        Err(_) => {
            return Err(Error::BackingStoreError);
        },
    };
    let ghost s2 = store@;
    let ghost bev = beer@;
    proof {
        assert(spec_resolve_beer(s1, submission@.beer, brv.id) == Some((s2, bev)));
    }
    // Stage three: record the drink itself.
    let create_drink = CreateDrink {
        person_id,
        drank_on: submission.drank_on,
        beer_id: beer.id,
        rating: submission.rating,
        comment: match &submission.comment {
            Some(c) => Some(c.clone()),
            None => None,
        },
    };
    let drink = match create_drink.execute(store) {
        Ok(d) => d,
        Err(_) => {
            return Err(Error::BackingStoreError);
        },
    };
    let ghost s3 = store@;
    let ghost dv = drink@;
    // Stage four: read the joined record back for the response payload.
    proof {
        use_type_invariant(&*store);
        let expected = ExpandedDrinkV {
            id: dv.id,
            drank_on: dv.drank_on,
            name: bev.name,
            brewery: brv.name,
            rating: dv.rating,
            comment: dv.comment,
        };
        // The drink is the last row and carries a fresh id.
        assert(s3.drinks == s2.drinks.push(dv));
        let dlast = s3.drinks.len() - 1;
        assert(s3.drinks[dlast] == dv);
        assert forall|j: int| 0 <= j < s3.drinks.len() && j != dlast implies (
        #[trigger] s3.drinks[j]).id != dv.id by {
            assert(s3.drinks[j].id != s3.drinks[dlast].id);
        }
        lemma_find_first_at(s3.drinks, drink_with_id(dv.id), dlast);
        // The beer the drink references is found by its id.
        let bi: int;
        if spec_get_beer(s1, submission@.beer, brv.id) is Some {
            lemma_find_first_props(
                s2.beers,
                crate::store::beer_named(
                    crate::chars::lower_of(submission@.beer),
                    brv.id,
                ),
            );
            bi = choose|k: int| 0 <= k < s2.beers.len() && s2.beers[k] == bev;
        } else {
            assert(s2.beers == s1.beers.push(bev));
            bi = s3.beers.len() - 1;
        }
        assert(s3.beers[bi] == bev);
        assert forall|j: int| 0 <= j < s3.beers.len() && j != bi implies (
        #[trigger] s3.beers[j]).id != bev.id by {
            if j < bi {
                assert(s3.beers[j].id != s3.beers[bi].id);
            } else {
                assert(s3.beers[bi].id != s3.beers[j].id);
            }
        }
        lemma_beer_found_by_id(s3.beers, bev, bi);
        // The brewery the beer references is found by its id.
        let ki: int;
        if spec_get_brewery(s0, submission@.brewery) is Some {
            lemma_find_first_props(
                s0.breweries,
                crate::store::brewery_named(crate::chars::lower_of(submission@.brewery)),
            );
            ki = choose|k: int| 0 <= k < s0.breweries.len() && s0.breweries[k] == brv;
        } else {
            assert(s1.breweries == s0.breweries.push(brv));
            ki = s3.breweries.len() - 1;
        }
        assert(s3.breweries[ki] == brv);
        assert forall|j: int| 0 <= j < s3.breweries.len() && j != ki implies (
        #[trigger] s3.breweries[j]).id != brv.id by {
            if j < ki {
                assert(s3.breweries[j].id != s3.breweries[ki].id);
            } else {
                assert(s3.breweries[ki].id != s3.breweries[j].id);
            }
        }
        lemma_brewery_found_by_id(s3.breweries, brv, ki);
        assert(spec_get_drink(s3, dv.id) == Some(expected));
    }
    let get_drink = GetDrink { drink_id: drink.id };
    match get_drink.execute(store) {
        Ok(ed) => Ok(ed),
        Err(_) => {
            // The read-back cannot fail: the store invariant guarantees
            // the drink just inserted joins to its beer and brewery.
            proof {
                assert(false);
            }
            Err(Error::BackingStoreError)
        },
    }
}

} // verus!
