use vstd::prelude::*;

use crate::chars::lower_of;
use crate::models::{DrinkV, ExpandedDrinkV, IdentityV};
use crate::resolver::{spec_resolve_beer, spec_resolve_brewery, spec_submit, DrinkSubmissionV};
use crate::store::{
    beer_named, brewery_named, drink_owned_by, find_first, identity_named,
    lemma_find_first_none, lemma_find_first_push, session_with_id, spec_delete_drink,
    spec_get_beer, spec_get_brewery, spec_lookup_identity, spec_person_by_session, store_wf,
    StoreV,
};

verus! {

/// A filter that keeps every element changes nothing.
proof fn lemma_filter_retains_all<T>(rows: Seq<T>, pred: spec_fn(T) -> bool)
    requires
        forall|i: int| 0 <= i < rows.len() ==> pred(#[trigger] rows[i]),
    ensures
        rows.filter(pred) == rows,
    decreases rows.len(),
{
    reveal_with_fuel(Seq::filter, 2);
    if rows.len() > 0 {
        assert(forall|i: int|
            0 <= i < rows.drop_last().len() ==> pred(#[trigger] rows.drop_last()[i]));
        lemma_filter_retains_all(rows.drop_last(), pred);
        assert(rows.drop_last().push(rows.last()) =~= rows);
    }
}

/// Submitting the same `{beer, brewery}` pair again reuses the existing
/// reference rows: a second run of the pipeline, by any person, creates
/// no brewery row and no beer row.
pub proof fn lemma_submit_reuses_references(
    s0: StoreV,
    first_person: int,
    second_person: int,
    sub: DrinkSubmissionV,
    s1: StoreV,
    payload: ExpandedDrinkV,
)
    requires
        spec_submit(s0, first_person, sub) == (s1, Some(payload)),
    ensures
        spec_submit(s1, second_person, sub).0.breweries == s1.breweries,
        spec_submit(s1, second_person, sub).0.beers == s1.beers,
{
    let p_br = brewery_named(lower_of(sub.brewery));
    let (s_a, br) = spec_resolve_brewery(s0, sub.brewery)->0;
    // After stage one the brewery row matching the name is present.
    if spec_get_brewery(s0, sub.brewery) is Some {
        assert(find_first(s_a.breweries, p_br) == Some(br));
    } else {
        assert(br.name == sub.brewery);
        assert(p_br(br));
        lemma_find_first_push(s0.breweries, p_br, br);
        assert(find_first(s_a.breweries, p_br) == Some(br));
    }
    let p_be = beer_named(lower_of(sub.beer), br.id);
    let (s_b, be) = spec_resolve_beer(s_a, sub.beer, br.id)->0;
    assert(s_b.breweries == s_a.breweries);
    // After stage two the beer row matching the pair is present.
    if spec_get_beer(s_a, sub.beer, br.id) is Some {
        assert(find_first(s_b.beers, p_be) == Some(be));
    } else {
        assert(be.name == sub.beer && be.brewery_id == br.id);
        assert(p_be(be));
        lemma_find_first_push(s_a.beers, p_be, be);
        assert(find_first(s_b.beers, p_be) == Some(be));
    }
    // Stage three touches only the drinks, so both rows survive to the
    // store the first submission leaves behind.
    assert(s1.breweries == s_a.breweries);
    assert(s1.beers == s_b.beers);
    // The second submission therefore finds both rows and creates
    // neither.
    assert(spec_get_brewery(s1, sub.brewery) == Some(br));
    assert(spec_resolve_brewery(s1, sub.brewery) == Some((s1, br)));
    assert(spec_get_beer(s1, sub.beer, br.id) == Some(be));
    assert(spec_resolve_beer(s1, sub.beer, br.id) == Some((s1, be)));
}

/// Deleting a drink someone else owns deletes nothing: the store is
/// unchanged and zero rows are reported gone, which the handler maps to
/// "not found" — even though a drink with that id exists.
pub proof fn lemma_delete_requires_ownership(
    s: StoreV,
    drink_id: int,
    owner: int,
    caller: int,
)
    requires
        store_wf(s),
        exists|i: int|
            0 <= i < s.drinks.len() && (#[trigger] s.drinks[i]).id == drink_id
                && s.drinks[i].person_id == owner,
        owner != caller,
    ensures
        spec_delete_drink(s, drink_id, caller) == (s, 0int),
{
    let keep = |d: DrinkV| !drink_owned_by(drink_id, caller)(d);
    let oi = choose|i: int|
        0 <= i < s.drinks.len() && (#[trigger] s.drinks[i]).id == drink_id
            && s.drinks[i].person_id == owner;
    assert forall|i: int| 0 <= i < s.drinks.len() implies keep(#[trigger] s.drinks[i]) by {
        if i != oi {
            if i < oi {
                assert(s.drinks[i].id != s.drinks[oi].id);
            } else {
                assert(s.drinks[oi].id != s.drinks[i].id);
            }
        }
    }
    lemma_filter_retains_all(s.drinks, keep);
    assert(spec_delete_drink(s, drink_id, caller).0 =~~= s);
}

/// A session lookup with a token no session carries fails — whatever
/// the clock says — and, being a pure read of the store, creates
/// nothing.
pub proof fn lemma_unknown_session_rejected(s: StoreV, token: Seq<char>, now: int)
    requires
        forall|i: int| 0 <= i < s.sessions.len() ==> (#[trigger] s.sessions[i]).id != token,
    ensures
        spec_person_by_session(s, token, now) is None,
{
    let p = session_with_id(token);
    assert forall|i: int| 0 <= i < s.sessions.len() implies !p(#[trigger] s.sessions[i]) by {}
    lemma_find_first_none(s.sessions, p);
}

/// An identity is created at most once per identifier: looking the same
/// identifier up again finds the binding the first lookup made and
/// creates no further person or identity row.
pub proof fn lemma_identity_created_once(
    s0: StoreV,
    ident: Seq<char>,
    s1: StoreV,
    it: IdentityV,
)
    requires
        spec_lookup_identity(s0, ident) == Some((s1, it)),
    ensures
        spec_lookup_identity(s1, ident) == Some((s1, it)),
{
    let p = identity_named(ident);
    if find_first(s0.identities, p) is Some {
    } else {
        assert(it.identifier == ident);
        assert(p(it));
        lemma_find_first_push(s0.identities, p, it);
    }
}

} // verus!
