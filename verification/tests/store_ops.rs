use beerlog::error::Error;
use beerlog::store::{
    CreateBeer, CreateBrewery, CreateDrink, GetBeerByName, GetBreweryByName, GetSession,
    LookupIdentiy, StartSession, Store,
};

#[test]
fn brewery_lookup_matches_case_insensitively() {
    let mut store = Store::new();
    let created = CreateBrewery {
        name: "Sierra Nevada".to_string(),
    }
    .execute(&mut store)
    .unwrap();

    let found = GetBreweryByName {
        name: "sierra nevada".to_string(),
    }
    .execute(&store)
    .unwrap()
    .expect("lookup should match case-insensitively");
    assert_eq!(found.id, created.id);
    assert_eq!(found.name, "Sierra Nevada");

    assert!(GetBreweryByName {
        name: "unknown".to_string()
    }
    .execute(&store)
    .unwrap()
    .is_none());
}

#[test]
fn duplicate_brewery_name_violates_the_constraint() {
    let mut store = Store::new();
    CreateBrewery {
        name: "Acme".to_string(),
    }
    .execute(&mut store)
    .unwrap();
    assert_eq!(
        CreateBrewery {
            name: "ACME".to_string()
        }
        .execute(&mut store)
        .unwrap_err(),
        Error::BackingStoreError
    );
    assert_eq!(store.brewery_count(), 1);
}

#[test]
fn beer_names_are_scoped_to_their_brewery() {
    let mut store = Store::new();
    let acme = CreateBrewery {
        name: "Acme".to_string(),
    }
    .execute(&mut store)
    .unwrap();
    let other = CreateBrewery {
        name: "Other".to_string(),
    }
    .execute(&mut store)
    .unwrap();

    CreateBeer {
        name: "IPA".to_string(),
        brewery_id: acme.id,
    }
    .execute(&mut store)
    .unwrap();

    // The same name under another brewery is fine…
    CreateBeer {
        name: "IPA".to_string(),
        brewery_id: other.id,
    }
    .execute(&mut store)
    .unwrap();
    // …but a duplicate within the brewery is refused.
    assert_eq!(
        CreateBeer {
            name: "ipa".to_string(),
            brewery_id: acme.id,
        }
        .execute(&mut store)
        .unwrap_err(),
        Error::BackingStoreError
    );

    let found = GetBeerByName {
        name: "ipa".to_string(),
        brewery_id: acme.id,
    }
    .execute(&store)
    .unwrap()
    .expect("beer should be found within its brewery");
    assert_eq!(found.brewery_id, acme.id);
}

#[test]
fn beer_needs_an_existing_brewery() {
    let mut store = Store::new();
    assert_eq!(
        CreateBeer {
            name: "IPA".to_string(),
            brewery_id: 99,
        }
        .execute(&mut store)
        .unwrap_err(),
        Error::BackingStoreError
    );
    assert_eq!(store.beer_count(), 0);
}

#[test]
fn drink_needs_existing_beer_and_person() {
    let mut store = Store::new();
    let brewery = CreateBrewery {
        name: "Acme".to_string(),
    }
    .execute(&mut store)
    .unwrap();
    let beer = CreateBeer {
        name: "IPA".to_string(),
        brewery_id: brewery.id,
    }
    .execute(&mut store)
    .unwrap();

    // No such person yet.
    assert_eq!(
        CreateDrink {
            person_id: 123,
            drank_on: 0,
            beer_id: beer.id,
            rating: 3,
            comment: None,
        }
        .execute(&mut store)
        .unwrap_err(),
        Error::BackingStoreError
    );

    let identity = LookupIdentiy {
        identifier: "15551234567".to_string(),
    }
    .execute(&mut store)
    .unwrap();

    // No such beer.
    assert_eq!(
        CreateDrink {
            person_id: identity.person_id,
            drank_on: 0,
            beer_id: 12345,
            rating: 3,
            comment: None,
        }
        .execute(&mut store)
        .unwrap_err(),
        Error::BackingStoreError
    );

    let drink = CreateDrink {
        person_id: identity.person_id,
        drank_on: 0,
        beer_id: beer.id,
        rating: 3,
        comment: Some("fine".to_string()),
    }
    .execute(&mut store)
    .unwrap();
    assert_eq!(drink.person_id, identity.person_id);
    assert_eq!(drink.comment.as_deref(), Some("fine"));
    assert_eq!(store.drink_count(), 1);
}

#[test]
fn identity_lookup_creates_person_once() {
    let mut store = Store::new();
    let first = LookupIdentiy {
        identifier: "15551234567".to_string(),
    }
    .execute(&mut store)
    .unwrap();
    assert_eq!(store.person_count(), 1);
    assert_eq!(store.identity_count(), 1);

    let second = LookupIdentiy {
        identifier: "15551234567".to_string(),
    }
    .execute(&mut store)
    .unwrap();
    assert_eq!(store.person_count(), 1);
    assert_eq!(store.identity_count(), 1);
    assert_eq!(second.person_id, first.person_id);

    // A different identifier gets its own person.
    LookupIdentiy {
        identifier: "15550000000".to_string(),
    }
    .execute(&mut store)
    .unwrap();
    assert_eq!(store.person_count(), 2);
    assert_eq!(store.identity_count(), 2);
}

#[test]
fn sessions_are_found_live_and_only_live() {
    let mut store = Store::new();
    let identity = LookupIdentiy {
        identifier: "15551234567".to_string(),
    }
    .execute(&mut store)
    .unwrap();
    let session = StartSession {
        person_id: identity.person_id,
    }
    .execute_at(&mut store, "the-token".to_string(), 500)
    .unwrap();

    let get = GetSession {
        session_id: "the-token".to_string(),
    };
    let live = get.execute_at(&store, 600).unwrap();
    assert_eq!(live.person_id, identity.person_id);

    assert_eq!(
        get.execute_at(&store, session.expires_at).unwrap_err(),
        Error::SessionNotFound
    );
    assert_eq!(
        GetSession {
            session_id: "other".to_string()
        }
        .execute_at(&store, 600)
        .unwrap_err(),
        Error::SessionNotFound
    );
}

#[test]
fn fresh_session_tokens_are_long_and_distinct() {
    let mut store = Store::new();
    let identity = LookupIdentiy {
        identifier: "15551234567".to_string(),
    }
    .execute(&mut store)
    .unwrap();
    let start = StartSession {
        person_id: identity.person_id,
    };
    let a = start.execute(&mut store).unwrap();
    let b = start.execute(&mut store).unwrap();
    assert_eq!(a.id.len(), 64);
    assert_eq!(b.id.len(), 64);
    assert_ne!(a.id, b.id);
    assert_eq!(store.session_count(), 2);
}

#[test]
fn clock_based_session_flow_round_trips() {
    let mut store = Store::new();
    let identity = LookupIdentiy {
        identifier: "15551234567".to_string(),
    }
    .execute(&mut store)
    .unwrap();
    let session = StartSession {
        person_id: identity.person_id,
    }
    .execute(&mut store)
    .unwrap();

    // A session created against the real clock is live right away.
    let fetched = GetSession {
        session_id: session.id.clone(),
    }
    .execute(&store)
    .unwrap();
    assert_eq!(fetched.person_id, identity.person_id);
    assert_eq!(fetched.id, session.id);
}
