use beerlog::error::Error;
use beerlog::resolver::{submit_drink, DrinkSubmission};
use beerlog::store::{DeleteDrink, GetDrink, GetDrinks, LookupIdentiy, Store};
use chrono::Datelike;

fn day_number(year: i32, month: u32, day: u32) -> i32 {
    chrono::NaiveDate::from_ymd_opt(year, month, day)
        .unwrap()
        .num_days_from_ce()
}

fn person_in(store: &mut Store, identifier: &str) -> i32 {
    let lookup = LookupIdentiy {
        identifier: identifier.to_string(),
    };
    lookup.execute(store).unwrap().person_id
}

fn submission(beer: &str, brewery: &str, drank_on: i32, rating: i16) -> DrinkSubmission {
    DrinkSubmission {
        drank_on,
        beer: beer.to_string(),
        brewery: brewery.to_string(),
        rating,
        comment: None,
    }
}

#[test]
fn first_submission_creates_one_of_each_row() {
    let mut store = Store::new();
    let person = person_in(&mut store, "15551234567");

    let sub = submission("IPA", "Acme", day_number(2024, 1, 1), 5);
    let expanded = submit_drink(&mut store, person, &sub).unwrap();

    assert_eq!(store.brewery_count(), 1);
    assert_eq!(store.beer_count(), 1);
    assert_eq!(store.drink_count(), 1);
    assert_eq!(expanded.name, "IPA");
    assert_eq!(expanded.brewery, "Acme");
    assert_eq!(expanded.rating, 5);
    assert_eq!(expanded.drank_on, day_number(2024, 1, 1));
    assert_eq!(expanded.comment, None);
}

#[test]
fn second_submission_reuses_reference_rows() {
    let mut store = Store::new();
    let person = person_in(&mut store, "15551234567");

    let sub = submission("IPA", "Acme", day_number(2024, 1, 1), 5);
    submit_drink(&mut store, person, &sub).unwrap();
    let again = submission("IPA", "Acme", day_number(2024, 1, 2), 4);
    submit_drink(&mut store, person, &again).unwrap();

    assert_eq!(store.brewery_count(), 1);
    assert_eq!(store.beer_count(), 1);
    assert_eq!(store.drink_count(), 2);
}

#[test]
fn reference_lookup_is_case_insensitive() {
    let mut store = Store::new();
    let person = person_in(&mut store, "15551234567");

    submit_drink(
        &mut store,
        person,
        &submission("IPA", "Acme", day_number(2024, 1, 1), 5),
    )
    .unwrap();
    let expanded = submit_drink(
        &mut store,
        person,
        &submission("ipa", "ACME", day_number(2024, 1, 2), 3),
    )
    .unwrap();

    // The stored spellings win in the read-back.
    assert_eq!(expanded.name, "IPA");
    assert_eq!(expanded.brewery, "Acme");
    assert_eq!(store.brewery_count(), 1);
    assert_eq!(store.beer_count(), 1);
}

#[test]
fn same_beer_name_under_another_brewery_is_a_new_row() {
    let mut store = Store::new();
    let person = person_in(&mut store, "15551234567");

    submit_drink(
        &mut store,
        person,
        &submission("IPA", "Acme", day_number(2024, 1, 1), 5),
    )
    .unwrap();
    submit_drink(
        &mut store,
        person,
        &submission("IPA", "Other", day_number(2024, 1, 2), 4),
    )
    .unwrap();

    assert_eq!(store.brewery_count(), 2);
    assert_eq!(store.beer_count(), 2);
}

#[test]
fn comments_survive_the_round_trip() {
    let mut store = Store::new();
    let person = person_in(&mut store, "15551234567");

    let mut sub = submission("Stout", "Acme", day_number(2024, 2, 2), 4);
    sub.comment = Some("roasty".to_string());
    let expanded = submit_drink(&mut store, person, &sub).unwrap();
    assert_eq!(expanded.comment.as_deref(), Some("roasty"));

    let fetched = GetDrink {
        drink_id: expanded.id,
    }
    .execute(&store)
    .unwrap();
    assert_eq!(fetched.comment.as_deref(), Some("roasty"));
    assert_eq!(fetched.name, "Stout");
    assert_eq!(fetched.brewery, "Acme");
}

#[test]
fn drinks_come_back_ordered_by_day_ascending() {
    let mut store = Store::new();
    let person = person_in(&mut store, "15551234567");
    let other = person_in(&mut store, "15559876543");

    for (beer, day) in [("C", 3), ("A", 1), ("B", 2)] {
        submit_drink(
            &mut store,
            person,
            &submission(beer, "Acme", day_number(2024, 3, day), 3),
        )
        .unwrap();
    }
    submit_drink(
        &mut store,
        other,
        &submission("X", "Acme", day_number(2024, 3, 9), 1),
    )
    .unwrap();

    let drinks = GetDrinks { person_id: person }.execute(&store).unwrap();
    assert_eq!(drinks.len(), 3);
    let names: Vec<&str> = drinks.iter().map(|d| d.name.as_str()).collect();
    assert_eq!(names, vec!["A", "B", "C"]);
    assert!(drinks.windows(2).all(|w| w[0].drank_on <= w[1].drank_on));
}

#[test]
fn missing_drink_lookup_fails() {
    let store = Store::new();
    assert_eq!(
        GetDrink { drink_id: 7 }.execute(&store).unwrap_err(),
        Error::BackingStoreError
    );
}

#[test]
fn deleting_a_foreign_drink_deletes_nothing() {
    let mut store = Store::new();
    let owner = person_in(&mut store, "15551234567");
    let intruder = person_in(&mut store, "15559876543");

    let expanded = submit_drink(
        &mut store,
        owner,
        &submission("IPA", "Acme", day_number(2024, 1, 1), 5),
    )
    .unwrap();

    let foreign = DeleteDrink {
        drink_id: expanded.id,
        person_id: intruder,
    };
    assert_eq!(foreign.execute(&mut store).unwrap(), 0);
    assert_eq!(store.drink_count(), 1);
    assert!(GetDrink {
        drink_id: expanded.id
    }
    .execute(&store)
    .is_ok());

    let owned = DeleteDrink {
        drink_id: expanded.id,
        person_id: owner,
    };
    assert_eq!(owned.execute(&mut store).unwrap(), 1);
    assert_eq!(store.drink_count(), 0);
}
