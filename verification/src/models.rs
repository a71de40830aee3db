use vstd::prelude::*;

verus! {

/// A brewery reference row: its name is unique case-insensitively.
#[derive(Clone, Debug)]
pub struct Brewery {
    pub id: i32,
    pub name: String,
}

/// The mathematical image of a [`Brewery`].
#[verifier::ext_equal]
pub struct BreweryV {
    pub id: int,
    pub name: Seq<char>,
}

impl View for Brewery {
    type V = BreweryV;

    open spec fn view(&self) -> BreweryV {
        BreweryV { id: self.id as int, name: self.name@ }
    }
}


impl Brewery {
    /// A field-for-field copy, with its view pinned down.
    pub fn duplicate(&self) -> (r: Brewery)
        ensures
            r@ == self@,
    {
        Brewery { id: self.id, name: self.name.clone() }
    }
}

/// A beer reference row: its name is unique case-insensitively within
/// its brewery.
#[derive(Clone, Debug)]
pub struct Beer {
    pub id: i32,
    pub name: String,
    pub brewery_id: i32,
}

/// The mathematical image of a [`Beer`].
#[verifier::ext_equal]
pub struct BeerV {
    pub id: int,
    pub name: Seq<char>,
    pub brewery_id: int,
}

impl View for Beer {
    type V = BeerV;

    open spec fn view(&self) -> BeerV {
        BeerV { id: self.id as int, name: self.name@, brewery_id: self.brewery_id as int }
    }
}


impl Beer {
    /// A field-for-field copy, with its view pinned down.
    pub fn duplicate(&self) -> (r: Beer)
        ensures
            r@ == self@,
    {
        Beer { id: self.id, name: self.name.clone(), brewery_id: self.brewery_id }
    }
}

/// A recorded drink, owned by the person who created it.  The date it
/// was drunk on is held as a day number so that drinks can be ordered.
#[derive(Clone, Debug)]
pub struct Drink {
    pub id: i32,
    pub person_id: i32,
    pub drank_on: i32,
    pub beer_id: i32,
    pub rating: i16,
    pub comment: Option<String>,
}

/// The mathematical image of a [`Drink`].
#[verifier::ext_equal]
pub struct DrinkV {
    pub id: int,
    pub person_id: int,
    pub drank_on: int,
    pub beer_id: int,
    pub rating: int,
    pub comment: Option<Seq<char>>,
}

impl View for Drink {
    type V = DrinkV;

    open spec fn view(&self) -> DrinkV {
        DrinkV {
            id: self.id as int,
            person_id: self.person_id as int,
            drank_on: self.drank_on as int,
            beer_id: self.beer_id as int,
            rating: self.rating as int,
            comment: self.comment.deep_view(),
        }
    }
}


impl Drink {
    /// A field-for-field copy, with its view pinned down.
    pub fn duplicate(&self) -> (r: Drink)
        ensures
            r@ == self@,
    {
        Drink {
            id: self.id,
            person_id: self.person_id,
            drank_on: self.drank_on,
            beer_id: self.beer_id,
            rating: self.rating,
            comment: match &self.comment {
                Some(c) => Some(c.clone()),
                None => None,
            },
        }
    }
}

/// A person: created implicitly the first time an unseen identifier
/// logs in, and never any other way.
#[derive(Clone, Debug)]
pub struct Person {
    pub id: i32,
}

/// The mathematical image of a [`Person`].
#[verifier::ext_equal]
pub struct PersonV {
    pub id: int,
}

impl View for Person {
    type V = PersonV;

    open spec fn view(&self) -> PersonV {
        PersonV { id: self.id as int }
    }
}

/// An identity: the unique binding of an external identifier (a phone
/// number) to a person.
#[derive(Clone, Debug)]
pub struct Identity {
    pub identifier: String,
    pub person_id: i32,
}

/// The mathematical image of an [`Identity`].
#[verifier::ext_equal]
pub struct IdentityV {
    pub identifier: Seq<char>,
    pub person_id: int,
}

impl View for Identity {
    type V = IdentityV;

    open spec fn view(&self) -> IdentityV {
        IdentityV { identifier: self.identifier@, person_id: self.person_id as int }
    }
}


impl Identity {
    /// A field-for-field copy, with its view pinned down.
    pub fn duplicate(&self) -> (r: Identity)
        ensures
            r@ == self@,
    {
        Identity { identifier: self.identifier.clone(), person_id: self.person_id }
    }
}

/// A login session: a bearer token bound to a person, valid until it
/// expires.  Times are milliseconds since the epoch.
#[derive(Clone, Debug)]
pub struct Session {
    pub id: String,
    pub person_id: i32,
    pub expires_at: i64,
}

/// The mathematical image of a [`Session`].
#[verifier::ext_equal]
pub struct SessionV {
    pub id: Seq<char>,
    pub person_id: int,
    pub expires_at: int,
}

impl View for Session {
    type V = SessionV;

    open spec fn view(&self) -> SessionV {
        SessionV {
            id: self.id@,
            person_id: self.person_id as int,
            expires_at: self.expires_at as int,
        }
    }
}


impl Session {
    /// A field-for-field copy, with its view pinned down.
    pub fn duplicate(&self) -> (r: Session)
        ensures
            r@ == self@,
    {
        Session {
            id: self.id.clone(),
            person_id: self.person_id,
            expires_at: self.expires_at,
        }
    }
}

/// A drink joined with its beer and brewery names for display.
#[derive(Clone, Debug)]
pub struct ExpandedDrink {
    pub id: i32,
    pub drank_on: i32,
    pub name: String,
    pub brewery: String,
    pub rating: i16,
    pub comment: Option<String>,
}


impl ExpandedDrink {
    /// A field-for-field copy, with its view pinned down.
    pub fn duplicate(&self) -> (r: ExpandedDrink)
        ensures
            r@ == self@,
    {
        ExpandedDrink {
            id: self.id,
            drank_on: self.drank_on,
            name: self.name.clone(),
            brewery: self.brewery.clone(),
            rating: self.rating,
            comment: match &self.comment {
                Some(c) => Some(c.clone()),
                None => None,
            },
        }
    }
}

/// The mathematical image of an [`ExpandedDrink`].
#[verifier::ext_equal]
pub struct ExpandedDrinkV {
    pub id: int,
    pub drank_on: int,
    pub name: Seq<char>,
    pub brewery: Seq<char>,
    pub rating: int,
    pub comment: Option<Seq<char>>,
}

impl View for ExpandedDrink {
    type V = ExpandedDrinkV;

    open spec fn view(&self) -> ExpandedDrinkV {
        ExpandedDrinkV {
            id: self.id as int,
            drank_on: self.drank_on as int,
            name: self.name@,
            brewery: self.brewery@,
            rating: self.rating as int,
            comment: self.comment.deep_view(),
        }
    }
}

} // verus!
