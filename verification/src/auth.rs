use vstd::prelude::*;
use vstd::string::StringExecFns;

use crate::chars::push_char;
use crate::error::{AppResult, Error, ProviderFailure};
use crate::models::{Person, Session};
use crate::phone::{phone_shape, spec_phone_shape};
use crate::response::{Reply, ResponseStatus};
use crate::store::{
    find_first, session_with_id, spec_lookup_identity, spec_person_by_session, GetLoggedInPerson,
    LookupIdentiy, StartSession, Store, StoreV,
};

verus! {

/// The decision `begin_auth` takes before any provider work: either the
/// submitted identity looks like a phone number and a verification code
/// should be sent to it, or the request is rejected.
#[derive(Debug)]
pub enum BeginAuth {
    SendCode { country_code: u16, phone_number: String },
    Reject(Reply),
}

/// Decide whether a verification code should be sent: the identity must
/// look like a phone number; for every other string the request is
/// rejected without the provider ever being called.
pub fn begin_auth(country_code: u16, phone_number: &str) -> (r: BeginAuth)
    ensures
        spec_phone_shape(phone_number@) ==> (r matches BeginAuth::SendCode {
            country_code: cc,
            phone_number: p,
        } && cc == country_code && p@ == phone_number@),
        !spec_phone_shape(phone_number@) ==> (r matches BeginAuth::Reject(rej)
            && rej.http_status == 400 && rej.status == ResponseStatus::Fail && rej.message@
            == "Invalid phone number"@),
{
    if phone_shape(phone_number) {
        BeginAuth::SendCode { country_code, phone_number: phone_number.to_owned() }
    } else {
        BeginAuth::Reject(
            Reply {
                http_status: 400,
                status: ResponseStatus::Fail,
                message: "Invalid phone number".to_owned(),
            },
        )
    }
}

/// Shape the response to `begin_auth` from the provider's outcome: the
/// provider's own status message on success, a rejection otherwise.
pub fn begin_auth_provider_reply(outcome: AppResult<String>) -> (r: Reply)
    ensures
        outcome matches Ok(msg) ==> r.http_status == 200 && r.status == ResponseStatus::Success
            && r.message == msg,
        outcome is Err ==> r.http_status == 400 && r.status == ResponseStatus::Error
            && r.message@ == "That phone number didn't work :("@,
{
    match outcome {
        Ok(message) => Reply { http_status: 200, status: ResponseStatus::Success, message },
        Err(_) => Reply {
            http_status: 400,
            status: ResponseStatus::Error,
            message: "That phone number didn't work :(".to_owned(),
        },
    }
}

/// The provider call `complete_auth` asks for once its request is
/// validated.
#[derive(Debug)]
pub struct CodeCheck {
    pub country_code: u16,
    pub phone_number: String,
    pub code: String,
}

/// Validate a verification request: a code must have been submitted and
/// the identity must look like a phone number; only then is the
/// provider asked to check the code.
pub fn complete_auth_request(country_code: u16, phone_number: &str, code: Option<&String>) -> (r:
    Result<CodeCheck, Reply>)
    ensures
        code is None ==> (r matches Err(rej) && rej.http_status == 400 && rej.status
            == ResponseStatus::Fail && rej.message@ == "Missing verification code!"@),
        code is Some && !spec_phone_shape(phone_number@) ==> (r matches Err(rej)
            && rej.http_status == 400 && rej.status == ResponseStatus::Fail && rej.message@
            == "Invalid phone number!"@),
        code matches Some(c) ==> spec_phone_shape(phone_number@) ==> (r matches Ok(chk)
            && chk.country_code == country_code && chk.phone_number@ == phone_number@
            && chk.code@ == c@),
{
    let submitted = match code {
        Some(c) => c,
        None => {
            return Err(
                Reply {
                    http_status: 400,
                    status: ResponseStatus::Fail,
                    message: "Missing verification code!".to_owned(),
                },
            );
        },
    };
    if !phone_shape(phone_number) {
        return Err(
            Reply {
                http_status: 400,
                status: ResponseStatus::Fail,
                message: "Invalid phone number!".to_owned(),
            },
        );
    }
    Ok(
        CodeCheck {
            country_code,
            phone_number: phone_number.to_owned(),
            code: submitted.clone(),
        },
    )
}

/// Map the provider's answer to the code check onto the response: a
/// confirmed code proceeds; a denied or unverifiable code is forbidden;
/// transport-level failures and canceled worker tasks are internal
/// errors.
pub fn code_check_reply(outcome: &AppResult<bool>) -> (r: Result<(), Reply>)
    ensures
        outcome == Ok::<bool, Error>(true) ==> r is Ok,
        outcome == Ok::<bool, Error>(false) ==> (r matches Err(rej) && rej.http_status == 403
            && rej.status == ResponseStatus::Fail && rej.message@
            == "Invalid verification code"@),
        outcome == Err::<bool, Error>(Error::ExternalProviderError(ProviderFailure::Transport))
            ==> (r matches Err(rej) && rej.http_status == 500 && rej.status
            == ResponseStatus::Error && rej.message@ == "Internal server error"@),
        outcome == Err::<bool, Error>(
            Error::ExternalProviderError(ProviderFailure::UnauthorizedKey),
        ) ==> (r matches Err(rej) && rej.http_status == 403 && rej.status
            == ResponseStatus::Fail && rej.message@ == "Invalid verification code"@),
        outcome == Err::<bool, Error>(Error::ExternalProviderError(ProviderFailure::Other))
            ==> (r matches Err(rej) && rej.http_status == 403 && rej.status
            == ResponseStatus::Fail && rej.message@ == "Unable to verify the code"@),
        (outcome matches Err(e) && !(e matches Error::ExternalProviderError(_))) ==> (r
            matches Err(rej) && rej.http_status == 500 && rej.status == ResponseStatus::Error
            && rej.message@ == "Internal server error"@),
{
    match outcome {
        Ok(true) => Ok(()),
        Ok(false) => Err(
            Reply {
                http_status: 403,
                status: ResponseStatus::Fail,
                message: "Invalid verification code".to_owned(),
            },
        ),
        Err(Error::ExternalProviderError(ProviderFailure::Transport)) => Err(
            Reply {
                http_status: 500,
                status: ResponseStatus::Error,
                message: "Internal server error".to_owned(),
            },
        ),
        Err(Error::ExternalProviderError(ProviderFailure::UnauthorizedKey)) => Err(
            Reply {
                http_status: 403,
                status: ResponseStatus::Fail,
                message: "Invalid verification code".to_owned(),
            },
        ),
        Err(Error::ExternalProviderError(ProviderFailure::Other)) => Err(
            Reply {
                http_status: 403,
                status: ResponseStatus::Fail,
                message: "Unable to verify the code".to_owned(),
            },
        ),
        Err(_) => Err(
            Reply {
                http_status: 500,
                status: ResponseStatus::Error,
                message: "Internal server error".to_owned(),
            },
        ),
    }
}

/// The decimal digit character for a value below ten.
pub open spec fn digit_char_of(d: int) -> char {
    ((48 + d) as u8) as char
}

/// The decimal rendering of a non-negative number, most significant
/// digit first.
pub open spec fn spec_decimal(n: int) -> Seq<char>
    decreases n,
{
    if n < 10 {
        seq![digit_char_of(n)]
    } else {
        spec_decimal(n / 10).push(digit_char_of(n % 10))
    }
}

/// Append the decimal rendering of `n` to the string.
fn push_decimal(out: &mut String, n: u16)
    ensures
        final(out)@ == old(out)@ + spec_decimal(n as int),
    decreases n,
{
    if n < 10 {
        push_char(out, (48 + (n as u8)) as char);
        proof {
            assert(final(out)@ =~= old(out)@ + spec_decimal(n as int));
        }
    } else {
        proof {
            assert(n / 10 < n) by (nonlinear_arith)
                requires
                    n >= 10,
            ;
        }
        push_decimal(out, n / 10);
        push_char(out, (48 + ((n % 10) as u8)) as char);
        proof {
            assert(final(out)@ =~= old(out)@ + spec_decimal(n as int));
        }
    }
}

/// The external identifier an authenticated phone number is stored
/// under: the country code in decimal, then the phone number as
/// submitted.
pub fn identity_identifier(country_code: u16, phone_number: &str) -> (r: String)
    ensures
        r@ == spec_decimal(country_code as int) + phone_number@,
{
    let mut s = String::new();
    push_decimal(&mut s, country_code);
    s.append(phone_number);
    proof {
        assert(s@ =~= Seq::<char>::empty() + spec_decimal(country_code as int)
            + phone_number@);
        assert(Seq::<char>::empty() + spec_decimal(country_code as int) =~= spec_decimal(
            country_code as int,
        ));
    }
    s
}

/// Conclude a verified login: look the identity up (creating the person
/// on first sight) and start a session for it.
pub fn complete_auth_finish(store: &mut Store, country_code: u16, phone_number: &str) -> (r:
    AppResult<Session>)
    ensures
        ({
            let ident = spec_decimal(country_code as int) + phone_number@;
            match r {
                Ok(sess) => spec_lookup_identity(old(store)@, ident) matches Some((s1, it))
                    && sess@.person_id == it.person_id && sess@.id.len() == 64
                    && final(store)@ == (StoreV { sessions: s1.sessions.push(sess@), ..s1 }),
                Err(e) => {
                    &&& e == Error::BackingStoreError
                    &&& match spec_lookup_identity(old(store)@, ident) {
                        None => final(store)@ == old(store)@,
                        Some((s1, _)) => final(store)@ == s1,
                    }
                },
            }
        }),
{
    let lookup = LookupIdentiy { identifier: identity_identifier(country_code, phone_number) };
    let identity = match lookup.execute(store) {
        Ok(it) => it,
        Err(e) => {
            return Err(e);
        },
    };
    let start = StartSession { person_id: identity.person_id };
    start.execute(store)
}

/// The session guard: resolve the `Authorization` header to the person
/// it belongs to before any handler body runs.  A missing header and an
/// unknown or expired token alike fail with `SessionNotFound`; the
/// lookup never creates anything.
pub fn authenticate_at(store: &Store, auth_header: Option<&str>, now: i64) -> (r: AppResult<
    Person,
>)
    ensures
        match auth_header {
            None => r matches Err(e) && e == Error::SessionNotFound,
            Some(h) => match r {
                Ok(p) => spec_person_by_session(store@, h@, now as int) == Some(p@),
                Err(e) => {
                    &&& spec_person_by_session(store@, h@, now as int) is None
                    &&& e == Error::SessionNotFound
                },
            },
        },
{
    match auth_header {
        None => Err(Error::SessionNotFound),
        Some(h) => {
            let msg = GetLoggedInPerson::from_session(h.to_owned());
            msg.execute_at(store, now)
        },
    }
}

/// The session guard against the clock's time.
pub fn authenticate(store: &Store, auth_header: Option<&str>) -> (r: AppResult<Person>)
    ensures
        r is Err ==> r->Err_0 == Error::SessionNotFound,
        auth_header is None ==> r is Err,
        auth_header matches Some(h) && find_first(
            store@.sessions,
            session_with_id(h@),
        ) is None ==> r is Err,
        r is Ok ==> (auth_header matches Some(h) && exists|t: int|
            spec_person_by_session(store@, h@, t) == Some(r->Ok_0@)),
{
    match auth_header {
        None => Err(Error::SessionNotFound),
        Some(h) => {
            let msg = GetLoggedInPerson::from_session(h.to_owned());
            msg.execute(store)
        },
    }
}

} // verus!
