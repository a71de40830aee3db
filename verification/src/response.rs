use vstd::prelude::*;

use crate::error::AppResult;

verus! {

/// The status field of every API response envelope.
#[derive(Clone, Copy, Debug, PartialEq, Eq, Structural)]
pub enum ResponseStatus {
    Success,
    Error,
    Fail,
}

/// Envelope for API responses: a status, an optional payload, and
/// optional human-readable messages.
#[derive(Debug)]
pub struct ApiResponse<T> {
    pub status: ResponseStatus,
    pub data: Option<T>,
    pub messages: Option<Vec<String>>,
}

impl<T> ApiResponse<T> {
    /// An envelope around an optional payload, successful by default.
    pub fn from(data: Option<T>) -> (r: ApiResponse<T>)
        ensures
            r.status == ResponseStatus::Success,
            r.data == data,
            r.messages is None,
    {
        ApiResponse { status: ResponseStatus::Success, data, messages: None }
    }

    /// A successful envelope around a payload.
    pub fn success(data: T) -> (r: ApiResponse<T>)
        ensures
            r.status == ResponseStatus::Success,
            r.data == Some(data),
            r.messages is None,
    {
        ApiResponse { status: ResponseStatus::Success, data: Some(data), messages: None }
    }

    /// A failed envelope around a payload.
    pub fn fail(data: T) -> (r: ApiResponse<T>)
        ensures
            r.status == ResponseStatus::Fail,
            r.data == Some(data),
            r.messages is None,
    {
        ApiResponse { status: ResponseStatus::Fail, data: Some(data), messages: None }
    }

    /// An error envelope around a payload.
    pub fn error(data: T) -> (r: ApiResponse<T>)
        ensures
            r.status == ResponseStatus::Error,
            r.data == Some(data),
            r.messages is None,
    {
        ApiResponse { status: ResponseStatus::Error, data: Some(data), messages: None }
    }

    /// The same envelope with its status replaced.
    pub fn with_status(self, status: ResponseStatus) -> (r: ApiResponse<T>)
        ensures
            r.status == status,
            r.data == self.data,
            r.messages == self.messages,
    {
        ApiResponse { status, ..self }
    }

    /// The same envelope with its payload replaced.
    pub fn data(self, data: T) -> (r: ApiResponse<T>)
        ensures
            r.status == self.status,
            r.data == Some(data),
            r.messages == self.messages,
    {
        ApiResponse { data: Some(data), ..self }
    }

    /// The same envelope with one more message appended.
    pub fn add_message(self, message: String) -> (r: ApiResponse<T>)
        ensures
            r.status == self.status,
            r.data == self.data,
            r.messages matches Some(ms) && ms@ == (match self.messages {
                Some(old_ms) => old_ms@,
                None => Seq::<String>::empty(),
            }).push(message),
    {
        let ApiResponse { status, data, messages } = self;
        let mut ms = match messages {
            Some(m) => m,
            None => Vec::new(),
        };
        ms.push(message);
        ApiResponse { status, data, messages: Some(ms) }
    }
}

/// A handler's decision about a response that carries no payload: the
/// HTTP status to answer with, the envelope status, and one message.
#[derive(Debug)]
pub struct Reply {
    pub http_status: u16,
    pub status: ResponseStatus,
    pub message: String,
}

/// The reply to a delete request, from how many rows went away: no row
/// is "not found", one row is success, and more than one row — which a
/// well-formed store never yields — or a store failure is an internal
/// error.
pub fn delete_drink_reply(outcome: &AppResult<usize>) -> (r: Reply)
    ensures
        outcome == Ok::<usize, crate::error::Error>(0usize) ==> r.http_status == 404
            && r.status == ResponseStatus::Fail && r.message@ == "Could not find that drink"@,
        outcome == Ok::<usize, crate::error::Error>(1usize) ==> r.http_status == 200
            && r.status == ResponseStatus::Success && r.message@ == "Deleted"@,
        (match outcome {
            Ok(n) => *n > 1,
            Err(_) => true,
        }) ==> r.http_status == 500 && r.status == ResponseStatus::Error && r.message@
            == "An unexpected error occurred"@,
{
    match outcome {
        Ok(0) => Reply {
            http_status: 404,
            status: ResponseStatus::Fail,
            message: "Could not find that drink".to_owned(),
        },
        Ok(1) => Reply {
            http_status: 200,
            status: ResponseStatus::Success,
            message: "Deleted".to_owned(),
        },
        _ => Reply {
            http_status: 500,
            status: ResponseStatus::Error,
            message: "An unexpected error occurred".to_owned(),
        },
    }
}

} // verus!
