//! The response of a command.

use vstd::prelude::*;

use crate::model::task::opt_view;

verus! {

/// What a command answers: its data on success, or an error, and a message
/// for people.
#[derive(Debug)]
pub struct CliResponse<T> {
    pub success: bool,
    pub data: Option<T>,
    pub error: Option<String>,
    pub message: Option<String>,
}

/// `resp` is a successful response with `data` and the message `message`.
pub open spec fn answers<T>(resp: CliResponse<T>, data: T, message: Option<Seq<char>>) -> bool {
    &&& resp.success
    &&& resp.data == Some(data)
    &&& resp.error is None
    &&& opt_view(resp.message) == message
}

impl<T> CliResponse<T> {
    /// A successful response carrying data and no message.
    pub fn success(data: T) -> (r: Self)
        ensures
            answers(r, data, None),
    {
        CliResponse { success: true, data: Some(data), error: None, message: None }
    }

    /// A successful response carrying data and a message.
    pub fn success_with_message(data: T, message: String) -> (r: Self)
        ensures
            answers(r, data, Some(message@)),
    {
        CliResponse { success: true, data: Some(data), error: None, message: Some(message) }
    }
}

impl CliResponse<()> {
    /// A failed response carrying an error message.
    pub fn error(error: String) -> (r: Self)
        ensures
            !r.success,
            r.data is None,
            opt_view(r.error) == Some(error@),
            r.message is None,
    {
        CliResponse { success: false, data: None, error: Some(error), message: None }
    }

    /// A successful response carrying only a message.
    pub fn message_only(message: String) -> (r: Self)
        ensures
            r.success,
            r.data is None,
            r.error is None,
            opt_view(r.message) == Some(message@),
    {
        CliResponse { success: true, data: None, error: None, message: Some(message) }
    }
}

} // verus!
