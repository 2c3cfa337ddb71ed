//! The errors of the library.

use vstd::prelude::*;

verus! {

/// What went wrong.
#[derive(Debug)]
pub enum ColmenaError {
    /// An error that a message describes.
    Unknown { message: String },
}

impl View for ColmenaError {
    type V = Seq<char>;

    open spec fn view(&self) -> Seq<char> {
        match self {
            ColmenaError::Unknown { message } => message@,
        }
    }
}

impl ColmenaError {
    /// The message.
    pub fn message(&self) -> (text: &str)
        ensures
            text@ == self@,
            self matches ColmenaError::Unknown { message } && text@ == message@,
    {
        match self {
            ColmenaError::Unknown { message } => message.as_str(),
        }
    }
}

/// What a result says: the value, or the message of the error.
pub open spec fn outcome<T: DeepView>(result: Result<T, ColmenaError>) -> Result<T::V, Seq<char>> {
    match result {
        Ok(value) => Ok(value.deep_view()),
        Err(error) => Err(error@),
    }
}

/// What a parse gave: the value, or the message of the error.
pub open spec fn parse_model<T: DeepView>(parsed: Result<T, String>) -> Result<T::V, Seq<char>> {
    match parsed {
        Ok(value) => Ok(value.deep_view()),
        Err(message) => Err(message@),
    }
}

/// Results that say the same succeed alike, with values that say the same or
/// with the same message.
pub proof fn law_outcome_tells_all<T: DeepView>(
    a: Result<T, ColmenaError>,
    b: Result<T, ColmenaError>,
)
    requires
        outcome(a) == outcome(b),
    ensures
        match (a, b) {
            (Ok(value), Ok(other)) => value.deep_view() == other.deep_view(),
            (Err(ColmenaError::Unknown { message: text }), Err(
                ColmenaError::Unknown { message: other },
            )) => text@ == other@,
            _ => false,
        },
{
}

/// The error whose message is `message`.
pub(crate) fn unknown(message: &str) -> (error: ColmenaError)
    ensures
        error@ == message@,
{
    ColmenaError::Unknown { message: message.to_string() }
}

/// The error whose message is `lead`, followed by `detail`.
pub(crate) fn unknown_with(lead: &str, detail: &str) -> (error: ColmenaError)
    ensures
        error@ == lead@ + detail@,
{
    ColmenaError::Unknown { message: lead.to_string().concat(detail) }
}

} // verus!
