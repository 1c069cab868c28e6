use vstd::prelude::*;

verus! {

/// The reason for which a request of a player is refused; the text is sent
/// back to that player.
#[derive(Debug)]
pub enum Error {
    Message(String),
}

impl Error {
    /// The text of the error.
    pub open spec fn text(self) -> Seq<char> {
        match self {
            Error::Message(m) => m@,
        }
    }

    /// Builds an error from its text.
    pub fn message(text: &str) -> (e: Error)
        ensures
            e.text() == text@,
    {
        Error::Message(text.to_owned())
    }
}

/// The text of an error is the message it carries.
pub proof fn lemma_error_text(m: String)
    ensures
        Error::Message(m).text() == m@,
{
}

} // verus!
