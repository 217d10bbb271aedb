//! What can go wrong when the player is used.

use vstd::prelude::*;

verus! {

/// Why the player refuses a request.
#[derive(Debug)]
pub enum PlayerError {
    /// The audio thread has not been started.
    NotInitialized,
    /// There is no station to play.
    NoStreams,
    /// The URL of the station cannot be parsed.
    InvalidUrl { message: String },
}

impl PlayerError {
    /// The text of the error.
    pub open spec fn text(self) -> Seq<char> {
        match self {
            PlayerError::NotInitialized => "Stream is not initialized."@,
            PlayerError::NoStreams => "No streams available"@,
            PlayerError::InvalidUrl { message } => message@,
        }
    }

    /// The error in words.
    pub fn message(&self) -> (message: String)
        ensures
            message@ == self.text(),
    {
        match self {
            PlayerError::NotInitialized => "Stream is not initialized.".to_owned(),
            PlayerError::NoStreams => "No streams available".to_owned(),
            PlayerError::InvalidUrl { message } => message.clone(),
        }
    }
}

/// An invalid URL is reported in the words of the parser.
pub proof fn law_invalid_url_keeps_its_message(message: String)
    ensures
        (PlayerError::InvalidUrl { message }).text() == message@,
{
}

} // verus!
