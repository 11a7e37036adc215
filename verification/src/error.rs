//! What can go wrong, for the caller and for one download.

use vstd::prelude::*;
use vstd::string::*;

verus! {

/// A failure that ends a search or a download as a whole.
///
/// `Dir` and `Network` are raised by the code that touches the disk and the
/// network; each carries the text of what was reported there.
#[derive(Debug, Clone)]
pub enum Error {
    /// The page holds no image data that can be read.
    Parse,
    /// The target directory cannot be found or made.
    Dir(String),
    /// The page cannot be fetched.
    Network(String),
}

/// A failure of one download. None of these ends the batch: a failed attempt
/// is dropped and the task goes on to the next candidate.
#[derive(Debug, Clone)]
pub enum DownloadError {
    /// No candidate is left.
    Overflow,
    /// The bytes are not those of an image of a known type.
    Extension,
    /// The file cannot be made or written.
    Fs(String),
    /// The bytes cannot be fetched.
    Network(String),
}

impl Error {
    /// What kind of failure this is, in a few words.
    pub open spec fn description_spec(self) -> Seq<char> {
        match self {
            Error::Parse => "Unable to parse images from json"@,
            Error::Dir(_) => "Error when finding or creating directory"@,
            Error::Network(_) => "Error when making GET request"@,
        }
    }

    /// The full text of the failure, with what was reported alongside.
    pub open spec fn message_spec(self) -> Seq<char> {
        match self {
            Error::Parse =>
                "Unable to parse images from json. Google may have changed the way their data is stored"@,
            Error::Dir(cause) => "Unable to find or create: "@ + cause@,
            Error::Network(cause) => "Unable to fetch webpage: "@ + cause@,
        }
    }

    /// What kind of failure this is, in a few words.
    pub fn description(&self) -> (text: &'static str)
        ensures
            text@ == self.description_spec(),
    {
        match self {
            Error::Parse => "Unable to parse images from json",
            Error::Dir(_) => "Error when finding or creating directory",
            Error::Network(_) => "Error when making GET request",
        }
    }

    /// The full text of the failure.
    pub fn message(&self) -> (text: String)
        ensures
            text@ == self.message_spec(),
    {
        match self {
            Error::Parse => String::from_str(
                "Unable to parse images from json. Google may have changed the way their data is stored",
            ),
            Error::Dir(cause) => String::from_str("Unable to find or create: ").concat(
                cause.as_str(),
            ),
            Error::Network(cause) => String::from_str("Unable to fetch webpage: ").concat(
                cause.as_str(),
            ),
        }
    }
}

impl DownloadError {
    /// What kind of failure this is, in a few words.
    pub open spec fn description_spec(self) -> Seq<char> {
        match self {
            DownloadError::Overflow => "Ran out of possible images"@,
            DownloadError::Extension => "File type not known or not an image"@,
            DownloadError::Fs(_) => "Error occured creating or writing to file"@,
            DownloadError::Network(_) => "Error when making GET request to fetch image"@,
        }
    }

    /// The full text of the failure, with what was reported alongside.
    pub open spec fn message_spec(self) -> Seq<char> {
        match self {
            DownloadError::Overflow => "Ran out of possible images"@,
            DownloadError::Extension => "Unable to determine file extension"@,
            DownloadError::Fs(cause) => "Problem when creating or writing to file: "@ + cause@,
            DownloadError::Network(cause) => "Unable to fetch image: "@ + cause@,
        }
    }

    /// What kind of failure this is, in a few words.
    pub fn description(&self) -> (text: &'static str)
        ensures
            text@ == self.description_spec(),
    {
        match self {
            DownloadError::Overflow => "Ran out of possible images",
            DownloadError::Extension => "File type not known or not an image",
            DownloadError::Fs(_) => "Error occured creating or writing to file",
            DownloadError::Network(_) => "Error when making GET request to fetch image",
        }
    }

    /// The full text of the failure.
    pub fn message(&self) -> (text: String)
        ensures
            text@ == self.message_spec(),
    {
        match self {
            DownloadError::Overflow => String::from_str("Ran out of possible images"),
            DownloadError::Extension => String::from_str("Unable to determine file extension"),
            DownloadError::Fs(cause) => String::from_str(
                "Problem when creating or writing to file: ",
            ).concat(cause.as_str()),
            DownloadError::Network(cause) => String::from_str("Unable to fetch image: ").concat(
                cause.as_str(),
            ),
        }
    }
}

} // verus!
