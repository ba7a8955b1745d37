use vstd::prelude::*;

verus! {

/// Errors of the infrastructure helpers. Failures that come from outside
/// the library carry their rendered message.
#[derive(Debug, PartialEq, Eq)]
pub enum Error {
    InvalidUrl(String),
    Timeout,
    InvalidConfig(String),
    Http(String),
    SystemTime(String),
    Validation(String),
    SignatureVerification,
}

impl Error {
    /// The text that describes this error.
    pub open spec fn spec_message(&self) -> Seq<char> {
        match self {
            Error::InvalidUrl(s) => "Invalid URL: "@ + s@,
            Error::Timeout => "Request timeout"@,
            Error::InvalidConfig(s) => "Invalid configuration: "@ + s@,
            Error::Http(s) => "HTTP error: "@ + s@,
            Error::SystemTime(s) => "System time error: "@ + s@,
            Error::Validation(s) => "Validation failed: "@ + s@,
            Error::SignatureVerification => "Signature verification failed"@,
        }
    }

    /// Renders the error as text.
    pub fn message(&self) -> (text: String)
        ensures
            text@ == self.spec_message(),
    {
        let (prefix, detail) = match self {
            Error::InvalidUrl(s) => ("Invalid URL: ", s.as_str()),
            Error::Timeout => return String::from_str("Request timeout"),
            Error::InvalidConfig(s) => ("Invalid configuration: ", s.as_str()),
            Error::Http(s) => ("HTTP error: ", s.as_str()),
            Error::SystemTime(s) => ("System time error: ", s.as_str()),
            Error::Validation(s) => ("Validation failed: ", s.as_str()),
            Error::SignatureVerification => return String::from_str("Signature verification failed"),
        };
        let mut text = String::from_str(prefix);
        text.append(detail);
        text
    }
}

} // verus!
