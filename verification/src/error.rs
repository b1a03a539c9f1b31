//! The library's error type.

use vstd::prelude::*;

verus! {

/// Everything that can go wrong while loading assets or detecting a syntax.
#[derive(Debug)]
#[non_exhaustive]
pub enum Error {
    Io(std::io::Error),
    /// A syntect error, by its message.
    SyntectError(String),
    SyntectLoadingError(syntect::LoadingError),
    ParseIntError(std::num::ParseIntError),
    /// A glob pattern that does not compile, by globset's message.
    GlobParsingError(String),
    /// A YAML error, by its message.
    SerdeYamlError(String),
    /// No syntax could be detected for the given path.
    UndetectedSyntax(String),
    /// A syntax mapping names a syntax that the syntax set does not hold.
    UnknownSyntax(String),
    UnknownStyle(String),
    InvalidPagerValueBat,
    /// A free-form message.
    Msg(String),
}

pub type Result<T> = core::result::Result<T, Error>;

impl From<std::io::Error> for Error {
    fn from(e: std::io::Error) -> (r: Self)
        ensures
            r == Error::Io(e),
    {
        Error::Io(e)
    }
}

impl vstd::std_specs::convert::FromSpecImpl<std::io::Error> for Error {
    open spec fn obeys_from_spec() -> bool {
        true
    }

    open spec fn from_spec(v: std::io::Error) -> Self {
        Error::Io(v)
    }
}

impl From<syntect::LoadingError> for Error {
    fn from(e: syntect::LoadingError) -> (r: Self)
        ensures
            r == Error::SyntectLoadingError(e),
    {
        Error::SyntectLoadingError(e)
    }
}

impl vstd::std_specs::convert::FromSpecImpl<syntect::LoadingError> for Error {
    open spec fn obeys_from_spec() -> bool {
        true
    }

    open spec fn from_spec(v: syntect::LoadingError) -> Self {
        Error::SyntectLoadingError(v)
    }
}

impl From<std::num::ParseIntError> for Error {
    fn from(e: std::num::ParseIntError) -> (r: Self)
        ensures
            r == Error::ParseIntError(e),
    {
        Error::ParseIntError(e)
    }
}

impl vstd::std_specs::convert::FromSpecImpl<std::num::ParseIntError> for Error {
    open spec fn obeys_from_spec() -> bool {
        true
    }

    open spec fn from_spec(v: std::num::ParseIntError) -> Self {
        Error::ParseIntError(v)
    }
}

impl From<&'static str> for Error {
    fn from(s: &'static str) -> (r: Self)
        ensures
            r matches Error::Msg(m) && m@ == s@,
    {
        Error::Msg(s.to_owned())
    }
}

/// A `String` is known only by its characters, so `from_spec` names some
/// message of those characters, and is not relied on: `from` above states the
/// message it holds.
impl vstd::std_specs::convert::FromSpecImpl<&'static str> for Error {
    open spec fn obeys_from_spec() -> bool {
        false
    }

    open spec fn from_spec(v: &'static str) -> Self {
        Error::Msg(choose|m: String| #[trigger] m@ == v@)
    }
}

impl From<String> for Error {
    fn from(s: String) -> (r: Self) {
        Error::Msg(s)
    }
}

impl vstd::std_specs::convert::FromSpecImpl<String> for Error {
    open spec fn obeys_from_spec() -> bool {
        true
    }

    open spec fn from_spec(v: String) -> Self {
        Error::Msg(v)
    }
}

} // verus!
