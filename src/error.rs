//! The failures that reading a database or building a record can report.

use vstd::prelude::*;

verus! {

/// Something went wrong while reading a package database.
#[derive(Debug, Clone, PartialEq, Eq)]
pub enum Error {
    /// The walk over the archive's entries could not be set up; holds the archive path.
    DatabaseIteration(String),
    /// The archive could not be opened or decompressed; holds the archive path.
    DatabaseLoad(String),
    /// No database file exists for the given name.
    DatabaseNotFound(String),
    /// The given package was not found.
    PackageNotFound(String),
    /// An integer field did not hold a non-negative 64-bit integer.
    PackageParseSize,
    /// A record held a key outside the recognized set; holds the key as written.
    PackagePropertyMissing(String),
    /// A record's bytes were not valid UTF-8; holds the package directory name.
    PackageUtf8Conversion(String),
}

/// `Result` with this library's error.
pub type Result<T> = core::result::Result<T, Error>;

/// The human-readable message of an error.
pub open spec fn message_of(e: Error) -> Seq<char> {
    match e {
        Error::DatabaseIteration(p) => "failed to construct database iterator: "@ + p@,
        Error::DatabaseLoad(p) => "failed to load database: "@ + p@,
        Error::DatabaseNotFound(d) => "failed to find database: "@ + d@,
        Error::PackageNotFound(n) => "failed to find package: "@ + n@,
        Error::PackageParseSize => "package parse failure while parsing integers"@,
        Error::PackagePropertyMissing(k) => "package property missing: "@ + k@,
        Error::PackageUtf8Conversion(d) => "package utf8 conversion failed after extraction: "@
            + d@,
    }
}

/// Relies on `String::push_str`: the text is appended at the end.
#[verifier::external_body]
pub(crate) fn push_text(s: &mut String, t: &str)
    ensures
        final(s)@ == old(s)@ + t@,
{
    s.push_str(t)
}

fn joined(head: &str, tail: &String) -> (r: String)
    ensures
        r@ == head@ + tail@,
{
    let mut r = head.to_owned();
    push_text(&mut r, tail.as_str());
    r
}

impl Error {
    /// The human-readable message of this error.
    pub fn message(&self) -> (r: String)
        ensures
            r@ == message_of(*self),
    {
        match self {
            Error::DatabaseIteration(p) => joined("failed to construct database iterator: ", p),
            Error::DatabaseLoad(p) => joined("failed to load database: ", p),
            Error::DatabaseNotFound(d) => joined("failed to find database: ", d),
            Error::PackageNotFound(n) => joined("failed to find package: ", n),
            Error::PackageParseSize => "package parse failure while parsing integers".to_owned(),
            Error::PackagePropertyMissing(k) => joined("package property missing: ", k),
            Error::PackageUtf8Conversion(d) => joined(
                "package utf8 conversion failed after extraction: ",
                d,
            ),
        }
    }
}

} // verus!
