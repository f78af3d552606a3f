//! Types of std and of other crates that the library carries through its
//! signatures and errors without looking inside them.

use vstd::prelude::*;

verus! {

/// An I/O failure reported by the caller that performed the I/O.
#[verifier::external_type_specification]
#[verifier::external_body]
pub struct ExIoError(std::io::Error);

/// A failure of `url::Url::parse`.
#[verifier::external_type_specification]
#[verifier::external_body]
pub struct ExUrlParseError(url::ParseError);

/// A failure of parsing a MIME type with the `mime` crate.
#[verifier::external_type_specification]
#[verifier::external_body]
pub struct ExMimeFromStrError(mime::FromStrError);

/// A failure of `serde_json` to read a document.
#[verifier::external_type_specification]
#[verifier::external_body]
pub struct ExJsonError(serde_json::Error);

/// A failure of `toml` to read a document.
#[verifier::external_type_specification]
#[verifier::external_body]
pub struct ExTomlError(toml::de::Error);

/// A labelled byte range of a source text, as diagnostics report it.
#[verifier::external_type_specification]
#[verifier::external_body]
pub struct ExSourceSpan(miette::SourceSpan);

} // verus!
