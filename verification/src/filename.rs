//! What the standard library says about a file name: its extension, its
//! stem, and the lowercase form of a piece of text.
//!
//! These rules belong to `std`, not to this crate. Each one is given a name
//! here so that contracts elsewhere can speak of its result; the functions
//! that perform the calls are trusted to return exactly that result and
//! nothing about them is proved.

use vstd::prelude::*;

verus! {

/// The lowercase form of `text` as `str::to_lowercase` produces it.
pub uninterp spec fn lowercase_of(text: Seq<char>) -> Seq<char>;

/// The extension of `path` as `std::path::Path::extension` reports it for
/// the platform the crate is built for, or `None` where it reports none.
pub uninterp spec fn extension_of(path: Seq<char>) -> Option<Seq<char>>;

/// The file stem of `path` as `std::path::Path::file_stem` reports it for
/// the platform the crate is built for, or `None` where it reports none.
pub uninterp spec fn file_stem_of(path: Seq<char>) -> Option<Seq<char>>;

/// Trusted: `str::to_lowercase`.
///
/// Claims only that the returned text is the one named [`lowercase_of`],
/// that is, that lowercasing depends on the characters of its input alone.
#[verifier::external_body]
pub(crate) fn to_lowercase(text: &str) -> (lower: String)
    ensures
        lower@ == lowercase_of(text@),
{
    text.to_lowercase()
}

/// Trusted: `std::path::Path::extension`, on a path given as text.
///
/// Claims only that the result is the one named [`extension_of`]. The
/// extension of a path that is valid Unicode is itself valid Unicode, so
/// the conversion back to text loses nothing.
#[verifier::external_body]
pub(crate) fn extension(path: &str) -> (ext: Option<String>)
    ensures
        ext.deep_view() == extension_of(path@),
{
    match std::path::Path::new(path).extension() {
        Some(ext) => Some(ext.to_string_lossy().into_owned()),
        None => None,
    }
}

/// Trusted: `std::path::Path::file_stem`, on a path given as text.
///
/// Claims only that the result is the one named [`file_stem_of`]. The stem
/// of a path that is valid Unicode is itself valid Unicode, so the
/// conversion back to text loses nothing.
#[verifier::external_body]
pub(crate) fn file_stem(path: &str) -> (stem: Option<String>)
    ensures
        stem.deep_view() == file_stem_of(path@),
{
    match std::path::Path::new(path).file_stem() {
        Some(stem) => Some(stem.to_string_lossy().into_owned()),
        None => None,
    }
}

} // verus!
