//! Path components and case folding, as std computes them, under names.

use std::path::Path;
use vstd::prelude::*;

verus! {

/// The file stem std's `Path::file_stem` gives for a path, as text.
pub uninterp spec fn file_stem_of(path: Seq<char>) -> Option<Seq<char>>;

/// The file name std's `Path::file_name` gives for a path, as text.
pub uninterp spec fn file_name_of(path: Seq<char>) -> Option<Seq<char>>;

/// The extension std's `Path::extension` gives for a path, as text.
pub uninterp spec fn extension_of(path: Seq<char>) -> Option<Seq<char>>;

/// The parent std's `Path::parent` gives for a path, as text.
pub uninterp spec fn parent_of(path: Seq<char>) -> Option<Seq<char>>;

/// What std's `str::to_lowercase` gives for a text.
pub uninterp spec fn lowercase_of(s: Seq<char>) -> Seq<char>;

/// What std's `str::to_uppercase` gives for a text.
pub uninterp spec fn uppercase_of(s: Seq<char>) -> Seq<char>;

/// The file stem of a path.
/// Calls `Path::file_stem` and converts the result with `to_string_lossy`;
/// the contract names the result and claims nothing more of it.
#[verifier::external_body]
pub(crate) fn path_file_stem(path: &str) -> (r: Option<String>)
    ensures
        match r {
            Some(s) => file_stem_of(path@) == Some(s@),
            None => file_stem_of(path@) is None,
        },
{
    Path::new(path).file_stem().map(|s| s.to_string_lossy().to_string())
}

/// The final component of a path.
/// Calls `Path::file_name` and converts the result with `to_string_lossy`;
/// the contract names the result and claims nothing more of it.
#[verifier::external_body]
pub(crate) fn path_file_name(path: &str) -> (r: Option<String>)
    ensures
        match r {
            Some(s) => file_name_of(path@) == Some(s@),
            None => file_name_of(path@) is None,
        },
{
    Path::new(path).file_name().map(|s| s.to_string_lossy().to_string())
}

/// The extension of a path.
/// Calls `Path::extension` and keeps it when it is valid UTF-8 (as `to_str`
/// does); the contract names the result and claims nothing more of it.
#[verifier::external_body]
pub(crate) fn path_extension(path: &str) -> (r: Option<String>)
    ensures
        match r {
            Some(s) => extension_of(path@) == Some(s@),
            None => extension_of(path@) is None,
        },
{
    Path::new(path).extension().and_then(|e| e.to_str()).map(|e| e.to_string())
}

/// The parent of a path.
/// Calls `Path::parent` and converts the result with `to_string_lossy`;
/// the contract names the result and claims nothing more of it.
#[verifier::external_body]
pub(crate) fn path_parent(path: &str) -> (r: Option<String>)
    ensures
        match r {
            Some(s) => parent_of(path@) == Some(s@),
            None => parent_of(path@) is None,
        },
{
    Path::new(path).parent().map(|p| p.to_string_lossy().to_string())
}

/// Lower-cases a text.
/// Calls `str::to_lowercase`; the contract names the result, which is a
/// function of the text alone.
#[verifier::external_body]
pub(crate) fn to_lowercase(s: &str) -> (r: String)
    ensures
        r@ == lowercase_of(s@),
{
    s.to_lowercase()
}

/// Upper-cases a text.
/// Calls `str::to_uppercase`; the contract names the result, which is a
/// function of the text alone.
#[verifier::external_body]
pub(crate) fn to_uppercase(s: &str) -> (r: String)
    ensures
        r@ == uppercase_of(s@),
{
    s.to_uppercase()
}

/// The path std's `Path::join` gives for a base and a part, as text.
pub uninterp spec fn joined_path(base: Seq<char>, part: Seq<char>) -> Seq<char>;

/// The path std's `Path::with_extension` gives, as text.
pub uninterp spec fn with_extension_of(path: Seq<char>, ext: Seq<char>) -> Seq<char>;

/// Whether std's `Path` equality (component-wise) holds of two paths.
pub uninterp spec fn same_path(a: Seq<char>, b: Seq<char>) -> bool;

/// Joins a part onto a base path.
/// Calls `Path::join` and converts the result with `to_string_lossy`; the
/// contract names the result, a function of both texts.
#[verifier::external_body]
pub(crate) fn path_join(base: &str, part: &str) -> (r: String)
    ensures
        r@ == joined_path(base@, part@),
{
    Path::new(base).join(part).to_string_lossy().to_string()
}

/// Whether a text holds a path separator (`/`, or `\\` on Windows).
pub open spec fn has_separator(s: Seq<char>) -> bool {
    exists|i: int| 0 <= i < s.len() && (s[i] == '/' || s[i] == '\\')
}

/// A path with its extension replaced (or added).
/// Calls `Path::with_extension` and converts the result with
/// `to_string_lossy`; the contract names the result, a function of both
/// texts. `with_extension` panics on an extension that holds a path
/// separator, which `requires` leaves out.
#[verifier::external_body]
pub(crate) fn path_with_extension(path: &str, ext: &str) -> (r: String)
    requires
        !has_separator(ext@),
    ensures
        r@ == with_extension_of(path@, ext@),
{
    Path::new(path).with_extension(ext).to_string_lossy().to_string()
}

/// Whether two paths are equal as paths.
/// Calls `<Path as PartialEq>::eq`, which compares components; the contract
/// names the result and states that a path equals itself (`Path` is `Eq`).
#[verifier::external_body]
pub(crate) fn paths_equal(a: &str, b: &str) -> (r: bool)
    ensures
        r == same_path(a@, b@),
        a@ == b@ ==> r,
{
    Path::new(a) == Path::new(b)
}

} // verus!
