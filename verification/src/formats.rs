//! File formats the viewer opens, the viewer's up axis, and asset path
//! clean-up.

use vstd::prelude::*;

use crate::kinds::str_eq;
use crate::paths::{extension_of, lowercase_of, path_extension, to_lowercase, to_uppercase, uppercase_of};
use crate::render::{char_is_whitespace, is_whitespace_char, trim_end_ws};
use crate::text::{chars_of, push_char, string_of};

verus! {

/// Supported file formats.
#[derive(Debug, Clone, Copy, PartialEq, Eq, Structural)]
pub enum FileFormat {
    /// USD ASCII text format (.usda)
    Usda,
    /// USD binary crate format (.usdc, .usd)
    Usdc,
    /// glTF JSON format (.gltf)
    Gltf,
    /// glTF binary format (.glb)
    Glb,
}

/// The format a lower-case extension names.
pub open spec fn format_of_extension(ext: Seq<char>) -> Option<FileFormat> {
    if ext == "usda"@ {
        Some(FileFormat::Usda)
    } else if ext == "usdc"@ || ext == "usd"@ {
        Some(FileFormat::Usdc)
    } else if ext == "gltf"@ {
        Some(FileFormat::Gltf)
    } else if ext == "glb"@ {
        Some(FileFormat::Glb)
    } else {
        None
    }
}

impl FileFormat {
    /// Detect the file format from a path's extension, ignoring case.
    pub fn from_path(path: &str) -> (r: Option<Self>)
        ensures
            r == match extension_of(path@) {
                Some(ext) => format_of_extension(lowercase_of(ext)),
                None => None,
            },
    {
        let ext = match path_extension(path) {
            Some(e) => e,
            None => return None,
        };
        let lower = to_lowercase(ext.as_str());
        Self::from_extension(lower.as_str())
    }

    /// The format a lower-case extension names.
    pub fn from_extension(ext: &str) -> (r: Option<Self>)
        ensures
            r == format_of_extension(ext@),
    {
        if str_eq(ext, "usda") {
            Some(FileFormat::Usda)
        } else if str_eq(ext, "usdc") || str_eq(ext, "usd") {
            Some(FileFormat::Usdc)
        } else if str_eq(ext, "gltf") {
            Some(FileFormat::Gltf)
        } else if str_eq(ext, "glb") {
            Some(FileFormat::Glb)
        } else {
            None
        }
    }

    /// Check if the format is a glTF variant.
    pub fn is_gltf(&self) -> (r: bool)
        ensures
            r == (*self == FileFormat::Gltf || *self == FileFormat::Glb),
    {
        match self {
            FileFormat::Gltf | FileFormat::Glb => true,
            _ => false,
        }
    }
}

/// Scene up axis orientation of the viewer.
#[derive(Debug, Clone, Copy, PartialEq, Eq, Structural)]
pub enum UpAxis {
    /// Y-up is the USD default (Maya, Blender, etc.)
    Y,
    /// Z-up used by 3ds Max, AutoCAD, and some CAD applications
    Z,
}

impl Default for UpAxis {
    fn default() -> (r: Self)
        ensures
            r == UpAxis::Y,
    {
        UpAxis::Y
    }
}

impl UpAxis {
    /// Parse from a string token, ignoring case: `Z` is Z-up, anything else Y-up.
    pub fn from_token(token: &str) -> (r: Self)
        ensures
            r == (if uppercase_of(token@) == "Z"@ {
                UpAxis::Z
            } else {
                UpAxis::Y
            }),
    {
        let upper = to_uppercase(token);
        if str_eq(upper.as_str(), "Z") {
            UpAxis::Z
        } else {
            UpAxis::Y
        }
    }

    /// The up axis from layer metadata: the `upAxis` token if present, else
    /// the USD default (Y).
    pub fn from_metadata(token: Option<&str>) -> (r: Self)
        ensures
            r == match token {
                Some(t) => if uppercase_of(t@) == "Z"@ {
                    UpAxis::Z
                } else {
                    UpAxis::Y
                },
                None => UpAxis::Y,
            },
    {
        match token {
            Some(t) => Self::from_token(t),
            None => UpAxis::Y,
        }
    }
}

/// `s` without leading white space.
pub open spec fn trim_start_ws(s: Seq<char>) -> Seq<char>
    decreases s.len(),
{
    if s.len() > 0 && is_whitespace_char(s[0]) {
        trim_start_ws(s.drop_first())
    } else {
        s
    }
}

/// `s` without `c` at either end (as `trim_matches(c)`).
pub open spec fn trim_char(s: Seq<char>, c: char) -> Seq<char>
    decreases s.len(),
{
    if s.len() > 0 && s[0] == c {
        trim_char(s.drop_first(), c)
    } else if s.len() > 0 && s.last() == c {
        trim_char(s.drop_last(), c)
    } else {
        s
    }
}

/// `s` with every `from` replaced by `to`.
pub open spec fn replace_char(s: Seq<char>, from: char, to: char) -> Seq<char> {
    s.map_values(|c: char| if c == from { to } else { c })
}

/// A cleaned asset path: trimmed, without `@` wrappers, without a leading
/// `./`, with back slashes turned into forward slashes.
pub open spec fn cleaned_asset_path(path: Seq<char>) -> Seq<char> {
    let t = trim_char(trim_end_ws(trim_start_ws(path)), '@');
    let u = if t.len() >= 2 && t[0] == '.' && t[1] == '/' {
        t.skip(2)
    } else {
        t
    };
    replace_char(u, '\\', '/')
}

/// Clean a USD asset path by removing `@` wrappers and normalizing path
/// separators.
pub fn clean_asset_path(path: &str) -> (r: String)
    ensures
        r@ == cleaned_asset_path(path@),
{
    let cs = chars_of(path);
    // trim
    let mut lo: usize = 0;
    assert(cs@.skip(0) =~= cs@);
    while lo < cs.len() && char_is_whitespace(cs[lo])
        invariant
            0 <= lo <= cs.len(),
            trim_start_ws(cs@) == trim_start_ws(cs@.skip(lo as int)),
        decreases cs.len() - lo,
    {
        assert(cs@.skip(lo as int).drop_first() =~= cs@.skip(lo + 1));
        lo += 1;
    }
    let mut hi: usize = cs.len();
    proof {
        if lo < cs.len() {
            assert(!is_whitespace_char(cs@.skip(lo as int)[0]));
        }
        assert(cs@.skip(lo as int) =~= cs@.subrange(lo as int, hi as int));
    }
    while hi > lo && char_is_whitespace(cs[hi - 1])
        invariant
            0 <= lo <= hi <= cs.len(),
            trim_end_ws(trim_start_ws(cs@)) == trim_end_ws(cs@.subrange(lo as int, hi as int)),
        decreases hi - lo,
    {
        assert(cs@.subrange(lo as int, hi as int).drop_last() =~= cs@.subrange(lo as int, hi - 1));
        hi -= 1;
    }
    // trim '@' on both ends
    proof {
        if hi > lo {
            assert(!is_whitespace_char(cs@.subrange(lo as int, hi as int).last()));
        }
    }
    while hi > lo && (cs[lo] == '@' || cs[hi - 1] == '@')
        invariant
            0 <= lo <= hi <= cs.len(),
            trim_char(trim_end_ws(trim_start_ws(cs@)), '@') == trim_char(cs@.subrange(lo as int, hi as int), '@'),
        decreases hi - lo,
    {
        if cs[lo] == '@' {
            assert(cs@.subrange(lo as int, hi as int).drop_first() =~= cs@.subrange(lo + 1, hi as int));
            lo += 1;
        } else {
            assert(cs@.subrange(lo as int, hi as int).drop_last() =~= cs@.subrange(lo as int, hi - 1));
            hi -= 1;
        }
    }
    let ghost t = cs@.subrange(lo as int, hi as int);
    assert(trim_char(t, '@') == t);
    // strip "./"
    if hi - lo >= 2 && cs[lo] == '.' && cs[lo + 1] == '/' {
        lo += 2;
        assert(t.skip(2) =~= cs@.subrange(lo as int, hi as int));
    }
    // replace separators
    let mut r = String::new();
    let mut i: usize = lo;
    while i < hi
        invariant
            lo <= i <= hi <= cs.len(),
            r@ == replace_char(cs@.subrange(lo as int, i as int), '\\', '/'),
        decreases hi - i,
    {
        let c = cs[i];
        push_char(&mut r, if c == '\\' { '/' } else { c });
        assert(replace_char(cs@.subrange(lo as int, i + 1), '\\', '/') =~= replace_char(cs@.subrange(lo as int, i as int), '\\', '/').push(if c == '\\' { '/' } else { c }));
        i += 1;
    }
    r
}

} // verus!
