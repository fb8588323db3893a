//! The asset library browser: its entries and their search filter, the
//! library paths kept in the configuration file, which directory items are
//! listed and in which order, and where thumbnails are looked for.

use vstd::prelude::*;

use crate::formats::trim_start_ws;
use crate::kinds::{str_eq, AssetViewMode};
use crate::paths::{
    extension_of, file_name_of, file_stem_of, joined_path, lowercase_of, parent_of, path_extension, path_file_name, path_file_stem,
    path_join, path_parent, path_with_extension, paths_equal, same_path, to_lowercase, with_extension_of,
};
use crate::render::{char_is_whitespace, is_whitespace_char, trim_end_ws};
use crate::text::{chars_of, push_char, string_of, views};

verus! {

/// Asset entry in the library browser.
pub struct AssetEntry {
    pub path: String,
    pub name: String,
    pub is_dir: bool,
    /// Thumbnail for Grid view (e.g., cover.jpg)
    pub thumbnail_grid: Option<String>,
    /// Thumbnail for Cover view (e.g., cover2.jpg)
    pub thumbnail_cover: Option<String>,
}

fn clone_opt(o: &Option<String>) -> (r: Option<String>)
    ensures
        r == *o,
{
    match o {
        Some(s) => Some(s.clone()),
        None => None,
    }
}

impl AssetEntry {
    /// A copy of the entry.
    pub fn duplicate(&self) -> (r: Self)
        ensures
            r == *self,
    {
        AssetEntry {
            path: self.path.clone(),
            name: self.name.clone(),
            is_dir: self.is_dir,
            thumbnail_grid: clone_opt(&self.thumbnail_grid),
            thumbnail_cover: clone_opt(&self.thumbnail_cover),
        }
    }
}

// ---------------------------------------------------------------------------
// Search
// ---------------------------------------------------------------------------

/// Whether `q` occurs in `s`.
pub open spec fn contains_seq(s: Seq<char>, q: Seq<char>) -> bool {
    exists|i: int| 0 <= i && i + q.len() <= s.len() && #[trigger] s.subrange(i, i + q.len()) == q
}

/// Whether an entry is a texture folder (`tex` or `textures`, any case).
pub open spec fn is_texture_folder(e: AssetEntry) -> bool {
    e.is_dir && (lowercase_of(e.name@) == "tex"@ || lowercase_of(e.name@) == "textures"@)
}

/// Whether an entry stays under the search filter; `query` is the search
/// text in lower case.
pub open spec fn passes_filter(e: AssetEntry, hide_texture_folders: bool, query: Seq<char>) -> bool {
    !(hide_texture_folders && is_texture_folder(e)) && (query.len() == 0 || contains_seq(
        lowercase_of(e.name@),
        query,
    ))
}

/// The entries that stay under the search filter, in order.
pub open spec fn filter_entries(es: Seq<AssetEntry>, hide_texture_folders: bool, query: Seq<char>) -> Seq<AssetEntry>
    decreases es.len(),
{
    if es.len() == 0 {
        Seq::empty()
    } else {
        let r = filter_entries(es.drop_last(), hide_texture_folders, query);
        if passes_filter(es.last(), hide_texture_folders, query) {
            r.push(es.last())
        } else {
            r
        }
    }
}

/// Whether `q` occurs in `s`.
pub(crate) fn chars_contain(s: &Vec<char>, q: &Vec<char>) -> (r: bool)
    ensures
        r == contains_seq(s@, q@),
{
    if q.len() > s.len() {
        return false;
    }
    let m = q.len();
    let last = s.len() - m;
    let mut i: usize = 0;
    while i <= last
        invariant
            m == q.len(),
            last == s.len() - m,
            0 <= i <= last + 1,
            forall|k: int| 0 <= k < i ==> #[trigger] s@.subrange(k, k + m) != q@,
        decreases last + 1 - i,
    {
        let mut j: usize = 0;
        while j < m && s[i + j] == q[j]
            invariant
                m == q.len(),
                i + m <= s.len(),
                0 <= j <= m,
                forall|t: int| 0 <= t < j ==> s@[i + t] == q@[t],
            decreases m - j,
        {
            j += 1;
        }
        if j == m {
            assert(s@.subrange(i as int, i + m) =~= q@);
            return true;
        }
        assert(s@.subrange(i as int, i + m)[j as int] != q@[j as int]);
        i += 1;
    }
    false
}

/// Whether `q` occurs in `s`.
pub fn text_contains(s: &str, q: &str) -> (r: bool)
    ensures
        r == contains_seq(s@, q@),
{
    let cs = chars_of(s);
    let qs = chars_of(q);
    chars_contain(&cs, &qs)
}

/// Whether an entry stays under the search filter.
fn entry_passes(e: &AssetEntry, hide_texture_folders: bool, query: &str) -> (r: bool)
    ensures
        r == passes_filter(*e, hide_texture_folders, query@),
{
    let lower = to_lowercase(e.name.as_str());
    if hide_texture_folders && e.is_dir {
        if str_eq(lower.as_str(), "tex") || str_eq(lower.as_str(), "textures") {
            return false;
        }
    }
    if query.is_empty() {
        true
    } else {
        text_contains(lower.as_str(), query)
    }
}

// ---------------------------------------------------------------------------
// Library paths
// ---------------------------------------------------------------------------

/// Whether two texts name the same path: the same text, or equal as paths.
pub open spec fn path_matches(a: Seq<char>, b: Seq<char>) -> bool {
    a == b || same_path(a, b)
}

/// Whether `p` is among `paths`, compared as paths.
pub open spec fn has_path(paths: Seq<String>, p: Seq<char>) -> bool {
    exists|i: int| 0 <= i < paths.len() && path_matches(#[trigger] paths[i]@, p)
}

/// The library paths after offering `p`, which is a directory when `is_dir`.
pub open spec fn offered(paths: Seq<String>, p: String, is_dir: bool) -> Seq<String> {
    if is_dir && !has_path(paths, p@) {
        paths.push(p)
    } else {
        paths
    }
}

/// The library paths after offering each candidate in turn.
pub open spec fn offered_all(paths: Seq<String>, candidates: Seq<String>, is_dir: Seq<bool>) -> Seq<String>
    decreases candidates.len(),
{
    if candidates.len() == 0 {
        paths
    } else {
        offered(
            offered_all(paths, candidates.drop_last(), is_dir.take(candidates.len() - 1)),
            candidates.last(),
            is_dir[candidates.len() - 1],
        )
    }
}

fn contains_path(paths: &Vec<String>, p: &str) -> (r: bool)
    ensures
        r == has_path(paths@, p@),
{
    let mut i: usize = 0;
    while i < paths.len()
        invariant
            0 <= i <= paths.len(),
            forall|k: int| 0 <= k < i ==> !path_matches(#[trigger] paths@[k]@, p@),
        decreases paths.len() - i,
    {
        if paths_equal(paths[i].as_str(), p) {
            return true;
        }
        i += 1;
    }
    false
}

/// The text of a configuration line: the line trimmed.
pub open spec fn trimmed(l: Seq<char>) -> Seq<char> {
    trim_end_ws(trim_start_ws(l))
}

/// The lines of a text, split at each `'\n'`.
pub open spec fn split_lines(s: Seq<char>) -> Seq<Seq<char>>
    decreases s.len(),
{
    if s.len() == 0 {
        seq![Seq::empty()]
    } else {
        let r = split_lines(s.drop_last());
        if s.last() == '\n' {
            r.push(Seq::empty())
        } else {
            r.update(r.len() - 1, r.last().push(s.last()))
        }
    }
}

/// The trimmed lines that are not empty, in order.
pub open spec fn nonempty_trimmed(lines: Seq<Seq<char>>) -> Seq<Seq<char>>
    decreases lines.len(),
{
    if lines.len() == 0 {
        Seq::empty()
    } else {
        let r = nonempty_trimmed(lines.drop_last());
        if trimmed(lines.last()).len() > 0 {
            r.push(trimmed(lines.last()))
        } else {
            r
        }
    }
}

/// The paths that a configuration text names: its lines, trimmed, that are
/// not empty.
pub open spec fn config_paths(text: Seq<char>) -> Seq<Seq<char>> {
    nonempty_trimmed(split_lines(text))
}

/// The text of a configuration file listing `paths`, one per line.
pub open spec fn config_text_of(paths: Seq<Seq<char>>) -> Seq<char>
    decreases paths.len(),
{
    if paths.len() == 0 {
        Seq::empty()
    } else {
        config_text_of(paths.drop_last()) + paths.last() + seq!['\n']
    }
}

proof fn lemma_split_lines_len(s: Seq<char>)
    ensures
        split_lines(s).len() >= 1,
    decreases s.len(),
{
    if s.len() > 0 {
        lemma_split_lines_len(s.drop_last());
    }
}

/// Trims white space at both ends.
fn trim_chars(cs: &Vec<char>) -> (r: String)
    ensures
        r@ == trimmed(cs@),
{
    let mut lo: usize = 0;
    assert(cs@.skip(0) =~= cs@);
    while lo < cs.len() && char_is_whitespace(cs[lo])
        invariant
            0 <= lo <= cs.len(),
            trim_start_ws(cs@) == trim_start_ws(cs@.skip(lo as int)),
        decreases cs.len() - lo,
    {
        assert(cs@.skip(lo as int).drop_first() =~= cs@.skip(lo + 1));
        lo += 1;
    }
    let mut hi: usize = cs.len();
    proof {
        if lo < cs.len() {
            assert(!is_whitespace_char(cs@.skip(lo as int)[0]));
        }
        assert(cs@.skip(lo as int) =~= cs@.subrange(lo as int, hi as int));
    }
    while hi > lo && char_is_whitespace(cs[hi - 1])
        invariant
            0 <= lo <= hi <= cs.len(),
            trim_end_ws(trim_start_ws(cs@)) == trim_end_ws(cs@.subrange(lo as int, hi as int)),
        decreases hi - lo,
    {
        assert(cs@.subrange(lo as int, hi as int).drop_last() =~= cs@.subrange(lo as int, hi - 1));
        hi -= 1;
    }
    proof {
        if hi > lo {
            assert(!is_whitespace_char(cs@.subrange(lo as int, hi as int).last()));
        }
    }
    let mut r = String::new();
    let mut i: usize = lo;
    while i < hi
        invariant
            lo <= i <= hi <= cs.len(),
            r@ == cs@.subrange(lo as int, i as int),
        decreases hi - i,
    {
        push_char(&mut r, cs[i]);
        assert(cs@.subrange(lo as int, i + 1) =~= cs@.subrange(lo as int, i as int).push(cs@[i as int]));
        i += 1;
    }
    r
}

/// The paths named by the text of a library configuration file: each line
/// trimmed, empty lines left out.
pub fn config_lines(text: &str) -> (r: Vec<String>)
    ensures
        views(r@) == config_paths(text@),
{
    let cs = chars_of(text);
    let mut out: Vec<String> = Vec::new();
    let mut cur: Vec<char> = Vec::new();
    let mut i: usize = 0;
    while i < cs.len()
        invariant
            0 <= i <= cs.len(),
            split_lines(cs@.take(i as int)).len() >= 1,
            cur@ == split_lines(cs@.take(i as int)).last(),
            views(out@) == nonempty_trimmed(split_lines(cs@.take(i as int)).drop_last()),
        decreases cs.len() - i,
    {
        let c = cs[i];
        let ghost before = split_lines(cs@.take(i as int));
        assert(cs@.take(i + 1).drop_last() =~= cs@.take(i as int));
        if c == '\n' {
            let t = trim_chars(&cur);
            if !t.as_str().is_empty() {
                proof {
                    assert(views(out@.push(t)) =~= views(out@).push(t@));
                }
                out.push(t);
            }
            cur = Vec::new();
            proof {
                assert(split_lines(cs@.take(i + 1)) == before.push(Seq::empty()));
                assert(split_lines(cs@.take(i + 1)).drop_last() =~= before);
                assert(before.drop_last().push(before.last()) =~= before);
            }
        } else {
            cur.push(c);
            proof {
                assert(split_lines(cs@.take(i + 1)) == before.update(before.len() - 1, before.last().push(c)));
                assert(split_lines(cs@.take(i + 1)).drop_last() =~= before.drop_last());
            }
        }
        i += 1;
    }
    assert(cs@.take(i as int) =~= cs@);
    let ghost all = split_lines(cs@);
    let t = trim_chars(&cur);
    if !t.as_str().is_empty() {
        proof {
            assert(views(out@.push(t)) =~= views(out@).push(t@));
        }
        out.push(t);
    }
    assert(all.drop_last().push(all.last()) =~= all);
    out
}

/// The path of the library configuration file under the user's
/// configuration base: `APPDATA` on Windows, `HOME` elsewhere.
pub fn library_config_path(base: Option<&str>, windows: bool) -> (r: Option<String>)
    ensures
        match base {
            None => r is None,
            Some(b) => r matches Some(p) && p@ == joined_path(
                if windows {
                    joined_path(b@, "powerusd"@)
                } else {
                    joined_path(joined_path(b@, ".config"@), "powerusd"@)
                },
                "library_paths.txt"@,
            ),
        },
{
    match base {
        None => None,
        Some(b) => {
            let dir = if windows {
                path_join(b, "powerusd")
            } else {
                let c = path_join(b, ".config");
                path_join(c.as_str(), "powerusd")
            };
            Some(path_join(dir.as_str(), "library_paths.txt"))
        },
    }
}

// ---------------------------------------------------------------------------
// The library browser
// ---------------------------------------------------------------------------

/// Asset library browser state.
pub struct AssetLibrary {
    /// Whether the library panel is visible.
    pub visible: bool,
    /// Search query.
    pub search_query: String,
    /// Library root paths (user-configurable).
    pub library_paths: Vec<String>,
    /// Current browsing directory.
    pub current_dir: Option<String>,
    /// Cached directory entries.
    pub entries: Vec<AssetEntry>,
    /// Filtered entries (based on search).
    pub filtered: Vec<AssetEntry>,
    /// Path being edited for adding new library.
    pub new_path_input: String,
    /// Show path input field.
    pub show_add_path: bool,
    /// Current view mode (grid or list).
    pub view_mode: AssetViewMode,
    /// Whether to hide file extensions.
    pub hide_extensions: bool,
    /// Whether to hide texture folders (tex, textures).
    pub hide_texture_folders: bool,
}

impl AssetLibrary {
    /// A hidden library with no paths and no entries, in grid view, hiding
    /// extensions and texture folders.
    pub fn new() -> (r: Self)
        ensures
            !r.visible,
            r.search_query@.len() == 0,
            r.library_paths@.len() == 0,
            r.current_dir is None,
            r.entries@.len() == 0,
            r.filtered@.len() == 0,
            r.new_path_input@.len() == 0,
            !r.show_add_path,
            r.view_mode == AssetViewMode::Grid,
            r.hide_extensions,
            r.hide_texture_folders,
    {
        AssetLibrary {
            visible: false,
            search_query: String::new(),
            library_paths: Vec::new(),
            current_dir: None,
            entries: Vec::new(),
            filtered: Vec::new(),
            new_path_input: String::new(),
            show_add_path: false,
            view_mode: AssetViewMode::Grid,
            hide_extensions: true,
            hide_texture_folders: true,
        }
    }

    /// Toggle visibility.
    pub fn toggle(&mut self)
        ensures
            final(self).visible == !old(self).visible,
            final(self).search_query == old(self).search_query,
            final(self).library_paths == old(self).library_paths,
            final(self).current_dir == old(self).current_dir,
            final(self).entries == old(self).entries,
            final(self).filtered == old(self).filtered,
            final(self).view_mode == old(self).view_mode,
            final(self).hide_extensions == old(self).hide_extensions,
            final(self).hide_texture_folders == old(self).hide_texture_folders,
            final(self).new_path_input == old(self).new_path_input,
            final(self).show_add_path == old(self).show_add_path,
    {
        self.visible = !self.visible;
    }

    /// Apply the search filter: the filtered entries are the entries, in
    /// order, whose lower-case name holds the lower-case query (all of them
    /// for an empty query), texture folders left out when they are hidden.
    pub fn apply_filter(&mut self)
        ensures
            final(self).filtered@ == filter_entries(
                old(self).entries@,
                old(self).hide_texture_folders,
                lowercase_of(old(self).search_query@),
            ),
            final(self).visible == old(self).visible,
            final(self).search_query == old(self).search_query,
            final(self).library_paths == old(self).library_paths,
            final(self).current_dir == old(self).current_dir,
            final(self).entries == old(self).entries,
            final(self).view_mode == old(self).view_mode,
            final(self).hide_extensions == old(self).hide_extensions,
            final(self).hide_texture_folders == old(self).hide_texture_folders,
            final(self).new_path_input == old(self).new_path_input,
            final(self).show_add_path == old(self).show_add_path,
    {
        let query = to_lowercase(self.search_query.as_str());
        let hide_tex = self.hide_texture_folders;
        let mut filtered: Vec<AssetEntry> = Vec::new();
        let mut i: usize = 0;
        while i < self.entries.len()
            invariant
                0 <= i <= self.entries.len(),
                hide_tex == self.hide_texture_folders,
                query@ == lowercase_of(self.search_query@),
                filtered@ == filter_entries(self.entries@.take(i as int), hide_tex, query@),
            decreases self.entries.len() - i,
        {
            assert(self.entries@.take(i + 1).drop_last() =~= self.entries@.take(i as int));
            if entry_passes(&self.entries[i], hide_tex, query.as_str()) {
                filtered.push(self.entries[i].duplicate());
            }
            i += 1;
        }
        assert(self.entries@.take(i as int) =~= self.entries@);
        self.filtered = filtered;
    }

    /// Offers a library path, which is a directory when `is_dir`: it is added
    /// when it is a directory not yet among the library paths. Returns
    /// whether it was added (the configuration is then saved).
    pub fn add_library_path(&mut self, path: String, is_dir: bool) -> (added: bool)
        ensures
            added == (is_dir && !has_path(old(self).library_paths@, path@)),
            final(self).library_paths@ == offered(old(self).library_paths@, path, is_dir),
            final(self).visible == old(self).visible,
            final(self).search_query == old(self).search_query,
            final(self).current_dir == old(self).current_dir,
            final(self).entries == old(self).entries,
            final(self).filtered == old(self).filtered,
            final(self).view_mode == old(self).view_mode,
            final(self).new_path_input == old(self).new_path_input,
            final(self).show_add_path == old(self).show_add_path,
            final(self).hide_extensions == old(self).hide_extensions,
            final(self).hide_texture_folders == old(self).hide_texture_folders,
    {
        if is_dir && !contains_path(&self.library_paths, path.as_str()) {
            self.library_paths.push(path);
            true
        } else {
            false
        }
    }

    /// Removes the library path at `index`, if there is one. Returns whether
    /// a path was removed (the configuration is then saved).
    pub fn remove_library_path(&mut self, index: usize) -> (removed: bool)
        ensures
            removed == (index < old(self).library_paths@.len()),
            final(self).library_paths@ == if removed {
                old(self).library_paths@.remove(index as int)
            } else {
                old(self).library_paths@
            },
            final(self).visible == old(self).visible,
            final(self).search_query == old(self).search_query,
            final(self).current_dir == old(self).current_dir,
            final(self).entries == old(self).entries,
            final(self).filtered == old(self).filtered,
            final(self).view_mode == old(self).view_mode,
            final(self).new_path_input == old(self).new_path_input,
            final(self).show_add_path == old(self).show_add_path,
            final(self).hide_extensions == old(self).hide_extensions,
            final(self).hide_texture_folders == old(self).hide_texture_folders,
    {
        if index < self.library_paths.len() {
            self.library_paths.remove(index);
            true
        } else {
            false
        }
    }

    /// Offers each path named by the configuration, in order, as
    /// `add_library_path` does; `is_dir[i]` tells whether `candidates[i]` is
    /// a directory.
    pub fn load_config_paths(&mut self, candidates: &Vec<String>, is_dir: &Vec<bool>)
        requires
            candidates.len() == is_dir.len(),
        ensures
            final(self).library_paths@ == offered_all(old(self).library_paths@, candidates@, is_dir@),
            final(self).visible == old(self).visible,
            final(self).search_query == old(self).search_query,
            final(self).current_dir == old(self).current_dir,
            final(self).entries == old(self).entries,
            final(self).filtered == old(self).filtered,
            final(self).view_mode == old(self).view_mode,
            final(self).new_path_input == old(self).new_path_input,
            final(self).show_add_path == old(self).show_add_path,
            final(self).hide_extensions == old(self).hide_extensions,
            final(self).hide_texture_folders == old(self).hide_texture_folders,
    {
        let mut i: usize = 0;
        while i < candidates.len()
            invariant
                0 <= i <= candidates.len(),
                candidates.len() == is_dir.len(),
                self.library_paths@ == offered_all(
                    old(self).library_paths@,
                    candidates@.take(i as int),
                    is_dir@.take(i as int),
                ),
                self.visible == old(self).visible,
                self.search_query == old(self).search_query,
                self.current_dir == old(self).current_dir,
                self.entries == old(self).entries,
                self.filtered == old(self).filtered,
                self.view_mode == old(self).view_mode,
                self.new_path_input == old(self).new_path_input,
                self.show_add_path == old(self).show_add_path,
                self.hide_extensions == old(self).hide_extensions,
                self.hide_texture_folders == old(self).hide_texture_folders,
            decreases candidates.len() - i,
        {
            proof {
                assert(candidates@.take(i + 1).drop_last() =~= candidates@.take(i as int));
                assert(is_dir@.take(i + 1).take(i as int) =~= is_dir@.take(i as int));
            }
            self.add_library_path(candidates[i].clone(), is_dir[i]);
            i += 1;
        }
        assert(candidates@.take(i as int) =~= candidates@);
        assert(is_dir@.take(i as int) =~= is_dir@);
    }

    /// The text of the configuration file: each library path on a line.
    pub fn config_text(&self) -> (r: String)
        ensures
            r@ == config_text_of(views(self.library_paths@)),
    {
        let ghost vs = views(self.library_paths@);
        let mut r = String::new();
        let mut i: usize = 0;
        while i < self.library_paths.len()
            invariant
                0 <= i <= self.library_paths.len(),
                vs == views(self.library_paths@),
                r@ == config_text_of(vs.take(i as int)),
            decreases self.library_paths.len() - i,
        {
            r.append(self.library_paths[i].as_str());
            push_char(&mut r, '\n');
            assert(vs.take(i + 1).drop_last() =~= vs.take(i as int));
            i += 1;
        }
        assert(vs.take(i as int) =~= vs);
        r
    }

    /// Starts browsing a directory: it becomes the current directory while
    /// its items are scanned.
    pub fn begin_scan(&mut self, dir: String)
        ensures
            final(self).current_dir == Some(dir),
            final(self).visible == old(self).visible,
            final(self).search_query == old(self).search_query,
            final(self).library_paths == old(self).library_paths,
            final(self).entries == old(self).entries,
            final(self).filtered == old(self).filtered,
            final(self).view_mode == old(self).view_mode,
            final(self).hide_texture_folders == old(self).hide_texture_folders,
            final(self).new_path_input == old(self).new_path_input,
            final(self).show_add_path == old(self).show_add_path,
            final(self).hide_extensions == old(self).hide_extensions,
    {
        self.current_dir = Some(dir);
    }

    /// Takes the entries of a finished scan and filters them.
    pub fn receive_entries(&mut self, entries: Vec<AssetEntry>)
        ensures
            final(self).entries == entries,
            final(self).filtered@ == filter_entries(
                entries@,
                old(self).hide_texture_folders,
                lowercase_of(old(self).search_query@),
            ),
            final(self).visible == old(self).visible,
            final(self).search_query == old(self).search_query,
            final(self).library_paths == old(self).library_paths,
            final(self).current_dir == old(self).current_dir,
            final(self).view_mode == old(self).view_mode,
            final(self).hide_texture_folders == old(self).hide_texture_folders,
            final(self).new_path_input == old(self).new_path_input,
            final(self).show_add_path == old(self).show_add_path,
            final(self).hide_extensions == old(self).hide_extensions,
    {
        self.entries = entries;
        self.apply_filter();
    }
}

impl AssetLibrary {
    /// Opens a directory of the listing: it is scanned (see `begin_scan`)
    /// and the search text is cleared.
    pub fn open_directory(&mut self, dir: String)
        ensures
            final(self).current_dir == Some(dir),
            final(self).search_query@.len() == 0,
            final(self).visible == old(self).visible,
            final(self).library_paths == old(self).library_paths,
            final(self).entries == old(self).entries,
            final(self).filtered == old(self).filtered,
            final(self).new_path_input == old(self).new_path_input,
            final(self).show_add_path == old(self).show_add_path,
            final(self).view_mode == old(self).view_mode,
            final(self).hide_extensions == old(self).hide_extensions,
            final(self).hide_texture_folders == old(self).hide_texture_folders,
    {
        self.begin_scan(dir);
        self.search_query = String::new();
    }

    /// Goes back from the current directory. From a library root, the
    /// listing returns to the roots: no current directory, no entries.
    /// From another directory with a parent, the parent is returned, to be
    /// scanned. With no current directory, or one without a parent, nothing
    /// changes.
    pub fn go_back(&mut self) -> (up: Option<String>)
        ensures
            match old(self).current_dir {
                Some(dir) => match parent_of(dir@) {
                    Some(par) => if has_path(old(self).library_paths@, dir@) {
                        &&& up is None
                        &&& final(self).current_dir is None
                        &&& final(self).entries@.len() == 0
                        &&& final(self).filtered@.len() == 0
                    } else {
                        &&& up is Some && up.unwrap()@ == par
                        &&& final(self).current_dir == old(self).current_dir
                        &&& final(self).entries == old(self).entries
                        &&& final(self).filtered == old(self).filtered
                    },
                    None => up is None && final(self).current_dir == old(self).current_dir
                        && final(self).entries == old(self).entries
                        && final(self).filtered == old(self).filtered,
                },
                None => up is None && final(self).current_dir == old(self).current_dir
                    && final(self).entries == old(self).entries
                    && final(self).filtered == old(self).filtered,
            },
            final(self).visible == old(self).visible,
            final(self).search_query == old(self).search_query,
            final(self).library_paths == old(self).library_paths,
            final(self).new_path_input == old(self).new_path_input,
            final(self).show_add_path == old(self).show_add_path,
            final(self).view_mode == old(self).view_mode,
            final(self).hide_extensions == old(self).hide_extensions,
            final(self).hide_texture_folders == old(self).hide_texture_folders,
    {
        let dir = match &self.current_dir {
            Some(d) => d.clone(),
            None => {
                return None;
            },
        };
        match path_parent(dir.as_str()) {
            Some(par) => {
                if contains_path(&self.library_paths, dir.as_str()) {
                    self.current_dir = None;
                    self.entries = Vec::new();
                    self.filtered = Vec::new();
                    None
                } else {
                    Some(par)
                }
            },
            None => None,
        }
    }
}

/// The name shown for an item: its file stem when extensions are hidden and
/// it is a file with a stem, else its name.
pub open spec fn display_name_of(name: Seq<char>, path: Seq<char>, is_dir: bool, hide_ext: bool) -> Seq<char> {
    if hide_ext && !is_dir {
        match file_stem_of(path) {
            Some(stem) => stem,
            None => name,
        }
    } else {
        name
    }
}

/// The name shown for a listed item.
pub fn display_name(name: &str, path: &str, is_dir: bool, hide_ext: bool) -> (r: String)
    ensures
        r@ == display_name_of(name@, path@, is_dir, hide_ext),
{
    if hide_ext && !is_dir {
        match path_file_stem(path) {
            Some(stem) => {
                return stem;
            },
            None => {},
        }
    }
    name.to_string()
}

/// The name of a library root: the last component of its path (the whole
/// path when it has none), shown as `display_name_of` shows it.
pub open spec fn root_name_of(path: Seq<char>, is_dir: bool, hide_ext: bool) -> Seq<char> {
    let name = match file_name_of(path) {
        Some(n) => n,
        None => path,
    };
    display_name_of(name, path, is_dir, hide_ext)
}

/// The name shown for a library root.
pub fn root_display_name(path: &str, is_dir: bool, hide_ext: bool) -> (r: String)
    ensures
        r@ == root_name_of(path@, is_dir, hide_ext),
{
    let name = match path_file_name(path) {
        Some(n) => n,
        None => path.to_string(),
    };
    display_name(name.as_str(), path, is_dir, hide_ext)
}

// ---------------------------------------------------------------------------
// Directory scans
// ---------------------------------------------------------------------------

/// Whether an extension, in lower case, names a USD file.
pub open spec fn is_usd_extension(ext: Seq<char>) -> bool {
    ext == "usd"@ || ext == "usda"@ || ext == "usdc"@ || ext == "usdz"@
}

/// Whether a directory item is listed: it is not hidden (its name does not
/// start with `.`) and it is a directory or a USD file.
pub open spec fn listed(name: Seq<char>, path: Seq<char>, is_dir: bool) -> bool {
    !(name.len() > 0 && name[0] == '.') && (is_dir || match extension_of(path) {
        Some(e) => is_usd_extension(lowercase_of(e)),
        None => false,
    })
}

/// Whether the library lists a directory item.
pub fn is_listed(name: &str, path: &str, is_dir: bool) -> (r: bool)
    ensures
        r == listed(name@, path@, is_dir),
{
    if !name.is_empty() && name.get_char(0) == '.' {
        return false;
    }
    if is_dir {
        return true;
    }
    match path_extension(path) {
        Some(e) => {
            let lower = to_lowercase(e.as_str());
            let l = lower.as_str();
            str_eq(l, "usd") || str_eq(l, "usda") || str_eq(l, "usdc") || str_eq(l, "usdz")
        },
        None => false,
    }
}

/// The image extensions looked for, in order.
pub open spec fn image_exts() -> Seq<Seq<char>> {
    seq!["jpg"@, "jpeg"@, "png"@, "webp"@]
}

/// `base` with each image extension, in order.
pub open spec fn with_image_exts(base: Seq<char>) -> Seq<Seq<char>> {
    image_exts().map_values(|e: Seq<char>| with_extension_of(base, e))
}

/// The file stem of a path, empty where it has none.
pub open spec fn stem_or_empty(path: Seq<char>) -> Seq<char> {
    match file_stem_of(path) {
        Some(s) => s,
        None => Seq::empty(),
    }
}

/// The parent of a path, the path itself where it has none.
pub open spec fn parent_or_self(path: Seq<char>) -> Seq<char> {
    match parent_of(path) {
        Some(p) => p,
        None => path,
    }
}

/// Where the grid thumbnail of an item is looked for, in order: for a
/// folder `cover.*` inside it, then `name.*` beside it; for a file `name.*`
/// then `name_thumb.*` beside it.
pub open spec fn grid_candidates(path: Seq<char>, is_dir: bool) -> Seq<Seq<char>> {
    if is_dir {
        with_image_exts(joined_path(path, "cover"@)) + with_image_exts(path)
    } else {
        with_image_exts(joined_path(parent_or_self(path), stem_or_empty(path))) + with_image_exts(
            joined_path(parent_or_self(path), stem_or_empty(path) + "_thumb"@),
        )
    }
}

/// Where the cover thumbnail of an item is looked for, in order: `cover2.*`
/// inside a folder; `name_cover2.*` beside a file.
pub open spec fn cover_candidates(path: Seq<char>, is_dir: bool) -> Seq<Seq<char>> {
    if is_dir {
        with_image_exts(joined_path(path, "cover2"@))
    } else {
        with_image_exts(joined_path(parent_or_self(path), stem_or_empty(path) + "_cover2"@))
    }
}

/// The first candidate that exists.
pub open spec fn first_existing_of(candidates: Seq<Seq<char>>, exists: Seq<bool>) -> Option<Seq<char>>
    decreases candidates.len(),
{
    if candidates.len() == 0 {
        None
    } else if exists[0] {
        Some(candidates[0])
    } else {
        first_existing_of(candidates.drop_first(), exists.drop_first())
    }
}

/// Appends `base` with each image extension.
fn push_with_image_exts(base: &str, out: &mut Vec<String>)
    ensures
        views(final(out)@) == views(old(out)@) + with_image_exts(base@),
{
    let ghost start = views(out@);
    proof {
        reveal_strlit("jpg");
        reveal_strlit("jpeg");
        reveal_strlit("png");
        reveal_strlit("webp");
    }
    out.push(path_with_extension(base, "jpg"));
    out.push(path_with_extension(base, "jpeg"));
    out.push(path_with_extension(base, "png"));
    out.push(path_with_extension(base, "webp"));
    assert(views(out@) =~= start + with_image_exts(base@));
}

/// The places where the grid and the cover thumbnails of an item are looked
/// for, each list in the order in which they are tried.
pub fn thumbnail_candidates(path: &str, is_dir: bool) -> (r: (Vec<String>, Vec<String>))
    ensures
        views(r.0@) == grid_candidates(path@, is_dir),
        views(r.1@) == cover_candidates(path@, is_dir),
{
    let mut grid: Vec<String> = Vec::new();
    let mut cover: Vec<String> = Vec::new();
    assert(views(grid@) =~= Seq::<Seq<char>>::empty());
    assert(views(cover@) =~= Seq::<Seq<char>>::empty());
    if is_dir {
        let c = path_join(path, "cover");
        push_with_image_exts(c.as_str(), &mut grid);
        push_with_image_exts(path, &mut grid);
        let c2 = path_join(path, "cover2");
        push_with_image_exts(c2.as_str(), &mut cover);
    } else {
        let stem = match path_file_stem(path) {
            Some(s) => s,
            None => String::new(),
        };
        let parent = match path_parent(path) {
            Some(p) => p,
            None => path.to_string(),
        };
        let name_path = path_join(parent.as_str(), stem.as_str());
        push_with_image_exts(name_path.as_str(), &mut grid);
        let mut thumb = stem.clone();
        thumb.append("_thumb");
        let thumb_path = path_join(parent.as_str(), thumb.as_str());
        push_with_image_exts(thumb_path.as_str(), &mut grid);
        let mut cover2 = stem.clone();
        cover2.append("_cover2");
        let cover2_path = path_join(parent.as_str(), cover2.as_str());
        push_with_image_exts(cover2_path.as_str(), &mut cover);
    }
    (grid, cover)
}

/// The first of the candidates that exists; `exists[i]` tells whether
/// `candidates[i]` does.
pub fn first_existing(candidates: &Vec<String>, exists: &Vec<bool>) -> (r: Option<String>)
    requires
        candidates.len() == exists.len(),
    ensures
        match r {
            Some(p) => first_existing_of(views(candidates@), exists@) == Some(p@),
            None => first_existing_of(views(candidates@), exists@) is None,
        },
{
    let ghost vs = views(candidates@);
    let mut i: usize = 0;
    assert(vs.skip(0) =~= vs);
    assert(exists@.skip(0) =~= exists@);
    while i < candidates.len()
        invariant
            0 <= i <= candidates.len(),
            candidates.len() == exists.len(),
            vs == views(candidates@),
            first_existing_of(vs, exists@) == first_existing_of(vs.skip(i as int), exists@.skip(i as int)),
        decreases candidates.len() - i,
    {
        assert(vs.skip(i as int).drop_first() =~= vs.skip(i + 1));
        assert(exists@.skip(i as int).drop_first() =~= exists@.skip(i + 1));
        if exists[i] {
            return Some(candidates[i].clone());
        }
        i += 1;
    }
    None
}

// ---------------------------------------------------------------------------
// Listing order
// ---------------------------------------------------------------------------

/// Lexicographic order of texts, character by character (the order of
/// `String` comparison).
pub open spec fn text_lt(a: Seq<char>, b: Seq<char>) -> bool
    decreases a.len(),
{
    if b.len() == 0 {
        false
    } else if a.len() == 0 {
        true
    } else if a[0] != b[0] {
        (a[0] as int) < (b[0] as int)
    } else {
        text_lt(a.drop_first(), b.drop_first())
    }
}

/// Whether `a` is listed before `b`: directories first, then by lower-case
/// name.
pub open spec fn entry_lt(a: AssetEntry, b: AssetEntry) -> bool {
    (a.is_dir && !b.is_dir) || (a.is_dir == b.is_dir && text_lt(
        lowercase_of(a.name@),
        lowercase_of(b.name@),
    ))
}

/// `e` inserted into `s` after every entry not listed after it.
pub open spec fn insert_entry(s: Seq<AssetEntry>, e: AssetEntry) -> Seq<AssetEntry>
    decreases s.len(),
{
    if s.len() > 0 && entry_lt(e, s.last()) {
        insert_entry(s.drop_last(), e).push(s.last())
    } else {
        s.push(e)
    }
}

/// The entries in listing order, entries that tie keeping their order.
pub open spec fn listing_order(s: Seq<AssetEntry>) -> Seq<AssetEntry>
    decreases s.len(),
{
    if s.len() == 0 {
        Seq::empty()
    } else {
        insert_entry(listing_order(s.drop_last()), s.last())
    }
}

/// Whether text `a` comes before text `b`.
fn chars_lt(a: &Vec<char>, b: &Vec<char>) -> (r: bool)
    ensures
        r == text_lt(a@, b@),
{
    let mut i: usize = 0;
    assert(a@.skip(0) =~= a@);
    assert(b@.skip(0) =~= b@);
    while i < a.len() && i < b.len() && a[i] == b[i]
        invariant
            0 <= i <= a.len(),
            i <= b.len(),
            text_lt(a@, b@) == text_lt(a@.skip(i as int), b@.skip(i as int)),
        decreases a.len() - i,
    {
        assert(a@.skip(i as int).drop_first() =~= a@.skip(i + 1));
        assert(b@.skip(i as int).drop_first() =~= b@.skip(i + 1));
        i += 1;
    }
    if i == b.len() {
        false
    } else if i == a.len() {
        true
    } else {
        a[i] < b[i]
    }
}

/// Where `e` goes in `s`: after the last entry that is not listed after it.
proof fn lemma_insert_entry_at(s: Seq<AssetEntry>, e: AssetEntry, j: int)
    requires
        0 <= j <= s.len(),
        forall|k: int| j <= k < s.len() ==> entry_lt(e, #[trigger] s[k]),
        j == 0 || !entry_lt(e, s[j - 1]),
    ensures
        insert_entry(s, e) == s.insert(j, e),
    decreases s.len(),
{
    if s.len() > 0 && entry_lt(e, s.last()) {
        lemma_insert_entry_at(s.drop_last(), e, j);
        assert(s.drop_last().insert(j, e).push(s.last()) =~= s.insert(j, e));
    } else {
        assert(s.push(e) =~= s.insert(j, e));
    }
}

/// The entries in listing order: directories first, then by lower-case
/// name; entries that tie keep their order.
pub fn sort_entries(entries: Vec<AssetEntry>) -> (r: Vec<AssetEntry>)
    ensures
        r@ == listing_order(entries@),
{
    let mut out: Vec<AssetEntry> = Vec::new();
    let mut keys: Vec<Vec<char>> = Vec::new();
    let mut i: usize = 0;
    while i < entries.len()
        invariant
            0 <= i <= entries.len(),
            out@ == listing_order(entries@.take(i as int)),
            keys.len() == out.len(),
            forall|k: int| 0 <= k < out.len() ==> #[trigger] keys@[k]@ == lowercase_of(out@[k].name@),
        decreases entries.len() - i,
    {
        let e = entries[i].duplicate();
        let lower = to_lowercase(e.name.as_str());
        let key = chars_of(lower.as_str());
        let mut j: usize = out.len();
        while j > 0 && ((e.is_dir && !out[j - 1].is_dir) || (e.is_dir == out[j - 1].is_dir && chars_lt(&key, &keys[j - 1])))
            invariant
                0 <= j <= out.len(),
                keys.len() == out.len(),
                key@ == lowercase_of(e.name@),
                forall|k: int| 0 <= k < out.len() ==> #[trigger] keys@[k]@ == lowercase_of(out@[k].name@),
                forall|k: int| j <= k < out.len() ==> entry_lt(e, #[trigger] out@[k]),
            decreases j,
        {
            j -= 1;
        }
        proof {
            assert(entries@.take(i + 1).drop_last() =~= entries@.take(i as int));
            lemma_insert_entry_at(out@, e, j as int);
        }
        let ghost old_keys = keys@;
        let ghost old_out = out@;
        out.insert(j, e);
        keys.insert(j, key);
        proof {
            assert forall|k: int| 0 <= k < out.len() implies #[trigger] keys@[k]@ == lowercase_of(out@[k].name@) by {
                if k < j {
                    assert(keys@[k] == old_keys[k] && out@[k] == old_out[k]);
                } else if k > j {
                    assert(keys@[k] == old_keys[k - 1] && out@[k] == old_out[k - 1]);
                }
            }
        }
        i += 1;
    }
    assert(entries@.take(i as int) =~= entries@);
    out
}

// ---------------------------------------------------------------------------
// Laws of the listing order
// ---------------------------------------------------------------------------

proof fn lemma_text_lt_asym(a: Seq<char>, b: Seq<char>)
    ensures
        text_lt(a, b) ==> !text_lt(b, a),
    decreases a.len(),
{
    if a.len() > 0 && b.len() > 0 && a[0] == b[0] {
        lemma_text_lt_asym(a.drop_first(), b.drop_first());
    }
}

proof fn lemma_text_lt_trans(a: Seq<char>, b: Seq<char>, c: Seq<char>)
    ensures
        text_lt(a, b) && text_lt(b, c) ==> text_lt(a, c),
    decreases a.len(),
{
    if a.len() > 0 && b.len() > 0 && c.len() > 0 && a[0] == b[0] && b[0] == c[0] {
        lemma_text_lt_trans(a.drop_first(), b.drop_first(), c.drop_first());
    }
}

proof fn lemma_text_lt_total(a: Seq<char>, b: Seq<char>)
    ensures
        !text_lt(a, b) && !text_lt(b, a) ==> a == b,
    decreases a.len(),
{
    if a.len() > 0 && b.len() > 0 && a[0] == b[0] {
        lemma_text_lt_total(a.drop_first(), b.drop_first());
        if a.drop_first() == b.drop_first() {
            assert(a =~= seq![a[0]] + a.drop_first());
            assert(b =~= seq![b[0]] + b.drop_first());
        }
    } else if a.len() == 0 && b.len() == 0 {
        assert(a =~= b);
    } else if a.len() > 0 && b.len() > 0 {
        assert((a[0] as int) != (b[0] as int));
    }
}

proof fn lemma_entry_lt_asym(a: AssetEntry, b: AssetEntry)
    ensures
        entry_lt(a, b) ==> !entry_lt(b, a),
{
    lemma_text_lt_asym(lowercase_of(a.name@), lowercase_of(b.name@));
}

/// Not being listed after is transitive.
proof fn lemma_entry_le_trans(a: AssetEntry, b: AssetEntry, c: AssetEntry)
    ensures
        !entry_lt(b, a) && !entry_lt(c, b) ==> !entry_lt(c, a),
{
    let ka = lowercase_of(a.name@);
    let kb = lowercase_of(b.name@);
    let kc = lowercase_of(c.name@);
    lemma_text_lt_total(ka, kb);
    lemma_text_lt_total(kb, kc);
    lemma_text_lt_trans(ka, kb, kc);
    lemma_text_lt_asym(ka, kc);
    lemma_text_lt_asym(ka, kb);
    lemma_text_lt_asym(kb, kc);
}

/// Whether no entry of `s` comes after one that is listed after it.
pub open spec fn in_listing_order(s: Seq<AssetEntry>) -> bool {
    forall|i: int, j: int| 0 <= i < j < s.len() ==> !entry_lt(#[trigger] s[j], #[trigger] s[i])
}

proof fn lemma_insert_entry_multiset(s: Seq<AssetEntry>, e: AssetEntry)
    ensures
        insert_entry(s, e).to_multiset() == s.to_multiset().insert(e),
        insert_entry(s, e).len() == s.len() + 1,
    decreases s.len(),
{
    broadcast use vstd::seq_lib::to_multiset_build;
    broadcast use vstd::multiset::group_multiset_axioms;

    if s.len() > 0 && entry_lt(e, s.last()) {
        lemma_insert_entry_multiset(s.drop_last(), e);
        assert(s.drop_last().push(s.last()) =~= s);
        assert(insert_entry(s, e).to_multiset() =~= s.to_multiset().insert(e));
    }
}

proof fn lemma_insert_entry_sorted(s: Seq<AssetEntry>, e: AssetEntry)
    requires
        in_listing_order(s),
    ensures
        in_listing_order(insert_entry(s, e)),
    decreases s.len(),
{
    broadcast use vstd::seq_lib::to_multiset_contains;

    if s.len() > 0 && entry_lt(e, s.last()) {
        let t = s.drop_last();
        let last = s.last();
        assert(in_listing_order(t));
        lemma_insert_entry_sorted(t, e);
        lemma_insert_entry_multiset(t, e);
        let r = insert_entry(t, e);
        assert forall|i: int, j: int| 0 <= i < j < r.len() + 1 implies !entry_lt(
            #[trigger] r.push(last)[j],
            #[trigger] r.push(last)[i],
        ) by {
            if j == r.len() {
                let x = r[i];
                assert(r.to_multiset().count(x) > 0);
                assert(t.to_multiset().insert(e).count(x) > 0);
                if x == e {
                    lemma_entry_lt_asym(e, last);
                } else {
                    assert(t.to_multiset().count(x) > 0);
                    assert(t.contains(x));
                    let k = choose|k: int| 0 <= k < t.len() && t[k] == x;
                    assert(s[k] == x && s[s.len() - 1] == last);
                }
            } else {
                assert(r.push(last)[i] == r[i] && r.push(last)[j] == r[j]);
            }
        }
    } else {
        assert forall|i: int, j: int| 0 <= i < j < s.len() + 1 implies !entry_lt(
            #[trigger] s.push(e)[j],
            #[trigger] s.push(e)[i],
        ) by {
            if j == s.len() {
                assert(s[i] == s.push(e)[i]);
                if i < s.len() - 1 {
                    assert(!entry_lt(s[s.len() - 1], s[i]));
                }
                lemma_entry_le_trans(s[i], s.last(), e);
            } else {
                assert(s.push(e)[i] == s[i] && s.push(e)[j] == s[j]);
            }
        }
    }
}

/// A directory listing comes out in order: directories before files, each
/// group by lower-case name; and it holds exactly the scanned entries, each
/// as often as it was scanned.
pub proof fn law_listing_order(s: Seq<AssetEntry>)
    ensures
        in_listing_order(listing_order(s)),
        listing_order(s).to_multiset() == s.to_multiset(),
        listing_order(s).len() == s.len(),
    decreases s.len(),
{
    broadcast use vstd::seq_lib::to_multiset_build;

    if s.len() > 0 {
        law_listing_order(s.drop_last());
        lemma_insert_entry_sorted(listing_order(s.drop_last()), s.last());
        lemma_insert_entry_multiset(listing_order(s.drop_last()), s.last());
        assert(s.drop_last().push(s.last()) =~= s);
    } else {
        assert(s.to_multiset() =~= listing_order(s).to_multiset()) by {
            broadcast use vstd::multiset::group_multiset_axioms;
            assert(s =~= Seq::<AssetEntry>::empty());
            assert(listing_order(s) =~= Seq::<AssetEntry>::empty());
        }
    }
}

// ---------------------------------------------------------------------------
// Laws of the configuration file
// ---------------------------------------------------------------------------

proof fn lemma_split_push(t: Seq<char>, c: char)
    ensures
        split_lines(t.push(c)) == (if c == '\n' {
            split_lines(t).push(Seq::empty())
        } else {
            split_lines(t).update(split_lines(t).len() - 1, split_lines(t).last().push(c))
        }),
{
    assert(t.push(c).drop_last() =~= t);
}

/// Text without line breaks extends the last line.
proof fn lemma_split_append(t: Seq<char>, q: Seq<char>)
    requires
        !q.contains('\n'),
    ensures
        split_lines(t + q) == split_lines(t).update(split_lines(t).len() - 1, split_lines(t).last() + q),
    decreases q.len(),
{
    lemma_split_lines_len(t);
    if q.len() == 0 {
        assert(t + q =~= t);
        assert(split_lines(t).last() + q =~= split_lines(t).last());
        assert(split_lines(t).update(split_lines(t).len() - 1, split_lines(t).last()) =~= split_lines(t));
    } else {
        let q0 = q.drop_last();
        let c = q.last();
        assert(!q0.contains('\n')) by {
            if q0.contains('\n') {
                let k = choose|k: int| 0 <= k < q0.len() && q0[k] == '\n';
                assert(q[k] == '\n');
            }
        }
        assert(c != '\n') by {
            assert(q[q.len() - 1] == c);
        }
        lemma_split_append(t, q0);
        assert(t + q =~= (t + q0).push(c));
        lemma_split_push(t + q0, c);
        lemma_split_lines_len(t + q0);
        let r = split_lines(t);
        let s0 = split_lines(t + q0);
        assert(s0 == r.update(r.len() - 1, r.last() + q0));
        assert(s0.len() == r.len());
        assert(s0.last() == r.last() + q0);
        assert((r.last() + q0).push(c) =~= r.last() + q);
        assert(split_lines(t + q) == s0.update(s0.len() - 1, s0.last().push(c)));
        assert(split_lines(t + q) =~= r.update(r.len() - 1, r.last() + q));
    }
}

/// The lines of a configuration text are its paths, then an empty line.
proof fn lemma_split_config(paths: Seq<Seq<char>>)
    requires
        forall|i: int| 0 <= i < paths.len() ==> !(#[trigger] paths[i]).contains('\n'),
    ensures
        split_lines(config_text_of(paths)) == paths.push(Seq::empty()),
    decreases paths.len(),
{
    if paths.len() == 0 {
        assert(config_text_of(paths) =~= Seq::<char>::empty());
        assert(split_lines(Seq::<char>::empty()) =~= seq![Seq::<char>::empty()]);
        assert(paths.push(Seq::empty()) =~= seq![Seq::<char>::empty()]);
    } else {
        let ps = paths.drop_last();
        let p = paths.last();
        assert(forall|i: int| 0 <= i < ps.len() ==> ps[i] == paths[i]);
        lemma_split_config(ps);
        let t = config_text_of(ps);
        assert(!p.contains('\n')) by {
            assert(paths[paths.len() - 1] == p);
        }
        lemma_split_append(t, p);
        lemma_split_push(t + p, '\n');
        assert(config_text_of(paths) =~= (t + p).push('\n'));
        assert(ps.push(Seq::empty()).update(ps.len() as int, Seq::<char>::empty() + p) =~= paths) by {
            assert(Seq::<char>::empty() + p =~= p);
            assert(ps.push(p) =~= paths);
        }
    }
}

proof fn lemma_trim_empty()
    ensures
        trimmed(Seq::<char>::empty()) == Seq::<char>::empty(),
{
    assert(trim_start_ws(Seq::<char>::empty()) == Seq::<char>::empty());
    assert(trim_end_ws(Seq::<char>::empty()) == Seq::<char>::empty());
}

proof fn lemma_nonempty_trimmed_fixed(lines: Seq<Seq<char>>)
    requires
        forall|i: int| 0 <= i < lines.len() ==> #[trigger] trimmed(lines[i]) == lines[i] && lines[i].len() > 0,
    ensures
        nonempty_trimmed(lines) == lines,
    decreases lines.len(),
{
    if lines.len() > 0 {
        let l = lines.drop_last();
        assert(forall|i: int| 0 <= i < l.len() ==> l[i] == lines[i]);
        lemma_nonempty_trimmed_fixed(l);
        assert(trimmed(lines[lines.len() - 1]) == lines[lines.len() - 1]);
        assert(l.push(lines.last()) =~= lines);
    }
}

/// Saved library paths load back as they were: the paths named by the text
/// of a configuration file that lists `paths` are `paths`, when each is a
/// single line, not empty and without surrounding white space.
pub proof fn law_config_round_trip(paths: Seq<Seq<char>>)
    requires
        forall|i: int| 0 <= i < paths.len() ==> !(#[trigger] paths[i]).contains('\n'),
        forall|i: int| 0 <= i < paths.len() ==> (#[trigger] paths[i]).len() > 0,
        forall|i: int| 0 <= i < paths.len() ==> trimmed(#[trigger] paths[i]) == paths[i],
    ensures
        config_paths(config_text_of(paths)) == paths,
{
    lemma_split_config(paths);
    lemma_trim_empty();
    let all = paths.push(Seq::<char>::empty());
    assert(all.drop_last() =~= paths);
    assert(all.last() == Seq::<char>::empty());
    assert(forall|i: int| 0 <= i < paths.len() ==> #[trigger] trimmed(paths[i]) == paths[i] && paths[i].len() > 0);
    lemma_nonempty_trimmed_fixed(paths);
}

/// With no search text and texture folders shown, the filter keeps every
/// entry, in order.
pub proof fn law_filter_keeps_all(es: Seq<AssetEntry>)
    ensures
        filter_entries(es, false, Seq::empty()) == es,
    decreases es.len(),
{
    if es.len() > 0 {
        law_filter_keeps_all(es.drop_last());
        assert(es.drop_last().push(es.last()) =~= es);
    }
}

/// The filter keeps exactly the entries that pass it: every kept entry
/// passes, and the kept entries are as many as the entries that pass.
pub proof fn law_filter_exact(es: Seq<AssetEntry>, hide: bool, query: Seq<char>)
    ensures
        forall|i: int| 0 <= i < filter_entries(es, hide, query).len() ==> passes_filter(
            #[trigger] filter_entries(es, hide, query)[i],
            hide,
            query,
        ),
        filter_entries(es, hide, query).len() == es.filter(|e: AssetEntry| passes_filter(e, hide, query)).len(),
    decreases es.len(),
{
    reveal(Seq::filter);
    if es.len() > 0 {
        law_filter_exact(es.drop_last(), hide, query);
        let r = filter_entries(es.drop_last(), hide, query);
        assert forall|i: int| 0 <= i < filter_entries(es, hide, query).len() implies passes_filter(
            #[trigger] filter_entries(es, hide, query)[i],
            hide,
            query,
        ) by {
            if i < r.len() {
                assert(filter_entries(es, hide, query)[i] == r[i]);
            }
        }
    }
}

} // verus!
