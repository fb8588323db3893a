//! Which thumbnails the library shows, waits for or starts loading: the
//! bookkeeping of the thumbnail cache (the images themselves are decoded and
//! uploaded by the caller).

use vstd::prelude::*;

use crate::library::{has_path, offered, path_matches};
use crate::paths::{paths_equal, same_path};

verus! {

/// What to do about a thumbnail that is asked for.
#[derive(Debug, Clone, Copy, PartialEq, Eq, Structural)]
pub enum ThumbnailAction {
    /// It is loaded: show it.
    Show,
    /// It is loading, or it failed before: show nothing for now.
    Wait,
    /// Start loading it in the background.
    Load,
}

/// The thumbnails loaded, loading, and failed (never retried), by path.
pub struct ThumbnailTracker {
    pub loaded: Vec<String>,
    pub loading: Vec<String>,
    pub failed: Vec<String>,
}

/// The results taken from the loaders in one frame, at most.
pub open spec fn results_per_frame() -> nat {
    21
}

/// Whether another finished load is taken in this frame, `taken` having
/// been taken already.
pub fn take_another(taken: u32) -> (r: bool)
    ensures
        r == (taken < results_per_frame()),
{
    taken < 21
}

/// The paths of `v` other than `p`.
pub open spec fn without_path(v: Seq<String>, p: Seq<char>) -> Seq<String> {
    v.filter(|s: String| !path_matches(s@, p))
}

/// What to do about a thumbnail asked for: show it when loaded, wait when
/// it failed or is loading, else load it.
pub open spec fn action_of(loaded: Seq<String>, loading: Seq<String>, failed: Seq<String>, p: Seq<char>) -> ThumbnailAction {
    if has_path(loaded, p) {
        ThumbnailAction::Show
    } else if has_path(failed, p) || has_path(loading, p) {
        ThumbnailAction::Wait
    } else {
        ThumbnailAction::Load
    }
}

/// What the tracker does about a thumbnail asked for.
pub open spec fn action_for(t: ThumbnailTracker, p: Seq<char>) -> ThumbnailAction {
    action_of(t.loaded@, t.loading@, t.failed@, p)
}

fn contains(v: &Vec<String>, p: &str) -> (r: bool)
    ensures
        r == has_path(v@, p@),
{
    let mut i: usize = 0;
    while i < v.len()
        invariant
            0 <= i <= v.len(),
            forall|k: int| 0 <= k < i ==> !path_matches(#[trigger] v@[k]@, p@),
        decreases v.len() - i,
    {
        if paths_equal(v[i].as_str(), p) {
            return true;
        }
        i += 1;
    }
    false
}

fn insert(v: &mut Vec<String>, p: &String)
    ensures
        final(v)@ == offered(old(v)@, *p, true),
{
    if !contains(v, p.as_str()) {
        v.push(p.clone());
    }
}

impl ThumbnailTracker {
    /// Nothing loaded, loading or failed.
    pub fn new() -> (r: Self)
        ensures
            r.loaded@.len() == 0,
            r.loading@.len() == 0,
            r.failed@.len() == 0,
    {
        ThumbnailTracker { loaded: Vec::new(), loading: Vec::new(), failed: Vec::new() }
    }

    /// A thumbnail is asked for: shown when loaded, waited for when loading
    /// or failed, and otherwise its loading starts.
    pub fn request(&mut self, path: &String) -> (r: ThumbnailAction)
        ensures
            r == action_for(*old(self), path@),
            final(self).loaded == old(self).loaded,
            final(self).failed == old(self).failed,
            final(self).loading@ == if r == ThumbnailAction::Load {
                old(self).loading@.push(*path)
            } else {
                old(self).loading@
            },
    {
        if contains(&self.loaded, path.as_str()) {
            ThumbnailAction::Show
        } else if contains(&self.failed, path.as_str()) || contains(&self.loading, path.as_str()) {
            ThumbnailAction::Wait
        } else {
            self.loading.push(path.clone());
            ThumbnailAction::Load
        }
    }

    /// A load finished: the path is no longer loading, and it is loaded or
    /// failed.
    pub fn finish(&mut self, path: &String, succeeded: bool)
        ensures
            final(self).loading@ == without_path(old(self).loading@, path@),
            final(self).loaded@ == offered(old(self).loaded@, *path, succeeded),
            final(self).failed@ == offered(old(self).failed@, *path, !succeeded),
    {
        let ghost pred = |s: String| !path_matches(s@, path@);
        let mut kept: Vec<String> = Vec::new();
        let mut i: usize = 0;
        while i < self.loading.len()
            invariant
                0 <= i <= self.loading.len(),
                self.loading == old(self).loading,
                pred == (|s: String| !path_matches(s@, path@)),
                kept@ == self.loading@.take(i as int).filter(pred),
            decreases self.loading.len() - i,
        {
            proof {
                assert(self.loading@.take(i + 1).drop_last() =~= self.loading@.take(i as int));
                reveal(Seq::filter);
            }
            if !paths_equal(self.loading[i].as_str(), path.as_str()) {
                kept.push(self.loading[i].clone());
            }
            i += 1;
        }
        assert(self.loading@.take(i as int) =~= self.loading@);
        self.loading = kept;
        if succeeded {
            insert(&mut self.loaded, path);
        } else {
            insert(&mut self.failed, path);
        }
    }
}

/// A thumbnail is loaded once: asked for again after its loading started,
/// it is waited for; after its load succeeded it is shown; after its load
/// failed it is waited for and never loaded again.
pub proof fn law_thumbnail_loads_once(loaded: Seq<String>, loading: Seq<String>, failed: Seq<String>, p: String)
    requires
        action_of(loaded, loading, failed, p@) == ThumbnailAction::Load,
    ensures
        action_of(loaded, loading.push(p), failed, p@) == ThumbnailAction::Wait,
        action_of(offered(loaded, p, true), without_path(loading.push(p), p@), failed, p@)
            == ThumbnailAction::Show,
        action_of(loaded, without_path(loading.push(p), p@), offered(failed, p, true), p@)
            == ThumbnailAction::Wait,
{
    let started = loading.push(p);
    assert(path_matches(started[started.len() - 1]@, p@));
    let l = offered(loaded, p, true);
    assert(path_matches(l[l.len() - 1]@, p@));
    let f = offered(failed, p, true);
    assert(path_matches(f[f.len() - 1]@, p@));
}

} // verus!
