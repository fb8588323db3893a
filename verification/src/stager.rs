//! The stage assembler: a forest of staged assets, scene settings, and an
//! undo/redo history of snapshots.
//!
//! `T` is the transform payload of each asset and `N` the numeric scene
//! settings (metersPerUnit, frame rates, time codes); both are carried as
//! opaque values.

use std::time::Instant;
use vstd::prelude::*;

use crate::asset::{
    collect_selected_assets, collect_selected_ids, deselect_all_in, deselected, find_asset_in,
    find_asset_mut_in, find_preorder, fresh, lemma_deselected_none, lemma_locate_valid, lemma_models,
    lemma_models_push, lemma_none_selected_ids, lemma_select_at,
    lemma_node_at_update_all, locate, model, models, node_at, opt_view, regenerate_ids, remove_asset_in,
    remove_id, remove_ids, renamed, selected_assets, selected_ids, update_at, AssetModel, StagerAsset,
};
use crate::text::views;
use crate::func::{deterministic, result_of};
use crate::ids::is_generated_id;
use crate::kinds::{StagerTab, UpAxis, UsdKind};

verus! {

/// Scene settings for the stage.
pub struct StagerSceneSettings<N> {
    pub default_prim: String,
    pub create_root_prim: bool,
    pub up_axis: UpAxis,
    /// metersPerUnit, framesPerSecond, timeCodesPerSecond, start and end time codes.
    pub numbers: N,
}

pub struct SettingsModel<N> {
    pub default_prim: Seq<char>,
    pub create_root_prim: bool,
    pub up_axis: UpAxis,
    pub numbers: N,
}

pub open spec fn settings_model<N>(s: StagerSceneSettings<N>) -> SettingsModel<N> {
    SettingsModel {
        default_prim: s.default_prim@,
        create_root_prim: s.create_root_prim,
        up_axis: s.up_axis,
        numbers: s.numbers,
    }
}

/// Default settings: default prim `World`, no root prim, Z up.
pub open spec fn default_settings<N>(numbers: N) -> SettingsModel<N> {
    SettingsModel { default_prim: "World"@, create_root_prim: false, up_axis: UpAxis::Z, numbers }
}

impl<N: Copy> StagerSceneSettings<N> {
    /// Default settings: default prim `World`, no root prim, Z up.
    pub fn new(numbers: N) -> (r: Self)
        ensures
            settings_model(r) == default_settings(numbers),
    {
        StagerSceneSettings {
            default_prim: "World".to_string(),
            create_root_prim: false,
            up_axis: UpAxis::Z,
            numbers,
        }
    }

    pub fn copy(&self) -> (r: Self)
        ensures
            settings_model(r) == settings_model(*self),
    {
        StagerSceneSettings {
            default_prim: self.default_prim.clone(),
            create_root_prim: self.create_root_prim,
            up_axis: self.up_axis,
            numbers: self.numbers,
        }
    }
}

impl<N: Copy> Clone for StagerSceneSettings<N> {
    fn clone(&self) -> (r: Self)
        ensures
            settings_model(r) == settings_model(*self),
    {
        self.copy()
    }
}

/// Unit scale that a preset asks for (metersPerUnit 1 or 0.01).
#[derive(Debug, Clone, Copy, PartialEq, Eq, Structural)]
pub enum UnitScale {
    Meters,
    Centimeters,
}

/// Assembly preset.
#[derive(Debug, Clone, Copy, PartialEq, Eq, Structural)]
pub enum AssemblyPreset {
    Blender,
    Max3dsCm,
    Custom,
}

pub open spec fn preset_label(p: AssemblyPreset) -> Seq<char> {
    match p {
        AssemblyPreset::Blender => "Blender"@,
        AssemblyPreset::Max3dsCm => "3DS Max (cm)"@,
        AssemblyPreset::Custom => "Custom"@,
    }
}

impl AssemblyPreset {
    pub fn label(&self) -> (r: &'static str)
        ensures
            r@ == preset_label(*self),
    {
        match self {
            AssemblyPreset::Blender => "Blender",
            AssemblyPreset::Max3dsCm => "3DS Max (cm)",
            AssemblyPreset::Custom => "Custom",
        }
    }

    /// Applies the preset to the settings. The returned unit scale is the
    /// metersPerUnit the preset sets; `Custom` changes nothing.
    pub fn apply<N>(&self, settings: &mut StagerSceneSettings<N>) -> (r: Option<UnitScale>)
        ensures
            match *self {
                AssemblyPreset::Blender => r == Some(UnitScale::Meters) && settings_model(
                    *final(settings),
                ) == (SettingsModel {
                    default_prim: "World"@,
                    create_root_prim: false,
                    up_axis: UpAxis::Z,
                    ..settings_model(*old(settings))
                }),
                AssemblyPreset::Max3dsCm => r == Some(UnitScale::Centimeters) && settings_model(
                    *final(settings),
                ) == (SettingsModel {
                    default_prim: Seq::empty(),
                    create_root_prim: false,
                    up_axis: UpAxis::Z,
                    ..settings_model(*old(settings))
                }),
                AssemblyPreset::Custom => r is None && settings_model(*final(settings))
                    == settings_model(*old(settings)),
            },
    {
        match self {
            AssemblyPreset::Blender => {
                settings.default_prim = "World".to_string();
                settings.create_root_prim = false;
                settings.up_axis = UpAxis::Z;
                Some(UnitScale::Meters)
            },
            AssemblyPreset::Max3dsCm => {
                settings.default_prim = String::new();
                settings.create_root_prim = false;
                settings.up_axis = UpAxis::Z;
                Some(UnitScale::Centimeters)
            },
            AssemblyPreset::Custom => None,
        }
    }
}

// ============================================================================
// HISTORY
// ============================================================================

/// A saved state of the stage.
pub struct HistoryState<T, N> {
    pub assets: Vec<StagerAsset<T>>,
    pub settings: StagerSceneSettings<N>,
}

/// The value of a stage's editable state: its assets and settings.
pub struct Snapshot<T, N> {
    pub assets: Seq<AssetModel<T>>,
    pub settings: SettingsModel<N>,
}

pub open spec fn snapshot_of<T, N>(h: HistoryState<T, N>) -> Snapshot<T, N> {
    Snapshot { assets: models(h.assets@), settings: settings_model(h.settings) }
}

/// The current state, the saved states and the position in them.
pub struct Timeline<T, N> {
    pub state: Snapshot<T, N>,
    pub history: Seq<Snapshot<T, N>>,
    pub index: nat,
}

/// Maximum number of saved states kept by `save`.
pub const MAX_HISTORY: usize = 50;

/// Saving: the states after the position are dropped, the current state
/// is appended, the oldest one goes when more than `MAX_HISTORY` are kept,
/// and the position moves past the end.
pub open spec fn saved<T, N>(t: Timeline<T, N>) -> Timeline<T, N> {
    let kept = if t.index < t.history.len() {
        t.history.take(t.index as int)
    } else {
        t.history
    };
    let h = kept.push(t.state);
    let h2 = if h.len() > MAX_HISTORY {
        h.drop_first()
    } else {
        h
    };
    Timeline { state: t.state, history: h2, index: h2.len() }
}

/// Undoing: at the end, the current state is saved first; then the
/// position steps back and the state there becomes current.
pub open spec fn undone<T, N>(t: Timeline<T, N>) -> Timeline<T, N> {
    if t.index > 0 {
        let h = if t.index == t.history.len() {
            t.history.push(t.state)
        } else {
            t.history
        };
        let i = (t.index - 1) as nat;
        Timeline { state: if i < h.len() { h[i as int] } else { t.state }, history: h, index: i }
    } else {
        t
    }
}

/// Redoing: if a later saved state exists, the position steps forward and
/// that state becomes current.
pub open spec fn redone<T, N>(t: Timeline<T, N>) -> Timeline<T, N> {
    if t.index + 1 < t.history.len() {
        let i = t.index + 1;
        Timeline { state: t.history[i as int], history: t.history, index: i }
    } else {
        t
    }
}

/// Clearing forgets every saved state.
pub open spec fn cleared<T, N>(t: Timeline<T, N>) -> Timeline<T, N> {
    Timeline { state: t.state, history: Seq::empty(), index: 0 }
}

/// A saving edit: the state is saved, then replaced by `s`.
pub open spec fn edited<T, N>(t: Timeline<T, N>, s: Snapshot<T, N>) -> Timeline<T, N> {
    Timeline { state: s, ..saved(t) }
}

/// The position is within the saved states, at most `MAX_HISTORY + 1` of
/// them are kept, and at most `MAX_HISTORY` while the position is at the end.
pub open spec fn timeline_wf<T, N>(t: Timeline<T, N>) -> bool {
    &&& t.index <= t.history.len() <= MAX_HISTORY + 1
    &&& t.index == t.history.len() ==> t.history.len() <= MAX_HISTORY
}

/// Where the position points at a saved state, that state is current.
pub open spec fn in_sync<T, N>(t: Timeline<T, N>) -> bool {
    t.index < t.history.len() ==> t.state == t.history[t.index as int]
}

/// Main stager state.
pub struct Stager<T, N> {
    // Asset data
    pub assets: Vec<StagerAsset<T>>,
    pub settings: StagerSceneSettings<N>,
    pub preset: AssemblyPreset,
    // Base file (for inject mode)
    pub base_content: Option<String>,
    pub base_file_path: Option<String>,
    // Global reference path
    pub global_ref_path: String,
    // Export settings
    pub export_name: String,
    // UI state
    pub visible: bool,
    pub search_query: String,
    pub rename_id: Option<String>,
    pub rename_buffer: String,
    pub active_tab: StagerTab,
    // History for undo/redo
    pub history: UndoHistory<T, N>,
    // Selection state
    pub last_selected_id: Option<String>,
    // Auto-scale imports
    pub auto_scale_imports: bool,
    // Status message
    pub status_message: Option<(String, Instant)>,
}

/// Saved states for undo/redo and the position in them.
pub struct UndoHistory<T, N> {
    states: Vec<HistoryState<T, N>>,
    index: usize,
}

impl<T, N> UndoHistory<T, N> {
    /// The saved states.
    pub closed spec fn past(&self) -> Seq<Snapshot<T, N>> {
        self.states@.map_values(|h: HistoryState<T, N>| snapshot_of(h))
    }

    /// The position in the saved states.
    pub closed spec fn cursor(&self) -> nat {
        self.index as nat
    }

    /// An empty history.
    pub fn new() -> (r: Self)
        ensures
            r.past() == Seq::<Snapshot<T, N>>::empty(),
            r.cursor() == 0,
    {
        let r = UndoHistory { states: Vec::new(), index: 0 };
        assert(r.past() =~= Seq::<Snapshot<T, N>>::empty());
        r
    }
}

/// Reads the monotonic clock for a status message.
/// Calls `Instant::now`; nothing is claimed of the result.
#[verifier::external_body]
fn status_time() -> Instant {
    Instant::now()
}

impl<T, N> Stager<T, N> {
    /// The assets and settings.
    pub open spec fn snapshot(&self) -> Snapshot<T, N> {
        Snapshot { assets: models(self.assets@), settings: settings_model(self.settings) }
    }

    pub open spec fn timeline(&self) -> Timeline<T, N> {
        Timeline { state: self.snapshot(), history: self.history.past(), index: self.history.cursor() }
    }

    /// The text of the status message, if any.
    pub open spec fn status(&self) -> Option<Seq<char>> {
        match self.status_message {
            Some(m) => Some(m.0@),
            None => None,
        }
    }

    /// The id last selected, if any.
    pub open spec fn last_selected(&self) -> Option<Seq<char>> {
        match self.last_selected_id {
            Some(m) => Some(m@),
            None => None,
        }
    }

    /// The fields outside the snapshot and the history that an edit keeps.
    pub open spec fn same_panel(&self, other: &Self) -> bool {
        &&& self.preset == other.preset
        &&& opt_view(self.base_content) == opt_view(other.base_content)
        &&& opt_view(self.base_file_path) == opt_view(other.base_file_path)
        &&& self.global_ref_path@ == other.global_ref_path@
        &&& self.export_name@ == other.export_name@
        &&& self.visible == other.visible
        &&& self.search_query@ == other.search_query@
        &&& opt_view(self.rename_id) == opt_view(other.rename_id)
        &&& self.rename_buffer@ == other.rename_buffer@
        &&& self.active_tab == other.active_tab
        &&& self.auto_scale_imports == other.auto_scale_imports
    }

    /// The current status message and the instant it was set.
    pub fn status_message(&self) -> (r: &Option<(String, Instant)>)
        ensures
            match *r {
                Some(m) => self.status() == Some(m.0@),
                None => self.status() is None,
            },
    {
        &self.status_message
    }

    /// Sets the status message.
    pub fn set_status(&mut self, message: &str)
        ensures
            final(self).status() == Some(message@),
            final(self).timeline() == old(self).timeline(),
            final(self).assets == old(self).assets,
            final(self).settings == old(self).settings,
            final(self).same_panel(old(self)),
            final(self).last_selected() == old(self).last_selected(),
    {
        self.status_message = Some((message.to_string(), status_time()));
    }

    /// Toggle visibility.
    pub fn toggle(&mut self)
        ensures
            final(self).visible == !old(self).visible,
            final(self).timeline() == old(self).timeline(),
    {
        self.visible = !self.visible;
    }

    /// Show the stager.
    pub fn show(&mut self)
        ensures
            final(self).visible,
            final(self).timeline() == old(self).timeline(),
    {
        self.visible = true;
    }

    /// Hide the stager.
    pub fn hide_stager(&mut self)
        ensures
            !final(self).visible,
            final(self).timeline() == old(self).timeline(),
    {
        self.visible = false;
    }
}

/// Copies of a sequence of assets.
pub fn clone_assets<T: Copy>(v: &Vec<StagerAsset<T>>) -> (r: Vec<StagerAsset<T>>)
    ensures
        models(r@) == models(v@),
{
    let mut r: Vec<StagerAsset<T>> = Vec::new();
    let mut i: usize = 0;
    proof {
        lemma_models(v@);
    }
    while i < v.len()
        invariant
            0 <= i <= v.len(),
            models(r@) == models(v@).take(i as int),
            models(v@).len() == v@.len(),
            forall|j: int| 0 <= j < v@.len() ==> #[trigger] models(v@)[j] == model(v@[j]),
        decreases v.len() - i,
    {
        let c = v[i].deep_clone();
        proof {
            lemma_models_push(r@, c);
            assert(models(v@).take(i + 1) =~= models(v@).take(i as int).push(model(v@[i as int])));
        }
        r.push(c);
        i += 1;
    }
    assert(models(v@).take(i as int) =~= models(v@));
    r
}

fn snapshot_state<T: Copy, N: Copy>(assets: &Vec<StagerAsset<T>>, settings: &StagerSceneSettings<N>) -> (r: HistoryState<T, N>)
    ensures
        snapshot_of(r) == (Snapshot { assets: models(assets@), settings: settings_model(*settings) }),
{
    HistoryState { assets: clone_assets(assets), settings: settings.copy() }
}

pub open spec fn state_of<T, N>(assets: Seq<StagerAsset<T>>, settings: StagerSceneSettings<N>) -> Snapshot<T, N> {
    Snapshot { assets: models(assets), settings: settings_model(settings) }
}

impl<T: Copy, N: Copy> UndoHistory<T, N> {
    pub open spec fn timeline_with(&self, state: Snapshot<T, N>) -> Timeline<T, N> {
        Timeline { state, history: self.past(), index: self.cursor() }
    }

    /// Saves the current state (see `saved`).
    pub fn save(&mut self, assets: &Vec<StagerAsset<T>>, settings: &StagerSceneSettings<N>)
        ensures
            final(self).timeline_with(state_of(assets@, *settings)) == saved(
                old(self).timeline_with(state_of(assets@, *settings)),
            ),
    {
        let ghost t = old(self).timeline_with(state_of(assets@, *settings));
        if self.index < self.states.len() {
            self.states.truncate(self.index);
            assert(self.past() =~= t.history.take(t.index as int));
        }
        let snap = snapshot_state(assets, settings);
        let ghost before = self.past();
        self.states.push(snap);
        assert(self.past() =~= before.push(t.state));
        if self.states.len() > MAX_HISTORY {
            let ghost b2 = self.past();
            self.states.remove(0);
            assert(self.past() =~= b2.drop_first());
        }
        self.index = self.states.len();
    }

    /// Steps back (see `undone`), restoring the saved state into `assets`
    /// and `settings`.
    pub fn undo(&mut self, assets: &mut Vec<StagerAsset<T>>, settings: &mut StagerSceneSettings<N>)
        ensures
            final(self).timeline_with(state_of(final(assets)@, *final(settings))) == undone(
                old(self).timeline_with(state_of(old(assets)@, *old(settings))),
            ),
    {
        let ghost t = old(self).timeline_with(state_of(old(assets)@, *old(settings)));
        if self.index > 0 {
            if self.index == self.states.len() {
                let snap = snapshot_state(assets, settings);
                let ghost before = self.past();
                self.states.push(snap);
                assert(self.past() =~= before.push(t.state));
            }
            self.index = self.index - 1;
            if self.index < self.states.len() {
                let st = &self.states[self.index];
                *assets = clone_assets(&st.assets);
                *settings = st.settings.copy();
            }
        }
    }

    /// Steps forward (see `redone`), restoring the saved state.
    pub fn redo(&mut self, assets: &mut Vec<StagerAsset<T>>, settings: &mut StagerSceneSettings<N>)
        ensures
            final(self).timeline_with(state_of(final(assets)@, *final(settings))) == redone(
                old(self).timeline_with(state_of(old(assets)@, *old(settings))),
            ),
    {
        let len = self.states.len();
        let last = if len > 0 { len - 1 } else { 0 };
        if self.index < last {
            self.index = self.index + 1;
            let st = &self.states[self.index];
            *assets = clone_assets(&st.assets);
            *settings = st.settings.copy();
        }
    }

    /// Forgets every saved state.
    pub fn clear(&mut self)
        ensures
            final(self).past() == Seq::<Snapshot<T, N>>::empty(),
            final(self).cursor() == 0,
    {
        self.states.clear();
        self.index = 0;
        assert(self.past() =~= Seq::<Snapshot<T, N>>::empty());
    }
}

/// The model of a copy made by "duplicate": a new identifier, the name
/// with `_copy` appended, not selected, and the subtree renamed.
pub open spec fn duplicate_of<T>(a: AssetModel<T>, d: AssetModel<T>) -> bool {
    &&& is_generated_id(d.id)
    &&& d == AssetModel {
        id: d.id,
        name: a.name + "_copy"@,
        selected: false,
        children: d.children,
        ..a
    }
    &&& renamed(a.children, d.children)
}

/// The model of the wrapper made by "wrap in Xform".
pub open spec fn wrapper_of<T>(x: AssetModel<T>, transform: T, taken: Seq<AssetModel<T>>) -> bool {
    &&& is_generated_id(x.id)
    &&& x == AssetModel {
        has_explicit_transforms: true,
        children: taken,
        ..fresh(x.id, "Xform"@, transform)
    }
}

/// The model of an instance made from `source`.
pub open spec fn instance_of<T>(source: AssetModel<T>, x: AssetModel<T>) -> bool {
    &&& is_generated_id(x.id)
    &&& x == AssetModel {
        name: source.name + "_instance"@,
        reference_type: Some(crate::kinds::ReferenceType::Internal),
        reference_target: Some(source.name),
        has_explicit_transforms: true,
        instanceable: true,
        transform: x.transform,
        ..fresh(x.id, x.name, x.transform)
    }
}

/// The assets after "select": without `multi`, everything is deselected
/// first; then the asset carrying `id` (found level-first) is selected.
pub open spec fn after_select<T>(s: Seq<AssetModel<T>>, id: Seq<char>, multi: bool) -> Seq<AssetModel<T>> {
    let s1 = if multi {
        s
    } else {
        deselected(s)
    };
    match locate(s1, id) {
        Some(p) => update_at(s1, p, AssetModel { selected: true, ..node_at(s1, p) }),
        None => s1,
    }
}

/// Selecting without `multi` leaves exactly the asset carrying `id`
/// selected, when the level-first search finds one, and nothing selected
/// otherwise.
pub proof fn law_select_selects_only<T>(s: Seq<AssetModel<T>>, id: Seq<char>)
    ensures
        selected_ids(after_select(s, id, false)) == (match locate(deselected(s), id) {
            Some(_) => seq![id],
            None => Seq::<Seq<char>>::empty(),
        }),
{
    let d = deselected(s);
    lemma_deselected_none(s);
    lemma_locate_valid(d, id);
    match locate(d, id) {
        Some(p) => {
            lemma_select_at(d, p);
        },
        None => {
            lemma_none_selected_ids(d);
        },
    }
}

/// The assets after applying `f`, one id after another, to the transform
/// of the asset carrying that id (found level-first).
pub open spec fn transform_each<T, F: Fn(&T) -> T>(s: Seq<AssetModel<T>>, ids: Seq<Seq<char>>, f: F) -> Seq<AssetModel<T>>
    decreases ids.len(),
{
    if ids.len() == 0 {
        s
    } else {
        let s1 = transform_each(s, ids.drop_last(), f);
        match locate(s1, ids.last()) {
            Some(p) => {
                let a = node_at(s1, p);
                update_at(s1, p, AssetModel { transform: result_of(f, a.transform), ..a })
            },
            None => s1,
        }
    }
}

/// The assets after "toggle selection".
pub open spec fn after_toggle<T>(s: Seq<AssetModel<T>>, id: Seq<char>) -> Seq<AssetModel<T>> {
    match locate(s, id) {
        Some(p) => update_at(s, p, AssetModel { selected: !node_at(s, p).selected, ..node_at(s, p) }),
        None => s,
    }
}

/// The assets after setting the transform of the asset carrying `id`.
pub open spec fn after_set_transform<T>(s: Seq<AssetModel<T>>, id: Seq<char>, t: T) -> Seq<AssetModel<T>> {
    match locate(s, id) {
        Some(p) => update_at(
            s,
            p,
            AssetModel { transform: t, has_explicit_transforms: true, ..node_at(s, p) },
        ),
        None => s,
    }
}

/// The assets after changing the asset carrying `id` (level-first) by `f`.
pub open spec fn after_change<T>(
    s: Seq<AssetModel<T>>,
    id: Seq<char>,
    f: spec_fn(AssetModel<T>) -> AssetModel<T>,
) -> Seq<AssetModel<T>> {
    match locate(s, id) {
        Some(p) => update_at(s, p, f(node_at(s, p))),
        None => s,
    }
}

impl<T: Copy, N: Copy> Stager<T, N> {
    /// A stager with no assets, default settings and an empty history.
    pub fn new(numbers: N) -> (r: Self)
        ensures
            r.assets@.len() == 0,
            settings_model(r.settings) == default_settings(numbers),
            r.preset == AssemblyPreset::Blender,
            r.base_content is None,
            r.base_file_path is None,
            r.global_ref_path@ == "./"@,
            r.export_name@ == "assembly"@,
            !r.visible,
            r.search_query@.len() == 0,
            r.rename_id is None,
            r.rename_buffer@.len() == 0,
            r.active_tab == StagerTab::Assets,
            r.history.past().len() == 0,
            r.history.cursor() == 0,
            r.last_selected_id is None,
            r.auto_scale_imports,
            r.status_message is None,
    {
        Stager {
            assets: Vec::new(),
            settings: StagerSceneSettings::new(numbers),
            preset: AssemblyPreset::Blender,
            base_content: None,
            base_file_path: None,
            global_ref_path: "./".to_string(),
            export_name: "assembly".to_string(),
            visible: false,
            search_query: String::new(),
            rename_id: None,
            rename_buffer: String::new(),
            active_tab: StagerTab::Assets,
            history: UndoHistory::new(),
            last_selected_id: None,
            auto_scale_imports: true,
            status_message: None,
        }
    }

    fn save_history(&mut self)
        ensures
            final(self).timeline() == saved(old(self).timeline()),
            final(self).assets == old(self).assets,
            final(self).settings == old(self).settings,
            final(self).same_panel(old(self)),
            final(self).status() == old(self).status(),
            final(self).last_selected() == old(self).last_selected(),
    {
        self.history.save(&self.assets, &self.settings);
    }

    /// Undo the last action.
    pub fn undo(&mut self)
        ensures
            final(self).timeline() == undone(old(self).timeline()),
            final(self).same_panel(old(self)),
            final(self).status() == old(self).status(),
            final(self).last_selected() == old(self).last_selected(),
    {
        self.history.undo(&mut self.assets, &mut self.settings);
    }

    /// Redo the last undone action.
    pub fn redo(&mut self)
        ensures
            final(self).timeline() == redone(old(self).timeline()),
            final(self).same_panel(old(self)),
            final(self).status() == old(self).status(),
            final(self).last_selected() == old(self).last_selected(),
    {
        self.history.redo(&mut self.assets, &mut self.settings);
    }

    fn clear_history(&mut self)
        ensures
            final(self).timeline() == cleared(old(self).timeline()),
            final(self).same_panel(old(self)),
            final(self).status() == old(self).status(),
            final(self).last_selected() == old(self).last_selected(),
    {
        self.history.clear();
    }

    /// Add a new asset referencing the file at `path`; its name is the
    /// file stem, or `Asset`.
    pub fn add_asset_from_file(&mut self, path: &str, transform: T)
        ensures
            final(self).assets@.len() == old(self).assets@.len() + 1,
            ({
                let a = models(final(self).assets@).last();
                let name = match crate::paths::file_stem_of(path@) {
                    Some(stem) => stem,
                    None => "Asset"@,
                };
                &&& is_generated_id(a.id)
                &&& a == AssetModel {
                    filename: path@,
                    reference_type: Some(crate::kinds::ReferenceType::File),
                    has_explicit_transforms: true,
                    ..fresh(a.id, name, transform)
                }
                &&& final(self).timeline() == edited(
                    old(self).timeline(),
                    Snapshot { assets: models(old(self).assets@).push(a), ..old(self).snapshot() },
                )
            }),
            final(self).same_panel(old(self)),
            final(self).status() == Some("Asset added"@),
            final(self).last_selected() == old(self).last_selected(),
    {
        self.save_history();
        let name = match crate::paths::path_file_stem(path) {
            Some(stem) => stem,
            None => "Asset".to_string(),
        };
        let asset = StagerAsset::new_with_file(name.as_str(), path, transform);
        proof {
            lemma_models_push(self.assets@, asset);
        }
        self.assets.push(asset);
        self.set_status("Asset added");
    }

    /// Add an empty Xform container.
    pub fn add_xform(&mut self, name: &str, transform: T)
        ensures
            final(self).assets@.len() == old(self).assets@.len() + 1,
            ({
                let a = models(final(self).assets@).last();
                &&& is_generated_id(a.id)
                &&& a == AssetModel { has_explicit_transforms: true, ..fresh(a.id, name@, transform) }
                &&& final(self).timeline() == edited(
                    old(self).timeline(),
                    Snapshot { assets: models(old(self).assets@).push(a), ..old(self).snapshot() },
                )
            }),
            final(self).same_panel(old(self)),
            final(self).status() == Some("Xform added"@),
            final(self).last_selected() == old(self).last_selected(),
    {
        self.save_history();
        let x = StagerAsset::new_xform(name, transform);
        proof {
            lemma_models_push(self.assets@, x);
        }
        self.assets.push(x);
        self.set_status("Xform added");
    }

    /// All selected asset ids, in pre-order.
    pub fn get_selected_ids(&self) -> (r: Vec<String>)
        ensures
            views(r@) == selected_ids(models(self.assets@)),
    {
        let mut ids: Vec<String> = Vec::new();
        collect_selected_ids(&self.assets, &mut ids);
        assert(views(ids@) =~= selected_ids(models(self.assets@)));
        ids
    }

    /// Copies of all selected assets, in pre-order.
    fn get_selected_assets(&self) -> (r: Vec<StagerAsset<T>>)
        ensures
            models(r@) == selected_assets(models(self.assets@)),
    {
        let mut out: Vec<StagerAsset<T>> = Vec::new();
        collect_selected_assets(&self.assets, &mut out);
        assert(models(out@) =~= selected_assets(models(self.assets@)));
        out
    }

    /// Find an asset by id (pre-order).
    pub fn find_asset(&self, id: &str) -> (r: Option<&StagerAsset<T>>)
        ensures
            match r {
                Some(a) => find_preorder(models(self.assets@), id@) == Some(model(*a)),
                None => find_preorder(models(self.assets@), id@) is None,
            },
    {
        find_asset_in(&self.assets, id)
    }

    /// Find an asset by id (level-first) for editing.
    pub fn find_asset_mut(&mut self, id: &str) -> (r: Option<&mut StagerAsset<T>>)
        ensures
            match locate(models(old(self).assets@), id@) {
                Some(p) => r matches Some(a) && model(*a) == node_at(models(old(self).assets@), p)
                    && models(final(self).assets@) == update_at(
                    models(old(self).assets@),
                    p,
                    model(*final(a)),
                ),
                None => r is None && final(self).assets@ == old(self).assets@,
            },
            final(self).settings == old(self).settings,
            final(self).history == old(self).history,
            final(self).same_panel(old(self)),
            final(self).status() == old(self).status(),
            final(self).last_selected() == old(self).last_selected(),
    {
        find_asset_mut_in(&mut self.assets, id)
    }

    /// Removes the asset carrying `id` (level-first), returning it.
    fn remove_asset_by_id(&mut self, id: &str) -> (r: Option<StagerAsset<T>>)
        ensures
            models(final(self).assets@) == remove_id(models(old(self).assets@), id@).0,
            match r {
                Some(a) => remove_id(models(old(self).assets@), id@).1 == Some(model(a)),
                None => remove_id(models(old(self).assets@), id@).1 is None,
            },
            final(self).settings == old(self).settings,
            final(self).history == old(self).history,
            final(self).same_panel(old(self)),
            final(self).status() == old(self).status(),
            final(self).last_selected() == old(self).last_selected(),
    {
        remove_asset_in(&mut self.assets, id)
    }

    /// Removes, one after another, the assets carrying `ids`.
    fn remove_all(&mut self, ids: &Vec<String>) -> (r: Vec<StagerAsset<T>>)
        ensures
            (models(final(self).assets@), models(r@)) == remove_ids(models(old(self).assets@), views(ids@)),
            final(self).settings == old(self).settings,
            final(self).history == old(self).history,
            final(self).same_panel(old(self)),
            final(self).status() == old(self).status(),
            final(self).last_selected() == old(self).last_selected(),
    {
        let mut taken: Vec<StagerAsset<T>> = Vec::new();
        let mut k: usize = 0;
        while k < ids.len()
            invariant
                0 <= k <= ids.len(),
                (models(self.assets@), models(taken@)) == remove_ids(
                    models(old(self).assets@),
                    views(ids@).take(k as int),
                ),
                self.settings == old(self).settings,
                self.history == old(self).history,
                self.same_panel(old(self)),
                self.status() == old(self).status(),
                self.last_selected() == old(self).last_selected(),
            decreases ids.len() - k,
        {
            proof {
                assert(views(ids@).take(k + 1).drop_last() =~= views(ids@).take(k as int));
                assert(views(ids@).take(k + 1).last() == ids@[k as int]@);
            }
            match self.remove_asset_by_id(ids[k].as_str()) {
                Some(a) => {
                    proof {
                        lemma_models_push(taken@, a);
                    }
                    taken.push(a);
                },
                None => {},
            }
            k += 1;
        }
        assert(views(ids@).take(k as int) =~= views(ids@));
        taken
    }

    /// Wrap the selected assets under a new Xform parent.
    pub fn wrap_selected_in_xform(&mut self, transform: T)
        ensures
            ({
                let m = models(old(self).assets@);
                let ids = selected_ids(m);
                let (rest, taken) = remove_ids(m, ids);
                if ids.len() == 0 {
                    final(self).timeline() == old(self).timeline()
                        && final(self).status() == old(self).status()
                } else {
                    final(self).assets@.len() == rest.len() + 1
                        && wrapper_of(models(final(self).assets@).last(), transform, taken)
                        && final(self).timeline() == edited(
                        old(self).timeline(),
                        Snapshot {
                            assets: rest.push(models(final(self).assets@).last()),
                            ..old(self).snapshot()
                        },
                    ) && final(self).status() == Some("Assets wrapped in Xform"@)
                }
            }),
            final(self).same_panel(old(self)),
            final(self).last_selected() == old(self).last_selected(),
    {
        let selected_ids = self.get_selected_ids();
        if selected_ids.len() == 0 {
            return;
        }
        self.save_history();
        let mut xform = StagerAsset::new_xform("Xform", transform);
        let taken = self.remove_all(&selected_ids);
        xform.children = taken;
        proof {
            lemma_models(self.assets@);
            lemma_models_push(self.assets@, xform);
        }
        self.assets.push(xform);
        self.set_status("Assets wrapped in Xform");
    }

    /// Delete the selected assets.
    pub fn delete_selected(&mut self)
        ensures
            ({
                let m = models(old(self).assets@);
                let ids = selected_ids(m);
                if ids.len() == 0 {
                    final(self).timeline() == old(self).timeline()
                        && final(self).status() == old(self).status()
                } else {
                    final(self).timeline() == edited(
                        old(self).timeline(),
                        Snapshot { assets: remove_ids(m, ids).0, ..old(self).snapshot() },
                    ) && final(self).status() == Some("Assets deleted"@)
                }
            }),
            final(self).same_panel(old(self)),
            final(self).last_selected() == old(self).last_selected(),
    {
        let selected_ids = self.get_selected_ids();
        if selected_ids.len() == 0 {
            return;
        }
        self.save_history();
        let _removed = self.remove_all(&selected_ids);
        self.set_status("Assets deleted");
    }

    /// Duplicate the selected assets: each copy is appended at the top level.
    pub fn duplicate_selected(&mut self)
        ensures
            ({
                let m = models(old(self).assets@);
                let sel = selected_assets(m);
                if sel.len() == 0 {
                    final(self).timeline() == old(self).timeline()
                        && final(self).status() == old(self).status()
                } else {
                    let fm = models(final(self).assets@);
                    &&& fm.len() == m.len() + sel.len()
                    &&& fm.take(m.len() as int) == m
                    &&& forall|k: int| 0 <= k < sel.len() ==> duplicate_of(#[trigger] sel[k], fm[m.len() + k])
                    &&& final(self).timeline() == edited(
                        old(self).timeline(),
                        Snapshot { assets: fm, ..old(self).snapshot() },
                    )
                    &&& final(self).status() == Some("Assets duplicated"@)
                }
            }),
            final(self).same_panel(old(self)),
            final(self).last_selected() == old(self).last_selected(),
    {
        let selected = self.get_selected_assets();
        if selected.len() == 0 {
            return;
        }
        self.save_history();
        let ghost m = models(self.assets@);
        let ghost sel = models(selected@);
        proof {
            lemma_models(selected@);
            lemma_models(self.assets@);
        }
        let mut i: usize = 0;
        while i < selected.len()
            invariant
                0 <= i <= selected.len(),
                sel == models(selected@),
                sel.len() == selected@.len(),
                forall|j: int| 0 <= j < selected@.len() ==> #[trigger] sel[j] == model(selected@[j]),
                models(self.assets@).len() == m.len() + i,
                models(self.assets@).take(m.len() as int) == m,
                forall|k: int| 0 <= k < i ==> duplicate_of(#[trigger] sel[k], models(self.assets@)[m.len() + k]),
                self.settings == old(self).settings,
                self.history.past() == saved(old(self).timeline()).history,
                self.history.cursor() == saved(old(self).timeline()).index,
                self.same_panel(old(self)),
                self.status() == old(self).status(),
                self.last_selected() == old(self).last_selected(),
            decreases selected.len() - i,
        {
            let asset = &selected[i];
            let mut dup = asset.deep_clone();
            dup.id = crate::ids::generate_id();
            let mut name = asset.name.clone();
            name.append("_copy");
            dup.name = name;
            dup.selected = false;
            regenerate_ids(&mut dup.children);
            let ghost before = models(self.assets@);
            proof {
                lemma_models_push(self.assets@, dup);
            }
            self.assets.push(dup);
            proof {
                assert(models(self.assets@) == before.push(model(dup)));
                assert(models(self.assets@).take(m.len() as int) =~= before.take(m.len() as int));
                assert(duplicate_of(sel[i as int], model(dup)));
            }
            i += 1;
        }
        self.set_status("Assets duplicated");
    }

    /// Create an instance (internal reference) of the asset carrying
    /// `source_id` (pre-order); `place` gives its transform from the
    /// source's.
    pub fn duplicate_as_instance<F: Fn(&T) -> T>(&mut self, source_id: &str, place: F)
        requires
            forall|t: T| #[trigger] place.requires((&t,)),
        ensures
            match find_preorder(models(old(self).assets@), source_id@) {
                Some(src) => {
                    let fm = models(final(self).assets@);
                    let x = fm.last();
                    &&& fm.len() == old(self).assets@.len() + 1
                    &&& instance_of(src, x)
                    &&& place.ensures((&src.transform,), x.transform)
                    &&& final(self).timeline() == edited(
                        old(self).timeline(),
                        Snapshot { assets: models(old(self).assets@).push(x), ..old(self).snapshot() },
                    )
                    &&& final(self).status() == Some("Instance created"@)
                },
                None => final(self).timeline() == old(self).timeline() && final(self).status()
                    == old(self).status(),
            },
            final(self).same_panel(old(self)),
            final(self).last_selected() == old(self).last_selected(),
    {
        let source = match self.find_asset(source_id) {
            Some(a) => Some((a.name.clone(), a.transform)),
            None => None,
        };
        match source {
            Some((name, xf)) => {
                self.save_history();
                let mut instance = StagerAsset::new_default(place(&xf));
                let mut iname = name.clone();
                iname.append("_instance");
                instance.name = iname;
                instance.reference_type = Some(crate::kinds::ReferenceType::Internal);
                instance.reference_target = Some(name);
                instance.has_explicit_transforms = true;
                instance.instanceable = true;
                let ghost src = find_preorder(models(old(self).assets@), source_id@)->0;
                let ghost x = model(instance);
                assert(is_generated_id(x.id));
                assert(x.name == src.name + "_instance"@);
                assert(place.ensures((&src.transform,), x.transform));
                assert(instance_of(src, x));
                proof {
                    lemma_models_push(self.assets@, instance);
                    lemma_models(self.assets@);
                }
                self.assets.push(instance);
                self.set_status("Instance created");
                assert(models(self.assets@).last() == x);
                assert(models(self.assets@).len() == old(self).assets@.len() + 1);
            },
            None => {},
        }
    }

    /// Select an asset by id; without `multi_select` the others are
    /// deselected first.
    pub fn select_asset(&mut self, id: &str, multi_select: bool)
        ensures
            models(final(self).assets@) == after_select(models(old(self).assets@), id@, multi_select),
            final(self).settings == old(self).settings,
            final(self).history == old(self).history,
            final(self).same_panel(old(self)),
            final(self).status() == old(self).status(),
            final(self).last_selected() == Some(id@),
    {
        if !multi_select {
            self.deselect_all();
        }
        match self.find_asset_mut(id) {
            Some(asset) => {
                asset.selected = true;
            },
            None => {},
        }
        self.last_selected_id = Some(id.to_string());
    }

    /// Deselect all assets.
    pub fn deselect_all(&mut self)
        ensures
            models(final(self).assets@) == deselected(models(old(self).assets@)),
            final(self).settings == old(self).settings,
            final(self).history == old(self).history,
            final(self).same_panel(old(self)),
            final(self).status() == old(self).status(),
            final(self).last_selected() == old(self).last_selected(),
    {
        deselect_all_in(&mut self.assets);
    }

    /// Toggle the selection of the asset carrying `id` (level-first).
    pub fn toggle_selection(&mut self, id: &str)
        ensures
            models(final(self).assets@) == after_toggle(models(old(self).assets@), id@),
            final(self).settings == old(self).settings,
            final(self).history == old(self).history,
            final(self).same_panel(old(self)),
            final(self).status() == old(self).status(),
            final(self).last_selected() == old(self).last_selected(),
    {
        match self.find_asset_mut(id) {
            Some(asset) => {
                asset.selected = !asset.selected;
            },
            None => {},
        }
    }

    /// Set the transform of the asset carrying `id` (level-first), saving
    /// the state first.
    pub fn update_transform(&mut self, id: &str, transform: T)
        ensures
            final(self).timeline() == edited(
                old(self).timeline(),
                Snapshot {
                    assets: after_set_transform(models(old(self).assets@), id@, transform),
                    ..old(self).snapshot()
                },
            ),
            final(self).same_panel(old(self)),
            final(self).status() == old(self).status(),
            final(self).last_selected() == old(self).last_selected(),
    {
        self.save_history();
        match self.find_asset_mut(id) {
            Some(asset) => {
                asset.transform = transform;
                asset.has_explicit_transforms = true;
            },
            None => {},
        }
    }

    /// Rename the asset carrying `id` (level-first), saving the state first.
    pub fn rename_asset(&mut self, id: &str, name: String)
        ensures
            final(self).timeline() == edited(
                old(self).timeline(),
                Snapshot {
                    assets: after_change(
                        models(old(self).assets@),
                        id@,
                        (|a: AssetModel<T>| AssetModel { name: name@, ..a }),
                    ),
                    ..old(self).snapshot()
                },
            ),
            final(self).same_panel(old(self)),
            final(self).status() == old(self).status(),
            final(self).last_selected() == old(self).last_selected(),
    {
        self.save_history();
        match self.find_asset_mut(id) {
            Some(asset) => {
                asset.name = name;
            },
            None => {},
        }
    }

    /// Set the kind of the asset carrying `id` (level-first), saving the
    /// state first.
    pub fn set_kind(&mut self, id: &str, kind: Option<UsdKind>)
        ensures
            final(self).timeline() == edited(
                old(self).timeline(),
                Snapshot {
                    assets: after_change(
                        models(old(self).assets@),
                        id@,
                        (|a: AssetModel<T>| AssetModel { kind: kind, ..a }),
                    ),
                    ..old(self).snapshot()
                },
            ),
            final(self).same_panel(old(self)),
            final(self).status() == old(self).status(),
            final(self).last_selected() == old(self).last_selected(),
    {
        self.save_history();
        match self.find_asset_mut(id) {
            Some(asset) => {
                asset.kind = kind;
            },
            None => {},
        }
    }

    /// Set whether the asset carrying `id` (level-first) is instanceable.
    /// The history is left as it is: the properties panel saves the state
    /// only together with a transform change.
    pub fn set_instanceable(&mut self, id: &str, instanceable: bool)
        ensures
            models(final(self).assets@) == after_change(
                models(old(self).assets@),
                id@,
                (|a: AssetModel<T>| AssetModel { instanceable: instanceable, ..a }),
            ),
            final(self).settings == old(self).settings,
            final(self).history == old(self).history,
            final(self).same_panel(old(self)),
            final(self).status() == old(self).status(),
            final(self).last_selected() == old(self).last_selected(),
    {
        match self.find_asset_mut(id) {
            Some(asset) => {
                asset.instanceable = instanceable;
            },
            None => {},
        }
    }

    /// Toggle matrix mode of the asset carrying `id` (level-first). When
    /// matrix mode turns on, `compose` gives the transform with its matrix
    /// composed, and a missing op order becomes `["xformOp:transform"]`.
    pub fn toggle_matrix_lock<F: Fn(&T) -> T>(&mut self, id: &str, compose: F)
        requires
            forall|t: T| #[trigger] compose.requires((&t,)),
        ensures
            match locate(models(old(self).assets@), id@) {
                Some(p) => {
                    let a = node_at(models(old(self).assets@), p);
                    let b = node_at(models(final(self).assets@), p);
                    &&& models(final(self).assets@) == update_at(models(old(self).assets@), p, b)
                    &&& if a.use_matrix {
                        b == AssetModel { use_matrix: false, ..a }
                    } else {
                        &&& compose.ensures((&a.transform,), b.transform)
                        &&& b == AssetModel {
                            use_matrix: true,
                            transform: b.transform,
                            xform_op_order: match a.xform_op_order {
                                Some(o) => Some(o),
                                None => Some(seq!["xformOp:transform"@]),
                            },
                            ..a
                        }
                    }
                },
                None => final(self).assets@ == old(self).assets@,
            },
            final(self).settings == old(self).settings,
            final(self).history == old(self).history,
            final(self).same_panel(old(self)),
            final(self).status() == old(self).status(),
            final(self).last_selected() == old(self).last_selected(),
    {
        let ghost m = models(self.assets@);
        proof {
            lemma_locate_valid(m, id@);
            match locate(m, id@) {
                Some(p) => {
                    lemma_node_at_update_all(m, p);
                },
                None => {},
            }
        }
        match self.find_asset_mut(id) {
            Some(asset) => {
                asset.use_matrix = !asset.use_matrix;
                if asset.use_matrix {
                    asset.transform = compose(&asset.transform);
                    if asset.xform_op_order.is_none() {
                        let mut ops: Vec<String> = Vec::new();
                        ops.push("xformOp:transform".to_string());
                        asset.xform_op_order = Some(ops);
                        assert(views(ops@) =~= seq!["xformOp:transform"@]);
                    }
                }
            },
            None => {},
        }
    }

    /// Load base USDA content (inject mode).
    pub fn load_base_content(&mut self, content: String, path: &str)
        ensures
            opt_view(final(self).base_content) == Some(content@),
            opt_view(final(self).base_file_path) == Some(path@),
            final(self).timeline() == cleared(old(self).timeline()),
            final(self).status() == Some("Loaded base: "@ + path@),
            final(self).last_selected() == old(self).last_selected(),
    {
        self.base_content = Some(content);
        self.base_file_path = Some(path.to_string());
        self.clear_history();
        let mut msg = "Loaded base: ".to_string();
        msg.append(path);
        self.set_status(msg.as_str());
    }

    /// Apply `f` to the transform of every selected asset, saving the state
    /// first (the core of batch scaling).
    pub fn batch_transform<F: Fn(&T) -> T>(&mut self, f: F)
        requires
            deterministic(f),
        ensures
            final(self).timeline() == edited(
                old(self).timeline(),
                Snapshot {
                    assets: transform_each(
                        models(old(self).assets@),
                        selected_ids(models(old(self).assets@)),
                        f,
                    ),
                    ..old(self).snapshot()
                },
            ),
            final(self).same_panel(old(self)),
            final(self).status() == old(self).status(),
            final(self).last_selected() == old(self).last_selected(),
    {
        self.save_history();
        let ids = self.get_selected_ids();
        let ghost m = models(self.assets@);
        let mut k: usize = 0;
        while k < ids.len()
            invariant
                0 <= k <= ids.len(),
                deterministic(f),
                models(self.assets@) == transform_each(m, views(ids@).take(k as int), f),
                self.settings == old(self).settings,
                self.history.past() == saved(old(self).timeline()).history,
                self.history.cursor() == saved(old(self).timeline()).index,
                self.same_panel(old(self)),
                self.status() == old(self).status(),
                self.last_selected() == old(self).last_selected(),
            decreases ids.len() - k,
        {
            let ghost s1 = models(self.assets@);
            proof {
                assert(views(ids@).take(k + 1).drop_last() =~= views(ids@).take(k as int));
                assert(views(ids@).take(k + 1).last() == ids@[k as int]@);
                lemma_locate_valid(s1, ids@[k as int]@);
                match locate(s1, ids@[k as int]@) {
                    Some(p) => {
                        lemma_node_at_update_all(s1, p);
                    },
                    None => {},
                }
            }
            match self.find_asset_mut(ids[k].as_str()) {
                Some(asset) => {
                    let t = f(&asset.transform);
                    proof {
                        assert(f.ensures((&asset.transform,), t));
                        assert(result_of(f, asset.transform) == t);
                    }
                    asset.transform = t;
                },
                None => {},
            }
            k += 1;
        }
        assert(views(ids@).take(k as int) =~= views(ids@));
    }
}

// ============================================================================
// LAWS OF THE HISTORY
// ============================================================================

/// Undoing a saving edit gives back the state from before the edit.
pub proof fn law_undo_reverts_edit<T, N>(t: Timeline<T, N>, s: Snapshot<T, N>)
    ensures
        undone(edited(t, s)).state == t.state,
{
}

/// Redoing right after an undo gives back the state that was undone, and
/// the position from before the undo.
pub proof fn law_redo_after_undo<T, N>(t: Timeline<T, N>)
    requires
        timeline_wf(t),
        in_sync(t),
        t.index > 0,
    ensures
        redone(undone(t)).state == t.state,
        redone(undone(t)).index == t.index,
{
}

/// After a saving edit, undo then redo gives back the edited state, whatever
/// the history was before the edit; a second redo then changes nothing.
pub proof fn law_redo_reapplies_edit<T, N>(t: Timeline<T, N>, s: Snapshot<T, N>)
    ensures
        redone(undone(edited(t, s))).state == s,
        redone(redone(undone(edited(t, s)))) == redone(undone(edited(t, s))),
{
}

/// Undoing right after a redo that moved gives back the state before the
/// redo.
pub proof fn law_undo_after_redo<T, N>(t: Timeline<T, N>)
    requires
        timeline_wf(t),
        in_sync(t),
        t.index + 1 < t.history.len(),
    ensures
        undone(redone(t)).state == t.state,
        undone(redone(t)).index == t.index,
{
}

/// After a saving edit there is nothing to redo.
pub proof fn law_edit_drops_redo<T, N>(t: Timeline<T, N>, s: Snapshot<T, N>)
    ensures
        redone(edited(t, s)) == edited(t, s),
{
}

/// Undo at the start and redo at the end change nothing.
pub proof fn law_history_ends<T, N>(t: Timeline<T, N>)
    ensures
        t.index == 0 ==> undone(t) == t,
        t.index + 1 >= t.history.len() ==> redone(t) == t,
{
}

/// Every history operation keeps the position within the saved states and
/// the number of saved states within `MAX_HISTORY + 1`.
pub proof fn law_history_bounded<T, N>(t: Timeline<T, N>, s: Snapshot<T, N>)
    requires
        timeline_wf(t),
    ensures
        timeline_wf(saved(t)),
        timeline_wf(edited(t, s)),
        timeline_wf(undone(t)),
        timeline_wf(redone(t)),
        timeline_wf(cleared(t)),
{
}

/// Every history operation keeps the current state equal to the saved state
/// at the position, where the position points at one.
pub proof fn law_history_in_sync<T, N>(t: Timeline<T, N>, s: Snapshot<T, N>)
    requires
        in_sync(t),
    ensures
        in_sync(saved(t)),
        in_sync(edited(t, s)),
        in_sync(undone(t)),
        in_sync(redone(t)),
        in_sync(cleared(t)),
{
}

/// A new stager's history is well formed and in sync.
pub proof fn law_new_stager_history<T, N>(st: Stager<T, N>)
    requires
        st.history.past().len() == 0,
        st.history.cursor() == 0,
    ensures
        timeline_wf(st.timeline()),
        in_sync(st.timeline()),
{
}

} // verus!
