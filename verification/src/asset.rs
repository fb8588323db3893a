//! Staged assets: a tree of prims, each with its transform payload, and the
//! searches and edits that the stager performs on such trees.
//!
//! The transform payload `T` (translation, rotation, scale, matrix) is carried
//! through unchanged by every operation here; the arithmetic on it lives with
//! the caller.

use vstd::prelude::*;

use crate::ids::{generate_id, is_generated_id};
use crate::kinds::{ReferenceOp, ReferenceType, Specifier, UsdKind};
use crate::text::views;

verus! {

/// A staged USD asset.
pub struct StagerAsset<T> {
    pub id: String,
    pub name: String,
    pub filename: String,
    /// Position, rotation, scale and matrix of the prim.
    pub transform: T,
    pub selected: bool,
    // Matrix mode
    pub use_matrix: bool,
    pub xform_op_order: Option<Vec<String>>,
    pub transform_prop_name: Option<String>,
    // Data preservation
    pub has_explicit_transforms: bool,
    pub visibility: Option<String>,
    pub metadata_lines: Vec<String>,
    pub extra_body_lines: Vec<String>,
    // Reference
    pub reference_op: ReferenceOp,
    pub instanceable: bool,
    pub reference_type: Option<ReferenceType>,
    pub reference_target: Option<String>,
    pub prim_type: Option<String>,
    pub kind: Option<UsdKind>,
    // Hierarchy
    pub specifier: Specifier,
    pub children: Vec<StagerAsset<T>>,
    // UI state
    pub is_expanded: bool,
    // Raw content preservation for 'over' blocks
    pub raw_body_lines: Vec<String>,
}

/// The mathematical value of a staged asset.
pub struct AssetModel<T> {
    pub id: Seq<char>,
    pub name: Seq<char>,
    pub filename: Seq<char>,
    pub transform: T,
    pub selected: bool,
    pub use_matrix: bool,
    pub xform_op_order: Option<Seq<Seq<char>>>,
    pub transform_prop_name: Option<Seq<char>>,
    pub has_explicit_transforms: bool,
    pub visibility: Option<Seq<char>>,
    pub metadata_lines: Seq<Seq<char>>,
    pub extra_body_lines: Seq<Seq<char>>,
    pub reference_op: ReferenceOp,
    pub instanceable: bool,
    pub reference_type: Option<ReferenceType>,
    pub reference_target: Option<Seq<char>>,
    pub prim_type: Option<Seq<char>>,
    pub kind: Option<UsdKind>,
    pub specifier: Specifier,
    pub children: Seq<AssetModel<T>>,
    pub is_expanded: bool,
    pub raw_body_lines: Seq<Seq<char>>,
}

pub open spec fn opt_view(o: Option<String>) -> Option<Seq<char>> {
    match o {
        Some(s) => Some(s@),
        None => None,
    }
}

pub open spec fn opt_views(o: Option<Vec<String>>) -> Option<Seq<Seq<char>>> {
    match o {
        Some(v) => Some(views(v@)),
        None => None,
    }
}

/// The model of an asset.
pub open spec fn model<T>(a: StagerAsset<T>) -> AssetModel<T>
    decreases a, 1nat,
{
    AssetModel {
        id: a.id@,
        name: a.name@,
        filename: a.filename@,
        transform: a.transform,
        selected: a.selected,
        use_matrix: a.use_matrix,
        xform_op_order: opt_views(a.xform_op_order),
        transform_prop_name: opt_view(a.transform_prop_name),
        has_explicit_transforms: a.has_explicit_transforms,
        visibility: opt_view(a.visibility),
        metadata_lines: views(a.metadata_lines@),
        extra_body_lines: views(a.extra_body_lines@),
        reference_op: a.reference_op,
        instanceable: a.instanceable,
        reference_type: a.reference_type,
        reference_target: opt_view(a.reference_target),
        prim_type: opt_view(a.prim_type),
        kind: a.kind,
        specifier: a.specifier,
        children: models(a.children@),
        is_expanded: a.is_expanded,
        raw_body_lines: views(a.raw_body_lines@),
    }
}

/// The models of a sequence of assets.
pub open spec fn models<T>(s: Seq<StagerAsset<T>>) -> Seq<AssetModel<T>>
    decreases s, 0nat,
{
    if s.len() == 0 {
        Seq::empty()
    } else {
        models(s.drop_last()).push(model(s.last()))
    }
}

pub proof fn lemma_models<T>(s: Seq<StagerAsset<T>>)
    ensures
        models(s).len() == s.len(),
        forall|i: int| 0 <= i < s.len() ==> #[trigger] models(s)[i] == model(s[i]),
    decreases s.len(),
{
    if s.len() > 0 {
        lemma_models(s.drop_last());
    }
}

pub proof fn lemma_models_push<T>(s: Seq<StagerAsset<T>>, a: StagerAsset<T>)
    ensures
        models(s.push(a)) == models(s).push(model(a)),
{
    assert(s.push(a).drop_last() =~= s);
}

pub proof fn lemma_models_update<T>(s: Seq<StagerAsset<T>>, i: int, a: StagerAsset<T>)
    requires
        0 <= i < s.len(),
    ensures
        models(s.update(i, a)) == models(s).update(i, model(a)),
{
    lemma_models(s);
    lemma_models(s.update(i, a));
    assert(models(s.update(i, a)) =~= models(s).update(i, model(a)));
}

pub proof fn lemma_models_update_all<T>(s: Seq<StagerAsset<T>>, i: int)
    requires
        0 <= i < s.len(),
    ensures
        forall|a: StagerAsset<T>| #[trigger] models(s.update(i, a)) == models(s).update(i, model(a)),
{
    assert forall|a: StagerAsset<T>| #[trigger] models(s.update(i, a)) == models(s).update(i, model(a)) by {
        lemma_models_update(s, i, a);
    }
}

pub proof fn lemma_models_remove<T>(s: Seq<StagerAsset<T>>, i: int)
    requires
        0 <= i < s.len(),
    ensures
        models(s.remove(i)) == models(s).remove(i),
{
    lemma_models(s);
    lemma_models(s.remove(i));
    assert(models(s.remove(i)) =~= models(s).remove(i));
}

// ---------------------------------------------------------------------------
// Searches and edits over asset trees, on models
// ---------------------------------------------------------------------------

/// Pre-order search: the asset itself, then its subtree, then its siblings.
pub open spec fn find_preorder<T>(s: Seq<AssetModel<T>>, id: Seq<char>) -> Option<AssetModel<T>> {
    find_preorder_from(s, id, 0)
}

pub open spec fn find_preorder_from<T>(s: Seq<AssetModel<T>>, id: Seq<char>, k: nat) -> Option<
    AssetModel<T>,
>
    decreases s, s.len() - k,
{
    if k >= s.len() {
        None
    } else if s[k as int].id == id {
        Some(s[k as int])
    } else {
        match find_preorder_from(s[k as int].children, id, 0) {
            Some(found) => Some(found),
            None => find_preorder_from(s, id, k + 1),
        }
    }
}

/// The first index at or after `k` whose asset carries `id`.
pub open spec fn first_with_id<T>(s: Seq<AssetModel<T>>, id: Seq<char>, k: nat) -> Option<nat>
    decreases s.len() - k,
{
    if k >= s.len() {
        None
    } else if s[k as int].id == id {
        Some(k)
    } else {
        first_with_id(s, id, k + 1)
    }
}

/// Level-first search: a whole level is searched before any subtree; the
/// result is the path of child indices leading to the asset.
pub open spec fn locate<T>(s: Seq<AssetModel<T>>, id: Seq<char>) -> Option<Seq<nat>>
    decreases s, s.len() + 1,
{
    match first_with_id(s, id, 0) {
        Some(i) => Some(seq![i]),
        None => locate_in_subtrees(s, id, 0),
    }
}

pub open spec fn locate_in_subtrees<T>(s: Seq<AssetModel<T>>, id: Seq<char>, k: nat) -> Option<
    Seq<nat>,
>
    decreases s, s.len() - k,
{
    if k >= s.len() {
        None
    } else {
        match locate(s[k as int].children, id) {
            Some(p) => Some(seq![k].add(p)),
            None => locate_in_subtrees(s, id, k + 1),
        }
    }
}

/// Whether `p` is a path to an asset of the tree `s`.
pub open spec fn valid_path<T>(s: Seq<AssetModel<T>>, p: Seq<nat>) -> bool
    decreases p.len(),
{
    &&& p.len() > 0
    &&& p[0] < s.len()
    &&& (p.len() > 1 ==> valid_path(s[p[0] as int].children, p.drop_first()))
}

/// The asset at a path.
pub open spec fn node_at<T>(s: Seq<AssetModel<T>>, p: Seq<nat>) -> AssetModel<T>
    decreases p.len(),
{
    if p.len() <= 1 {
        s[p[0] as int]
    } else {
        node_at(s[p[0] as int].children, p.drop_first())
    }
}

/// The tree with the asset at a path replaced.
pub open spec fn update_at<T>(s: Seq<AssetModel<T>>, p: Seq<nat>, n: AssetModel<T>) -> Seq<
    AssetModel<T>,
>
    decreases p.len(),
{
    if p.len() <= 1 {
        s.update(p[0] as int, n)
    } else {
        let a = s[p[0] as int];
        s.update(
            p[0] as int,
            AssetModel { children: update_at(a.children, p.drop_first(), n), ..a },
        )
    }
}

/// The tree with the asset at a path (and its subtree) taken out.
pub open spec fn remove_at<T>(s: Seq<AssetModel<T>>, p: Seq<nat>) -> Seq<AssetModel<T>>
    decreases p.len(),
{
    if p.len() <= 1 {
        s.remove(p[0] as int)
    } else {
        let a = s[p[0] as int];
        s.update(p[0] as int, AssetModel { children: remove_at(a.children, p.drop_first()), ..a })
    }
}

/// The tree with the asset carrying `id` taken out, and that asset: the
/// asset is the one that the level-first search finds.
pub open spec fn remove_id<T>(s: Seq<AssetModel<T>>, id: Seq<char>) -> (Seq<AssetModel<T>>, Option<
    AssetModel<T>,
>) {
    match locate(s, id) {
        Some(p) => (remove_at(s, p), Some(node_at(s, p))),
        None => (s, None),
    }
}

/// Takes out, one after another, the assets carrying the given ids;
/// returns the tree left and the assets taken, in order.
pub open spec fn remove_ids<T>(s: Seq<AssetModel<T>>, ids: Seq<Seq<char>>) -> (Seq<
    AssetModel<T>,
>, Seq<AssetModel<T>>)
    decreases ids.len(),
{
    if ids.len() == 0 {
        (s, Seq::empty())
    } else {
        let (s1, taken) = remove_ids(s, ids.drop_last());
        match remove_id(s1, ids.last()) {
            (s2, Some(a)) => (s2, taken.push(a)),
            (s2, None) => (s2, taken),
        }
    }
}

/// Ids of the selected assets, in pre-order.
pub open spec fn selected_ids<T>(s: Seq<AssetModel<T>>) -> Seq<Seq<char>> {
    selected_ids_from(s, 0)
}

pub open spec fn selected_ids_from<T>(s: Seq<AssetModel<T>>, k: nat) -> Seq<Seq<char>>
    decreases s, s.len() - k,
{
    if k >= s.len() {
        Seq::empty()
    } else {
        let a = s[k as int];
        let own = if a.selected {
            seq![a.id]
        } else {
            Seq::empty()
        };
        own + selected_ids_from(a.children, 0) + selected_ids_from(s, k + 1)
    }
}

/// The selected assets, in pre-order.
pub open spec fn selected_assets<T>(s: Seq<AssetModel<T>>) -> Seq<AssetModel<T>> {
    selected_assets_from(s, 0)
}

pub open spec fn selected_assets_from<T>(s: Seq<AssetModel<T>>, k: nat) -> Seq<AssetModel<T>>
    decreases s, s.len() - k,
{
    if k >= s.len() {
        Seq::empty()
    } else {
        let a = s[k as int];
        let own = if a.selected {
            seq![a]
        } else {
            Seq::empty()
        };
        own + selected_assets_from(a.children, 0) + selected_assets_from(s, k + 1)
    }
}

/// The tree with every asset deselected.
pub open spec fn deselected<T>(s: Seq<AssetModel<T>>) -> Seq<AssetModel<T>> {
    deselected_from(s, 0)
}

pub open spec fn deselected_from<T>(s: Seq<AssetModel<T>>, k: nat) -> Seq<AssetModel<T>>
    decreases s, s.len() - k,
{
    if k >= s.len() {
        Seq::empty()
    } else {
        let a = s[k as int];
        seq![AssetModel { selected: false, children: deselected_from(a.children, 0), ..a }]
            + deselected_from(s, k + 1)
    }
}

/// No asset of the tree is selected.
pub open spec fn none_selected<T>(s: Seq<AssetModel<T>>) -> bool
    decreases s,
{
    forall|i: int| 0 <= i < s.len() ==> !(#[trigger] s[i]).selected && none_selected(s[i].children)
}

/// An asset deselected, with its subtree.
pub open spec fn deselected_node<T>(a: AssetModel<T>) -> AssetModel<T> {
    AssetModel { selected: false, children: deselected_from(a.children, 0), ..a }
}

/// The selected ids of an asset and its subtree.
pub open spec fn own_selected_ids<T>(x: AssetModel<T>) -> Seq<Seq<char>> {
    (if x.selected {
        seq![x.id]
    } else {
        Seq::<Seq<char>>::empty()
    }) + selected_ids_from(x.children, 0)
}

/// The asset at a path, marked selected.
pub open spec fn selected_node<T>(s: Seq<AssetModel<T>>, p: Seq<nat>) -> AssetModel<T> {
    AssetModel { selected: true, ..node_at(s, p) }
}

proof fn lemma_no_selected_ids_from<T>(s: Seq<AssetModel<T>>, k: nat)
    requires
        forall|j: int| k <= j < s.len() ==> !(#[trigger] s[j]).selected && none_selected(s[j].children),
    ensures
        selected_ids_from(s, k) == Seq::<Seq<char>>::empty(),
    decreases s, s.len() - k,
{
    if k < s.len() {
        let a = s[k as int];
        assert(none_selected(a.children));
        lemma_no_selected_ids_from(a.children, 0);
        lemma_no_selected_ids_from(s, k + 1);
        assert(selected_ids_from(s, k) =~= Seq::<Seq<char>>::empty());
    }
}

/// A tree with nothing selected has no selected ids.
pub proof fn lemma_none_selected_ids<T>(s: Seq<AssetModel<T>>)
    requires
        none_selected(s),
    ensures
        selected_ids(s) == Seq::<Seq<char>>::empty(),
{
    lemma_no_selected_ids_from(s, 0);
}

proof fn lemma_deselected_from<T>(s: Seq<AssetModel<T>>, k: nat)
    requires
        k <= s.len(),
    ensures
        deselected_from(s, k).len() == s.len() - k,
        forall|j: int| 0 <= j < s.len() - k ==> #[trigger] deselected_from(s, k)[j] == deselected_node(s[k + j]),
        none_selected(deselected_from(s, k)),
    decreases s, s.len() - k,
{
    if k < s.len() {
        lemma_deselected_from(s[k as int].children, 0);
        lemma_deselected_from(s, k + 1);
        let d = deselected_from(s, k);
        let rest = deselected_from(s, k + 1);
        assert forall|j: int| 0 <= j < s.len() - k implies #[trigger] d[j] == deselected_node(s[k + j]) by {
            if j > 0 {
                assert(d[j] == rest[j - 1]);
            }
        }
        assert forall|i: int| 0 <= i < d.len() implies !(#[trigger] d[i]).selected && none_selected(d[i].children) by {
            if i > 0 {
                assert(d[i] == rest[i - 1]);
            } else {
                lemma_deselected_from(s[k as int].children, 0);
            }
        }
    } else {
        assert(deselected_from(s, k) =~= Seq::<AssetModel<T>>::empty());
    }
}

/// After deselecting, nothing is selected.
pub proof fn lemma_deselected_none<T>(s: Seq<AssetModel<T>>)
    ensures
        none_selected(deselected(s)),
{
    lemma_deselected_from(s, 0);
}

proof fn lemma_selected_ids_update<T>(s: Seq<AssetModel<T>>, i: int, x: AssetModel<T>, k: nat)
    requires
        none_selected(s),
        k <= i < s.len(),
    ensures
        selected_ids_from(s.update(i, x), k) == own_selected_ids(x),
    decreases s.len() - k,
{
    let u = s.update(i, x);
    if k < i {
        assert(u[k as int] == s[k as int]);
        assert(none_selected(s[k as int].children));
        lemma_no_selected_ids_from(s[k as int].children, 0);
        lemma_selected_ids_update(s, i, x, k + 1);
        assert(selected_ids_from(u, k) =~= selected_ids_from(u, k + 1));
    } else {
        assert(u[i] == x);
        assert forall|j: int| k + 1 <= j < u.len() implies !(#[trigger] u[j]).selected && none_selected(u[j].children) by {
            assert(u[j] == s[j]);
        }
        lemma_no_selected_ids_from(u, k + 1);
        assert(selected_ids_from(u, k) =~= own_selected_ids(x));
    }
}

/// Selecting the asset at a path of a tree with nothing selected leaves
/// exactly that asset selected.
pub proof fn lemma_select_at<T>(s: Seq<AssetModel<T>>, p: Seq<nat>)
    requires
        none_selected(s),
        valid_path(s, p),
    ensures
        selected_ids(update_at(s, p, selected_node(s, p))) == seq![node_at(s, p).id],
    decreases p.len(),
{
    let n = selected_node(s, p);
    let i = p[0] as int;
    let a = s[i];
    assert(none_selected(a.children));
    if p.len() <= 1 {
        lemma_no_selected_ids_from(a.children, 0);
        lemma_selected_ids_update(s, i, n, 0);
        assert(n.children == a.children);
        assert(selected_ids(update_at(s, p, n)) =~= seq![n.id]);
    } else {
        let q = p.drop_first();
        assert(node_at(s, p) == node_at(a.children, q));
        lemma_select_at(a.children, q);
        let x = AssetModel { children: update_at(a.children, q, n), ..a };
        lemma_selected_ids_update(s, i, x, 0);
        assert(!x.selected);
        assert(selected_ids(update_at(s, p, n)) =~= seq![n.id]);
    }
}

// ---------------------------------------------------------------------------
// Copies and constructors
// ---------------------------------------------------------------------------

fn clone_strings(v: &Vec<String>) -> (r: Vec<String>)
    ensures
        views(r@) == views(v@),
{
    let r = v.clone();
    proof {
        assert forall|i: int| 0 <= i < r@.len() implies r@[i] == v@[i] by {
            assert(cloned::<String>(v[i], r[i]));
        }
        assert(r@ =~= v@);
    }
    r
}

fn clone_opt_string(o: &Option<String>) -> (r: Option<String>)
    ensures
        opt_view(r) == opt_view(*o),
{
    match o {
        Some(s) => Some(s.clone()),
        None => None,
    }
}

fn clone_opt_strings(o: &Option<Vec<String>>) -> (r: Option<Vec<String>>)
    ensures
        opt_views(r) == opt_views(*o),
{
    match o {
        Some(v) => Some(clone_strings(v)),
        None => None,
    }
}

/// The model of a freshly made asset: an `Xform` prim named `name` with
/// every other field at its default.
pub open spec fn fresh<T>(id: Seq<char>, name: Seq<char>, transform: T) -> AssetModel<T> {
    AssetModel {
        id,
        name,
        filename: Seq::empty(),
        transform,
        selected: false,
        use_matrix: false,
        xform_op_order: None,
        transform_prop_name: None,
        has_explicit_transforms: false,
        visibility: None,
        metadata_lines: Seq::empty(),
        extra_body_lines: Seq::empty(),
        reference_op: ReferenceOp::Prepend,
        instanceable: false,
        reference_type: None,
        reference_target: None,
        prim_type: Some("Xform"@),
        kind: None,
        specifier: Specifier::Def,
        children: Seq::empty(),
        is_expanded: true,
        raw_body_lines: Seq::empty(),
    }
}

impl<T: Copy> StagerAsset<T> {
    /// A copy of the asset and its whole subtree.
    pub fn deep_clone(&self) -> (r: Self)
        ensures
            model(r) == model(*self),
        decreases *self,
    {
        let mut children: Vec<StagerAsset<T>> = Vec::new();
        let mut i: usize = 0;
        while i < self.children.len()
            invariant
                0 <= i <= self.children.len(),
                models(children@) == models(self.children@).take(i as int),
            decreases self.children.len() - i,
        {
            proof {
                assert(decreases_to!(*self => self.children));
                assert(decreases_to!(self.children => self.children@));
                assert(decreases_to!(self.children@ => self.children@[i as int]));
            }
            let c = self.children[i].deep_clone();
            proof {
                lemma_models_push(children@, c);
                lemma_models(self.children@);
                assert(models(self.children@).take(i + 1) =~= models(self.children@).take(
                    i as int,
                ).push(model(self.children@[i as int])));
            }
            children.push(c);
            i += 1;
        }
        proof {
            lemma_models(self.children@);
            assert(models(self.children@).take(i as int) =~= models(self.children@));
        }
        StagerAsset {
            id: self.id.clone(),
            name: self.name.clone(),
            filename: self.filename.clone(),
            transform: self.transform,
            selected: self.selected,
            use_matrix: self.use_matrix,
            xform_op_order: clone_opt_strings(&self.xform_op_order),
            transform_prop_name: clone_opt_string(&self.transform_prop_name),
            has_explicit_transforms: self.has_explicit_transforms,
            visibility: clone_opt_string(&self.visibility),
            metadata_lines: clone_strings(&self.metadata_lines),
            extra_body_lines: clone_strings(&self.extra_body_lines),
            reference_op: self.reference_op,
            instanceable: self.instanceable,
            reference_type: self.reference_type,
            reference_target: clone_opt_string(&self.reference_target),
            prim_type: clone_opt_string(&self.prim_type),
            kind: self.kind,
            specifier: self.specifier,
            children,
            is_expanded: self.is_expanded,
            raw_body_lines: clone_strings(&self.raw_body_lines),
        }
    }
}

impl<T: Copy> Clone for StagerAsset<T> {
    fn clone(&self) -> (r: Self)
        ensures
            model(r) == model(*self),
    {
        self.deep_clone()
    }
}

impl<T> StagerAsset<T> {
    /// An asset with a fresh identifier, named `NewAsset`, with defaults.
    pub fn new_default(transform: T) -> (r: Self)
        ensures
            is_generated_id(r.id@),
            model(r) == fresh(r.id@, "NewAsset"@, transform),
    {
        let r = StagerAsset {
            id: generate_id(),
            name: "NewAsset".to_string(),
            filename: String::new(),
            transform,
            selected: false,
            use_matrix: false,
            xform_op_order: None,
            transform_prop_name: None,
            has_explicit_transforms: false,
            visibility: None,
            metadata_lines: Vec::new(),
            extra_body_lines: Vec::new(),
            reference_op: ReferenceOp::Prepend,
            instanceable: false,
            reference_type: None,
            reference_target: None,
            prim_type: Some("Xform".to_string()),
            kind: None,
            specifier: Specifier::Def,
            children: Vec::new(),
            is_expanded: true,
            raw_body_lines: Vec::new(),
        };
        proof {
            assert(views(r.metadata_lines@) =~= Seq::<Seq<char>>::empty());
            assert(views(r.extra_body_lines@) =~= Seq::<Seq<char>>::empty());
            assert(views(r.raw_body_lines@) =~= Seq::<Seq<char>>::empty());
            assert(models(r.children@) =~= Seq::<AssetModel<T>>::empty());
        }
        r
    }

    /// An asset referencing the file `filename`, with explicit transforms.
    pub fn new_with_file(name: &str, filename: &str, transform: T) -> (r: Self)
        ensures
            is_generated_id(r.id@),
            model(r) == (AssetModel {
                filename: filename@,
                reference_type: Some(ReferenceType::File),
                has_explicit_transforms: true,
                ..fresh(r.id@, name@, transform)
            }),
    {
        let mut r = Self::new_default(transform);
        r.name = name.to_string();
        r.filename = filename.to_string();
        r.reference_type = Some(ReferenceType::File);
        r.has_explicit_transforms = true;
        r
    }

    /// An empty `Xform` container with explicit transforms.
    pub fn new_xform(name: &str, transform: T) -> (r: Self)
        ensures
            is_generated_id(r.id@),
            model(r) == (AssetModel {
                has_explicit_transforms: true,
                ..fresh(r.id@, name@, transform)
            }),
    {
        let mut r = Self::new_default(transform);
        r.name = name.to_string();
        r.has_explicit_transforms = true;
        r
    }
}

// ---------------------------------------------------------------------------
// Searches
// ---------------------------------------------------------------------------

/// A path of indices as natural numbers.
pub open spec fn nat_path(p: Seq<usize>) -> Seq<nat> {
    p.map_values(|x: usize| x as nat)
}

fn id_is(a: &String, id: &str) -> (r: bool)
    ensures
        r == (a@ == id@),
{
    crate::kinds::str_eq(a.as_str(), id)
}

/// Pre-order search for the asset carrying `id`.
pub fn find_asset_in<'a, T>(assets: &'a Vec<StagerAsset<T>>, id: &str) -> (r: Option<&'a StagerAsset<T>>)
    ensures
        match r {
            Some(a) => find_preorder(models(assets@), id@) == Some(model(*a)),
            None => find_preorder(models(assets@), id@) is None,
        },
    decreases assets@,
{
    let ghost m = models(assets@);
    proof {
        lemma_models(assets@);
    }
    let mut i: usize = 0;
    while i < assets.len()
        invariant
            0 <= i <= assets.len(),
            m == models(assets@),
            m.len() == assets@.len(),
            forall|j: int| 0 <= j < assets@.len() ==> #[trigger] m[j] == model(assets@[j]),
            find_preorder_from(m, id@, 0) == find_preorder_from(m, id@, i as nat),
        decreases assets.len() - i,
    {
        let a = &assets[i];
        if id_is(&a.id, id) {
            return Some(a);
        }
        proof {
            assert(decreases_to!(assets@ => assets@[i as int]));
            assert(decreases_to!(assets@[i as int] => assets@[i as int].children));
            assert(decreases_to!(assets@[i as int].children => assets@[i as int].children@));
        }
        let found = find_asset_in(&a.children, id);
        if found.is_some() {
            return found;
        }
        i += 1;
    }
    None
}

/// Index of the first asset of `assets` carrying `id`.
fn first_index_with_id<T>(assets: &Vec<StagerAsset<T>>, id: &str) -> (r: Option<usize>)
    ensures
        match r {
            Some(i) => first_with_id(models(assets@), id@, 0) == Some(i as nat),
            None => first_with_id(models(assets@), id@, 0) is None,
        },
{
    let ghost m = models(assets@);
    proof {
        lemma_models(assets@);
    }
    let mut i: usize = 0;
    while i < assets.len()
        invariant
            0 <= i <= assets.len(),
            m == models(assets@),
            m.len() == assets@.len(),
            forall|j: int| 0 <= j < assets@.len() ==> #[trigger] m[j] == model(assets@[j]),
            first_with_id(m, id@, 0) == first_with_id(m, id@, i as nat),
        decreases assets.len() - i,
    {
        if id_is(&assets[i].id, id) {
            return Some(i);
        }
        i += 1;
    }
    None
}

/// Level-first search for the asset carrying `id`: the path to it.
pub fn locate_path<T>(assets: &Vec<StagerAsset<T>>, id: &str) -> (r: Option<Vec<usize>>)
    ensures
        match r {
            Some(p) => locate(models(assets@), id@) == Some(nat_path(p@)),
            None => locate(models(assets@), id@) is None,
        },
    decreases assets@,
{
    let ghost m = models(assets@);
    proof {
        lemma_models(assets@);
    }
    match first_index_with_id(assets, id) {
        Some(i) => {
            let mut p: Vec<usize> = Vec::new();
            p.push(i);
            assert(nat_path(p@) =~= seq![i as nat]);
            return Some(p);
        },
        None => {},
    }
    let mut k: usize = 0;
    while k < assets.len()
        invariant
            0 <= k <= assets.len(),
            m == models(assets@),
            m.len() == assets@.len(),
            forall|j: int| 0 <= j < assets@.len() ==> #[trigger] m[j] == model(assets@[j]),
            locate(m, id@) == locate_in_subtrees(m, id@, k as nat),
        decreases assets.len() - k,
    {
        proof {
            assert(decreases_to!(assets@ => assets@[k as int]));
            assert(decreases_to!(assets@[k as int] => assets@[k as int].children));
            assert(decreases_to!(assets@[k as int].children => assets@[k as int].children@));
        }
        match locate_path(&assets[k].children, id) {
            Some(sub) => {
                let mut p: Vec<usize> = Vec::new();
                p.push(k);
                let mut sub = sub;
                let ghost sv = sub@;
                p.append(&mut sub);
                assert(nat_path(p@) =~= seq![k as nat].add(nat_path(sv)));
                return Some(p);
            },
            None => {},
        }
        k += 1;
    }
    None
}

/// A located asset is reached by a valid path and carries the id searched.
pub proof fn lemma_locate_valid<T>(s: Seq<AssetModel<T>>, id: Seq<char>)
    ensures
        locate(s, id) matches Some(p) ==> valid_path(s, p) && node_at(s, p).id == id,
    decreases s, s.len() + 1,
{
    match first_with_id(s, id, 0) {
        Some(i) => {
            lemma_first_with_id(s, id, 0);
        },
        None => {
            lemma_locate_in_subtrees_valid(s, id, 0);
        },
    }
}

pub proof fn lemma_locate_in_subtrees_valid<T>(s: Seq<AssetModel<T>>, id: Seq<char>, k: nat)
    ensures
        locate_in_subtrees(s, id, k) matches Some(p) ==> valid_path(s, p) && node_at(s, p).id
            == id,
    decreases s, s.len() - k,
{
    if k < s.len() {
        lemma_locate_valid(s[k as int].children, id);
        match locate(s[k as int].children, id) {
            Some(q) => {
                let p = seq![k].add(q);
                assert(p.drop_first() =~= q);
            },
            None => {
                lemma_locate_in_subtrees_valid(s, id, k + 1);
            },
        }
    }
}

pub proof fn lemma_first_with_id<T>(s: Seq<AssetModel<T>>, id: Seq<char>, k: nat)
    ensures
        first_with_id(s, id, k) matches Some(i) ==> k <= i < s.len() && s[i as int].id == id,
    decreases s.len() - k,
{
    if k < s.len() && s[k as int].id != id {
        lemma_first_with_id(s, id, k + 1);
    }
}

// ---------------------------------------------------------------------------
// Edits at a path
// ---------------------------------------------------------------------------

/// The asset at the path `path[k..]`, borrowed for editing.
pub fn node_at_mut<'a, T>(assets: &'a mut Vec<StagerAsset<T>>, path: &Vec<usize>, k: usize) -> (r:
    &'a mut StagerAsset<T>)
    requires
        k < path.len(),
        valid_path(models(old(assets)@), nat_path(path@).subrange(k as int, path@.len() as int)),
    ensures
        model(*r) == node_at(
            models(old(assets)@),
            nat_path(path@).subrange(k as int, path@.len() as int),
        ),
        models(final(assets)@) == update_at(
            models(old(assets)@),
            nat_path(path@).subrange(k as int, path@.len() as int),
            model(*final(r)),
        ),
    decreases path.len() - k,
{
    let ghost p = nat_path(path@).subrange(k as int, path@.len() as int);
    proof {
        lemma_models(assets@);
        assert(p[0] == path@[k as int] as nat);
    }
    let i = path[k];
    proof {
        lemma_models_update_all(assets@, i as int);
    }
    let a = &mut assets[i];
    if k + 1 == path.len() {
        proof {
            assert(p.len() == 1);
        }
        a
    } else {
        proof {
            assert(p.drop_first() =~= nat_path(path@).subrange(k + 1, path@.len() as int));
        }
        let r = node_at_mut(&mut a.children, path, k + 1);
        r
    }
}

/// Takes out the asset at the path `path[k..]`, with its subtree.
fn remove_at_path<T>(assets: &mut Vec<StagerAsset<T>>, path: &Vec<usize>, k: usize) -> (r:
    StagerAsset<T>)
    requires
        k < path.len(),
        valid_path(models(old(assets)@), nat_path(path@).subrange(k as int, path@.len() as int)),
    ensures
        model(r) == node_at(
            models(old(assets)@),
            nat_path(path@).subrange(k as int, path@.len() as int),
        ),
        models(final(assets)@) == remove_at(
            models(old(assets)@),
            nat_path(path@).subrange(k as int, path@.len() as int),
        ),
    decreases path.len() - k,
{
    let ghost p = nat_path(path@).subrange(k as int, path@.len() as int);
    proof {
        lemma_models(assets@);
        assert(p[0] == path@[k as int] as nat);
    }
    let i = path[k];
    if k + 1 == path.len() {
        proof {
            assert(p.len() == 1);
            lemma_models_remove(assets@, i as int);
        }
        assets.remove(i)
    } else {
        proof {
            assert(p.drop_first() =~= nat_path(path@).subrange(k + 1, path@.len() as int));
            lemma_models_update_all(assets@, i as int);
        }
        let a = &mut assets[i];
        remove_at_path(&mut a.children, path, k + 1)
    }
}

/// Takes out the asset carrying `id` (found level-first), with its subtree.
pub fn remove_asset_in<T>(assets: &mut Vec<StagerAsset<T>>, id: &str) -> (r: Option<StagerAsset<T>>)
    ensures
        models(final(assets)@) == remove_id(models(old(assets)@), id@).0,
        match r {
            Some(a) => remove_id(models(old(assets)@), id@).1 == Some(model(a)),
            None => remove_id(models(old(assets)@), id@).1 is None,
        },
{
    match locate_path(assets, id) {
        Some(path) => {
            proof {
                lemma_locate_valid(models(assets@), id@);
                assert(nat_path(path@).subrange(0, path@.len() as int) =~= nat_path(path@));
            }
            let r = remove_at_path(assets, &path, 0);
            Some(r)
        },
        None => None,
    }
}

/// The asset carrying `id` (found level-first), borrowed for editing.
pub fn find_asset_mut_in<'a, T>(assets: &'a mut Vec<StagerAsset<T>>, id: &str) -> (r: Option<
    &'a mut StagerAsset<T>,
>)
    ensures
        match locate(models(old(assets)@), id@) {
            Some(p) => r matches Some(a) && model(*a) == node_at(models(old(assets)@), p)
                && models(final(assets)@) == update_at(models(old(assets)@), p, model(*final(a))),
            None => r is None && final(assets)@ == old(assets)@,
        },
{
    match locate_path(assets, id) {
        Some(path) => {
            proof {
                lemma_locate_valid(models(assets@), id@);
                assert(nat_path(path@).subrange(0, path@.len() as int) =~= nat_path(path@));
            }
            let r = node_at_mut(assets, &path, 0);
            Some(r)
        },
        None => None,
    }
}

// ---------------------------------------------------------------------------
// Selection
// ---------------------------------------------------------------------------

/// Appends the ids of the selected assets, in pre-order.
pub fn collect_selected_ids<T>(assets: &Vec<StagerAsset<T>>, ids: &mut Vec<String>)
    ensures
        views(final(ids)@) == views(old(ids)@) + selected_ids(models(assets@)),
    decreases assets@,
{
    let ghost m = models(assets@);
    proof {
        lemma_models(assets@);
    }
    let mut i: usize = 0;
    while i < assets.len()
        invariant
            0 <= i <= assets.len(),
            m == models(assets@),
            m.len() == assets@.len(),
            forall|j: int| 0 <= j < assets@.len() ==> #[trigger] m[j] == model(assets@[j]),
            views(old(ids)@) + selected_ids_from(m, 0) == views(ids@) + selected_ids_from(
                m,
                i as nat,
            ),
        decreases assets.len() - i,
    {
        let a = &assets[i];
        let ghost before = views(ids@);
        if a.selected {
            ids.push(a.id.clone());
            assert(views(ids@) =~= before.push(a.id@));
        }
        proof {
            assert(decreases_to!(assets@ => assets@[i as int]));
            assert(decreases_to!(assets@[i as int] => assets@[i as int].children));
            assert(decreases_to!(assets@[i as int].children => assets@[i as int].children@));
        }
        let ghost mid = views(ids@);
        collect_selected_ids(&a.children, ids);
        proof {
            let own: Seq<Seq<char>> = if a.selected {
                seq![a.id@]
            } else {
                Seq::empty()
            };
            assert(mid =~= before + own);
            assert(selected_ids_from(m, i as nat) == own + selected_ids_from(
                m[i as int].children,
                0,
            ) + selected_ids_from(m, (i + 1) as nat));
            assert(views(ids@) + selected_ids_from(m, (i + 1) as nat) =~= before
                + selected_ids_from(m, i as nat));
        }
        i += 1;
    }
    assert(views(ids@) =~= views(ids@) + selected_ids_from(m, i as nat));
}

/// Appends copies of the selected assets, in pre-order.
pub fn collect_selected_assets<T: Copy>(
    assets: &Vec<StagerAsset<T>>,
    out: &mut Vec<StagerAsset<T>>,
)
    ensures
        models(final(out)@) == models(old(out)@) + selected_assets(models(assets@)),
    decreases assets@,
{
    let ghost m = models(assets@);
    proof {
        lemma_models(assets@);
    }
    let mut i: usize = 0;
    while i < assets.len()
        invariant
            0 <= i <= assets.len(),
            m == models(assets@),
            m.len() == assets@.len(),
            forall|j: int| 0 <= j < assets@.len() ==> #[trigger] m[j] == model(assets@[j]),
            models(old(out)@) + selected_assets_from(m, 0) == models(out@) + selected_assets_from(
                m,
                i as nat,
            ),
        decreases assets.len() - i,
    {
        let a = &assets[i];
        let ghost before = models(out@);
        if a.selected {
            let c = a.deep_clone();
            proof {
                lemma_models_push(out@, c);
            }
            out.push(c);
        }
        proof {
            assert(decreases_to!(assets@ => assets@[i as int]));
            assert(decreases_to!(assets@[i as int] => assets@[i as int].children));
            assert(decreases_to!(assets@[i as int].children => assets@[i as int].children@));
        }
        let ghost mid = models(out@);
        collect_selected_assets(&a.children, out);
        proof {
            let own: Seq<AssetModel<T>> = if a.selected {
                seq![m[i as int]]
            } else {
                Seq::empty()
            };
            assert(mid =~= before + own);
            assert(selected_assets_from(m, i as nat) == own + selected_assets_from(
                m[i as int].children,
                0,
            ) + selected_assets_from(m, (i + 1) as nat));
            assert(models(out@) + selected_assets_from(m, (i + 1) as nat) =~= before
                + selected_assets_from(m, i as nat));
        }
        i += 1;
    }
    assert(models(out@) =~= models(out@) + selected_assets_from(m, i as nat));
}

/// Clears the selection flag throughout the tree.
pub fn deselect_all_in<T>(assets: &mut Vec<StagerAsset<T>>)
    ensures
        models(final(assets)@) == deselected(models(old(assets)@)),
    decreases old(assets)@,
{
    let ghost m = models(assets@);
    proof {
        lemma_models(assets@);
    }
    let mut i: usize = 0;
    while i < assets.len()
        invariant
            0 <= i <= assets.len(),
            m == models(old(assets)@),
            m.len() == old(assets)@.len(),
            assets@.len() == old(assets)@.len(),
            forall|j: int| 0 <= j < m.len() ==> #[trigger] m[j] == model(old(assets)@[j]),
            forall|j: int| i <= j < assets@.len() ==> assets@[j] == old(assets)@[j],
            models(assets@).take(i as int) + deselected_from(m, i as nat) == deselected_from(m, 0),
        decreases assets.len() - i,
    {
        proof {
            assert(decreases_to!(old(assets)@ => old(assets)@[i as int]));
            assert(decreases_to!(old(assets)@[i as int] => old(assets)@[i as int].children));
            assert(decreases_to!(old(assets)@[i as int].children => old(assets)@[i as int].children@));
            lemma_models_update_all(assets@, i as int);
            lemma_models(assets@);
        }
        let ghost pre = assets@;
        let a = &mut assets[i];
        a.selected = false;
        deselect_all_in(&mut a.children);
        proof {
            lemma_models(assets@);
            let d = AssetModel { selected: false, children: deselected_from(m[i as int].children, 0), ..m[i as int] };
            assert(model(assets@[i as int]) == d);
            assert(deselected_from(m, i as nat) == seq![d] + deselected_from(m, (i + 1) as nat));
            assert(models(assets@).take(i + 1) =~= models(pre).take(i as int).push(d));
            assert(models(pre).take(i as int) =~= models(assets@).take(i as int));
        }
        i += 1;
    }
    proof {
        lemma_models(assets@);
        assert(models(assets@).take(i as int) =~= models(assets@));
        assert(deselected_from(m, i as nat) =~= Seq::<AssetModel<T>>::empty());
    }
}

// ---------------------------------------------------------------------------
// Fresh identifiers for copies
// ---------------------------------------------------------------------------

/// `b` is `a` with a newly generated identifier, and so is every asset
/// of its subtree.
pub open spec fn renamed_one<T>(a: AssetModel<T>, b: AssetModel<T>) -> bool
    decreases a, 1nat,
{
    &&& is_generated_id(b.id)
    &&& b == AssetModel { id: b.id, children: b.children, ..a }
    &&& renamed(a.children, b.children)
}

/// Each asset of `t` is the asset of `s` at the same place, renamed.
pub open spec fn renamed<T>(s: Seq<AssetModel<T>>, t: Seq<AssetModel<T>>) -> bool
    decreases s, 0nat,
{
    &&& s.len() == t.len()
    &&& forall|j: int| 0 <= j < s.len() ==> #[trigger] renamed_one(s[j], t[j])
}

/// Gives every asset of the trees a newly generated identifier.
pub fn regenerate_ids<T>(assets: &mut Vec<StagerAsset<T>>)
    ensures
        renamed(models(old(assets)@), models(final(assets)@)),
    decreases old(assets)@,
{
    proof {
        lemma_models(assets@);
    }
    let mut i: usize = 0;
    while i < assets.len()
        invariant
            0 <= i <= assets.len(),
            assets@.len() == old(assets)@.len(),
            models(old(assets)@).len() == old(assets)@.len(),
            forall|j: int| 0 <= j < old(assets)@.len() ==> #[trigger] models(old(assets)@)[j] == model(old(assets)@[j]),
            forall|j: int| i <= j < assets@.len() ==> assets@[j] == old(assets)@[j],
            forall|j: int| 0 <= j < i ==> renamed_one(model(old(assets)@[j]), #[trigger] model(assets@[j])),
        decreases assets.len() - i,
    {
        proof {
            assert(decreases_to!(old(assets)@ => old(assets)@[i as int]));
            assert(decreases_to!(old(assets)@[i as int] => old(assets)@[i as int].children));
            assert(decreases_to!(old(assets)@[i as int].children => old(assets)@[i as int].children@));
        }
        let a = &mut assets[i];
        a.id = crate::ids::generate_id();
        regenerate_ids(&mut a.children);
        i += 1;
    }
    proof {
        lemma_models(assets@);
        assert forall|j: int| 0 <= j < old(assets)@.len() implies #[trigger] renamed_one(models(old(assets)@)[j], models(assets@)[j]) by {
            assert(renamed_one(model(old(assets)@[j]), model(assets@[j])));
        }
    }
}

/// Reading a path after writing it gives what was written.
pub proof fn lemma_node_at_update<T>(s: Seq<AssetModel<T>>, p: Seq<nat>, n: AssetModel<T>)
    requires
        valid_path(s, p),
    ensures
        node_at(update_at(s, p, n), p) == n,
        valid_path(update_at(s, p, n), p),
    decreases p.len(),
{
    if p.len() > 1 {
        lemma_node_at_update(s[p[0] as int].children, p.drop_first(), n);
    }
}

/// Reading a path after writing it gives what was written, whatever was written.
pub proof fn lemma_node_at_update_all<T>(s: Seq<AssetModel<T>>, p: Seq<nat>)
    requires
        valid_path(s, p),
    ensures
        forall|n: AssetModel<T>| #[trigger] node_at(update_at(s, p, n), p) == n,
{
    assert forall|n: AssetModel<T>| #[trigger] node_at(update_at(s, p, n), p) == n by {
        lemma_node_at_update(s, p, n);
    }
}

} // verus!
