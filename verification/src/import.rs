//! Importing a parsed layer into the stager: root prims become staged
//! assets, with their specifier, type, kind, instancing, first reference,
//! transform operation order and children; the layer's default prim and up
//! axis become the stage's.
//!
//! The numbers of a prim's transform operations are read by the caller,
//! which reports which operations it found.

use vstd::prelude::*;

use crate::asset::{lemma_models_push, model, models, AssetModel, StagerAsset};
use crate::func::{apply, deterministic, result_of};
use crate::ids::{generate_id, is_generated_id};
use crate::kinds::{kind_of_token, str_eq, ReferenceOp, ReferenceType, Specifier, UpAxis, UsdKind};
use crate::asset::opt_view;
use crate::paths::{file_name_of, path_file_name};
use crate::stager::{settings_model, SettingsModel, Snapshot, Stager, StagerSceneSettings};
use crate::text::{decimal, push_decimal};
use crate::text::views;
use crate::writer::{prim_name, prim_name_string, AssetRef, ListOpRecord, PrimRecord, PropertyRecord, UsdValue};

verus! {

/// What the caller read of a prim's transform: the transform, and which of
/// the operations `xformOp:translate`, `xformOp:rotateXYZ`,
/// `xformOp:scale` and `xformOp:transform` it found with enough components.
pub struct TransformRead<T> {
    pub transform: T,
    pub translate: bool,
    pub rotate: bool,
    pub scale: bool,
    pub matrix: bool,
}

/// Whether a path names a root prim: `/` followed by one non-empty name.
pub open spec fn is_root_path(p: Seq<char>) -> bool {
    p.len() > 1 && p[0] == '/' && forall|i: int| 1 <= i < p.len() ==> #[trigger] p[i] != '/'
}

/// Whether a prim path names a root prim.
pub fn is_root_prim_path(path: &str) -> (r: bool)
    ensures
        r == is_root_path(path@),
{
    let cs = crate::text::chars_of(path);
    if cs.len() <= 1 || cs[0] != '/' {
        return false;
    }
    let mut i: usize = 1;
    while i < cs.len()
        invariant
            1 <= i <= cs.len(),
            cs@ == path@,
            forall|k: int| 1 <= k < i ==> cs@[k] != '/',
        decreases cs.len() - i,
    {
        if cs[i] == '/' {
            assert(path@[i as int] == '/');
            return false;
        }
        i += 1;
    }
    true
}

/// The first property of the given name.
pub open spec fn find_property(ps: Seq<PropertyRecord>, name: Seq<char>) -> Option<PropertyRecord>
    decreases ps.len(),
{
    if ps.len() == 0 {
        None
    } else if ps[0].name@ == name {
        Some(ps[0])
    } else {
        find_property(ps.drop_first(), name)
    }
}

/// The transform operation order of a prim: the token array held by its
/// `xformOpOrder` attribute.
pub open spec fn op_order_of(p: PrimRecord) -> Option<Seq<Seq<char>>> {
    match find_property(p.properties@, "xformOpOrder"@) {
        Some(pr) => match pr.spec {
            Some(s) => match s.default_value {
                Some(UsdValue::TokenVec(ops)) => Some(views(ops@)),
                _ => None,
            },
            None => None,
        },
        None => None,
    }
}

/// The reference an imported asset keeps: the first prepended one (a file,
/// or an internal target), else the first appended file.
pub open spec fn ref_import(r: Option<ListOpRecord<AssetRef>>) -> (Seq<char>, Option<ReferenceType>, ReferenceOp, Option<Seq<char>>) {
    match r {
        None => (Seq::empty(), None, ReferenceOp::Prepend, None),
        Some(op) => {
            let first = if op.prepended_items@.len() > 0 {
                let f = op.prepended_items@[0];
                if f.asset_path@.len() > 0 {
                    (f.asset_path@, Some(ReferenceType::File), ReferenceOp::Prepend, None)
                } else {
                    (Seq::empty(), Some(ReferenceType::Internal), ReferenceOp::Prepend, Some(f.prim_path@))
                }
            } else {
                (Seq::empty(), None, ReferenceOp::Prepend, None)
            };
            if first.1 is None && op.appended_items@.len() > 0 && op.appended_items@[0].asset_path@.len() > 0 {
                (op.appended_items@[0].asset_path@, Some(ReferenceType::File), ReferenceOp::Append, first.3)
            } else {
                first
            }
        },
    }
}

/// The imported asset of a prim, children aside.
pub open spec fn import_fields<T>(p: PrimRecord, r: TransformRead<T>, id: Seq<char>) -> AssetModel<T> {
    let refs = ref_import(p.references);
    AssetModel {
        id,
        name: prim_name(p.path@),
        filename: refs.0,
        transform: r.transform,
        selected: false,
        use_matrix: r.matrix,
        xform_op_order: op_order_of(p),
        transform_prop_name: if r.matrix {
            Some("xformOp:transform"@)
        } else {
            None
        },
        has_explicit_transforms: r.translate || r.rotate || r.scale || r.matrix,
        visibility: None,
        metadata_lines: Seq::empty(),
        extra_body_lines: Seq::empty(),
        reference_op: refs.2,
        instanceable: match p.instanceable {
            Some(UsdValue::Bool(b)) => b,
            _ => false,
        },
        reference_type: refs.1,
        reference_target: refs.3,
        prim_type: match p.prim_type {
            Some(UsdValue::Token(t)) => Some(t@),
            _ => Some("Xform"@),
        },
        kind: match p.kind {
            Some(UsdValue::Token(k)) => kind_of_token(k@),
            _ => None,
        },
        specifier: match p.specifier {
            Some(UsdValue::Specifier(s)) => s,
            _ => Specifier::Def,
        },
        children: Seq::empty(),
        is_expanded: true,
        raw_body_lines: Seq::empty(),
    }
}

/// Whether `a` is the import of prim `p`, its subtree included, with
/// generated identifiers.
pub open spec fn imports<T, F: Fn(&String) -> TransformRead<T>>(a: AssetModel<T>, p: PrimRecord, read: F) -> bool
    decreases p, 1nat,
{
    &&& is_generated_id(a.id)
    &&& a == AssetModel { id: a.id, children: a.children, ..import_fields(p, result_of(read, p.path), a.id) }
    &&& imports_children(a.children, p.children@, read)
}

/// Whether `s` are the imports of the present prims among `cs`, in order.
pub open spec fn imports_children<T, F: Fn(&String) -> TransformRead<T>>(
    s: Seq<AssetModel<T>>,
    cs: Seq<Option<PrimRecord>>,
    read: F,
) -> bool
    decreases cs, 0nat,
{
    if cs.len() == 0 {
        s.len() == 0
    } else {
        match cs.last() {
            None => imports_children(s, cs.drop_last(), read),
            Some(c) => s.len() > 0 && imports_children(s.drop_last(), cs.drop_last(), read) && imports(
                s.last(),
                c,
                read,
            ),
        }
    }
}

/// An imported asset has explicit transforms exactly when its prim has a
/// translate, rotate, scale or matrix op; it is in matrix mode exactly when
/// the prim has a matrix op; it keeps the transform read from the prim.
pub proof fn law_import_transform_flags<T, F: Fn(&String) -> TransformRead<T>>(a: AssetModel<T>, p: PrimRecord, read: F)
    requires
        imports(a, p, read),
    ensures
        a.has_explicit_transforms == (result_of(read, p.path).translate || result_of(read, p.path).rotate
            || result_of(read, p.path).scale || result_of(read, p.path).matrix),
        a.use_matrix == result_of(read, p.path).matrix,
        a.transform == result_of(read, p.path).transform,
{
    let r = result_of(read, p.path);
    assert(a.has_explicit_transforms == import_fields(p, r, a.id).has_explicit_transforms);
    assert(a.use_matrix == import_fields(p, r, a.id).use_matrix);
    assert(a.transform == import_fields(p, r, a.id).transform);
}

/// An imported asset is named after its prim: the name holds no `/`, and
/// the prim's path is a `/`-separated prefix followed by the name (the
/// whole path when it holds no `/`).
pub proof fn law_import_name<T, F: Fn(&String) -> TransformRead<T>>(a: AssetModel<T>, p: PrimRecord, read: F)
    requires
        imports(a, p, read),
    ensures
        forall|j: int| 0 <= j < a.name.len() ==> a.name[j] != '/',
        p.path@.len() >= a.name.len(),
        p.path@.skip(p.path@.len() - a.name.len()) == a.name,
        a.name.len() < p.path@.len() ==> p.path@[p.path@.len() - a.name.len() - 1] == '/',
{
    let r = result_of(read, p.path);
    assert(a.name == import_fields(p, r, a.id).name);
    let path = p.path@;
    crate::render::lemma_last_index_of(path, '/');
    match crate::render::last_index_of(path, '/') {
        Some(i) => {
            assert(a.name == path.skip(i + 1int));
            assert(path.skip(path.len() - a.name.len()) =~= a.name);
        },
        None => {
            assert(a.name == path);
            assert(path.skip(0) =~= path);
        },
    }
}

fn clone_tokens(v: &Vec<String>) -> (r: Vec<String>)
    ensures
        views(r@) == views(v@),
{
    let mut out: Vec<String> = Vec::new();
    let mut i: usize = 0;
    while i < v.len()
        invariant
            0 <= i <= v.len(),
            views(out@) == views(v@).take(i as int),
        decreases v.len() - i,
    {
        let t = v[i].clone();
        proof {
            assert(views(out@.push(t)) =~= views(out@).push(t@));
        }
        out.push(t);
        assert(views(out@) =~= views(v@).take(i + 1));
        i += 1;
    }
    assert(views(v@).take(i as int) =~= views(v@));
    out
}

/// The transform operation order of a prim.
fn op_order(p: &PrimRecord) -> (r: Option<Vec<String>>)
    ensures
        match r {
            Some(v) => op_order_of(*p) == Some(views(v@)),
            None => op_order_of(*p) is None,
        },
{
    let ps = &p.properties;
    let mut i: usize = 0;
    assert(ps@.skip(0) =~= ps@);
    while i < ps.len()
        invariant
            0 <= i <= ps.len(),
            ps@ == p.properties@,
            find_property(ps@, "xformOpOrder"@) == find_property(ps@.skip(i as int), "xformOpOrder"@),
        decreases ps.len() - i,
    {
        assert(ps@.skip(i as int).drop_first() =~= ps@.skip(i + 1));
        assert(ps@.skip(i as int)[0] == ps@[i as int]);
        if str_eq(ps[i].name.as_str(), "xformOpOrder") {
            assert(ps@.skip(i as int).len() > 0);
            assert(find_property(ps@, "xformOpOrder"@) == Some(ps@[i as int]));
            let found = &ps[i];
            assert(op_order_of(*p) == match found.spec {
                Some(s) => match s.default_value {
                    Some(UsdValue::TokenVec(ops)) => Some(views(ops@)),
                    _ => None,
                },
                None => None,
            });
            match &found.spec {
                Some(s) => match &s.default_value {
                    Some(UsdValue::TokenVec(ops)) => {
                        let r = clone_tokens(ops);
                        return Some(r);
                    },
                    _ => {
                        return None;
                    },
                },
                None => {
                    return None;
                },
            }
        }
        i += 1;
    }
    None
}

/// Converts a prim and its subtree into staged assets; `read` reports what
/// it reads of a prim's transform, given the prim's path.
pub fn spec_to_asset<T, F: Fn(&String) -> TransformRead<T>>(p: &PrimRecord, read: &F) -> (r: StagerAsset<T>)
    requires
        deterministic(*read),
    ensures
        imports(model(r), *p, *read),
    decreases p, 1nat,
{
    let tr = apply(read, &p.path);
    let mut asset = StagerAsset::new_default(tr.transform);
    asset.name = prim_name_string(p.path.as_str());
    match &p.specifier {
        Some(UsdValue::Specifier(s)) => asset.specifier = *s,
        _ => {},
    }
    match &p.prim_type {
        Some(UsdValue::Token(t)) => asset.prim_type = Some(t.clone()),
        _ => {},
    }
    match &p.kind {
        Some(UsdValue::Token(k)) => asset.kind = UsdKind::from_str(k.as_str()),
        _ => {},
    }
    match &p.instanceable {
        Some(UsdValue::Bool(b)) => asset.instanceable = *b,
        _ => {},
    }
    match &p.references {
        Some(op) => {
            if op.prepended_items.len() > 0 {
                let first = &op.prepended_items[0];
                if !first.asset_path.as_str().is_empty() {
                    asset.filename = first.asset_path.clone();
                    asset.reference_type = Some(ReferenceType::File);
                    asset.reference_op = ReferenceOp::Prepend;
                } else {
                    asset.reference_target = Some(first.prim_path.clone());
                    asset.reference_type = Some(ReferenceType::Internal);
                }
            }
            if asset.reference_type.is_none() && op.appended_items.len() > 0 {
                let first = &op.appended_items[0];
                if !first.asset_path.as_str().is_empty() {
                    asset.filename = first.asset_path.clone();
                    asset.reference_type = Some(ReferenceType::File);
                    asset.reference_op = ReferenceOp::Append;
                }
            }
        },
        None => {},
    }
    asset.xform_op_order = op_order(p);
    if tr.translate || tr.rotate || tr.scale {
        asset.has_explicit_transforms = true;
    }
    if tr.matrix {
        asset.use_matrix = true;
        asset.has_explicit_transforms = true;
        asset.transform_prop_name = Some("xformOp:transform".to_string());
    }
    let mut children: Vec<StagerAsset<T>> = Vec::new();
    let mut i: usize = 0;
    assert(p.children@.take(0) =~= Seq::<Option<PrimRecord>>::empty());
    assert(models(children@) =~= Seq::<AssetModel<T>>::empty());
    while i < p.children.len()
        invariant
            0 <= i <= p.children.len(),
            deterministic(*read),
            imports_children(models(children@), p.children@.take(i as int), *read),
        decreases p.children.len() - i,
    {
        proof {
            assert(p.children@.take(i + 1).drop_last() =~= p.children@.take(i as int));
            assert(decreases_to!(*p => p.children));
            assert(decreases_to!(p.children => p.children@));
            assert(decreases_to!(p.children@ => p.children@[i as int]));
        }
        match &p.children[i] {
            Some(c) => {
                let child = spec_to_asset(c, read);
                proof {
                    lemma_models_push(children@, child);
                    assert(models(children@.push(child)).drop_last() =~= models(children@));
                }
                children.push(child);
            },
            None => {},
        }
        i += 1;
    }
    assert(p.children@.take(i as int) =~= p.children@);
    asset.children = children;
    proof {
        let m = model(asset);
        assert(m == AssetModel { id: m.id, children: m.children, ..import_fields(*p, tr, m.id) });
    }
    asset
}

/// Takes the layer's default prim (a token) and up axis (`Y` for the token
/// `Y`, Z for any other token) into the stage settings.
pub fn import_root_settings<N>(settings: &mut StagerSceneSettings<N>, default_prim: &Option<UsdValue>, up_axis: &Option<UsdValue>)
    ensures
        settings_model(*final(settings)) == (SettingsModel {
            default_prim: match default_prim {
                Some(UsdValue::Token(d)) => d@,
                _ => settings_model(*old(settings)).default_prim,
            },
            up_axis: match up_axis {
                Some(UsdValue::Token(u)) => if u@ == "Y"@ {
                    UpAxis::Y
                } else {
                    UpAxis::Z
                },
                _ => old(settings).up_axis,
            },
            ..settings_model(*old(settings))
        }),
{
    match default_prim {
        Some(UsdValue::Token(d)) => settings.default_prim = d.clone(),
        _ => {},
    }
    match up_axis {
        Some(UsdValue::Token(u)) => {
            settings.up_axis = if str_eq(u.as_str(), "Y") {
                UpAxis::Y
            } else {
                UpAxis::Z
            };
        },
        _ => {},
    }
}

/// Whether `s` are the imports of `ps`, one for one.
pub open spec fn imports_all<T, F: Fn(&String) -> TransformRead<T>>(s: Seq<AssetModel<T>>, ps: Seq<PrimRecord>, read: F) -> bool {
    s.len() == ps.len() && forall|i: int| 0 <= i < s.len() ==> imports(#[trigger] s[i], ps[i], read)
}

/// The status after importing `count` root prims from `path`.
pub open spec fn parsed_status(path: Seq<char>, count: nat) -> Seq<char> {
    "Parsed: "@ + match file_name_of(path) {
        Some(n) => n,
        None => Seq::empty(),
    } + " ("@ + decimal(count) + " prims)"@
}

impl<T: Copy, N: Copy> Stager<T, N> {
    /// Replaces the stage with a parsed layer read from `path`: its root
    /// prims (`roots`, each with its subtree) become the assets, its default
    /// prim and up axis go into the settings, inject mode ends and the
    /// history is cleared.
    pub fn import_parsed<F: Fn(&String) -> TransformRead<T>>(
        &mut self,
        path: &str,
        default_prim: &Option<UsdValue>,
        up_axis: &Option<UsdValue>,
        roots: &Vec<PrimRecord>,
        read: &F,
    )
        requires
            deterministic(*read),
        ensures
            imports_all(models(final(self).assets@), roots@, *read),
            settings_model(final(self).settings) == (SettingsModel {
                default_prim: match default_prim {
                    Some(UsdValue::Token(d)) => d@,
                    _ => settings_model(old(self).settings).default_prim,
                },
                up_axis: match up_axis {
                    Some(UsdValue::Token(u)) => if u@ == "Y"@ {
                        UpAxis::Y
                    } else {
                        UpAxis::Z
                    },
                    _ => old(self).settings.up_axis,
                },
                ..settings_model(old(self).settings)
            }),
            final(self).base_content is None,
            opt_view(final(self).base_file_path) == Some(path@),
            final(self).history.past().len() == 0,
            final(self).history.cursor() == 0,
            final(self).status() == Some(parsed_status(path@, roots@.len())),
            final(self).last_selected() == old(self).last_selected(),
    {
        let mut assets: Vec<StagerAsset<T>> = Vec::new();
        let mut i: usize = 0;
        while i < roots.len()
            invariant
                0 <= i <= roots.len(),
                deterministic(*read),
                imports_all(models(assets@), roots@.take(i as int), *read),
            decreases roots.len() - i,
        {
            let a = spec_to_asset(&roots[i], read);
            proof {
                lemma_models_push(assets@, a);
                crate::asset::lemma_models(assets@.push(a));
            }
            assets.push(a);
            assert(imports_all(models(assets@), roots@.take(i + 1), *read)) by {
                crate::asset::lemma_models(assets@);
            }
            i += 1;
        }
        assert(roots@.take(i as int) =~= roots@);
        self.assets = assets;
        self.base_content = None;
        self.base_file_path = Some(path.to_string());
        import_root_settings(&mut self.settings, default_prim, up_axis);
        self.history.clear();
        let mut msg = "Parsed: ".to_string();
        match path_file_name(path) {
            Some(n) => msg.append(n.as_str()),
            None => {},
        }
        msg.append(" (");
        push_decimal(&mut msg, roots.len() as u64);
        msg.append(" prims)");
        self.set_status(msg.as_str());
    }

    /// Keeps a layer that could not be parsed as the base of inject mode:
    /// the assets are dropped, the history is cleared and the status tells
    /// the parse error.
    pub fn import_failed(&mut self, path: &str, content: String, error: &str)
        ensures
            final(self).assets@.len() == 0,
            opt_view(final(self).base_content) == Some(content@),
            opt_view(final(self).base_file_path) == Some(path@),
            final(self).settings == old(self).settings,
            final(self).history.past().len() == 0,
            final(self).history.cursor() == 0,
            final(self).status() == Some("Parse failed, using inject mode: "@ + error@),
            final(self).last_selected() == old(self).last_selected(),
    {
        self.base_content = Some(content);
        self.base_file_path = Some(path.to_string());
        self.assets = Vec::new();
        self.history.clear();
        let mut msg = "Parse failed, using inject mode: ".to_string();
        msg.append(error);
        self.set_status(msg.as_str());
    }
}

// ---------------------------------------------------------------------------
// Prim hierarchy
// ---------------------------------------------------------------------------

/// The path of a child prim: `/name` under the pseudo-root, `parent/name`
/// elsewhere.
pub open spec fn child_path_of(parent: Seq<char>, name: Seq<char>) -> Seq<char> {
    if parent == "/"@ {
        seq!['/'] + name
    } else {
        parent + seq!['/'] + name
    }
}

/// The path of a child prim.
pub fn child_prim_path(parent: &str, name: &str) -> (r: String)
    ensures
        r@ == child_path_of(parent@, name@),
{
    let mut r = if str_eq(parent, "/") {
        String::new()
    } else {
        parent.to_string()
    };
    crate::text::push_char(&mut r, '/');
    r.append(name);
    proof {
        if parent@ == "/"@ {
            reveal_strlit("");
        }
    }
    r
}

/// The name shown for a prim in the hierarchy: its last path component,
/// `/` for the pseudo-root.
pub open spec fn node_name_of(path: Seq<char>) -> Seq<char> {
    if prim_name(path).len() == 0 {
        "/"@
    } else {
        prim_name(path)
    }
}

/// The name shown for a prim in the hierarchy.
pub fn hierarchy_node_name(path: &str) -> (r: String)
    ensures
        r@ == node_name_of(path@),
{
    let n = prim_name_string(path);
    if n.as_str().is_empty() {
        "/".to_string()
    } else {
        n
    }
}

/// How a USD file is read.
#[derive(Debug, Clone, Copy, PartialEq, Eq, Structural)]
pub enum UsdEncoding {
    /// USDA text, read by the text reader.
    Text,
    /// USDC crate binary (`.usdc`, `.usd`).
    Crate,
}

/// The encoding a lower-case extension names.
pub open spec fn encoding_of(ext: Seq<char>) -> Option<UsdEncoding> {
    if ext == "usda"@ {
        Some(UsdEncoding::Text)
    } else if ext == "usdc"@ || ext == "usd"@ {
        Some(UsdEncoding::Crate)
    } else {
        None
    }
}

/// How the USD file at `path` is read, by its extension in lower case (an
/// empty one where it has none); the error names an unsupported extension.
pub fn usd_encoding(path: &str) -> (r: Result<UsdEncoding, String>)
    ensures
        ({
            let ext = match crate::paths::extension_of(path@) {
                Some(e) => crate::paths::lowercase_of(e),
                None => Seq::empty(),
            };
            match r {
                Ok(e) => encoding_of(ext) == Some(e),
                Err(m) => encoding_of(ext) is None && m@ == "Unsupported file extension: "@ + ext
                    + ". Use .usda, .usdc, or .usd"@,
            }
        }),
{
    let ext = match crate::paths::path_extension(path) {
        Some(e) => crate::paths::to_lowercase(e.as_str()),
        None => String::new(),
    };
    let e = ext.as_str();
    if str_eq(e, "usda") {
        Ok(UsdEncoding::Text)
    } else if str_eq(e, "usdc") || str_eq(e, "usd") {
        Ok(UsdEncoding::Crate)
    } else {
        let mut m = "Unsupported file extension: ".to_string();
        m.append(e);
        m.append(". Use .usda, .usdc, or .usd");
        Err(m)
    }
}

} // verus!
