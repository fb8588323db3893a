use powerusd::import::{
    child_prim_path, hierarchy_node_name, is_root_prim_path, spec_to_asset, usd_encoding,
    TransformRead, UsdEncoding,
};
use powerusd::kinds::{ReferenceOp, ReferenceType, Specifier, UpAxis, UsdKind};
use powerusd::stager::Stager;
use powerusd::writer::{AssetRef, ListOpRecord, PrimRecord, PropertyRecord, PropertySpec, UsdValue};

fn prim(path: &str) -> PrimRecord {
    PrimRecord {
        path: path.to_string(),
        specifier: None,
        prim_type: None,
        kind: None,
        instanceable: None,
        references: None,
        payload: None,
        inherits: None,
        specializes: None,
        custom_data: None,
        properties: Vec::new(),
        children: Vec::new(),
    }
}

fn refs(prepended: Vec<AssetRef>, appended: Vec<AssetRef>) -> Option<ListOpRecord<AssetRef>> {
    Some(ListOpRecord { explicit: false, explicit_items: vec![], prepended_items: prepended, appended_items: appended })
}

fn r(asset: &str, prim: &str) -> AssetRef {
    AssetRef { asset_path: asset.to_string(), prim_path: prim.to_string() }
}

fn read_none(_p: &String) -> TransformRead<u32> {
    TransformRead { transform: 0, translate: false, rotate: false, scale: false, matrix: false }
}

fn read_by_path(p: &String) -> TransformRead<u32> {
    TransformRead {
        transform: p.len() as u32,
        translate: p.ends_with("Moved"),
        rotate: false,
        scale: false,
        matrix: p.ends_with("Locked"),
    }
}

#[test]
fn root_prim_paths() {
    assert!(is_root_prim_path("/World"));
    assert!(!is_root_prim_path("/World/Child"));
    assert!(!is_root_prim_path("/"));
    assert!(!is_root_prim_path("World"));
    assert!(!is_root_prim_path(""));
}

#[test]
fn hierarchy_names_and_paths() {
    assert_eq!(child_prim_path("/", "World"), "/World");
    assert_eq!(child_prim_path("/World", "Cube"), "/World/Cube");
    assert_eq!(hierarchy_node_name("/World/Cube"), "Cube");
    assert_eq!(hierarchy_node_name("/"), "/");
}

#[test]
fn encodings_by_extension() {
    assert_eq!(usd_encoding("a.usda"), Ok(UsdEncoding::Text));
    assert_eq!(usd_encoding("a.USDC"), Ok(UsdEncoding::Crate));
    assert_eq!(usd_encoding("a.usd"), Ok(UsdEncoding::Crate));
    assert_eq!(
        usd_encoding("a.usdz"),
        Err("Unsupported file extension: usdz. Use .usda, .usdc, or .usd".to_string())
    );
    assert_eq!(
        usd_encoding("noext"),
        Err("Unsupported file extension: . Use .usda, .usdc, or .usd".to_string())
    );
}

#[test]
fn prim_becomes_asset() {
    let mut p = prim("/World/Chair");
    p.specifier = Some(UsdValue::Specifier(Specifier::Over));
    p.prim_type = Some(UsdValue::Token("Mesh".to_string()));
    p.kind = Some(UsdValue::Token("component".to_string()));
    p.instanceable = Some(UsdValue::Bool(true));
    p.references = refs(vec![r("./chair.usd", "")], vec![]);
    p.properties = vec![PropertyRecord {
        name: "xformOpOrder".to_string(),
        spec: Some(PropertySpec {
            is_relationship: false,
            value_type: None,
            custom: None,
            variability: None,
            default_value: Some(UsdValue::TokenVec(vec!["xformOp:translate".to_string()])),
            time_samples: None,
            target_paths: None,
        }),
    }];
    let a = spec_to_asset(&p, &read_none);
    assert_eq!(a.name, "Chair");
    assert_eq!(a.specifier, Specifier::Over);
    assert_eq!(a.prim_type.as_deref(), Some("Mesh"));
    assert_eq!(a.kind, Some(UsdKind::Component));
    assert!(a.instanceable);
    assert_eq!(a.filename, "./chair.usd");
    assert_eq!(a.reference_type, Some(ReferenceType::File));
    assert_eq!(a.reference_op, ReferenceOp::Prepend);
    assert_eq!(a.xform_op_order, Some(vec!["xformOp:translate".to_string()]));
    assert!(!a.has_explicit_transforms);
    assert!(!a.use_matrix);
    assert!(a.children.is_empty());
    assert!(a.id.contains('_'));
}

#[test]
fn defaults_and_references() {
    let mut p = prim("/A");
    p.prim_type = Some(UsdValue::Str("Mesh".to_string()));
    p.kind = Some(UsdValue::Token("prop".to_string()));
    p.references = refs(vec![r("", "/Proto")], vec![r("later.usd", "")]);
    let a = spec_to_asset(&p, &read_none);
    assert_eq!(a.prim_type.as_deref(), Some("Xform"));
    assert_eq!(a.kind, None);
    assert_eq!(a.specifier, Specifier::Def);
    assert_eq!(a.reference_type, Some(ReferenceType::Internal));
    assert_eq!(a.reference_target.as_deref(), Some("/Proto"));
    assert_eq!(a.filename, "");

    let mut q = prim("/B");
    q.references = refs(vec![], vec![r("", "/X"), r("b.usd", "")]);
    assert_eq!(spec_to_asset(&q, &read_none).reference_type, None);
    q.references = refs(vec![], vec![r("b.usd", "")]);
    let b = spec_to_asset(&q, &read_none);
    assert_eq!(b.reference_type, Some(ReferenceType::File));
    assert_eq!(b.reference_op, ReferenceOp::Append);
    assert_eq!(b.filename, "b.usd");
}

#[test]
fn children_and_transforms() {
    let mut root = prim("/Root");
    root.children = vec![Some(prim("/Root/Moved")), None, Some(prim("/Root/Locked"))];
    let a = spec_to_asset(&root, &read_by_path);
    assert_eq!(a.transform, 5);
    assert!(!a.has_explicit_transforms);
    assert_eq!(a.children.len(), 2);
    assert_eq!(a.children[0].name, "Moved");
    assert!(a.children[0].has_explicit_transforms);
    assert!(!a.children[0].use_matrix);
    assert_eq!(a.children[1].name, "Locked");
    assert!(a.children[1].use_matrix);
    assert!(a.children[1].has_explicit_transforms);
    assert_eq!(a.children[1].transform_prop_name.as_deref(), Some("xformOp:transform"));
    assert_eq!(a.children[1].transform, 12);
}

#[test]
fn stager_imports_parsed_layer() {
    let mut s: Stager<u32, u8> = Stager::new(0);
    s.add_xform("Old", 0);
    s.load_base_content("base".to_string(), "old.usda");
    s.import_parsed(
        "/scenes/shot.usda",
        &Some(UsdValue::Token("Set".to_string())),
        &Some(UsdValue::Token("Y".to_string())),
        &vec![prim("/Set"), prim("/Cam")],
        &read_none,
    );
    let names: Vec<String> = s.assets.iter().map(|a| a.name.clone()).collect();
    assert_eq!(names, vec!["Set", "Cam"]);
    assert_eq!(s.settings.default_prim, "Set");
    assert_eq!(s.settings.up_axis, UpAxis::Y);
    assert!(s.base_content.is_none());
    assert_eq!(s.base_file_path.as_deref(), Some("/scenes/shot.usda"));
    assert_eq!(
        s.status_message().as_ref().map(|m| m.0.clone()).as_deref(),
        Some("Parsed: shot.usda (2 prims)")
    );
    s.undo();
    assert_eq!(s.assets.len(), 2);

    s.import_parsed("x.usda", &None, &Some(UsdValue::Token("X".to_string())), &vec![], &read_none);
    assert_eq!(s.settings.default_prim, "Set");
    assert_eq!(s.settings.up_axis, UpAxis::Z);
}

#[test]
fn stager_keeps_unparsed_layer_as_base() {
    let mut s: Stager<u32, u8> = Stager::new(0);
    s.add_xform("Old", 0);
    s.import_failed("bad.usda", "#usda 1.0\n(".to_string(), "unexpected end");
    assert!(s.assets.is_empty());
    assert_eq!(s.base_content.as_deref(), Some("#usda 1.0\n("));
    assert_eq!(s.base_file_path.as_deref(), Some("bad.usda"));
    assert_eq!(
        s.status_message().as_ref().map(|m| m.0.clone()).as_deref(),
        Some("Parse failed, using inject mode: unexpected end")
    );
}
