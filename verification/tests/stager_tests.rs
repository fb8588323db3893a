use powerusd::asset::StagerAsset;
use powerusd::kinds::{ReferenceType, Specifier};
use powerusd::render::{SettingsText, TransformText, Vec3Text};
use powerusd::stager::Stager;

type TestStager = Stager<u32, u8>;

fn status(s: &TestStager) -> Option<String> {
    s.status_message().as_ref().map(|(m, _)| m.clone())
}

fn names(assets: &Vec<StagerAsset<u32>>) -> Vec<String> {
    assets.iter().map(|a| a.name.clone()).collect()
}

fn vec3(x: &str, y: &str, z: &str) -> Vec3Text {
    Vec3Text { x: x.to_string(), y: y.to_string(), z: z.to_string() }
}

fn spell(t: &u32) -> TransformText {
    let s = if *t == 0 { "0.0".to_string() } else { format!("{}.0", t) };
    TransformText {
        matrix: "( (1, 0, 0, 0), (0, 1, 0, 0), (0, 0, 1, 0), (0, 0, 0, 1) )".to_string(),
        translate: vec3(&s, "0.0", "0.0"),
        rotate: vec3("0.0", "0.0", "0.0"),
        scale: vec3("1.0", "1.0", "1.0"),
    }
}

fn settings_text() -> SettingsText {
    SettingsText {
        meters_per_unit: "1.0".to_string(),
        start_time_code: "1001".to_string(),
        end_time_code: "1100".to_string(),
        frames_per_second: "24".to_string(),
        time_codes_per_second: "24".to_string(),
    }
}

#[test]
fn new_stager_is_empty() {
    let s = TestStager::new(3);
    assert!(s.assets.is_empty());
    assert_eq!(s.settings.default_prim, "World");
    assert_eq!(s.settings.numbers, 3);
    assert_eq!(s.global_ref_path, "./");
    assert_eq!(s.export_name, "assembly");
    assert!(!s.visible);
    assert!(s.auto_scale_imports);
    assert_eq!(status(&s), None);
}

#[test]
fn visibility_toggles() {
    let mut s = TestStager::new(0);
    s.toggle();
    assert!(s.visible);
    s.toggle();
    assert!(!s.visible);
    s.show();
    assert!(s.visible);
    s.hide_stager();
    assert!(!s.visible);
}

#[test]
fn add_xform_and_file() {
    let mut s = TestStager::new(0);
    s.add_xform("Root", 5);
    assert_eq!(names(&s.assets), vec!["Root"]);
    assert_eq!(s.assets[0].prim_type.as_deref(), Some("Xform"));
    assert!(s.assets[0].has_explicit_transforms);
    assert_eq!(s.assets[0].transform, 5);
    assert_eq!(status(&s).as_deref(), Some("Xform added"));

    s.add_asset_from_file("/assets/chair.usd", 1);
    assert_eq!(names(&s.assets), vec!["Root", "chair"]);
    assert_eq!(s.assets[1].filename, "/assets/chair.usd");
    assert_eq!(s.assets[1].reference_type, Some(ReferenceType::File));
    assert_eq!(status(&s).as_deref(), Some("Asset added"));

    s.add_asset_from_file("", 1);
    assert_eq!(s.assets[2].name, "Asset");
}

#[test]
fn undo_and_redo_restore_states() {
    let mut s = TestStager::new(0);
    s.add_xform("A", 0);
    s.add_xform("B", 0);
    s.undo();
    assert_eq!(names(&s.assets), vec!["A"]);
    s.undo();
    assert!(s.assets.is_empty());
    s.undo();
    assert!(s.assets.is_empty());
    s.redo();
    assert_eq!(names(&s.assets), vec!["A"]);
    s.redo();
    assert_eq!(names(&s.assets), vec!["A", "B"]);
    s.redo();
    assert_eq!(names(&s.assets), vec!["A", "B"]);
}

#[test]
fn an_edit_after_undo_drops_the_redo() {
    let mut s = TestStager::new(0);
    s.add_xform("A", 0);
    s.add_xform("B", 0);
    s.undo();
    s.add_xform("C", 0);
    assert_eq!(names(&s.assets), vec!["A", "C"]);
    s.redo();
    assert_eq!(names(&s.assets), vec!["A", "C"]);
    s.undo();
    assert_eq!(names(&s.assets), vec!["A"]);
}

#[test]
fn history_keeps_fifty_states() {
    let mut s = TestStager::new(0);
    for i in 0..60 {
        s.add_xform(&format!("X{}", i), 0);
    }
    let mut undos = 0;
    loop {
        let before = s.assets.len();
        s.undo();
        if s.assets.len() == before {
            break;
        }
        undos += 1;
    }
    assert_eq!(undos, 50);
    assert_eq!(s.assets.len(), 10);
}

#[test]
fn selection() {
    let mut s = TestStager::new(0);
    s.add_xform("A", 0);
    s.add_xform("B", 0);
    let a = s.assets[0].id.clone();
    let b = s.assets[1].id.clone();
    s.select_asset(&a, false);
    assert_eq!(s.get_selected_ids(), vec![a.clone()]);
    assert_eq!(s.last_selected_id.as_deref(), Some(a.as_str()));
    s.select_asset(&b, true);
    assert_eq!(s.get_selected_ids(), vec![a.clone(), b.clone()]);
    s.select_asset(&b, false);
    assert_eq!(s.get_selected_ids(), vec![b.clone()]);
    s.toggle_selection(&a);
    assert_eq!(s.get_selected_ids(), vec![a.clone(), b.clone()]);
    s.toggle_selection(&a);
    assert_eq!(s.get_selected_ids(), vec![b.clone()]);
    s.deselect_all();
    assert!(s.get_selected_ids().is_empty());
    s.select_asset("missing", false);
    assert!(s.get_selected_ids().is_empty());
    assert_eq!(s.last_selected_id.as_deref(), Some("missing"));
}

#[test]
fn wrap_and_delete_selected() {
    let mut s = TestStager::new(0);
    s.add_xform("A", 0);
    s.add_xform("B", 0);
    s.add_xform("C", 0);
    let a = s.assets[0].id.clone();
    let c = s.assets[2].id.clone();
    s.select_asset(&a, false);
    s.select_asset(&c, true);
    s.wrap_selected_in_xform(9);
    assert_eq!(names(&s.assets), vec!["B", "Xform"]);
    assert_eq!(names(&s.assets[1].children), vec!["A", "C"]);
    assert_eq!(s.assets[1].transform, 9);
    assert_eq!(status(&s).as_deref(), Some("Assets wrapped in Xform"));
    assert!(s.find_asset(&a).is_some());

    s.delete_selected();
    assert_eq!(names(&s.assets), vec!["B", "Xform"]);
    assert!(s.assets[1].children.is_empty());
    assert!(s.find_asset(&a).is_none());
    assert_eq!(status(&s).as_deref(), Some("Assets deleted"));

    s.undo();
    assert_eq!(names(&s.assets[1].children), vec!["A", "C"]);
}

#[test]
fn nothing_selected_changes_nothing() {
    let mut s = TestStager::new(0);
    s.add_xform("A", 0);
    s.wrap_selected_in_xform(0);
    s.delete_selected();
    s.duplicate_selected();
    assert_eq!(names(&s.assets), vec!["A"]);
    s.undo();
    assert!(s.assets.is_empty());
}

#[test]
fn duplicate_selected_renames_and_reids() {
    let mut s = TestStager::new(0);
    s.add_xform("A", 4);
    let a = s.assets[0].id.clone();
    s.select_asset(&a, false);
    s.duplicate_selected();
    assert_eq!(names(&s.assets), vec!["A", "A_copy"]);
    assert!(!s.assets[1].selected);
    assert_eq!(s.assets[1].transform, 4);
    assert_eq!(status(&s).as_deref(), Some("Assets duplicated"));
}

#[test]
fn duplicate_as_instance_references_source() {
    let mut s = TestStager::new(0);
    s.add_xform("Tree", 2);
    let id = s.assets[0].id.clone();
    s.duplicate_as_instance(&id, |t: &u32| *t + 1);
    assert_eq!(names(&s.assets), vec!["Tree", "Tree_instance"]);
    let inst = &s.assets[1];
    assert_eq!(inst.reference_type, Some(ReferenceType::Internal));
    assert_eq!(inst.reference_target.as_deref(), Some("Tree"));
    assert!(inst.instanceable);
    assert!(inst.has_explicit_transforms);
    assert_eq!(inst.transform, 3);
    assert_eq!(status(&s).as_deref(), Some("Instance created"));
    s.duplicate_as_instance("missing", |t: &u32| *t);
    assert_eq!(s.assets.len(), 2);
}

#[test]
fn transforms_and_matrix_lock() {
    let mut s = TestStager::new(0);
    s.add_xform("A", 0);
    let a = s.assets[0].id.clone();
    s.update_transform(&a, 8);
    assert_eq!(s.assets[0].transform, 8);
    s.toggle_matrix_lock(&a, |t: &u32| *t * 10);
    assert!(s.assets[0].use_matrix);
    assert_eq!(s.assets[0].transform, 80);
    assert_eq!(
        s.assets[0].xform_op_order,
        Some(vec!["xformOp:transform".to_string()])
    );
    s.toggle_matrix_lock(&a, |t: &u32| *t * 10);
    assert!(!s.assets[0].use_matrix);
    assert_eq!(s.assets[0].transform, 80);
}

#[test]
fn batch_transform_changes_selected_only() {
    let mut s = TestStager::new(0);
    s.add_xform("A", 1);
    s.add_xform("B", 1);
    let b = s.assets[1].id.clone();
    s.select_asset(&b, false);
    s.batch_transform(|t: &u32| *t * 2);
    assert_eq!(s.assets[0].transform, 1);
    assert_eq!(s.assets[1].transform, 2);
}

#[test]
fn load_base_content_clears_history() {
    let mut s = TestStager::new(0);
    s.add_xform("A", 0);
    s.load_base_content("#usda 1.0\n".to_string(), "/tmp/base.usda");
    assert_eq!(s.base_content.as_deref(), Some("#usda 1.0\n"));
    assert_eq!(s.base_file_path.as_deref(), Some("/tmp/base.usda"));
    s.undo();
    assert_eq!(names(&s.assets), vec!["A"]);
}

#[test]
fn generated_stage_text() {
    let mut s = TestStager::new(0);
    s.add_xform("Root", 0);
    let text = s.generate_usda_content(&spell, &settings_text());
    let expected = [
        "#usda 1.0",
        "(",
        "    defaultPrim = \"World\"",
        "    metersPerUnit = 1.0",
        "    upAxis = \"Z\"",
        "    doc = \"Generated by PowerUSD Assembler\"",
        "    startTimeCode = 1001",
        "    endTimeCode = 1100",
        "    framesPerSecond = 24",
        "    timeCodesPerSecond = 24",
        ")",
        "",
        "",
        "def Xform \"Root\" (",
        ")",
        "{",
        "    double3 xformOp:translate = (0.0, 0.0, 0.0)",
        "    float3 xformOp:rotateXYZ = (0.0, 0.0, 0.0)",
        "    float3 xformOp:scale = (1.0, 1.0, 1.0)",
        "    uniform token[] xformOpOrder = [\"xformOp:translate\", \"xformOp:rotateXYZ\", \"xformOp:scale\"]",
        "}",
    ]
    .join("\n");
    assert_eq!(text, expected);
}

#[test]
fn generated_stage_with_root_prim_and_references() {
    let mut s = TestStager::new(0);
    s.settings.create_root_prim = true;
    s.add_asset_from_file("/lib/props/chair.usd", 0);
    s.add_xform("Group", 0);
    let chair_id = s.assets[0].id.clone();
    let inst_src = s.assets[0].id.clone();
    s.duplicate_as_instance(&inst_src, |t: &u32| *t);
    s.assets[1].kind = Some(powerusd::kinds::UsdKind::Group);
    s.assets[0].specifier = Specifier::Def;
    let text = s.generate_usda_content(&spell, &settings_text());
    let lines: Vec<&str> = text.lines().collect();
    assert!(lines.contains(&"def Xform \"World\" ("));
    assert!(lines.contains(&"    kind = \"assembly\""));
    assert!(lines.contains(&"    def Xform \"chair\" ("));
    assert!(lines.contains(&"        prepend references = @./chair.usd@"));
    assert!(lines.contains(&"        kind = \"group\""));
    assert!(lines.contains(&"        prepend references = </World/chair>"));
    assert!(lines.contains(&"        instanceable = true"));
    assert_eq!(*lines.last().unwrap(), "}");
    assert!(s.find_asset(&chair_id).is_some());
}

#[test]
fn injected_into_base_content() {
    let mut s = TestStager::new(0);
    s.load_base_content("#usda 1.0\ndef \"Base\" {\n}\n\n".to_string(), "base.usda");
    s.add_xform("New", 0);
    let text = s.generate_usda_content(&spell, &settings_text());
    assert!(text.starts_with("#usda 1.0\ndef \"Base\" {\n}\n\n// --- INJECTED ASSETS ---\n\n\ndef Xform \"New\" ("));
    assert!(text.ends_with("}"));
}

#[test]
fn rename_kind_and_instanceable_edits() {
    let mut s = TestStager::new(0);
    s.add_xform("A", 0);
    let id = s.assets[0].id.clone();
    s.rename_asset(&id, "Renamed".to_string());
    assert_eq!(names(&s.assets), vec!["Renamed"]);
    s.set_kind(&id, Some(powerusd::kinds::UsdKind::Component));
    assert_eq!(s.assets[0].kind, Some(powerusd::kinds::UsdKind::Component));
    s.set_instanceable(&id, true);
    assert!(s.assets[0].instanceable);
    s.undo();
    assert_eq!(s.assets[0].kind, None);
    assert_eq!(names(&s.assets), vec!["Renamed"]);
    s.undo();
    assert_eq!(names(&s.assets), vec!["A"]);
    s.rename_asset("missing", "X".to_string());
    assert_eq!(names(&s.assets), vec!["A"]);
}

#[test]
fn redo_reapplies_an_undone_edit() {
    let mut s = TestStager::new(0);
    s.add_xform("A", 0);
    s.add_xform("B", 0);
    s.undo();
    s.redo();
    assert_eq!(names(&s.assets), vec!["A", "B"]);
    s.redo();
    assert_eq!(names(&s.assets), vec!["A", "B"]);
}

#[test]
fn injected_text_shares_the_standalone_blocks() {
    let mut s = TestStager::new(0);
    s.add_xform("New", 0);
    let standalone = s.generate_usda_content(&spell, &settings_text());
    let blocks = &standalone[standalone.find("\n)\n").unwrap() + 3..];
    s.load_base_content("#usda 1.0\ndef \"Base\" {\n}\n  \n".to_string(), "base.usda");
    let injected = s.generate_usda_content(&spell, &settings_text());
    assert_eq!(injected, format!("#usda 1.0\ndef \"Base\" {{\n}}\n\n// --- INJECTED ASSETS ---\n{}", blocks));
}

#[test]
fn select_leaves_only_one_selected() {
    let mut s = TestStager::new(0);
    s.add_xform("A", 0);
    s.add_xform("B", 0);
    let a = s.assets[0].id.clone();
    let b = s.assets[1].id.clone();
    s.select_asset(&a, true);
    s.select_asset(&b, true);
    assert_eq!(s.get_selected_ids(), vec![a.clone(), b.clone()]);
    s.select_asset(&a, false);
    assert_eq!(s.get_selected_ids(), vec![a]);
    s.select_asset("missing", false);
    assert!(s.get_selected_ids().is_empty());
}
