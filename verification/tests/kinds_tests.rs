use powerusd::formats::{clean_asset_path, FileFormat, UpAxis as ViewerUpAxis};
use powerusd::ids::{format_id, generate_id, rand_u32};
use powerusd::kinds::{
    AssetViewMode, ReferenceOp, ReferenceType, Specifier, StagerTab, UpAxis, UsdKind,
};
use powerusd::stager::{AssemblyPreset, StagerSceneSettings, UnitScale};
use powerusd::text::{decimal_string, join_newline};

#[test]
fn usd_kind_spellings_round_trip() {
    let all = [
        (UsdKind::Component, "component"),
        (UsdKind::Group, "group"),
        (UsdKind::Assembly, "assembly"),
        (UsdKind::Subcomponent, "subcomponent"),
        (UsdKind::Model, "model"),
    ];
    for (kind, text) in all {
        assert_eq!(kind.as_str(), text);
        assert_eq!(UsdKind::from_str(text), Some(kind));
        assert_eq!(UsdKind::from_str(kind.as_str()), Some(kind));
    }
}

#[test]
fn usd_kind_from_unknown_or_other_case_is_none() {
    assert_eq!(UsdKind::from_str("Component"), None);
    assert_eq!(UsdKind::from_str(""), None);
    assert_eq!(UsdKind::from_str("prop"), None);
}

#[test]
fn specifier_and_reference_op_keywords() {
    assert_eq!(Specifier::Def.as_str(), "def");
    assert_eq!(Specifier::Over.as_str(), "over");
    assert_eq!(Specifier::Class.as_str(), "class");
    assert_eq!(Specifier::default(), Specifier::Def);
    assert_eq!(ReferenceOp::Prepend.as_str(), "prepend");
    assert_eq!(ReferenceOp::Append.as_str(), "append");
    assert_eq!(ReferenceOp::default(), ReferenceOp::Prepend);
    assert_ne!(ReferenceType::File, ReferenceType::Internal);
}

#[test]
fn up_axis_display_tokens() {
    assert_eq!(UpAxis::X.as_str(), "X");
    assert_eq!(UpAxis::Y.as_str(), "Y");
    assert_eq!(UpAxis::Z.as_str(), "Z");
}

#[test]
fn panel_defaults() {
    assert_eq!(StagerTab::default(), StagerTab::Assets);
    assert_eq!(AssetViewMode::default(), AssetViewMode::Grid);
}

#[test]
fn assembly_preset_labels() {
    assert_eq!(AssemblyPreset::Blender.label(), "Blender");
    assert_eq!(AssemblyPreset::Max3dsCm.label(), "3DS Max (cm)");
    assert_eq!(AssemblyPreset::Custom.label(), "Custom");
}

#[test]
fn assembly_preset_apply_sets_settings() {
    let mut s = StagerSceneSettings::new(7u8);
    s.default_prim = "Scene".to_string();
    s.create_root_prim = true;
    s.up_axis = UpAxis::Y;
    assert_eq!(AssemblyPreset::Max3dsCm.apply(&mut s), Some(UnitScale::Centimeters));
    assert_eq!(s.default_prim, "");
    assert!(!s.create_root_prim);
    assert_eq!(s.up_axis, UpAxis::Z);
    assert_eq!(s.numbers, 7u8);

    assert_eq!(AssemblyPreset::Blender.apply(&mut s), Some(UnitScale::Meters));
    assert_eq!(s.default_prim, "World");

    s.default_prim = "Keep".to_string();
    assert_eq!(AssemblyPreset::Custom.apply(&mut s), None);
    assert_eq!(s.default_prim, "Keep");
}

#[test]
fn scene_settings_defaults() {
    let s = StagerSceneSettings::new(0u8);
    assert_eq!(s.default_prim, "World");
    assert!(!s.create_root_prim);
    assert_eq!(s.up_axis, UpAxis::Z);
}

#[test]
fn file_format_from_path() {
    assert_eq!(FileFormat::from_path("scene.usda"), Some(FileFormat::Usda));
    assert_eq!(FileFormat::from_path("/a/b/Scene.USDA"), Some(FileFormat::Usda));
    assert_eq!(FileFormat::from_path("model.usdc"), Some(FileFormat::Usdc));
    assert_eq!(FileFormat::from_path("model.usd"), Some(FileFormat::Usdc));
    assert_eq!(FileFormat::from_path("robot.gltf"), Some(FileFormat::Gltf));
    assert_eq!(FileFormat::from_path("robot.GLB"), Some(FileFormat::Glb));
    assert_eq!(FileFormat::from_path("notes.txt"), None);
    assert_eq!(FileFormat::from_path("no_extension"), None);
    assert_eq!(FileFormat::from_path("archive.usdz"), None);
}

#[test]
fn file_format_is_gltf() {
    assert!(FileFormat::Gltf.is_gltf());
    assert!(FileFormat::Glb.is_gltf());
    assert!(!FileFormat::Usda.is_gltf());
    assert!(!FileFormat::Usdc.is_gltf());
}

#[test]
fn viewer_up_axis_from_token() {
    assert_eq!(ViewerUpAxis::from_token("Z"), ViewerUpAxis::Z);
    assert_eq!(ViewerUpAxis::from_token("z"), ViewerUpAxis::Z);
    assert_eq!(ViewerUpAxis::from_token("Y"), ViewerUpAxis::Y);
    assert_eq!(ViewerUpAxis::from_token("x"), ViewerUpAxis::Y);
    assert_eq!(ViewerUpAxis::from_token(""), ViewerUpAxis::Y);
    assert_eq!(ViewerUpAxis::default(), ViewerUpAxis::Y);
    assert_eq!(ViewerUpAxis::from_metadata(None), ViewerUpAxis::Y);
    assert_eq!(ViewerUpAxis::from_metadata(Some("z")), ViewerUpAxis::Z);
}

#[test]
fn clean_asset_path_strips_wrappers_and_prefix() {
    assert_eq!(clean_asset_path("@./textures/wood.png@"), "textures/wood.png");
    assert_eq!(clean_asset_path("  @textures\\wood.png@  "), "textures/wood.png");
    assert_eq!(clean_asset_path("@@a@@"), "a");
    assert_eq!(clean_asset_path("./b/c.jpg"), "b/c.jpg");
    assert_eq!(clean_asset_path("../b/c.jpg"), "../b/c.jpg");
    assert_eq!(clean_asset_path("   "), "");
    assert_eq!(clean_asset_path("C:\\tex\\a.png"), "C:/tex/a.png");
}

#[test]
fn ids_have_stamp_and_salt() {
    assert_eq!(format_id(123, 45), "123_45");
    assert_eq!(format_id(0, 0), "0_0");
    let id = generate_id();
    let parts: Vec<&str> = id.split('_').collect();
    assert_eq!(parts.len(), 2);
    let stamp: u64 = parts[0].parse().unwrap();
    let salt: u64 = parts[1].parse().unwrap();
    assert!(stamp < 1_000_000_000);
    assert!(salt < 10000);
    let _ = rand_u32();
}

#[test]
fn decimal_and_lines() {
    assert_eq!(decimal_string(0), "0");
    assert_eq!(decimal_string(1234567), "1234567");
    assert_eq!(decimal_string(u64::MAX), "18446744073709551615");
    assert_eq!(join_newline(&vec!["a".to_string(), "".to_string(), "b".to_string()]), "a\n\nb");
    assert_eq!(join_newline(&Vec::new()), "");
}

#[test]
fn identifiers_from_clock_and_random() {
    assert_eq!(powerusd::ids::id_from(Some(12_345_678_901), 123_456), "345678901_3456");
    assert_eq!(powerusd::ids::id_from(None, 7), "0_7");
    assert_eq!(powerusd::ids::hash_to_u32(0x1_0000_0005), 5);
    let a = generate_id();
    let (stamp, salt) = a.split_once('_').unwrap();
    assert!(stamp.parse::<u64>().unwrap() < 1_000_000_000);
    assert!(salt.parse::<u32>().unwrap() < 10000);
}
