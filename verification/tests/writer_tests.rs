use powerusd::kinds::{Specifier, UpAxis};
use powerusd::writer::{
    format_value, generate_usda, value_type_name, AssetRef, HeaderNumbers, LayerRecord,
    ListOpRecord, PayloadField, PrimRecord, PropertyRecord, PropertySpec, RenderedKind,
    SceneSettings, UsdValue, UsdaWriter, Variability,
};

fn numbers() -> HeaderNumbers {
    HeaderNumbers {
        meters_per_unit: "1".to_string(),
        start_time_code: "1001".to_string(),
        end_time_code: "1100".to_string(),
        frames_per_second: "24".to_string(),
        time_codes_per_second: "24".to_string(),
    }
}

fn empty_prim(path: &str) -> PrimRecord {
    PrimRecord {
        path: path.to_string(),
        specifier: None,
        prim_type: None,
        kind: None,
        instanceable: None,
        references: None,
        payload: None,
        inherits: None,
        specializes: None,
        custom_data: None,
        properties: Vec::new(),
        children: Vec::new(),
    }
}

fn attr(value_type: &str, default_value: Option<UsdValue>) -> PropertySpec {
    PropertySpec {
        is_relationship: false,
        value_type: Some(UsdValue::Token(value_type.to_string())),
        custom: None,
        variability: None,
        default_value,
        time_samples: None,
        target_paths: None,
    }
}

fn list_op<T>(explicit: bool, explicit_items: Vec<T>, prepended: Vec<T>, appended: Vec<T>) -> ListOpRecord<T> {
    ListOpRecord { explicit, explicit_items, prepended_items: prepended, appended_items: appended }
}

fn asset_ref(asset: &str, prim: &str) -> AssetRef {
    AssetRef { asset_path: asset.to_string(), prim_path: prim.to_string() }
}

fn header(up: &str, doc: bool) -> Vec<String> {
    let mut v = vec![
        "#usda 1.0".to_string(),
        "(".to_string(),
        "    defaultPrim = \"World\"".to_string(),
        "    metersPerUnit = 1".to_string(),
        format!("    upAxis = \"{}\"", up),
    ];
    if doc {
        v.push("    doc = \"Generated by PowerUSD\"".to_string());
    }
    v.extend(
        [
            "    startTimeCode = 1001",
            "    endTimeCode = 1100",
            "    framesPerSecond = 24",
            "    timeCodesPerSecond = 24",
            ")",
        ]
        .iter()
        .map(|s| s.to_string()),
    );
    v
}

#[test]
fn scalar_values() {
    assert_eq!(format_value(&UsdValue::NoValue), "None");
    assert_eq!(format_value(&UsdValue::ValueBlock), "None");
    assert_eq!(format_value(&UsdValue::Bool(true)), "true");
    assert_eq!(format_value(&UsdValue::Bool(false)), "false");
    assert_eq!(format_value(&UsdValue::Uchar(255)), "255");
    assert_eq!(format_value(&UsdValue::Int(-7)), "-7");
    assert_eq!(format_value(&UsdValue::Uint(7)), "7");
    assert_eq!(format_value(&UsdValue::Int64(i64::MIN)), "-9223372036854775808");
    assert_eq!(format_value(&UsdValue::Uint64(u64::MAX)), "18446744073709551615");
    assert_eq!(format_value(&UsdValue::Token("Xform".to_string())), "\"Xform\"");
    assert_eq!(format_value(&UsdValue::Asset("./a.usd".to_string())), "@./a.usd@");
    assert_eq!(format_value(&UsdValue::Str("a\"b\\c".to_string())), "\"a\\\"b\\\\c\"");
    assert_eq!(format_value(&UsdValue::Specifier(Specifier::Over)), "over");
    assert_eq!(format_value(&UsdValue::Variability(Variability::Uniform)), "uniform");
    assert_eq!(format_value(&UsdValue::Variability(Variability::Varying)), "varying");
    assert_eq!(
        format_value(&UsdValue::Rendered(RenderedKind::Double, "0.5".to_string())),
        "0.5"
    );
}

#[test]
fn vector_and_array_values() {
    assert_eq!(format_value(&UsdValue::Vec2i(vec![1, 2])), "(1, 2)");
    assert_eq!(format_value(&UsdValue::Vec3i(vec![1, 2])), "(1, 2, 0)");
    assert_eq!(format_value(&UsdValue::Vec4i(vec![1, -2, 3, 4, 5])), "(1, -2, 3, 4)");
    assert_eq!(format_value(&UsdValue::IntVec(vec![])), "[]");
    assert_eq!(format_value(&UsdValue::IntVec(vec![3, -1])), "[3, -1]");
    assert_eq!(format_value(&UsdValue::UintVec(vec![0, 9])), "[0, 9]");
    assert_eq!(format_value(&UsdValue::Int64Vec(vec![-5])), "[-5]");
    assert_eq!(format_value(&UsdValue::Uint64Vec(vec![1, 2, 3])), "[1, 2, 3]");
    assert_eq!(format_value(&UsdValue::BoolVec(vec![true, false])), "[true, false]");
    assert_eq!(
        format_value(&UsdValue::TokenVec(vec!["a".to_string(), "b".to_string()])),
        "[\"a\", \"b\"]"
    );
    assert_eq!(format_value(&UsdValue::StringVec(vec!["x\"".to_string()])), "[\"x\"\"]");
}

#[test]
fn dictionary_values() {
    assert_eq!(format_value(&UsdValue::Dictionary(vec![])), "{}");
    let d = UsdValue::Dictionary(vec![
        ("k".to_string(), UsdValue::Int(1)),
        ("s".to_string(), UsdValue::Str("x".to_string())),
    ]);
    assert_eq!(format_value(&d), "{\nint k = 1\nstring s = \"x\"\n}");
    assert_eq!(value_type_name(&d), "dictionary");
}

#[test]
fn type_names() {
    assert_eq!(value_type_name(&UsdValue::Bool(true)), "bool");
    assert_eq!(value_type_name(&UsdValue::BoolVec(vec![])), "bool[]");
    assert_eq!(value_type_name(&UsdValue::Uchar(1)), "uchar");
    assert_eq!(value_type_name(&UsdValue::Int(1)), "int");
    assert_eq!(value_type_name(&UsdValue::IntVec(vec![])), "int[]");
    assert_eq!(value_type_name(&UsdValue::Uint(1)), "uint");
    assert_eq!(value_type_name(&UsdValue::Int64(1)), "int64");
    assert_eq!(value_type_name(&UsdValue::Uint64Vec(vec![])), "uint64[]");
    assert_eq!(value_type_name(&UsdValue::Str(String::new())), "string");
    assert_eq!(value_type_name(&UsdValue::StringVec(vec![])), "string[]");
    assert_eq!(value_type_name(&UsdValue::Token(String::new())), "token");
    assert_eq!(value_type_name(&UsdValue::TokenVec(vec![])), "token[]");
    assert_eq!(value_type_name(&UsdValue::Asset(String::new())), "asset");
    assert_eq!(value_type_name(&UsdValue::Vec2i(vec![])), "int2");
    assert_eq!(value_type_name(&UsdValue::Vec3i(vec![])), "int3");
    assert_eq!(value_type_name(&UsdValue::Vec4i(vec![])), "int4");
    assert_eq!(value_type_name(&UsdValue::NoValue), "token");
    assert_eq!(value_type_name(&UsdValue::Specifier(Specifier::Def)), "token");
    let r = |k: RenderedKind| UsdValue::Rendered(k, String::new());
    assert_eq!(value_type_name(&r(RenderedKind::Half)), "half");
    assert_eq!(value_type_name(&r(RenderedKind::HalfVec)), "half[]");
    assert_eq!(value_type_name(&r(RenderedKind::Float)), "float");
    assert_eq!(value_type_name(&r(RenderedKind::DoubleVec)), "double[]");
    assert_eq!(value_type_name(&r(RenderedKind::TimeCode)), "timecode");
    assert_eq!(value_type_name(&r(RenderedKind::Vec3f)), "float3");
    assert_eq!(value_type_name(&r(RenderedKind::Vec2d)), "double2");
    assert_eq!(value_type_name(&r(RenderedKind::Quatf)), "quatf");
    assert_eq!(value_type_name(&r(RenderedKind::Matrix4d)), "matrix4d");
    assert_eq!(value_type_name(&r(RenderedKind::UcharVec)), "uchar[]");
    assert_eq!(value_type_name(&r(RenderedKind::Other)), "token");
}

#[test]
fn new_writer_is_empty() {
    let _w = UsdaWriter::new();
    let _d = UsdaWriter::default();
    let s = SceneSettings::new(());
    assert_eq!(s.default_prim, "World");
    assert!(!s.create_root_prim);
    assert_eq!(s.up_axis, UpAxis::Z);
    assert_eq!(s.doc.as_deref(), Some("Generated by PowerUSD"));
}

#[test]
fn empty_layer_is_header_only() {
    let layer = LayerRecord { default_prim: None, meters_per_unit: None, up_axis: None, children: vec![] };
    let s = SceneSettings::new(());
    let text = generate_usda(&layer, &s, &numbers());
    assert_eq!(text, header("Z", true).join("\n"));
}

#[test]
fn layer_metadata_wins_over_settings() {
    let layer = LayerRecord {
        default_prim: Some(UsdValue::Token("Stage".to_string())),
        meters_per_unit: Some(UsdValue::Rendered(RenderedKind::Double, "0.01".to_string())),
        up_axis: Some(UsdValue::Str("Y".to_string())),
        children: vec![],
    };
    let mut s = SceneSettings::new(());
    s.doc = None;
    let text = generate_usda(&layer, &s, &numbers());
    let lines: Vec<&str> = text.lines().collect();
    assert_eq!(lines[2], "    defaultPrim = \"Stage\"");
    assert_eq!(lines[3], "    metersPerUnit = 0.01");
    assert_eq!(lines[4], "    upAxis = \"Y\"");
    assert_eq!(lines[5], "    startTimeCode = 1001");

    let layer = LayerRecord {
        default_prim: Some(UsdValue::Int(3)),
        meters_per_unit: Some(UsdValue::Rendered(RenderedKind::Half, "2".to_string())),
        up_axis: None,
        children: vec![],
    };
    let mut s = SceneSettings::new(());
    s.default_prim = String::new();
    let text = generate_usda(&layer, &s, &numbers());
    let lines: Vec<&str> = text.lines().collect();
    assert_eq!(lines[2], "    metersPerUnit = 1");
    assert_eq!(lines[3], "    upAxis = \"Z\"");
}

#[test]
fn prims_with_metadata_properties_and_children() {
    let mut world = empty_prim("/World");
    world.specifier = Some(UsdValue::Specifier(Specifier::Def));
    world.prim_type = Some(UsdValue::Token("Xform".to_string()));
    world.kind = Some(UsdValue::Token("component".to_string()));
    world.references = Some(list_op(false, vec![], vec![asset_ref("./chair.usd", "")], vec![]));
    world.properties = vec![
        PropertyRecord {
            name: "xformOp:translate".to_string(),
            spec: Some(attr(
                "double3",
                Some(UsdValue::Rendered(RenderedKind::Vec3d, "(1, 2, 3)".to_string())),
            )),
        },
        PropertyRecord {
            name: "visibility".to_string(),
            spec: Some(PropertySpec {
                variability: Some(UsdValue::Variability(Variability::Uniform)),
                ..attr("token", Some(UsdValue::Token("inherited".to_string())))
            }),
        },
        PropertyRecord {
            name: "material:binding".to_string(),
            spec: Some(PropertySpec {
                is_relationship: true,
                target_paths: Some(list_op(true, vec!["/World/Looks/Mat".to_string()], vec![], vec![])),
                ..attr("token", None)
            }),
        },
        PropertyRecord { name: "missing".to_string(), spec: None },
    ];
    world.children = vec![Some(empty_prim("/World/Child")), None];
    let layer = LayerRecord { default_prim: None, meters_per_unit: None, up_axis: Some(UsdValue::Token("Y".to_string())), children: vec![Some(world)] };
    let text = generate_usda(&layer, &SceneSettings::new(()), &numbers());
    let mut expected = header("Y", true);
    expected.extend(
        [
            "",
            "def Xform \"World\" (",
            "    kind = \"component\"",
            "    prepend references = @./chair.usd@",
            ")",
            "{",
            "    double3 xformOp:translate = (1, 2, 3)",
            "    uniform token visibility = \"inherited\"",
            "    rel material:binding = </World/Looks/Mat>",
            "",
            "    def \"Child\" (",
            "    )",
            "    {",
            "    }",
            "}",
        ]
        .iter()
        .map(|s| s.to_string()),
    );
    assert_eq!(text, expected.join("\n"));
}

#[test]
fn root_prim_wrapper() {
    let layer = LayerRecord { default_prim: None, meters_per_unit: None, up_axis: None, children: vec![Some(empty_prim("/A"))] };
    let mut s = SceneSettings::new(());
    s.create_root_prim = true;
    s.doc = None;
    let mut w = UsdaWriter::new();
    let text = w.generate(&layer, &s, &numbers());
    let mut expected = header("Z", false);
    expected.extend(
        [
            "",
            "def Xform \"World\" (",
            "    kind = \"assembly\"",
            ")",
            "{",
            "",
            "    def \"A\" (",
            "    )",
            "    {",
            "    }",
            "}",
        ]
        .iter()
        .map(|s| s.to_string()),
    );
    assert_eq!(text, expected.join("\n"));
    // A second run on the same writer starts afresh.
    let again = w.generate(&layer, &s, &numbers());
    assert_eq!(again, text);
}

#[test]
fn metadata_lines() {
    let mut p = empty_prim("/Root/Thing");
    p.specifier = Some(UsdValue::Specifier(Specifier::Over));
    p.prim_type = Some(UsdValue::Str("Mesh".to_string()));
    p.kind = Some(UsdValue::Str("ignored".to_string()));
    p.instanceable = Some(UsdValue::Bool(true));
    p.references = Some(list_op(
        true,
        vec![asset_ref("a.usd", "/A"), asset_ref("", "/Local")],
        vec![asset_ref("b.usd", ""), asset_ref("c.usd", "")],
        vec![asset_ref("", "/X")],
    ));
    p.payload = Some(PayloadField::Single(asset_ref("heavy.usd", "/Geo")));
    p.inherits = Some(list_op(false, vec![], vec!["/_class_Thing".to_string()], vec![]));
    p.specializes = Some(list_op(false, vec![], vec![], vec!["/A".to_string(), "/B".to_string()]));
    p.custom_data = Some(UsdValue::Dictionary(vec![("author".to_string(), UsdValue::Str("me".to_string()))]));
    let layer = LayerRecord { default_prim: None, meters_per_unit: None, up_axis: None, children: vec![Some(p)] };
    let text = generate_usda(&layer, &SceneSettings::new(()), &numbers());
    let body: Vec<&str> = text.lines().skip(header("Z", true).len()).collect();
    assert_eq!(
        body,
        vec![
            "",
            "over Mesh \"Thing\" (",
            "    instanceable = true",
            "    references = [@a.usd@</A>, </Local>]",
            "    prepend references = [@b.usd@, @c.usd@]",
            "    append references = </X>",
            "    payload = @heavy.usd@</Geo>",
            "    prepend inherits = </_class_Thing>",
            "    append specializes = [</A>, </B>]",
            "    customData = {",
            "        string author = \"me\"",
            "    }",
            ")",
            "{",
            "}",
        ]
    );
}

#[test]
fn payload_list_op_and_attributes() {
    let mut p = empty_prim("/P");
    p.payload = Some(PayloadField::ListOp(list_op(false, vec![asset_ref("ignored.usd", "")], vec![asset_ref("p.usd", "")], vec![])));
    p.properties = vec![
        PropertyRecord {
            name: "opacity".to_string(),
            spec: Some(PropertySpec {
                custom: Some(UsdValue::Bool(true)),
                time_samples: Some(vec![
                    ("1".to_string(), UsdValue::Rendered(RenderedKind::Double, "0.5".to_string())),
                    ("2".to_string(), UsdValue::Rendered(RenderedKind::Double, "1".to_string())),
                ]),
                ..attr("double", None)
            }),
        },
        PropertyRecord { name: "size".to_string(), spec: Some(PropertySpec { value_type: None, ..attr("x", None) }) },
        PropertyRecord {
            name: "proxy".to_string(),
            spec: Some(PropertySpec { is_relationship: true, custom: Some(UsdValue::Bool(true)), ..attr("token", None) }),
        },
        PropertyRecord {
            name: "targets".to_string(),
            spec: Some(PropertySpec {
                is_relationship: true,
                target_paths: Some(list_op(true, vec!["/E".to_string()], vec!["/P1".to_string()], vec!["/A1".to_string()])),
                ..attr("token", None)
            }),
        },
        PropertyRecord {
            name: "later".to_string(),
            spec: Some(PropertySpec {
                is_relationship: true,
                target_paths: Some(list_op(false, vec![], vec![], vec!["/A1".to_string()])),
                ..attr("token", None)
            }),
        },
    ];
    let layer = LayerRecord { default_prim: None, meters_per_unit: None, up_axis: None, children: vec![Some(p)] };
    let text = generate_usda(&layer, &SceneSettings::new(()), &numbers());
    let body: Vec<&str> = text.lines().skip(header("Z", true).len()).collect();
    assert_eq!(
        body,
        vec![
            "",
            "def \"P\" (",
            "    prepend payload = @p.usd@",
            ")",
            "{",
            "    custom double opacity.timeSamples = {",
            "        1: 0.5,",
            "        2: 1,",
            "    }",
            "    token size",
            "    custom rel proxy",
            "    prepend rel targets = [</P1>]",
            "    append rel later = [</A1>]",
            "}",
        ]
    );
}

#[test]
fn test_scene_settings_default() {
    let settings = SceneSettings::new(1.0f64);
    assert_eq!(settings.default_prim, "World");
    assert_eq!(settings.numbers, 1.0);
    assert_eq!(settings.up_axis, UpAxis::Z);
}
