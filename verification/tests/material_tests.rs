use powerusd::materialx::{parse_events, parse_materialx, MaterialXParser, MaterialXSurface, XmlEvent};
use powerusd::shading::{
    connected_prim_path, first_target, match_materialx, material_name, shader_kind, ShaderType,
};
use powerusd::writer::ListOpRecord;

const DOC: &str = r#"<?xml version="1.0"?>
<materialx version="1.38">
  <nodegraph name="NG_wood">
    <tiledimage name="base_tex" type="color3">
      <input name="file" type="filename" value="wood_albedo.png" />
    </tiledimage>
    <image name="normal_tex" type="vector3">
      <input name="file" type="filename" value="wood_normal.png" />
    </image>
    <output name="base_out" type="color3" nodename="base_tex" />
    <output name="normal_out" type="vector3" nodename="normal_tex" />
  </nodegraph>
  <standard_surface name="M_wood" type="surfaceshader">
    <input name="base_color" type="color3" nodegraph="NG_wood" output="base_out" />
    <input name="metalness" type="float" value="0.25" />
    <input name="specular_roughness" type="float" value="0.7" />
    <input name="emission_color" type="color3" value="0, 0, 0" />
    <input name="normal" type="vector3" nodegraph="NG_wood" output="normal_out" />
  </standard_surface>
  <standard_surface name="M_red" type="surfaceshader">
    <input name="base_color" type="color3" value="1, 0, 0" />
    <input name="base_color" type="color3" value="" />
  </standard_surface>
</materialx>
"#;

fn find<'a>(mats: &'a Vec<(String, MaterialXSurface)>, name: &str) -> &'a MaterialXSurface {
    &mats.iter().rev().find(|(n, _)| n == name).unwrap().1
}

fn open(tag: &str, attrs: &[(&str, &str)]) -> XmlEvent {
    XmlEvent::Open {
        tag: tag.to_string(),
        attrs: attrs.iter().map(|(k, v)| (k.to_string(), v.to_string())).collect(),
    }
}

fn close(tag: &str) -> XmlEvent {
    XmlEvent::Close { tag: tag.to_string() }
}

#[test]
fn materialx_document_materials() {
    let mats = parse_materialx(DOC);
    assert_eq!(mats.len(), 2);
    assert_eq!(mats[0].0, "M_wood");
    assert_eq!(mats[1].0, "M_red");
    let wood = find(&mats, "M_wood");
    assert_eq!(wood.diffuse_texture.as_deref(), Some("wood_albedo.png"));
    assert_eq!(wood.diffuse_color, None);
    assert_eq!(wood.metallic_values, vec!["0.25".to_string()]);
    assert_eq!(wood.roughness_values, vec!["0.7".to_string()]);
    assert_eq!(wood.emissive_color.as_deref(), Some("0, 0, 0"));
    assert_eq!(wood.normal_texture.as_deref(), Some("wood_normal.png"));
    let red = find(&mats, "M_red");
    assert_eq!(red.diffuse_color.as_deref(), Some("1, 0, 0"));
    assert_eq!(red.diffuse_texture, None);
    assert!(red.metallic_values.is_empty());
}

#[test]
fn materialx_malformed_or_empty() {
    assert!(parse_materialx("").is_empty());
    assert!(parse_materialx("not xml at all").is_empty());
    let unclosed = r#"<materialx><standard_surface name="S"><input name="metalness" value="1"/></materialx>"#;
    assert!(parse_materialx(unclosed).is_empty());
}

#[test]
fn events_after_finished_are_ignored() {
    let events = vec![
        open("standard_surface", &[("name", "A")]),
        close("standard_surface"),
        XmlEvent::Finished,
        open("standard_surface", &[("name", "B")]),
        close("standard_surface"),
    ];
    let mats = parse_events(&events);
    assert_eq!(mats.len(), 1);
    assert_eq!(mats[0].0, "A");
}

#[test]
fn a_surface_without_name_is_not_started() {
    let events = vec![
        open("standard_surface", &[]),
        open("input", &[("name", "metalness"), ("value", "1")]),
        close("standard_surface"),
    ];
    assert!(parse_events(&events).is_empty());
}

#[test]
fn file_inputs_outside_image_nodes_are_not_recorded() {
    let events = vec![
        open("nodegraph", &[("name", "NG")]),
        open("input", &[("name", "file"), ("value", "x.png")]),
        open("output", &[("name", "out"), ("nodename", "img")]),
        close("nodegraph"),
        open("standard_surface", &[("name", "S")]),
        open("input", &[("name", "base_color"), ("nodegraph", "NG"), ("output", "out"), ("value", "1, 1, 1")]),
        close("standard_surface"),
    ];
    let mats = parse_events(&events);
    assert_eq!(mats.len(), 1);
    assert_eq!(mats[0].1.diffuse_texture, None);
    assert_eq!(mats[0].1.diffuse_color, None);
}

#[test]
fn parser_steps() {
    let mut p = MaterialXParser::new();
    p.step(&open("nodegraph", &[("name", "G")]));
    assert_eq!(p.current_nodegraph.as_deref(), Some("G"));
    p.step(&open("image", &[("name", "I")]));
    p.step(&open("input", &[("name", "file"), ("value", "f.png")]));
    assert_eq!(p.files.len(), 1);
    p.step(&close("image"));
    assert!(p.current_image_node.is_none());
    p.step(&XmlEvent::Other);
    p.step(&close("nodegraph"));
    assert!(p.current_nodegraph.is_none());
    assert!(p.materials.is_empty());
}

#[test]
fn shader_ids() {
    assert_eq!(shader_kind("UsdPreviewSurface"), Some(ShaderType::UsdPreviewSurface));
    assert_eq!(
        shader_kind("ND_standard_surface_surfaceshader"),
        Some(ShaderType::MaterialXStandardSurface)
    );
    assert_eq!(shader_kind("standard_surface"), Some(ShaderType::MaterialXStandardSurface));
    assert_eq!(shader_kind("UsdUVTexture"), None);
    assert_eq!(shader_kind(""), None);
}

#[test]
fn binding_targets() {
    let op = |e: Vec<&str>, p: Vec<&str>| ListOpRecord {
        explicit: true,
        explicit_items: e.iter().map(|s| s.to_string()).collect(),
        prepended_items: p.iter().map(|s| s.to_string()).collect(),
        appended_items: vec!["/Appended".to_string()],
    };
    assert_eq!(first_target(&op(vec!["/E1", "/E2"], vec!["/P"])).as_deref(), Some("/E1"));
    assert_eq!(first_target(&op(vec![], vec!["/P1", "/P2"])).as_deref(), Some("/P1"));
    assert_eq!(first_target(&op(vec![], vec![])), None);
}

#[test]
fn connections_point_into_prims() {
    assert_eq!(connected_prim_path("/Mat/Tex.outputs:rgb").as_deref(), Some("/Mat/Tex"));
    assert_eq!(connected_prim_path("/a.b/c.d").as_deref(), Some("/a.b/c"));
    assert_eq!(connected_prim_path("/Mat/Tex"), None);
    assert_eq!(connected_prim_path(".x").as_deref(), Some(""));
}

#[test]
fn materialx_matching_rules() {
    let names = |v: &[&str]| v.iter().map(|s| s.to_string()).collect::<Vec<String>>();
    assert_eq!(match_materialx("wood", &names(&["m_wood", "wood"])), Some(1));
    assert_eq!(match_materialx("wood", &names(&["x", "m_wood"])), Some(1));
    assert_eq!(match_materialx("wood", &names(&["M_oak", "darkwood", "wood_x"])), Some(1));
    assert_eq!(match_materialx("Wood_Mat", &names(&["Mat", "Other"])), Some(0));
    assert_eq!(match_materialx("wood", &names(&["oak", "pine"])), None);
    assert_eq!(match_materialx("wood", &names(&[])), None);
}

#[test]
fn bound_material_names() {
    assert_eq!(material_name("/World/Looks/Mat"), "Mat");
    assert_eq!(material_name("Mat"), "Mat");
    assert_eq!(material_name("/World/"), "");
}
