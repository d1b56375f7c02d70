use yw_look::assets::SkippedPayload;
use yw_look::error::Error;
use yw_look::material::{find_preview_surface_shader, follow_texture_connection, MaterialData};
use yw_look::mesh::{GeomSubsetData, MeshData};
use yw_look::num::{Double, Half, Single};
use yw_look::path::{parent_path, Path};
use yw_look::scene::{LayerProbe, UpAxis};
use yw_look::skel::{joint_parents, SkelAnimationData, SkeletonData};
use yw_look::stage::{CompositionError, InitialLoadSet, Stage, StageLoadPolicy};
use yw_look::table::FieldKey;
use yw_look::value::{
    row_major_mat4_to_column_major_f32, LayerOffset, Payload, Reference, TimeSample, Value,
};

fn path(s: &str) -> Path {
    Path::new(s).unwrap()
}

fn token(s: &str) -> Value {
    Value::Token(s.to_string())
}

fn single(x: f32) -> Single {
    Single { bits: x.to_bits() }
}

fn double(x: f64) -> Double {
    Double { bits: x.to_bits() }
}

fn half(bits: u16) -> Half {
    Half { bits }
}

fn define(stage: &mut Stage, at: &str, kind: &str) {
    stage.define_prim(&path(at)).unwrap();
    stage.set_value(&path(at), FieldKey::TypeName, Ok(token(kind)));
}

fn set(stage: &mut Stage, attribute: &str, value: Value) {
    stage.set_value(&path(attribute), FieldKey::Default, Ok(value));
}

fn target(stage: &mut Stage, relationship: &str, to: &str) {
    stage.set_paths(&path(relationship), FieldKey::TargetPaths, Ok(vec![path(to)]));
}

fn connect(stage: &mut Stage, attribute: &str, to: &str) {
    stage.set_paths(&path(attribute), FieldKey::ConnectionPaths, Ok(vec![path(to)]));
}

fn empty() -> Stage {
    Stage::builder().in_memory("anon.usda")
}

fn broken() -> Error {
    Error::Unavailable { message: "broken".to_string() }
}

#[test]
fn mat4_conversion_transposes_row_major_to_column_major() {
    let row_major = [
        1.0, 2.0, 3.0, 4.0, //
        5.0, 6.0, 7.0, 8.0, //
        9.0, 10.0, 11.0, 12.0, //
        13.0, 14.0, 15.0, 16.0,
    ];
    assert_eq!(
        row_major_mat4_to_column_major_f32(row_major.map(double)),
        [
            1.0, 5.0, 9.0, 13.0, //
            2.0, 6.0, 10.0, 14.0, //
            3.0, 7.0, 11.0, 15.0, //
            4.0, 8.0, 12.0, 16.0,
        ]
        .map(single)
    );
}

#[test]
fn bound_material_inherits_from_parent() {
    let mut stage = Stage::builder().in_memory("anon.usda");
    define(&mut stage, "/World", "Xform");
    define(&mut stage, "/World/Mesh", "Mesh");
    define(&mut stage, "/Mat", "Material");
    target(&mut stage, "/World.material:binding", "/Mat");

    assert_eq!(
        stage.bound_material(&path("/World/Mesh")).as_ref().map(Path::as_str),
        Some("/Mat")
    );
}

#[test]
fn preview_surface_search_skips_shader_without_info_id() {
    let mut stage = Stage::builder().in_memory("anon.usda");
    define(&mut stage, "/Mat", "Material");
    define(&mut stage, "/Mat/Utility", "Shader");
    define(&mut stage, "/Mat/Surface", "Shader");
    set(&mut stage, "/Mat/Surface.info:id", token("UsdPreviewSurface"));

    assert_eq!(
        find_preview_surface_shader(&stage, &path("/Mat")).as_ref().map(Path::as_str),
        Some("/Mat/Surface")
    );
}

#[test]
fn preview_surface_search_needs_a_shader_with_a_known_id() {
    let mut stage = empty();
    define(&mut stage, "/Mat", "Material");
    assert_eq!(find_preview_surface_shader(&stage, &path("/Mat")), None);
    define(&mut stage, "/Mat/Group", "NodeGraph");
    set(&mut stage, "/Mat/Group.info:id", token("UsdPreviewSurface"));
    define(&mut stage, "/Mat/Tex", "Shader");
    set(&mut stage, "/Mat/Tex.info:id", token("UsdUVTexture"));
    assert_eq!(find_preview_surface_shader(&stage, &path("/Mat")), None);
    define(&mut stage, "/Mat/Mtlx", "Shader");
    set(&mut stage, "/Mat/Mtlx.info:id", token("ND_UsdPreviewSurface_surfaceshader"));
    define(&mut stage, "/Mat/Usd", "Shader");
    set(&mut stage, "/Mat/Usd.info:id", token("UsdPreviewSurface"));
    assert_eq!(find_preview_surface_shader(&stage, &path("/Mat")), Some(path("/Mat/Mtlx")));
    stage.set_paths(&path("/Mat"), FieldKey::PrimChildren, Err(broken()));
    assert_eq!(find_preview_surface_shader(&stage, &path("/Mat")), None);
}

#[test]
fn nearest_binding_wins_and_preview_goes_first() {
    let mut stage = empty();
    define(&mut stage, "/A", "Xform");
    define(&mut stage, "/A/B", "Xform");
    define(&mut stage, "/A/B/C", "Mesh");
    assert_eq!(stage.bound_material(&path("/A/B/C")), None);
    target(&mut stage, "/A.material:binding", "/Far");
    assert_eq!(stage.bound_material(&path("/A/B/C")), Some(path("/Far")));
    target(&mut stage, "/A/B/C.material:binding", "/Near");
    assert_eq!(stage.bound_material(&path("/A/B/C")), Some(path("/Near")));
    target(&mut stage, "/A/B.material:binding:full", "/Full");
    assert_eq!(stage.bound_material(&path("/A/B/C")), Some(path("/Full")));
    target(&mut stage, "/A.material:binding:preview", "/Preview");
    assert_eq!(stage.bound_material(&path("/A/B/C")), Some(path("/Preview")));
    stage.set_paths(&path("/A.material:binding:preview"), FieldKey::TargetPaths, Ok(vec![]));
    stage.set_paths(&path("/A/B.material:binding:full"), FieldKey::TargetPaths, Err(broken()));
    assert_eq!(stage.bound_material(&path("/A/B/C")), Some(path("/Near")));
}

#[test]
fn builder_takes_the_load_policy() {
    assert_eq!(StageLoadPolicy::default(), StageLoadPolicy::LoadAll);
    assert_eq!(empty().load(), InitialLoadSet::LoadAll);
    let none = Stage::builder().load_policy(StageLoadPolicy::NoPayloads).in_memory("a.usda");
    assert_eq!(none.load(), InitialLoadSet::LoadNone);
    let all = Stage::builder()
        .load(InitialLoadSet::LoadNone)
        .load_policy(StageLoadPolicy::LoadAll)
        .in_memory("a.usda");
    assert_eq!(all.load(), InitialLoadSet::LoadAll);
}

#[test]
fn up_axis_is_named_by_a_token_or_a_string() {
    let mut stage = empty();
    assert_eq!(stage.up_axis(), None);
    let root = path("/");
    stage.set_value(&root, FieldKey::UpAxis, Ok(token("Y")));
    assert_eq!(stage.up_axis(), Some(UpAxis::Y));
    stage.set_value(&root, FieldKey::UpAxis, Ok(Value::String("Z".to_string())));
    assert_eq!(stage.up_axis(), Some(UpAxis::Z));
    stage.set_value(&root, FieldKey::UpAxis, Ok(token("X")));
    assert_eq!(stage.up_axis(), None);
    stage.set_value(&root, FieldKey::UpAxis, Ok(Value::AssetPath("Y".to_string())));
    assert_eq!(stage.up_axis(), None);
    stage.set_value(&root, FieldKey::UpAxis, Err(broken()));
    assert_eq!(stage.up_axis(), None);
}

#[test]
fn meters_per_unit_is_a_double_or_a_float() {
    let mut stage = empty();
    assert_eq!(stage.meters_per_unit(), None);
    let root = path("/");
    stage.set_value(&root, FieldKey::MetersPerUnit, Ok(Value::Double(double(0.01))));
    assert_eq!(stage.meters_per_unit(), Some(double(0.01)));
    stage.set_value(&root, FieldKey::MetersPerUnit, Ok(Value::Float(single(0.01))));
    assert_eq!(stage.meters_per_unit(), Some(double(0.01f32 as f64)));
    stage.set_value(&root, FieldKey::MetersPerUnit, Ok(Value::Int(1)));
    assert_eq!(stage.meters_per_unit(), None);
}

#[test]
fn root_layer_format_is_told_by_name_and_head() {
    let magic = Some(*b"PXR-USDC");
    let other = Some(*b"#usda 1.");
    let open = |name: &str| Stage::builder().in_memory(name);
    assert_eq!(open("a/B.USDC").root_layer_probe(), LayerProbe::Binary);
    assert!(open("a/B.USDC").root_layer_is_binary(None));
    assert_eq!(open("b.usda").root_layer_probe(), LayerProbe::NotBinary);
    assert!(!open("b.usda").root_layer_is_binary(magic));
    assert_eq!(open("b.Usd").root_layer_probe(), LayerProbe::ReadHead);
    assert!(open("b.Usd").root_layer_is_binary(magic));
    assert!(!open("b.Usd").root_layer_is_binary(other));
    assert!(!open("b.Usd").root_layer_is_binary(None));
    assert_eq!(open("usd").root_layer_probe(), LayerProbe::NotBinary);
    assert_eq!(open("").root_layer_probe(), LayerProbe::NotBinary);
}

#[test]
fn children_are_named_in_order() {
    let mut stage = empty();
    define(&mut stage, "/A", "Xform");
    define(&mut stage, "/A/Z", "Xform");
    define(&mut stage, "/A/B", "Xform");
    define(&mut stage, "/C", "Xform");
    define(&mut stage, "/A/Z/D", "Xform");
    define(&mut stage, "/A/B", "Xform");
    assert_eq!(stage.prim_children(&path("/A")).unwrap(), vec!["Z", "B"]);
    assert_eq!(stage.prim_children(&path("/")).unwrap(), vec!["A", "C"]);
    assert_eq!(stage.prim_children(&path("/None")).unwrap(), Vec::<String>::new());
    let visited: Vec<&str> = stage.traverse().iter().map(Path::as_str).collect();
    assert_eq!(visited, vec!["/A", "/A/Z", "/A/Z/D", "/A/B", "/C"]);
    stage.set_paths(&path("/A"), FieldKey::PrimChildren, Err(broken()));
    assert_eq!(stage.prim_children(&path("/A")), Err(broken()));
    assert_eq!(
        stage.define_prim(&path("/")),
        Err(Error::InvalidPath { text: "/".to_string() })
    );
    assert!(stage.define_prim(&path("/A.x")).is_err());
}

fn reference(asset: &str) -> Reference {
    Reference {
        asset_path: asset.to_string(),
        prim_path: None,
        layer_offset: LayerOffset { offset: double(0.0), scale: double(1.0) },
    }
}

fn payload(asset: &str) -> Payload {
    Payload { asset_path: asset.to_string(), prim_path: None, layer_offset: None }
}

#[test]
fn arcs_are_those_of_the_field() {
    let mut stage = empty();
    define(&mut stage, "/A", "Xform");
    let a = path("/A");
    assert_eq!(stage.references_in(&a), vec![]);
    assert_eq!(stage.payloads_in(&a), vec![]);
    stage.set_value(
        &a,
        FieldKey::References,
        Ok(Value::ReferenceListOp(vec![reference("x.usd"), reference("y.usd")])),
    );
    assert_eq!(stage.references_in(&a), vec![reference("x.usd"), reference("y.usd")]);
    stage.set_value(&a, FieldKey::Payload, Ok(Value::Payload(payload("p.usd"))));
    assert_eq!(stage.payloads_in(&a), vec![payload("p.usd")]);
    stage.set_value(
        &a,
        FieldKey::Payload,
        Ok(Value::PayloadListOp(vec![payload("q.usd"), payload("r.usd")])),
    );
    assert_eq!(stage.payloads_in(&a), vec![payload("q.usd"), payload("r.usd")]);
    stage.set_value(&a, FieldKey::Payload, Ok(Value::ReferenceListOp(vec![])));
    assert_eq!(stage.payloads_in(&a), vec![]);
    stage.set_value(&a, FieldKey::References, Err(broken()));
    assert_eq!(stage.references_in(&a), vec![]);
}

#[test]
fn missing_assets_are_reported_once() {
    let mut stage = empty();
    define(&mut stage, "/A", "Xform");
    define(&mut stage, "/B", "Xform");
    let missing = |s: &str| CompositionError::UnresolvedLayer { asset_path: s.to_string() };
    stage.add_composition_error(missing("layer.usd"));
    stage.add_composition_error(CompositionError::Other { message: "cycle".to_string() });
    stage.add_composition_error(CompositionError::UnresolvedSublayer {
        asset_path: "sub.usd".to_string(),
    });
    stage.add_composition_error(missing("layer.usd"));
    stage.add_found_asset("here.usd");
    stage.set_value(
        &path("/A"),
        FieldKey::References,
        Ok(Value::ReferenceListOp(vec![
            reference("sub.usd"),
            reference(""),
            reference("${VAR}.usd"),
            reference("gone.usd"),
            reference("here.usd"),
            reference("$x{.usd"),
        ])),
    );
    stage.set_value(
        &path("/A"),
        FieldKey::Payload,
        Ok(Value::Payload(payload("gone.usd"))),
    );
    stage.set_value(
        &path("/B"),
        FieldKey::Payload,
        Ok(Value::PayloadListOp(vec![payload("last.usd")])),
    );
    assert_eq!(
        stage.unresolved_assets(),
        vec!["layer.usd", "sub.usd", "layer.usd", "gone.usd", "$x{.usd", "last.usd"]
    );
}

#[test]
fn payloads_are_skipped_only_where_none_is_loaded() {
    let fill = |stage: &mut Stage| {
        define(stage, "/A", "Xform");
        define(stage, "/A/B", "Xform");
        stage.set_value(
            &path("/A"),
            FieldKey::Payload,
            Ok(Value::PayloadListOp(vec![payload("p.usd"), payload("q.usd")])),
        );
        stage.set_value(&path("/A/B"), FieldKey::Payload, Ok(Value::Payload(payload("r.usd"))));
    };
    let mut stage = empty();
    fill(&mut stage);
    assert_eq!(stage.skipped_payloads(), vec![]);
    let mut stage = Stage::builder().load_policy(StageLoadPolicy::NoPayloads).in_memory("a");
    fill(&mut stage);
    let skipped = |a: &str, p: &str| SkippedPayload {
        asset_path: a.to_string(),
        prim_path: path(p),
    };
    assert_eq!(
        stage.skipped_payloads(),
        vec![skipped("p.usd", "/A"), skipped("q.usd", "/A"), skipped("r.usd", "/A/B")]
    );
}

#[test]
fn mesh_needs_its_type_and_points() {
    let mut stage = empty();
    define(&mut stage, "/M", "Xform");
    let m = path("/M");
    set(&mut stage, "/M.points", Value::FloatVec(vec![single(1.0); 3]));
    assert_eq!(stage.mesh_of(&m), Ok(None));
    stage.set_value(&m, FieldKey::TypeName, Ok(token("Mesh")));
    let bare = stage.mesh_of(&m).unwrap().unwrap();
    assert_eq!(bare, MeshData { points: vec![single(1.0); 3], ..MeshData::default() });
    assert_eq!(bare.clone(), bare);
    set(&mut stage, "/M.points", Value::FloatVec(vec![single(1.0); 4]));
    assert_eq!(stage.mesh_of(&m), Ok(None));
    stage.set_value(&path("/M.points"), FieldKey::Default, Err(broken()));
    assert_eq!(stage.mesh_of(&m), Err(broken()));
}

#[test]
fn mesh_holds_all_its_parts() {
    let mut stage = empty();
    define(&mut stage, "/M", "Mesh");
    let m = path("/M");
    set(
        &mut stage,
        "/M.points",
        Value::Vec3dVec(vec![[double(1.0), double(2.0), double(0.1)], [double(-4.0); 3]]),
    );
    set(&mut stage, "/M.faceVertexIndices", Value::UintVec(vec![0, 1, 0xffff_ffff]));
    set(&mut stage, "/M.faceVertexCounts", Value::IntVec(vec![3, -1]));
    set(&mut stage, "/M.normals", Value::Vec3hVec(vec![[half(0x3c00), half(0), half(0x8001)]]));
    set(&mut stage, "/M.primvars:st", Value::Vec2fVec(vec![[single(0.5), single(0.25)]]));
    set(&mut stage, "/M.primvars:displayColor", Value::Vec3fVec(vec![[single(0.5); 3]]));
    set(
        &mut stage,
        "/M.primvars:skel:jointIndices",
        Value::IntVec(vec![0, 1, -7, 2, 3]),
    );
    set(
        &mut stage,
        "/M.primvars:skel:jointWeights",
        Value::DoubleVec(vec![double(0.1), double(0.9)]),
    );
    let expected = MeshData {
        points: [1.0, 2.0, 0.1, -4.0, -4.0, -4.0].map(single).to_vec(),
        face_vertex_indices: vec![0, 1, -1],
        face_vertex_counts: vec![3, -1],
        normals: Some([1.0, 0.0, -5.9604645e-8].map(single).to_vec()),
        uvs: Some([0.5, 0.25].map(single).to_vec()),
        joint_indices: Some(vec![0, 1, 2, 3]),
        joint_weights: Some([0.1, 0.9].map(single).to_vec()),
        joints_per_vertex: 2,
        display_color: Some([0.5; 3].map(single).to_vec()),
    };
    assert_eq!(stage.mesh_of(&m).unwrap().unwrap(), expected);
    stage.set_value(
        &path("/M.primvars:skel:jointWeights"),
        FieldKey::ElementSize,
        Ok(Value::Uint(5)),
    );
    assert_eq!(stage.mesh_of(&m).unwrap().unwrap().joints_per_vertex, 5);
    stage.set_value(
        &path("/M.primvars:skel:jointIndices"),
        FieldKey::ElementSize,
        Ok(Value::Int(4)),
    );
    assert_eq!(stage.mesh_of(&m).unwrap().unwrap().joints_per_vertex, 4);
    stage.set_value(
        &path("/M.primvars:skel:jointIndices"),
        FieldKey::ElementSize,
        Ok(Value::Int(0)),
    );
    assert_eq!(stage.mesh_of(&m).unwrap().unwrap().joints_per_vertex, 5);
    stage.set_value(&path("/M.primvars:st"), FieldKey::Default, Err(broken()));
    assert_eq!(stage.mesh_of(&m), Err(broken()));
    let earlier = Error::Unavailable { message: "earlier".to_string() };
    stage.set_value(&path("/M.normals"), FieldKey::Default, Err(earlier.clone()));
    assert_eq!(stage.mesh_of(&m), Err(earlier));
}

#[test]
fn joints_that_do_not_divide_evenly_count_as_none() {
    let mut stage = empty();
    define(&mut stage, "/M", "Mesh");
    set(&mut stage, "/M.points", Value::FloatVec(vec![single(0.0); 6]));
    set(&mut stage, "/M.primvars:skel:jointIndices", Value::UintVec(vec![1, 2, 3]));
    assert_eq!(stage.mesh_of(&path("/M")).unwrap().unwrap().joints_per_vertex, 0);
    set(&mut stage, "/M.points", Value::FloatVec(vec![]));
    assert_eq!(stage.mesh_of(&path("/M")).unwrap().unwrap().joints_per_vertex, 0);
}

fn shaded() -> Stage {
    let mut stage = empty();
    define(&mut stage, "/M", "Mesh");
    define(&mut stage, "/Mat", "Material");
    define(&mut stage, "/Mat/S", "Shader");
    set(&mut stage, "/Mat/S.info:id", token("UsdPreviewSurface"));
    target(&mut stage, "/M.material:binding", "/Mat");
    stage
}

#[test]
fn material_holds_the_inputs_of_its_surface() {
    let mut stage = shaded();
    let m = path("/M");
    assert_eq!(stage.material_of(&m), None);
    set(&mut stage, "/Mat/S.inputs:metallic", Value::Half(half(0x3800)));
    set(&mut stage, "/Mat/S.inputs:roughness", Value::Double(double(0.1)));
    set(&mut stage, "/Mat/S.inputs:opacity", Value::Float(single(0.7)));
    set(&mut stage, "/Mat/S.inputs:diffuseColor", Value::Vec3d([double(0.2); 3]));
    set(&mut stage, "/Mat/S.inputs:emissiveColor", Value::FloatVec(vec![single(0.3); 3]));
    let expected = MaterialData {
        diffuse_color: Some([single(0.2); 3]),
        metallic: Some(single(0.5)),
        roughness: Some(single(0.1)),
        opacity: Some(single(0.7)),
        emissive_color: Some([single(0.3); 3]),
        ..MaterialData::default()
    };
    assert_eq!(stage.material_of(&m), Some(expected.clone()));
    stage.set_value(&path("/Mat"), FieldKey::TypeName, Ok(token("Xform")));
    assert_eq!(stage.material_of(&m), None);
}

#[test]
fn material_takes_a_texture_and_turns_white() {
    let mut stage = shaded();
    let m = path("/M");
    define(&mut stage, "/Mat/T", "Shader");
    set(&mut stage, "/Mat/T.info:id", token("UsdUVTexture"));
    connect(&mut stage, "/Mat/S.inputs:diffuseColor", "/Mat/T.outputs:rgb");
    assert_eq!(stage.material_of(&m), None);
    set(&mut stage, "/Mat/T.inputs:file", Value::AssetPath("wood.png".to_string()));
    set(&mut stage, "/Mat/T.inputs:wrapS", token("repeat"));
    let data = stage.material_of(&m).unwrap();
    assert_eq!(
        data,
        MaterialData {
            diffuse_color: Some([single(1.0); 3]),
            diffuse_texture: Some("wood.png".to_string()),
            wrap_s: Some("repeat".to_string()),
            ..MaterialData::default()
        }
    );
    set(&mut stage, "/Mat/S.inputs:diffuseColor", Value::Vec3f([single(0.5); 3]));
    set(&mut stage, "/Mat/T.inputs:wrapT", token("clamp"));
    let data = stage.material_of(&m).unwrap();
    assert_eq!(data.diffuse_color, Some([single(0.5); 3]));
    assert_eq!(data.wrap_t, Some("clamp".to_string()));
}

#[test]
fn texture_needs_an_image_shader() {
    let mut stage = empty();
    define(&mut stage, "/T", "Shader");
    set(&mut stage, "/T.inputs:file", Value::String("a.png".to_string()));
    let input = path("/S.inputs:diffuseColor");
    assert_eq!(follow_texture_connection(&stage, &input), None);
    connect(&mut stage, "/S.inputs:diffuseColor", "/T.outputs:rgb");
    assert_eq!(follow_texture_connection(&stage, &input), None);
    for id in ["UsdUVTexture", "ND_image_color3", "ND_image_color4", "ND_image_float", "ND_image_vector3"] {
        set(&mut stage, "/T.info:id", token(id));
        assert_eq!(follow_texture_connection(&stage, &input).unwrap().file, "a.png");
    }
    set(&mut stage, "/T.info:id", token("UsdPrimvarReader_float2"));
    assert_eq!(follow_texture_connection(&stage, &input), None);
    set(&mut stage, "/T.info:id", token("UsdUVTexture"));
    stage.set_value(&path("/T"), FieldKey::TypeName, Ok(token("NodeGraph")));
    assert_eq!(follow_texture_connection(&stage, &input), None);
}

#[test]
fn subsets_are_read_in_order() {
    let mut stage = empty();
    define(&mut stage, "/M", "Mesh");
    target(&mut stage, "/M.material:binding", "/Mat");
    for name in ["a", "b", "c", "d", "e", "f"] {
        define(&mut stage, &format!("/M/{}", name), "GeomSubset");
    }
    set(&mut stage, "/M/a.indices", Value::IntVec(vec![3, -1, 2]));
    set(&mut stage, "/M/a.elementType", token("face"));
    set(&mut stage, "/M/b.indices", Value::IntVec(vec![1]));
    set(&mut stage, "/M/b.elementType", token("point"));
    set(&mut stage, "/M/c.indices", Value::UintVec(vec![0xffff_ffff]));
    stage.set_value(&path("/M/d.indices"), FieldKey::Default, Err(broken()));
    stage.set_value(&path("/M/e"), FieldKey::TypeName, Ok(token("Xform")));
    set(&mut stage, "/M/e.indices", Value::IntVec(vec![1]));
    set(&mut stage, "/M/f.indices", Value::UintVec(vec![7, 8]));
    target(&mut stage, "/M/f.material:binding", "/Own");
    let subset = |name: &str, indices: Vec<u32>, material: &str| GeomSubsetData {
        name: name.to_string(),
        indices,
        material_binding: Some(path(material)),
    };
    let subsets = stage.geom_subsets_of(&path("/M"));
    assert_eq!(subsets, vec![subset("a", vec![3, 2], "/Mat"), subset("f", vec![7, 8], "/Own")]);
    assert_eq!(subsets[0].clone(), subsets[0]);
    assert_eq!(GeomSubsetData::default().name, "");
    stage.set_paths(&path("/M"), FieldKey::PrimChildren, Err(broken()));
    assert_eq!(stage.geom_subsets_of(&path("/M")), vec![]);
}

fn texts(v: &[&str]) -> Vec<String> {
    v.iter().map(|s| s.to_string()).collect()
}

#[test]
fn joints_find_their_parents() {
    assert_eq!(
        joint_parents(&texts(&["Hips", "Hips/Spine", "Hips/Spine/Head", "Other/Leg", "Hips"])),
        vec![None, Some(0), Some(1), None, None]
    );
    assert_eq!(joint_parents(&texts(&["/a", "", "/a/b", "a/"])), vec![Some(1), None, Some(0), None]);
    assert_eq!(joint_parents(&[]), vec![]);
}

#[test]
fn skeleton_is_inherited_and_checked() {
    let mut stage = empty();
    define(&mut stage, "/Root", "SkelRoot");
    define(&mut stage, "/Root/M", "Mesh");
    define(&mut stage, "/Root/Skel", "Skeleton");
    let m = path("/Root/M");
    assert_eq!(stage.skeleton_of(&m), None);
    target(&mut stage, "/Root.skel:skeleton", "/Root/Skel");
    assert_eq!(stage.skeleton_of(&m), None);
    set(&mut stage, "/Root/Skel.joints", Value::TokenVec(texts(&["a", "a/b"])));
    let mut matrix = [double(0.0); 16];
    matrix[1] = double(2.0);
    matrix[12] = double(5.0);
    set(&mut stage, "/Root/Skel.bindTransforms", Value::Matrix4dVec(vec![matrix]));
    let mut turned = [single(0.0); 16];
    turned[4] = single(2.0);
    turned[3] = single(5.0);
    let (at, skeleton) = stage.skeleton_of(&m).unwrap();
    assert_eq!(at, path("/Root/Skel"));
    assert_eq!(
        skeleton,
        SkeletonData {
            joints: texts(&["a", "a/b"]),
            bind_transforms: vec![turned],
            rest_transforms: vec![],
            parents: vec![None, Some(0)],
        }
    );
    assert_eq!(skeleton.clone(), skeleton);
    assert_eq!(SkeletonData::default().joints, Vec::<String>::new());
    stage.set_value(&path("/Root/Skel"), FieldKey::TypeName, Ok(token("Xform")));
    assert_eq!(stage.skeleton_of(&m), None);
}

fn sample(time: f64, value: Value) -> TimeSample {
    TimeSample { time: double(time), value }
}

fn samples(stage: &mut Stage, attribute: &str, v: Vec<TimeSample>) {
    stage.set_value(&path(attribute), FieldKey::TimeSamples, Ok(Value::TimeSamples(v)));
}

#[test]
fn animation_times_are_merged() {
    let mut stage = empty();
    define(&mut stage, "/Skel", "Skeleton");
    define(&mut stage, "/Anim", "SkelAnimation");
    let skel = path("/Skel");
    assert_eq!(stage.skel_animation_of(&skel), None);
    target(&mut stage, "/Skel.skel:animationSource", "/Anim");
    assert_eq!(stage.skel_animation_of(&skel), None);
    let v3 = |x: f32| Value::Vec3fVec(vec![[single(x), single(0.0), single(0.0)]]);
    let numbers = |x: f32| vec![single(x), single(0.0), single(0.0)];
    samples(
        &mut stage,
        "/Anim.translations",
        vec![sample(10.0, v3(1.0)), sample(0.0, v3(2.0)), sample(3.0, Value::Other)],
    );
    let quat = yw_look::value::Quat {
        w: double(1.0),
        x: double(0.1),
        y: double(0.2),
        z: double(0.3),
    };
    samples(
        &mut stage,
        "/Anim.rotations",
        vec![sample(5.0, Value::QuatdVec(vec![quat])), sample(-1.0, v3(9.0))],
    );
    samples(&mut stage, "/Anim.scales", vec![sample(1e-17, v3(3.0))]);
    set(&mut stage, "/Anim.joints", Value::StringVec(texts(&["a"])));
    let animation = stage.skel_animation_of(&skel).unwrap();
    assert_eq!(
        animation,
        SkelAnimationData {
            times: [0.0, 5.0, 10.0].map(double).to_vec(),
            translations: vec![numbers(2.0), vec![], numbers(1.0)],
            rotations: vec![vec![], [0.1, 0.2, 0.3, 1.0].map(single).to_vec(), vec![]],
            scales: vec![numbers(3.0), vec![], vec![]],
            joints: texts(&["a"]),
        }
    );
    assert_eq!(animation.clone(), animation);
    assert_eq!(SkelAnimationData::default().times, vec![]);
    stage.set_value(&path("/Anim"), FieldKey::TypeName, Ok(token("Xform")));
    assert_eq!(stage.skel_animation_of(&skel), None);
}

#[test]
fn paths_are_checked() {
    for good in ["/", "/A", "/A/B", "A", "/A.b", "/A/B.primvars:st"] {
        assert_eq!(Path::new(good).unwrap().as_str(), good);
    }
    for bad in ["", "//", "/A/", "/A//B", "/A.", "/.b", ".b", "/A.b/c", "/A.b.c"] {
        assert_eq!(Path::new(bad), Err(Error::InvalidPath { text: bad.to_string() }));
    }
    assert_eq!(path("/A").append_property("b"), Ok(path("/A.b")));
    assert_eq!(
        path("/").append_property("b"),
        Err(Error::InvalidPath { text: "/.b".to_string() })
    );
    assert!(path("/A.b").append_property("c").is_err());
    assert!(path("/A").append_property("").is_err());
    assert_eq!(path("/A/B.c").prim_path(), path("/A/B"));
    assert_eq!(path("/A/B").prim_path(), path("/A/B"));
    assert_eq!(path("/A/B").name(), Some("B".to_string()));
    assert_eq!(path("/A/B.c").name(), Some("c".to_string()));
    assert_eq!(path("A").name(), Some("A".to_string()));
    assert_eq!(path("/").name(), None);
}

#[test]
fn parents_stop_below_the_root() {
    assert_eq!(parent_path(&path("/A/B/C")), Some(path("/A/B")));
    assert_eq!(parent_path(&path("/A/B.c")), Some(path("/A")));
    assert_eq!(parent_path(&path("/A")), None);
    assert_eq!(parent_path(&path("/")), None);
    assert_eq!(parent_path(&path("A")), None);
    assert_eq!(parent_path(&path("A/B")), Some(path("A")));
    assert_eq!(parent_path(&path("/Å/ß")), Some(path("/Å")));
}
