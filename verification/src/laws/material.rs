//! What a material holds, from what was recorded for its shaders.
use crate::error::ErrorView;
use crate::laws::given::{lemma_child, lemma_names, lemma_property, lemma_says};
use crate::laws::read::law_inputs;
use crate::material::MaterialView;
use crate::num::Single;
use crate::stage::StageView;
use crate::table::FieldKey;
use crate::value::Value;
use vstd::prelude::*;

verus! {

/// The number that was recorded for an input of a shader.
pub open spec fn number_of(s: StageView, shader: Seq<char>, name: Seq<char>) -> Option<Single> {
    match crate::laws::given::authored(s, shader, name, FieldKey::Default) {
        Some(Value::Float(x)) => Some(x),
        Some(Value::Double(x)) => Some(x.narrowed()),
        Some(Value::Half(x)) => Some(x.widened()),
        _ => None,
    }
}

/// The color that was recorded for an input of a shader.
pub open spec fn color_of(s: StageView, shader: Seq<char>, name: Seq<char>) -> Option<Seq<Single>> {
    match crate::laws::given::authored(s, shader, name, FieldKey::Default) {
        Some(v) => crate::value::one_vec3(v),
        None => None,
    }
}

/// A prim makes a preview surface exactly where its type is `Shader` and its identifier one of
/// the two of a preview surface.
pub proof fn law_preview_shader(s: StageView, p: Seq<char>)
    ensures
        s.is_preview_shader(p) <==> crate::laws::given::is_prim(p) && crate::laws::given::says(
            s,
            p,
            FieldKey::TypeName,
            "Shader"@,
        ) && (crate::laws::given::says(
            s,
            p + seq!['.'] + "info:id"@,
            FieldKey::Default,
            "UsdPreviewSurface"@,
        ) || crate::laws::given::says(
            s,
            p + seq!['.'] + "info:id"@,
            FieldKey::Default,
            "ND_UsdPreviewSurface_surfaceshader"@,
        )),
{
    lemma_names();
    lemma_property(p, "info:id"@);
    lemma_says(s, p, FieldKey::TypeName);
    lemma_says(s, p + seq!['.'] + "info:id"@, FieldKey::Default);
}

/// The preview shader of a material is the first of its children that makes a preview surface;
/// where none does, or where its children cannot be had, there is none.
pub proof fn law_first_preview_shader(
    s: StageView,
    material: Seq<char>,
    names: Seq<Seq<char>>,
    v: Seq<Seq<char>>,
    k: int,
)
    requires
        crate::laws::given::is_prim(material),
        crate::laws::given::linked(s, material, FieldKey::PrimChildren, v),
        names.len() == v.len(),
        forall|j: int|
            0 <= j < v.len() ==> crate::laws::given::is_plain(#[trigger] names[j]) && v[j]
                == material + seq!['/'] + names[j],
        0 <= k <= v.len(),
        forall|j: int| 0 <= j < k ==> !s.is_preview_shader(#[trigger] v[j]),
        k < v.len() ==> s.is_preview_shader(v[k]),
    ensures
        k < v.len() ==> s.preview_shader(material) == Some(v[k]),
        k == v.len() ==> s.preview_shader(material) is None,
{
    crate::laws::binding::law_children(
        s,
        material,
        names,
        v,
        ErrorView::InvalidPath { text: seq![] },
    );
    assert forall|j: int| 0 <= j < v.len() implies crate::path::child(material, #[trigger] names[j])
        == Some(v[j]) by {
        lemma_child(material, names[j]);
    }
    crate::laws::law_first_preview_shader_is_found(s, material, names);
    match s.preview_shader_among(material, names) {
        Some(p) => {
            let i = choose|i: int|
                0 <= i < names.len() && crate::path::child(material, #[trigger] names[i]) == Some(p)
                    && forall|j: int|
                    0 <= j < i ==> (crate::path::child(material, #[trigger] names[j]) matches Some(
                        q,
                    ) && !s.is_preview_shader(q));
            assert(p == v[i]);
            if k < i {
                assert(crate::path::child(material, names[k]) == Some(v[k]));
            }
        },
        None => {
            if k < v.len() {
                assert(crate::path::child(material, names[k]) == Some(v[k]));
            }
        },
    }
}

/// The preview shader is looked for among the children; where they cannot be had, or there are
/// none, there is no preview shader.
pub proof fn law_no_preview_shader(s: StageView, material: Seq<char>)
    ensures
        s.prim_children(material) matches Ok(names) ==> s.preview_shader(material)
            == s.preview_shader_among(material, names),
        !s.links.contains_key((material, FieldKey::PrimChildren)) ==> s.preview_shader(
            material,
        ) is None,
        s.links.contains_key((material, FieldKey::PrimChildren)) && s.links[(
            material,
            FieldKey::PrimChildren,
        )] is Err ==> s.preview_shader(material) is None,
{
}

/// An image is told by one of five identifiers.
pub open spec fn says_image(s: StageView, shader: Seq<char>) -> bool {
    let id = shader + seq!['.'] + "info:id"@;
    ||| crate::laws::given::says(s, id, FieldKey::Default, "UsdUVTexture"@)
    ||| crate::laws::given::says(s, id, FieldKey::Default, "ND_image_color3"@)
    ||| crate::laws::given::says(s, id, FieldKey::Default, "ND_image_color4"@)
    ||| crate::laws::given::says(s, id, FieldKey::Default, "ND_image_float"@)
    ||| crate::laws::given::says(s, id, FieldKey::Default, "ND_image_vector3"@)
}

/// An input has the texture of the shader that its first connection comes from, where that is a
/// shader of an image with a file: the file that it names, and how it wraps as far as that is
/// said. An input that is connected to nothing has none.
pub proof fn law_texture(
    s: StageView,
    input: Seq<char>,
    sources: Seq<Seq<char>>,
    shader: Seq<char>,
    output: Seq<char>,
    t: Seq<char>,
)
    requires
        forall|i: int| 0 <= i < shader.len() ==> shader[i] != '.',
    ensures
        crate::laws::given::unlinked(s, input, FieldKey::ConnectionPaths) ==> s.texture(
            input,
        ) is None,
        crate::laws::given::linked(s, input, FieldKey::ConnectionPaths, sources) && sources.len()
            > 0 && (sources[0] == shader + seq!['.'] + output || sources[0] == shader) ==> {
            &&& s.texture(input) is Some <==> crate::laws::given::is_prim(shader)
                && crate::laws::given::says(s, shader, FieldKey::TypeName, "Shader"@)
                && says_image(s, shader) && !crate::laws::given::says_nothing(
                s,
                shader + seq!['.'] + "inputs:file"@,
                FieldKey::Default,
            )
            &&& s.texture(input) matches Some(x) ==> {
                &&& crate::laws::given::says(
                    s,
                    shader + seq!['.'] + "inputs:file"@,
                    FieldKey::Default,
                    x.file,
                )
                &&& x.wrap_s == Some(t) <==> crate::laws::given::says(
                    s,
                    shader + seq!['.'] + "inputs:wrapS"@,
                    FieldKey::Default,
                    t,
                )
                &&& x.wrap_t == Some(t) <==> crate::laws::given::says(
                    s,
                    shader + seq!['.'] + "inputs:wrapT"@,
                    FieldKey::Default,
                    t,
                )
            }
        },
{
    lemma_names();
    crate::laws::path::law_prim_part(shader, output);
    lemma_property(shader, "info:id"@);
    lemma_property(shader, "inputs:file"@);
    lemma_property(shader, "inputs:wrapS"@);
    lemma_property(shader, "inputs:wrapT"@);
    lemma_says(s, shader, FieldKey::TypeName);
    lemma_says(s, shader + seq!['.'] + "info:id"@, FieldKey::Default);
    lemma_says(s, shader + seq!['.'] + "inputs:file"@, FieldKey::Default);
    lemma_says(s, shader + seq!['.'] + "inputs:wrapS"@, FieldKey::Default);
    lemma_says(s, shader + seq!['.'] + "inputs:wrapT"@, FieldKey::Default);
}

/// A found material has the metallic, roughness and opacity numbers and the emissive color that
/// were recorded for its preview shader, whatever else it has. Its diffuse color is the recorded
/// one too; only where none was recorded and there is a texture, it is white. The texture is that
/// of the diffuse color.
pub proof fn law_material_parts(
    s: StageView,
    mesh: Seq<char>,
    material: Seq<char>,
    p: Seq<char>,
    m: MaterialView,
)
    requires
        s.bound_material(mesh) == Some(material),
        s.preview_shader(material) == Some(p),
        s.material(mesh) == Some(m),
    ensures
        m.metallic == number_of(s, p, "inputs:metallic"@),
        m.roughness == number_of(s, p, "inputs:roughness"@),
        m.opacity == number_of(s, p, "inputs:opacity"@),
        m.emissive_color == color_of(s, p, "inputs:emissiveColor"@),
        match s.texture(p + seq!['.'] + "inputs:diffuseColor"@) {
            Some(t) => {
                &&& m.diffuse_texture == Some(t.file)
                &&& m.wrap_s == t.wrap_s
                &&& m.wrap_t == t.wrap_t
                &&& color_of(s, p, "inputs:diffuseColor"@) is Some ==> m.diffuse_color == color_of(
                    s,
                    p,
                    "inputs:diffuseColor"@,
                )
                &&& color_of(s, p, "inputs:diffuseColor"@) is None ==> (
                m.diffuse_color matches Some(c) && c.len() == 3 && forall|i: int|
                    0 <= i < 3 ==> (#[trigger] c[i]).bits == 0x3f80_0000)
            },
            None => {
                &&& m.diffuse_texture is None
                &&& m.wrap_s is None
                &&& m.wrap_t is None
                &&& m.diffuse_color == color_of(s, p, "inputs:diffuseColor"@)
            },
        },
{
    lemma_property(p, "inputs:diffuseColor"@);
    law_inputs(s, p, "inputs:metallic"@);
    law_inputs(s, p, "inputs:roughness"@);
    law_inputs(s, p, "inputs:opacity"@);
    law_inputs(s, p, "inputs:emissiveColor"@);
    law_inputs(s, p, "inputs:diffuseColor"@);
}

/// A mesh has a material exactly where it is bound to a prim of type `Material` that has a preview
/// shader, and something was recorded of its surface: a color, a number or a texture.
pub proof fn law_material_is_there(
    s: StageView,
    mesh: Seq<char>,
    material: Seq<char>,
    p: Seq<char>,
)
    requires
        s.bound_material(mesh) == Some(material),
        s.preview_shader(material) == Some(p),
        crate::laws::given::is_prim(p),
    ensures
        s.material(mesh) is Some <==> crate::laws::given::says(
            s,
            material,
            FieldKey::TypeName,
            "Material"@,
        ) && (number_of(s, p, "inputs:metallic"@) is Some || number_of(
            s,
            p,
            "inputs:roughness"@,
        ) is Some || number_of(s, p, "inputs:opacity"@) is Some || color_of(
            s,
            p,
            "inputs:emissiveColor"@,
        ) is Some || color_of(s, p, "inputs:diffuseColor"@) is Some || s.texture(
            p + seq!['.'] + "inputs:diffuseColor"@,
        ) is Some),
{
    lemma_names();
    lemma_says(s, material, FieldKey::TypeName);
    lemma_property(p, "inputs:diffuseColor"@);
    law_inputs(s, p, "inputs:metallic"@);
    law_inputs(s, p, "inputs:roughness"@);
    law_inputs(s, p, "inputs:opacity"@);
    law_inputs(s, p, "inputs:emissiveColor"@);
    law_inputs(s, p, "inputs:diffuseColor"@);
}

/// A mesh that is bound to nothing, or to what is no material or has no preview shader, has none.
pub proof fn law_no_material(s: StageView, mesh: Seq<char>)
    ensures
        s.bound_material(mesh) is None ==> s.material(mesh) is None,
        s.bound_material(mesh) matches Some(m) ==> (!crate::laws::given::says(
            s,
            m,
            FieldKey::TypeName,
            "Material"@,
        ) || s.preview_shader(m) is None) ==> s.material(mesh) is None,
{
    if let Some(m) = s.bound_material(mesh) {
        lemma_says(s, m, FieldKey::TypeName);
    }
}

/// The first preview shader does not hang on where inputs are connected to.
proof fn lemma_same_shader_among(
    s: StageView,
    t: StageView,
    material: Seq<char>,
    names: Seq<Seq<char>>,
)
    requires
        s.values == t.values,
    ensures
        s.preview_shader_among(material, names) == t.preview_shader_among(material, names),
    decreases names.len(),
{
    if names.len() > 0 {
        if let Some(p) = crate::path::child(material, names[0]) {
            assert(s.is_preview_shader(p) == t.is_preview_shader(p));
        }
        lemma_same_shader_among(s, t, material, names.drop_first());
    }
}

/// Connecting an input to something else changes nothing of a material but its diffuse color, its
/// texture and how that wraps; and a diffuse color that stands without a texture stays.
pub proof fn law_connection_changes_only_the_texture(
    s: StageView,
    t: StageView,
    input: Seq<char>,
    sources: Result<Seq<Seq<char>>, ErrorView>,
    mesh: Seq<char>,
    a: MaterialView,
    b: MaterialView,
)
    requires
        t == (StageView {
            links: s.links.insert((input, FieldKey::ConnectionPaths), sources),
            ..s
        }),
        s.material(mesh) == Some(a),
        t.material(mesh) == Some(b),
    ensures
        a.metallic == b.metallic,
        a.roughness == b.roughness,
        a.opacity == b.opacity,
        a.emissive_color == b.emissive_color,
        a.diffuse_color is Some && a.diffuse_texture is None ==> a.diffuse_color == b.diffuse_color,
{
    crate::laws::binding::law_binding_hangs_on_targets(s, t, mesh, seq![]);
    if let Some(m) = s.bound_material(mesh) {
        assert(s.paths(m, FieldKey::PrimChildren) == t.paths(m, FieldKey::PrimChildren));
        assert(s.prim_children(m) == t.prim_children(m));
        if let Ok(names) = s.prim_children(m) {
            lemma_same_shader_among(s, t, m, names);
        }
        assert(s.preview_shader(m) == t.preview_shader(m));
        if let Some(p) = s.preview_shader(m) {
            law_material_parts(s, mesh, m, p, a);
            law_material_parts(t, mesh, m, p, b);
            assert(s.values == t.values);
        }
    }
}

} // verus!
