//! Materials: the preview surface of a material, its inputs, and the texture of its color.
use crate::binding::first_attribute_connection;
use crate::mesh::child_path;
use crate::num::Single;
use crate::path::Path;
use crate::read::{field_is, read_float_input, read_string_attr, read_vec3_input};
use crate::stage::{Stage, StageView};
use crate::table::FieldKey;
use crate::text;
use vstd::prelude::*;

verus! {

/// What a surface looks like.
#[derive(Debug, PartialEq)]
pub struct MaterialData {
    pub diffuse_color: Option<[Single; 3]>,
    pub metallic: Option<Single>,
    pub roughness: Option<Single>,
    pub opacity: Option<Single>,
    pub emissive_color: Option<[Single; 3]>,
    pub diffuse_texture: Option<String>,
    pub wrap_s: Option<String>,
    pub wrap_t: Option<String>,
}

/// The model of a [`MaterialData`].
pub struct MaterialView {
    pub diffuse_color: Option<Seq<Single>>,
    pub metallic: Option<Single>,
    pub roughness: Option<Single>,
    pub opacity: Option<Single>,
    pub emissive_color: Option<Seq<Single>>,
    pub diffuse_texture: Option<Seq<char>>,
    pub wrap_s: Option<Seq<char>>,
    pub wrap_t: Option<Seq<char>>,
}

/// The components of a color that may be absent.
pub open spec fn color(c: Option<[Single; 3]>) -> Option<Seq<Single>> {
    match c {
        Some(c) => Some(c@),
        None => None,
    }
}

/// The characters of a text that may be absent.
pub open spec fn chars(s: Option<String>) -> Option<Seq<char>> {
    match s {
        Some(s) => Some(s@),
        None => None,
    }
}

impl View for MaterialData {
    type V = MaterialView;

    open spec fn view(&self) -> MaterialView {
        MaterialView {
            diffuse_color: color(self.diffuse_color),
            metallic: self.metallic,
            roughness: self.roughness,
            opacity: self.opacity,
            emissive_color: color(self.emissive_color),
            diffuse_texture: chars(self.diffuse_texture),
            wrap_s: chars(self.wrap_s),
            wrap_t: chars(self.wrap_t),
        }
    }
}

impl MaterialView {
    /// A material of which nothing is known.
    pub open spec fn blank() -> MaterialView {
        MaterialView {
            diffuse_color: None,
            metallic: None,
            roughness: None,
            opacity: None,
            emissive_color: None,
            diffuse_texture: None,
            wrap_s: None,
            wrap_t: None,
        }
    }
}

impl Default for MaterialData {
    fn default() -> (r: Self)
        ensures
            r@ == MaterialView::blank(),
    {
        MaterialData {
            diffuse_color: None,
            metallic: None,
            roughness: None,
            opacity: None,
            emissive_color: None,
            diffuse_texture: None,
            wrap_s: None,
            wrap_t: None,
        }
    }
}

/// Copies a text that may be absent.
fn copy_text(s: &Option<String>) -> (r: Option<String>)
    ensures
        chars(r) == chars(*s),
{
    match s {
        Some(s) => Some(s.clone()),
        None => None,
    }
}

impl Clone for MaterialData {
    fn clone(&self) -> (r: Self)
        ensures
            r@ == self@,
    {
        MaterialData {
            diffuse_color: self.diffuse_color,
            metallic: self.metallic,
            roughness: self.roughness,
            opacity: self.opacity,
            emissive_color: self.emissive_color,
            diffuse_texture: copy_text(&self.diffuse_texture),
            wrap_s: copy_text(&self.wrap_s),
            wrap_t: copy_text(&self.wrap_t),
        }
    }
}

/// A texture that an input takes its value from.
#[derive(Debug, PartialEq, Eq)]
pub struct TextureConnection {
    pub file: String,
    pub wrap_s: Option<String>,
    pub wrap_t: Option<String>,
}

/// The model of a [`TextureConnection`].
pub struct TextureView {
    pub file: Seq<char>,
    pub wrap_s: Option<Seq<char>>,
    pub wrap_t: Option<Seq<char>>,
}

impl View for TextureConnection {
    type V = TextureView;

    open spec fn view(&self) -> TextureView {
        TextureView { file: self.file@, wrap_s: chars(self.wrap_s), wrap_t: chars(self.wrap_t) }
    }
}

/// Whether an identifier is that of a preview surface.
pub open spec fn is_preview_surface(id: Seq<char>) -> bool {
    id == "UsdPreviewSurface"@ || id == "ND_UsdPreviewSurface_surfaceshader"@
}

/// Whether an identifier is that of an image.
pub open spec fn is_image(id: Seq<char>) -> bool {
    ||| id == "UsdUVTexture"@
    ||| id == "ND_image_color3"@
    ||| id == "ND_image_color4"@
    ||| id == "ND_image_float"@
    ||| id == "ND_image_vector3"@
}

/// One, in single precision.
pub open spec fn one() -> Single {
    Single { bits: 0x3f80_0000 }
}

impl StageView {
    /// Whether a prim is a shader that makes a preview surface.
    pub open spec fn is_preview_shader(self, p: Seq<char>) -> bool {
        &&& self.text(p, FieldKey::TypeName) == Some("Shader"@)
        &&& self.attribute_text(p, "info:id"@) matches Some(id) && is_preview_surface(id)
    }

    /// The first of given children of a material that makes a preview surface. A name that makes
    /// no path ends the search.
    pub open spec fn preview_shader_among(
        self,
        material: Seq<char>,
        names: Seq<Seq<char>>,
    ) -> Option<Seq<char>>
        decreases names.len(),
    {
        if names.len() == 0 {
            None
        } else {
            match crate::path::child(material, names[0]) {
                None => None,
                Some(p) => if self.is_preview_shader(p) {
                    Some(p)
                } else {
                    self.preview_shader_among(material, names.drop_first())
                },
            }
        }
    }

    /// The shader of a material that makes its preview surface.
    pub open spec fn preview_shader(self, material: Seq<char>) -> Option<Seq<char>> {
        match self.prim_children(material) {
            Ok(names) => self.preview_shader_among(material, names),
            Err(_) => None,
        }
    }

    /// The texture that an input takes its value from: the input is connected to an image shader
    /// that has a file.
    pub open spec fn texture(self, input: Seq<char>) -> Option<TextureView> {
        match self.first_path(input, FieldKey::ConnectionPaths) {
            None => None,
            Some(source) => {
                let shader = crate::path::prim_part(source);
                match (
                    self.attribute_text(shader, "info:id"@),
                    self.attribute_text(shader, "inputs:file"@),
                ) {
                    (Some(id), Some(file)) => if self.text(shader, FieldKey::TypeName) == Some(
                        "Shader"@,
                    ) && is_image(id) {
                        Some(
                            TextureView {
                                file,
                                wrap_s: self.attribute_text(shader, "inputs:wrapS"@),
                                wrap_t: self.attribute_text(shader, "inputs:wrapT"@),
                            },
                        )
                    } else {
                        None
                    },
                    _ => None,
                }
            },
        }
    }

    /// What a preview surface shader says of a surface, given the texture of its color. A texture
    /// without a color comes with white.
    pub open spec fn surface(self, shader: Seq<char>, texture: Option<TextureView>) -> MaterialView {
        let diffuse = self.vec3_input(shader, "inputs:diffuseColor"@);
        MaterialView {
            diffuse_color: if texture is Some && diffuse is None {
                Some(seq![one(), one(), one()])
            } else {
                diffuse
            },
            metallic: self.float_input(shader, "inputs:metallic"@),
            roughness: self.float_input(shader, "inputs:roughness"@),
            opacity: self.float_input(shader, "inputs:opacity"@),
            emissive_color: self.vec3_input(shader, "inputs:emissiveColor"@),
            diffuse_texture: match texture {
                Some(t) => Some(t.file),
                None => None,
            },
            wrap_s: match texture {
                Some(t) => t.wrap_s,
                None => None,
            },
            wrap_t: match texture {
                Some(t) => t.wrap_t,
                None => None,
            },
        }
    }

    /// The material of a mesh. There is none where nothing is bound, where what is bound is no
    /// material, where it has no preview surface, or where nothing is known of the surface.
    pub open spec fn material(self, mesh: Seq<char>) -> Option<MaterialView> {
        match self.bound_material(mesh) {
            None => None,
            Some(m) => if self.text(m, FieldKey::TypeName) != Some("Material"@) {
                None
            } else {
                match self.preview_shader(m) {
                    None => None,
                    Some(shader) => match crate::path::property(shader, "inputs:diffuseColor"@) {
                        None => None,
                        Some(input) => {
                            let surface = self.surface(shader, self.texture(input));
                            if surface == MaterialView::blank() {
                                None
                            } else {
                                Some(surface)
                            }
                        },
                    },
                }
            },
        }
    }
}

/// Finds the shader of a material that makes its preview surface.
pub fn find_preview_surface_shader(stage: &Stage, material_path: &Path) -> (r: Option<Path>)
    ensures
        match r {
            Some(p) => stage@.preview_shader(material_path@) == Some(p@),
            None => stage@.preview_shader(material_path@) is None,
        },
{
    let children = match stage.prim_children(material_path) {
        Ok(v) => v,
        Err(_) => {
            return None;
        },
    };
    let ghost names = crate::value::texts(children@);
    let mut i: usize = 0;
    proof {
        assert(names.skip(0) =~= names);
    }
    while i < children.len()
        invariant
            i <= children.len(),
            names == crate::value::texts(children@),
            stage@.preview_shader(material_path@) == stage@.preview_shader_among(
                material_path@,
                names.skip(i as int),
            ),
        decreases children.len() - i,
    {
        proof {
            assert(names.skip(i as int)[0] == children@[i as int]@);
            assert(names.skip(i as int).drop_first() =~= names.skip(i + 1));
        }
        let child = match child_path(material_path, children[i].as_str()) {
            Some(p) => p,
            None => {
                return None;
            },
        };
        i += 1;
        if !field_is(stage, &child, FieldKey::TypeName, "Shader") {
            continue ;
        }
        let info_id = match read_string_attr(stage, &child, "info:id") {
            Some(t) => t,
            None => {
                continue ;
            },
        };
        if text::same(info_id.as_str(), "UsdPreviewSurface") || text::same(
            info_id.as_str(),
            "ND_UsdPreviewSurface_surfaceshader",
        ) {
            return Some(child);
        }
    }
    None
}

/// Finds the texture that an input takes its value from.
pub fn follow_texture_connection(stage: &Stage, input_path: &Path) -> (r: Option<TextureConnection>)
    ensures
        match r {
            Some(t) => stage@.texture(input_path@) == Some(t@),
            None => stage@.texture(input_path@) is None,
        },
{
    let target = match first_attribute_connection(stage, input_path) {
        Some(p) => p,
        None => {
            return None;
        },
    };
    let shader_path = target.prim_path();
    if !field_is(stage, &shader_path, FieldKey::TypeName, "Shader") {
        return None;
    }
    let info_id = match read_string_attr(stage, &shader_path, "info:id") {
        Some(t) => t,
        None => {
            return None;
        },
    };
    let id = info_id.as_str();
    if !(text::same(id, "UsdUVTexture") || text::same(id, "ND_image_color3") || text::same(
        id,
        "ND_image_color4",
    ) || text::same(id, "ND_image_float") || text::same(id, "ND_image_vector3")) {
        return None;
    }
    let file = match read_string_attr(stage, &shader_path, "inputs:file") {
        Some(t) => t,
        None => {
            return None;
        },
    };
    let wrap_s = read_string_attr(stage, &shader_path, "inputs:wrapS");
    let wrap_t = read_string_attr(stage, &shader_path, "inputs:wrapT");
    Some(TextureConnection { file, wrap_s, wrap_t })
}

impl MaterialData {
    /// Whether nothing is known of the surface.
    pub fn is_blank(&self) -> (r: bool)
        ensures
            r == (self@ == MaterialView::blank()),
    {
        self.diffuse_color.is_none() && self.metallic.is_none() && self.roughness.is_none()
            && self.opacity.is_none() && self.emissive_color.is_none()
            && self.diffuse_texture.is_none() && self.wrap_s.is_none() && self.wrap_t.is_none()
    }
}

impl Stage {
    /// Reads what a preview surface shader says of a surface.
    fn surface_of(&self, shader: &Path, texture: Option<TextureConnection>) -> (r: MaterialData)
        ensures
            r@ == self@.surface(
                shader@,
                match texture {
                    Some(t) => Some(t@),
                    None => None,
                },
            ),
    {
        let mut data = MaterialData {
            diffuse_color: read_vec3_input(self, shader, "inputs:diffuseColor"),
            metallic: read_float_input(self, shader, "inputs:metallic"),
            roughness: read_float_input(self, shader, "inputs:roughness"),
            opacity: read_float_input(self, shader, "inputs:opacity"),
            emissive_color: read_vec3_input(self, shader, "inputs:emissiveColor"),
            diffuse_texture: None,
            wrap_s: None,
            wrap_t: None,
        };
        match texture {
            Some(t) => {
                data.diffuse_texture = Some(t.file);
                data.wrap_s = t.wrap_s;
                data.wrap_t = t.wrap_t;
            },
            None => {},
        }
        if data.diffuse_texture.is_some() && data.diffuse_color.is_none() {
            let white = [
                Single { bits: 0x3f80_0000 },
                Single { bits: 0x3f80_0000 },
                Single { bits: 0x3f80_0000 },
            ];
            assert(white@ =~= seq![one(), one(), one()]);
            data.diffuse_color = Some(white);
        }
        data
    }

    /// Reads the material of a mesh.
    pub fn material_of(&self, mesh_path: &Path) -> (r: Option<MaterialData>)
        ensures
            match r {
                Some(m) => self@.material(mesh_path@) == Some(m@),
                None => self@.material(mesh_path@) is None,
            },
    {
        let material_path = match self.bound_material(mesh_path) {
            Some(p) => p,
            None => {
                return None;
            },
        };
        if !field_is(self, &material_path, FieldKey::TypeName, "Material") {
            return None;
        }
        let shader = match find_preview_surface_shader(self, &material_path) {
            Some(p) => p,
            None => {
                return None;
            },
        };
        let diffuse_input = match shader.append_property("inputs:diffuseColor") {
            Ok(p) => p,
            Err(_) => {
                return None;
            },
        };
        let texture = follow_texture_connection(self, &diffuse_input);
        let data = self.surface_of(&shader, texture);
        if data.is_blank() {
            None
        } else {
            Some(data)
        }
    }
}

} // verus!
