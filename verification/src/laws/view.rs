//! What the models of values hold: every part of a value, under its own name.
use crate::assets::SkippedPayload;
use crate::error::{Error, ErrorView};
use crate::material::{MaterialData, MaterialView, TextureConnection};
use crate::mesh::{GeomSubsetData, MeshData};
use crate::path::Path;
use crate::skel::{SkelAnimationData, SkeletonData};
use crate::times::Keyframe;
use crate::value::{Payload, Reference};
use vstd::prelude::*;

verus! {

/// The model of a mesh has each of its arrays under its own name.
pub proof fn law_mesh_view(m: MeshData)
    ensures
        m@.points == m.points@,
        m@.face_vertex_indices == m.face_vertex_indices@,
        m@.face_vertex_counts == m.face_vertex_counts@,
        m.normals matches Some(v) ==> m@.normals == Some(v@),
        m.normals is None ==> m@.normals is None,
        m.uvs matches Some(v) ==> m@.uvs == Some(v@),
        m.uvs is None ==> m@.uvs is None,
        m.joint_indices matches Some(v) ==> m@.joint_indices == Some(v@),
        m.joint_indices is None ==> m@.joint_indices is None,
        m.joint_weights matches Some(v) ==> m@.joint_weights == Some(v@),
        m.joint_weights is None ==> m@.joint_weights is None,
        m@.joints_per_vertex == m.joints_per_vertex,
        m.display_color matches Some(v) ==> m@.display_color == Some(v@),
        m.display_color is None ==> m@.display_color is None,
{
}

/// The model of a subset has its name, its indices and its material.
pub proof fn law_subset_view(g: GeomSubsetData, v: Seq<GeomSubsetData>, i: int)
    ensures
        g@.name == g.name@,
        g@.indices == g.indices@,
        g.material_binding matches Some(p) ==> g@.material_binding == Some(p@),
        g.material_binding is None ==> g@.material_binding is None,
        crate::mesh::subset_views(v).len() == v.len(),
        0 <= i < v.len() ==> crate::mesh::subset_views(v)[i] == v[i]@,
{
}

/// The model of a material has each of its numbers, colors and texts under its own name; a blank
/// one has none of them.
pub proof fn law_material_view(m: MaterialData, b: MaterialView)
    ensures
        m.diffuse_color matches Some(c) ==> m@.diffuse_color == Some(c@),
        m.diffuse_color is None ==> m@.diffuse_color is None,
        m@.metallic == m.metallic,
        m@.roughness == m.roughness,
        m@.opacity == m.opacity,
        m.emissive_color matches Some(c) ==> m@.emissive_color == Some(c@),
        m.emissive_color is None ==> m@.emissive_color is None,
        m.diffuse_texture matches Some(x) ==> m@.diffuse_texture == Some(x@),
        m.diffuse_texture is None ==> m@.diffuse_texture is None,
        m.wrap_s matches Some(x) ==> m@.wrap_s == Some(x@),
        m.wrap_s is None ==> m@.wrap_s is None,
        m.wrap_t matches Some(x) ==> m@.wrap_t == Some(x@),
        m.wrap_t is None ==> m@.wrap_t is None,
        b == MaterialView::blank() <==> b.diffuse_color is None && b.metallic is None
            && b.roughness is None && b.opacity is None && b.emissive_color is None
            && b.diffuse_texture is None && b.wrap_s is None && b.wrap_t is None,
{
}

/// The model of a texture has its file and how it wraps.
pub proof fn law_texture_view(t: TextureConnection)
    ensures
        t@.file == t.file@,
        t.wrap_s matches Some(x) ==> t@.wrap_s == Some(x@),
        t.wrap_s is None ==> t@.wrap_s is None,
        t.wrap_t matches Some(x) ==> t@.wrap_t == Some(x@),
        t.wrap_t is None ==> t@.wrap_t is None,
{
}

/// The model of a skeleton has its joints, its transforms and its parents, one by one.
pub proof fn law_skeleton_view(k: SkeletonData, i: int)
    ensures
        k@.joints.len() == k.joints@.len(),
        0 <= i < k.joints@.len() ==> k@.joints[i] == k.joints@[i]@,
        k@.bind_transforms.len() == k.bind_transforms@.len(),
        0 <= i < k.bind_transforms@.len() ==> k@.bind_transforms[i] == k.bind_transforms@[i]@,
        k@.rest_transforms.len() == k.rest_transforms@.len(),
        0 <= i < k.rest_transforms@.len() ==> k@.rest_transforms[i] == k.rest_transforms@[i]@,
        k@.parents.len() == k.parents@.len(),
        0 <= i < k.parents@.len() ==> (k.parents@[i] matches Some(n) ==> k@.parents[i] == Some(
            n as int,
        )),
        0 <= i < k.parents@.len() ==> (k.parents@[i] is None ==> k@.parents[i] is None),
{
}

/// The model of an animation has its times, its three rows of arrays and its joints, one by one.
pub proof fn law_animation_view(a: SkelAnimationData, i: int)
    ensures
        a@.times == a.times@,
        a@.translations.len() == a.translations@.len(),
        0 <= i < a.translations@.len() ==> a@.translations[i] == a.translations@[i]@,
        a@.rotations.len() == a.rotations@.len(),
        0 <= i < a.rotations@.len() ==> a@.rotations[i] == a.rotations@[i]@,
        a@.scales.len() == a.scales@.len(),
        0 <= i < a.scales@.len() ==> a@.scales[i] == a.scales@[i]@,
        a@.joints.len() == a.joints@.len(),
        0 <= i < a.joints@.len() ==> a@.joints[i] == a.joints@[i]@,
{
}

/// The models of keyframes have their times and their numbers, one by one.
pub proof fn law_keyframe_view(v: Seq<Keyframe>, i: int)
    requires
        0 <= i < v.len(),
    ensures
        crate::times::keyframe_views(v).len() == v.len(),
        crate::times::keyframe_views(v)[i].time == v[i].time,
        crate::times::keyframe_views(v)[i].values == v[i].values@,
{
}

/// The models of skipped payloads have their assets and their prims, one by one.
pub proof fn law_skipped_view(v: Seq<SkippedPayload>, i: int)
    requires
        0 <= i < v.len(),
    ensures
        crate::assets::skipped_views(v).len() == v.len(),
        crate::assets::skipped_views(v)[i].asset_path == v[i].asset_path@,
        crate::assets::skipped_views(v)[i].prim_path == v[i].prim_path@,
{
}

/// The models of references and payloads have their assets, their prims and their offsets, one by
/// one.
pub proof fn law_arc_views(r: Seq<Reference>, p: Seq<Payload>, i: int)
    ensures
        crate::value::reference_views(r).len() == r.len(),
        0 <= i < r.len() ==> ({
            let x = crate::value::reference_views(r)[i];
            &&& x.asset_path == r[i].asset_path@
            &&& x.layer_offset == r[i].layer_offset
            &&& r[i].prim_path matches Some(q) ==> x.prim_path == Some(q@)
            &&& r[i].prim_path is None ==> x.prim_path is None
        }),
        crate::value::payload_views(p).len() == p.len(),
        0 <= i < p.len() ==> ({
            let x = crate::value::payload_views(p)[i];
            &&& x.asset_path == p[i].asset_path@
            &&& x.layer_offset == p[i].layer_offset
            &&& p[i].prim_path matches Some(q) ==> x.prim_path == Some(q@)
            &&& p[i].prim_path is None ==> x.prim_path is None
        }),
{
}

/// The model of an error says which it is, and its text.
pub proof fn law_error_view(e: Error)
    ensures
        match e {
            Error::InvalidPath { text } => e@ == (ErrorView::InvalidPath { text: text@ }),
            Error::Unavailable { message } => e@ == (ErrorView::Unavailable { message: message@ }),
        },
{
}

/// The texts of strings and of paths are theirs, one by one; links are handed on with their texts,
/// or with their error.
pub proof fn law_text_views(v: Seq<String>, p: Vec<Path>, e: ErrorView, i: int)
    ensures
        crate::value::texts(v).len() == v.len(),
        0 <= i < v.len() ==> crate::value::texts(v)[i] == v[i]@,
        crate::stage::path_texts(p@).len() == p@.len(),
        0 <= i < p@.len() ==> crate::stage::path_texts(p@)[i] == p@[i]@,
        crate::stage::link_texts(Ok(p)) matches Ok(t) && t.len() == p@.len() && (0 <= i < p@.len()
            ==> t[i] == p@[i]@),
        crate::stage::link_texts(Err(e)) == Err::<Seq<Seq<char>>, ErrorView>(e),
{
}

} // verus!
