//! What holds of the whole: laws that relate the answers of a stage to one another.
use crate::assets::SkippedView;
use crate::material::MaterialView;
use crate::mesh::{GeomSubsetView, MeshView};
use crate::num::{Double, Half, Single};
use crate::skel::{SkelAnimationView, SkeletonView};
use crate::stage::{InitialLoadSet, StageView};
use crate::table::FieldKey;
use crate::times::KeyframeView;
use crate::value::Value;
use vstd::arithmetic::power2::*;
use vstd::prelude::*;
use vstd::relations::*;
use vstd::seq_lib::*;

pub mod assets;
pub mod binding;
pub mod given;
pub mod material;
pub mod mesh;
pub mod num;
pub mod path;
pub mod read;
pub mod scene;
pub mod skel;
pub mod value;
pub mod view;

verus! {

/// Along a row of prims, the first one that has a target gives it.
proof fn lemma_target_along(s: StageView, prims: Seq<Seq<char>>, rel: Seq<char>)
    ensures
        match s.target_along(prims, rel) {
            Some(t) => exists|k: int|
                0 <= k < prims.len() && s.first_target(#[trigger] prims[k], rel) == Some(t) && (
                forall|j: int| 0 <= j < k ==> s.first_target(#[trigger] prims[j], rel) is None),
            None => forall|j: int|
                0 <= j < prims.len() ==> s.first_target(#[trigger] prims[j], rel) is None,
        },
    decreases prims.len(),
{
    if prims.len() > 0 && s.first_target(prims[0], rel) is None {
        let rest = prims.drop_first();
        lemma_target_along(s, rest, rel);
        match s.target_along(prims, rel) {
            Some(t) => {
                let k = choose|k: int|
                    0 <= k < rest.len() && s.first_target(#[trigger] rest[k], rel) == Some(t) && (
                    forall|j: int| 0 <= j < k ==> s.first_target(#[trigger] rest[j], rel) is None);
                assert(prims[k + 1] == rest[k]);
                assert forall|j: int| 0 <= j < k + 1 implies s.first_target(
                    #[trigger] prims[j],
                    rel,
                ) is None by {
                    if j > 0 {
                        assert(prims[j] == rest[j - 1]);
                    }
                }
            },
            None => {
                assert forall|j: int| 0 <= j < prims.len() implies s.first_target(
                    #[trigger] prims[j],
                    rel,
                ) is None by {
                    if j > 0 {
                        assert(prims[j] == rest[j - 1]);
                    }
                }
            },
        }
    }
}

/// What is inherited is the target of the nearest prim, the path itself or one above it, that has
/// one; nothing is inherited only where none of them has any.
pub proof fn law_nearest_target_is_inherited(s: StageView, path: Seq<char>, rel: Seq<char>)
    ensures
        match s.inherited_target(path, rel) {
            Some(t) => exists|k: int|
                0 <= k < crate::binding::ancestry(path).len() && s.first_target(
                    #[trigger] crate::binding::ancestry(path)[k],
                    rel,
                ) == Some(t) && (forall|j: int|
                    0 <= j < k ==> s.first_target(
                        #[trigger] crate::binding::ancestry(path)[j],
                        rel,
                    ) is None),
            None => forall|j: int|
                0 <= j < crate::binding::ancestry(path).len() ==> s.first_target(
                    #[trigger] crate::binding::ancestry(path)[j],
                    rel,
                ) is None,
        },
{
    lemma_target_along(s, crate::binding::ancestry(path), rel);
}

/// The preview binding, wherever it is inherited from, goes before the full binding, and that one
/// before the binding for every purpose.
pub proof fn law_binding_order(s: StageView, path: Seq<char>)
    ensures
        s.inherited_target(path, "material:binding:preview"@) is Some ==> s.bound_material(path)
            == s.inherited_target(path, "material:binding:preview"@),
        s.inherited_target(path, "material:binding:preview"@) is None && s.inherited_target(
            path,
            "material:binding:full"@,
        ) is Some ==> s.bound_material(path) == s.inherited_target(path, "material:binding:full"@),
        s.inherited_target(path, "material:binding:preview"@) is None && s.inherited_target(
            path,
            "material:binding:full"@,
        ) is None ==> s.bound_material(path) == s.inherited_target(path, "material:binding"@),
{
}

/// The path above a child is the path that it was made from.
pub proof fn law_parent_of_child(path: Seq<char>, name: Seq<char>)
    requires
        path.len() > 0,
        !name.contains('/'),
    ensures
        crate::path::parent(crate::text::slash_joined(path, name)) == Some(path),
{
    let t = crate::text::slash_joined(path, name);
    assert(t[path.len() as int] == '/');
    assert forall|j: int| path.len() < j < t.len() implies t[j] != '/' by {
        assert(t[j] == name[j - path.len() - 1]);
        assert(name.contains(name[j - path.len() - 1]));
    }
    crate::text::lemma_last_index_is(t, '/', path.len() as int);
    assert(t.take(path.len() as int) =~= path);
}

/// A child without a binding of its own has the material of the prim above it.
pub proof fn law_child_inherits_material(
    s: StageView,
    path: Seq<char>,
    name: Seq<char>,
    child: Seq<char>,
)
    requires
        crate::path::is_path_text(path),
        !name.contains('/'),
        crate::path::child(path, name) == Some(child),
        s.first_target(child, "material:binding:preview"@) is None,
        s.first_target(child, "material:binding:full"@) is None,
        s.first_target(child, "material:binding"@) is None,
    ensures
        s.bound_material(child) == s.bound_material(path),
{
    assert(path.len() > 0);
    law_parent_of_child(path, name);
    crate::binding::lemma_inherited_step(s, child, "material:binding:preview"@);
    crate::binding::lemma_inherited_step(s, child, "material:binding:full"@);
    crate::binding::lemma_inherited_step(s, child, "material:binding"@);
}

/// A child of a material that is no shader, or a shader without an identifier, is passed over.
pub proof fn law_shader_without_id_is_skipped(
    s: StageView,
    material: Seq<char>,
    names: Seq<Seq<char>>,
)
    requires
        names.len() > 0,
        crate::path::child(material, names[0]) matches Some(p) && (s.text(p, FieldKey::TypeName)
            != Some("Shader"@) || s.attribute_text(p, "info:id"@) is None),
    ensures
        s.preview_shader_among(material, names) == s.preview_shader_among(
            material,
            names.drop_first(),
        ),
{
}

/// What is found for a preview surface is a child of the material that makes one, and the children
/// before it do not.
proof fn lemma_shader_found(s: StageView, material: Seq<char>, names: Seq<Seq<char>>, p: Seq<char>)
    requires
        s.preview_shader_among(material, names) == Some(p),
    ensures
        s.is_preview_shader(p),
        exists|k: int|
            0 <= k < names.len() && crate::path::child(material, #[trigger] names[k]) == Some(p)
                && forall|j: int|
                0 <= j < k ==> (crate::path::child(material, #[trigger] names[j]) matches Some(q)
                    && !s.is_preview_shader(q)),
    decreases names.len(),
{
    let q = crate::path::child(material, names[0])->0;
    if s.is_preview_shader(q) {
        assert(crate::path::child(material, names[0]) == Some(p));
    } else {
        let rest = names.drop_first();
        lemma_shader_found(s, material, rest, p);
        let k = choose|k: int|
            0 <= k < rest.len() && crate::path::child(material, #[trigger] rest[k]) == Some(p)
                && forall|j: int|
                0 <= j < k ==> (crate::path::child(material, #[trigger] rest[j]) matches Some(q)
                    && !s.is_preview_shader(q));
        assert(names[k + 1] == rest[k]);
        assert forall|j: int| 0 <= j < k + 1 implies (crate::path::child(
            material,
            #[trigger] names[j],
        ) matches Some(q) && !s.is_preview_shader(q)) by {
            if j > 0 {
                assert(names[j] == rest[j - 1]);
            }
        }
    }
}

/// Where nothing is found, no child makes a preview surface, up to the first name that makes no
/// path.
proof fn lemma_no_shader_found(s: StageView, material: Seq<char>, names: Seq<Seq<char>>, k: int)
    requires
        s.preview_shader_among(material, names) is None,
        0 <= k < names.len(),
        forall|j: int| 0 <= j < k ==> crate::path::child(material, #[trigger] names[j]) is Some,
    ensures
        crate::path::child(material, names[k]) matches Some(q) ==> !s.is_preview_shader(q),
    decreases names.len(),
{
    if k > 0 {
        let rest = names.drop_first();
        assert(crate::path::child(material, names[0]) is Some);
        assert(rest[k - 1] == names[k]);
        assert forall|j: int| 0 <= j < k - 1 implies crate::path::child(
            material,
            #[trigger] rest[j],
        ) is Some by {
            assert(rest[j] == names[j + 1]);
        }
        lemma_no_shader_found(s, material, rest, k - 1);
    }
}

/// What is found for a preview surface is a child of the material that makes one, and none of the
/// children before it does.
pub proof fn law_first_preview_shader_is_found(
    s: StageView,
    material: Seq<char>,
    names: Seq<Seq<char>>,
)
    ensures
        s.preview_shader_among(material, names) matches Some(p) ==> s.is_preview_shader(p)
            && exists|k: int|
            0 <= k < names.len() && crate::path::child(material, #[trigger] names[k]) == Some(p)
                && forall|j: int|
                0 <= j < k ==> (crate::path::child(material, #[trigger] names[j]) matches Some(q)
                    && !s.is_preview_shader(q)),
        s.preview_shader_among(material, names) is None ==> forall|k: int|
            0 <= k < names.len() && (forall|j: int|
                0 <= j < k ==> crate::path::child(material, #[trigger] names[j]) is Some) ==> (
            crate::path::child(material, #[trigger] names[k]) matches Some(q)
                ==> !s.is_preview_shader(q)),
{
    match s.preview_shader_among(material, names) {
        Some(p) => {
            lemma_shader_found(s, material, names, p);
        },
        None => {
            assert forall|k: int|
                0 <= k < names.len() && (forall|j: int|
                    0 <= j < k ==> crate::path::child(
                        material,
                        #[trigger] names[j],
                    ) is Some) implies (crate::path::child(
                material,
                #[trigger] names[k],
            ) matches Some(q) ==> !s.is_preview_shader(q)) by {
                lemma_no_shader_found(s, material, names, k);
            }
        },
    }
}

/// A material that is found says something of the surface; where it has a texture it has a color
/// too; and how a texture wraps is known only where there is one.
pub proof fn law_material_says_something(s: StageView, mesh: Seq<char>, m: MaterialView)
    requires
        s.material(mesh) == Some(m),
    ensures
        m != MaterialView::blank(),
        m.diffuse_texture is Some ==> m.diffuse_color is Some,
        m.wrap_s is Some || m.wrap_t is Some ==> m.diffuse_texture is Some,
{
}

/// Flattened triples come in threes, pairs in twos and quaternions in fours, and one triple has
/// three numbers.
pub proof fn law_flat_lengths(value: Value)
    ensures
        crate::value::flat_vec3(value) matches Some(v) ==> v.len() % 3 == 0,
        crate::value::flat_vec2(value) matches Some(v) ==> v.len() % 2 == 0,
        crate::value::flat_quat(value) matches Some(v) ==> v.len() % 4 == 0,
        crate::value::one_vec3(value) matches Some(v) ==> v.len() == 3,
{
}

/// The points, normals and colors of a mesh come in threes and its texture coordinates in twos.
pub proof fn law_mesh_lengths(s: StageView, path: Seq<char>, m: MeshView)
    requires
        s.mesh(path) == Ok::<Option<MeshView>, crate::error::ErrorView>(Some(m)),
    ensures
        m.points.len() % 3 == 0,
        m.normals matches Some(v) ==> v.len() % 3 == 0,
        m.display_color matches Some(v) ==> v.len() % 3 == 0,
        m.uvs matches Some(v) ==> v.len() % 2 == 0,
{
    if let Ok(Some(v)) = s.attribute(path, "points"@) {
        law_flat_lengths(v);
    }
    if let Ok(Some(v)) = s.attribute(path, "normals"@) {
        law_flat_lengths(v);
    }
    if let Ok(Some(v)) = s.attribute(path, "primvars:displayColor"@) {
        law_flat_lengths(v);
    }
    if let Ok(Some(v)) = s.attribute(path, "primvars:st"@) {
        law_flat_lengths(v);
    }
}

/// Where nothing declares how many joints move a vertex and a number other than zero is worked
/// out, each point has that many of the joint indices, and none is left.
pub proof fn law_joint_share(points: Seq<Single>, joint_indices: Seq<u32>)
    ensures
        ({
            let n = crate::mesh::joints_per_vertex(None, None, points, Some(joint_indices));
            n != 0 ==> n * (points.len() as int / 3) == joint_indices.len()
        }),
{
    let count = points.len() as int / 3;
    if count > 0 {
        vstd::arithmetic::div_mod::lemma_fundamental_div_mod(joint_indices.len() as int, count);
        let q = joint_indices.len() as int / count;
        assert(count * q == q * count) by (nonlinear_arith);
    }
}

/// The entry of a row and a column stands, after the turn, at four times the column plus the row.
pub proof fn law_matrix_is_transposed(m: Seq<Double>, row: int, col: int)
    requires
        m.len() == 16,
        0 <= row < 4,
        0 <= col < 4,
    ensures
        crate::value::column_major(m).len() == 16,
        crate::value::column_major(m)[col * 4 + row] == m[row * 4 + col].narrowed(),
{
    assert((col * 4 + row) % 4 == row);
    assert((col * 4 + row) / 4 == col);
}

/// Leaving negative numbers out leaves exactly the others.
pub proof fn law_not_negative(v: Seq<i32>, n: i32)
    requires
        n >= 0,
    ensures
        crate::value::not_negative(v).contains(n as u32) <==> v.contains(n),
    decreases v.len(),
{
    if v.len() > 0 {
        let rest = v.drop_last();
        let kept = crate::value::not_negative(rest);
        let all = crate::value::not_negative(v);
        law_not_negative(rest, n);
        assert(v =~= rest.push(v.last()));
        if v.contains(n) {
            let i = choose|i: int| 0 <= i < v.len() && v[i] == n;
            if i == v.len() - 1 {
                assert(all[kept.len() as int] == n as u32);
            } else {
                assert(rest[i] == n);
                let j = choose|j: int| 0 <= j < kept.len() && kept[j] == n as u32;
                assert(all[j] == n as u32);
            }
        }
        if all.contains(n as u32) {
            let j = choose|j: int| 0 <= j < all.len() && all[j] == n as u32;
            if j < kept.len() {
                assert(kept[j] == n as u32);
                let i = choose|i: int| 0 <= i < rest.len() && rest[i] == n;
                assert(v[i] == n);
            } else {
                assert(v[v.len() - 1] == n);
            }
        }
    }
}

/// Every subset of a mesh has an index, is named like a child of the mesh, and is what that child
/// makes; and every child that makes a subset has its subset listed.
pub proof fn law_geom_subsets(s: StageView, mesh: Seq<char>, names: Seq<Seq<char>>)
    ensures
        forall|i: int|
            0 <= i < s.geom_subsets_among(mesh, names).len() ==> ({
                let g = #[trigger] s.geom_subsets_among(mesh, names)[i];
                &&& g.indices.len() > 0
                &&& names.contains(g.name)
                &&& s.geom_subset(mesh, g.name) == Some(g)
            }),
        forall|i: int|
            0 <= i < names.len() ==> (s.geom_subset(mesh, #[trigger] names[i]) matches Some(g)
                ==> s.geom_subsets_among(mesh, names).contains(g)),
    decreases names.len(),
{
    if names.len() > 0 {
        let rest = names.drop_last();
        let before = s.geom_subsets_among(mesh, rest);
        let all = s.geom_subsets_among(mesh, names);
        law_geom_subsets(s, mesh, rest);
        assert forall|i: int| 0 <= i < all.len() implies ({
            let g = #[trigger] all[i];
            &&& g.indices.len() > 0
            &&& names.contains(g.name)
            &&& s.geom_subset(mesh, g.name) == Some(g)
        }) by {
            if i < before.len() {
                assert(all[i] == before[i]);
                let k = choose|k: int| 0 <= k < rest.len() && rest[k] == before[i].name;
                assert(names[k] == before[i].name);
            } else {
                assert(names[names.len() - 1] == all[i].name);
            }
        }
        assert forall|i: int| 0 <= i < names.len() implies (s.geom_subset(
            mesh,
            #[trigger] names[i],
        ) matches Some(g) ==> all.contains(g)) by {
            if s.geom_subset(mesh, names[i]) is Some {
                let g = s.geom_subset(mesh, names[i])->0;
                if i < rest.len() {
                    assert(rest[i] == names[i]);
                    let k = choose|k: int| 0 <= k < before.len() && before[k] == g;
                    assert(all[k] == g);
                } else {
                    assert(all[before.len() as int] == g);
                }
            }
        }
    }
}

/// A skeleton has as many parents as joints. A parent is one of the joints, and the path of a
/// joint is that of its parent, a slash and one more name: no joint is above itself. Every
/// transform has sixteen entries.
pub proof fn law_skeleton(s: StageView, mesh: Seq<char>, p: Seq<char>, k: SkeletonView)
    requires
        s.skeleton(mesh) == Some((p, k)),
    ensures
        k.parents.len() == k.joints.len(),
        forall|j: int|
            0 <= j < k.joints.len() ==> (#[trigger] k.parents[j] matches Some(i) ==> {
                &&& 0 <= i < k.joints.len()
                &&& k.joints[i].len() < k.joints[j].len()
                &&& k.joints[j].take(k.joints[i].len() as int) == k.joints[i]
                &&& k.joints[j][k.joints[i].len() as int] == '/'
                &&& !k.joints[j].skip(k.joints[i].len() as int + 1).contains('/')
            }),
        forall|j: int| 0 <= j < k.bind_transforms.len() ==> #[trigger] k.bind_transforms[j].len()
            == 16,
        forall|j: int| 0 <= j < k.rest_transforms.len() ==> #[trigger] k.rest_transforms[j].len()
            == 16,
{
    assert forall|j: int| 0 <= j < k.joints.len() implies (#[trigger] k.parents[j] matches Some(i)
        ==> {
        &&& 0 <= i < k.joints.len()
        &&& k.joints[i].len() < k.joints[j].len()
        &&& k.joints[j].take(k.joints[i].len() as int) == k.joints[i]
        &&& k.joints[j][k.joints[i].len() as int] == '/'
        &&& !k.joints[j].skip(k.joints[i].len() as int + 1).contains('/')
    }) by {
        let joint = k.joints[j];
        assert(k.parents[j] == crate::skel::joint_parent(k.joints, joint));
        crate::text::lemma_last_index(joint, '/');
        if crate::text::last_index(joint, '/') is Some {
            let slash = crate::text::last_index(joint, '/')->0;
            crate::skel::lemma_first_place(k.joints, joint.take(slash));
        }
    }
}

/// Thinning adds no time, and leaves one where there is one.
pub proof fn lemma_thinned_from(s: Seq<Double>)
    ensures
        s.len() > 0 ==> crate::times::thinned(s).len() > 0,
        forall|k: int|
            0 <= k < crate::times::thinned(s).len() ==> s.contains(
                #[trigger] crate::times::thinned(s)[k],
            ),
    decreases s.len(),
{
    if s.len() > 0 {
        let rest = s.drop_last();
        let kept = crate::times::thinned(rest);
        let all = crate::times::thinned(s);
        lemma_thinned_from(rest);
        assert forall|k: int| 0 <= k < all.len() implies s.contains(#[trigger] all[k]) by {
            if k < kept.len() {
                assert(all[k] == kept[k]);
                assert(rest.contains(kept[k]));
                let i = choose|i: int| 0 <= i < rest.len() && rest[i] == kept[k];
                assert(s[i] == all[k]);
            } else {
                assert(s[s.len() - 1] == all[k]);
            }
        }
    }
}

/// A time is among those that thinning leaves, or close to one of them.
spec fn is_covered(kept: Seq<Double>, t: Double) -> bool {
    exists|k: int| 0 <= k < kept.len() && (kept[k] == t || t.close_to(#[trigger] kept[k]))
}

/// Thinning drops no time that is not close to a kept one.
proof fn lemma_thinned_covers(s: Seq<Double>, i: int)
    requires
        0 <= i < s.len(),
    ensures
        is_covered(crate::times::thinned(s), s[i]),
    decreases s.len(),
{
    let rest = s.drop_last();
    let kept = crate::times::thinned(rest);
    let all = crate::times::thinned(s);
    if i < rest.len() {
        lemma_thinned_covers(rest, i);
        let k = choose|k: int|
            0 <= k < kept.len() && (kept[k] == rest[i] || rest[i].close_to(#[trigger] kept[k]));
        assert(all[k] == kept[k]);
    } else {
        let k = all.len() - 1;
        assert(all[k] == s[i] || s[i].close_to(all[k]));
    }
}

/// No two neighbours among the times that thinning leaves are close.
proof fn lemma_thinned_apart(s: Seq<Double>)
    ensures
        forall|k: int|
            0 < k < crate::times::thinned(s).len() ==> !(#[trigger] crate::times::thinned(
                s,
            )[k]).close_to(crate::times::thinned(s)[k - 1]),
    decreases s.len(),
{
    if s.len() > 0 {
        let kept = crate::times::thinned(s.drop_last());
        let all = crate::times::thinned(s);
        lemma_thinned_apart(s.drop_last());
        assert forall|k: int| 0 < k < all.len() implies !(#[trigger] all[k]).close_to(
            all[k - 1],
        ) by {
            assert(all[k - 1] == kept[k - 1]);
            if k < kept.len() {
                assert(all[k] == kept[k]);
            }
        }
    }
}

/// Thinning keeps the order.
proof fn lemma_thinned_sorted(s: Seq<Double>)
    requires
        sorted_by(s, crate::times::by_rank()),
    ensures
        sorted_by(crate::times::thinned(s), crate::times::by_rank()),
    decreases s.len(),
{
    if s.len() > 0 {
        let rest = s.drop_last();
        let kept = crate::times::thinned(rest);
        let all = crate::times::thinned(s);
        let leq = crate::times::by_rank();
        assert forall|x: int, y: int| 0 <= x < y < rest.len() implies #[trigger] leq(
            rest[x],
            rest[y],
        ) by {
            assert(leq(s[x], s[y]));
        }
        lemma_thinned_sorted(rest);
        lemma_thinned_from(rest);
        assert forall|x: int, y: int| 0 <= x < y < all.len() implies #[trigger] leq(
            all[x],
            all[y],
        ) by {
            assert(all[x] == kept[x]);
            if y < kept.len() {
                assert(leq(kept[x], kept[y]));
            } else {
                assert(rest.contains(kept[x]));
                let i = choose|i: int| 0 <= i < rest.len() && rest[i] == kept[x];
                assert(leq(s[i], s[s.len() - 1]));
            }
        }
    }
}

/// An animation has a time, and as many translations, rotations and scales as times. The times
/// are in order, no two neighbours are close, each is the time of a keyframe, and the time of
/// each keyframe is among them or close to one of them.
pub proof fn law_animation(s: StageView, skeleton: Seq<char>, p: Seq<char>, a: SkelAnimationView)
    requires
        s.inherited_target(skeleton, "skel:animationSource"@) == Some(p),
        s.skel_animation(skeleton) == Some(a),
    ensures
        a.times.len() > 0,
        a.translations.len() == a.times.len(),
        a.rotations.len() == a.times.len(),
        a.scales.len() == a.times.len(),
        sorted_by(a.times, crate::times::by_rank()),
        forall|k: int| 0 < k < a.times.len() ==> !(#[trigger] a.times[k]).close_to(a.times[k - 1]),
        ({
            let all = crate::times::times_of(s.vec3_samples(p, "translations"@))
                + crate::times::times_of(s.quat_samples(p, "rotations"@)) + crate::times::times_of(
                s.vec3_samples(p, "scales"@),
            );
            &&& forall|k: int| 0 <= k < a.times.len() ==> all.contains(#[trigger] a.times[k])
            &&& forall|t: Double| #[trigger]
                all.contains(t) ==> exists|k: int|
                    0 <= k < a.times.len() && (a.times[k] == t || t.close_to(
                        #[trigger] a.times[k],
                    ))
        }),
{
    broadcast use group_to_multiset_ensures;

    let leq = crate::times::by_rank();
    let all = crate::times::times_of(s.vec3_samples(p, "translations"@)) + crate::times::times_of(
        s.quat_samples(p, "rotations"@),
    ) + crate::times::times_of(s.vec3_samples(p, "scales"@));
    let sorted = all.sort_by(leq);
    crate::times::lemma_by_rank_total();
    all.lemma_sort_by_ensures(leq);
    lemma_thinned_from(sorted);
    lemma_thinned_apart(sorted);
    lemma_thinned_sorted(sorted);
    assert forall|k: int| 0 <= k < a.times.len() implies all.contains(#[trigger] a.times[k]) by {
        assert(sorted.contains(a.times[k]));
    }
    assert forall|t: Double| #[trigger] all.contains(t) implies exists|k: int|
        0 <= k < a.times.len() && (a.times[k] == t || t.close_to(#[trigger] a.times[k])) by {
        assert(all.to_multiset().count(t) > 0);
        assert(sorted.contains(t));
        let i = choose|i: int| 0 <= i < sorted.len() && sorted[i] == t;
        lemma_thinned_covers(sorted, i);
        assert(is_covered(a.times, t));
    }
}

/// At a time, the numbers are those of the first keyframe that is close to it; where none is,
/// there are no numbers.
pub proof fn law_values_at(frames: Seq<KeyframeView>, time: Double)
    ensures
        (exists|k: int|
            0 <= k < frames.len() && (#[trigger] frames[k]).time.close_to(time)
                && crate::times::values_at(frames, time) == frames[k].values && forall|j: int|
                0 <= j < k ==> !(#[trigger] frames[j]).time.close_to(time)) || ((forall|j: int|
            0 <= j < frames.len() ==> !(#[trigger] frames[j]).time.close_to(time))
            && crate::times::values_at(frames, time).len() == 0),
    decreases frames.len(),
{
    if frames.len() > 0 {
        if frames[0].time.close_to(time) {
            assert(crate::times::values_at(frames, time) == frames[0].values);
        } else {
            let rest = frames.drop_first();
            law_values_at(rest, time);
            if exists|k: int|
                0 <= k < rest.len() && (#[trigger] rest[k]).time.close_to(time)
                    && crate::times::values_at(rest, time) == rest[k].values && forall|j: int|
                    0 <= j < k ==> !(#[trigger] rest[j]).time.close_to(time) {
                let k = choose|k: int|
                    0 <= k < rest.len() && (#[trigger] rest[k]).time.close_to(time)
                        && crate::times::values_at(rest, time) == rest[k].values && forall|j: int|
                        0 <= j < k ==> !(#[trigger] rest[j]).time.close_to(time);
                assert(frames[k + 1] == rest[k]);
                assert forall|j: int| 0 <= j < k + 1 implies !(
                #[trigger] frames[j]).time.close_to(time) by {
                    if j > 0 {
                        assert(frames[j] == rest[j - 1]);
                    }
                }
            } else {
                assert forall|j: int| 0 <= j < frames.len() implies !(
                #[trigger] frames[j]).time.close_to(time) by {
                    if j > 0 {
                        assert(frames[j] == rest[j - 1]);
                    }
                }
            }
        }
    }
}

/// A report starts with what was reported before; what it adds is missing, was asked for, and is
/// listed once; and it lists everything that was asked for and is missing.
pub proof fn law_report(s: StageView, report: Seq<Seq<char>>, assets: Seq<Seq<char>>)
    ensures
        report.len() <= s.reported(report, assets).len(),
        s.reported(report, assets).take(report.len() as int) == report,
        forall|i: int|
            report.len() <= i < s.reported(report, assets).len() ==> s.is_missing(
                #[trigger] s.reported(report, assets)[i],
            ) && assets.contains(s.reported(report, assets)[i]),
        forall|i: int, j: int|
            0 <= i < j < s.reported(report, assets).len() && report.len() <= j
                ==> #[trigger] s.reported(report, assets)[i] != #[trigger] s.reported(
                report,
                assets,
            )[j],
        forall|k: int|
            0 <= k < assets.len() && s.is_missing(#[trigger] assets[k]) ==> s.reported(
                report,
                assets,
            ).contains(assets[k]),
    decreases assets.len(),
{
    let all = s.reported(report, assets);
    if assets.len() == 0 {
        assert(all.take(report.len() as int) =~= report);
    } else {
        let rest = assets.drop_last();
        let before = s.reported(report, rest);
        law_report(s, report, rest);
        assert(all.take(report.len() as int) =~= before.take(report.len() as int));
        assert forall|i: int| report.len() <= i < all.len() implies s.is_missing(#[trigger] all[i])
            && assets.contains(all[i]) by {
            if i < before.len() {
                assert(all[i] == before[i]);
                let k = choose|k: int| 0 <= k < rest.len() && rest[k] == before[i];
                assert(assets[k] == all[i]);
            } else {
                assert(assets[assets.len() - 1] == all[i]);
            }
        }
        assert forall|i: int, j: int| 0 <= i < j < all.len() && report.len() <= j implies
            #[trigger] all[i] != #[trigger] all[j] by {
            assert(all[i] == before[i]);
            if j < before.len() {
                assert(all[j] == before[j]);
            } else {
                assert(before.contains(before[i]));
            }
        }
        assert forall|k: int| 0 <= k < assets.len() && s.is_missing(#[trigger] assets[k]) implies
            all.contains(assets[k]) by {
            if k < rest.len() {
                assert(rest[k] == assets[k]);
                let i = choose|i: int| 0 <= i < before.len() && before[i] == assets[k];
                assert(all[i] == assets[k]);
            } else if before.contains(assets[k]) {
                let i = choose|i: int| 0 <= i < before.len() && before[i] == assets[k];
                assert(all[i] == assets[k]);
            } else {
                assert(all[before.len() as int] == assets[k]);
            }
        }
    }
}

/// What is listed along a traversal, a prim on it refers to.
proof fn lemma_assets_along_are_referred_to(s: StageView, prims: Seq<Seq<char>>, a: Seq<char>)
    requires
        s.assets_along(prims).contains(a),
    ensures
        exists|i: int| 0 <= i < prims.len() && s.assets_at(#[trigger] prims[i]).contains(a),
    decreases prims.len(),
{
    let rest = prims.drop_last();
    let before = s.assets_along(rest);
    let all = s.assets_along(prims);
    let k = choose|k: int| 0 <= k < all.len() && all[k] == a;
    if k < before.len() {
        assert(before[k] == a);
        lemma_assets_along_are_referred_to(s, rest, a);
        let i = choose|i: int| 0 <= i < rest.len() && s.assets_at(#[trigger] rest[i]).contains(a);
        assert(prims[i] == rest[i]);
    } else {
        let last = s.assets_at(prims[prims.len() - 1]);
        assert(last[k - before.len()] == a);
        assert(last.contains(a));
    }
}

/// What a prim on a traversal refers to is listed along it.
proof fn lemma_assets_along_are_listed(s: StageView, prims: Seq<Seq<char>>, a: Seq<char>, i: int)
    requires
        0 <= i < prims.len(),
        s.assets_at(prims[i]).contains(a),
    ensures
        s.assets_along(prims).contains(a),
    decreases prims.len(),
{
    let rest = prims.drop_last();
    let before = s.assets_along(rest);
    let all = s.assets_along(prims);
    if i < rest.len() {
        assert(rest[i] == prims[i]);
        lemma_assets_along_are_listed(s, rest, a, i);
        let k = choose|k: int| 0 <= k < before.len() && before[k] == a;
        assert(all[k] == a);
    } else {
        let last = s.assets_at(prims.last());
        let k = choose|k: int| 0 <= k < last.len() && last[k] == a;
        assert(all[before.len() + k] == a);
    }
}

/// What prims refer to along a traversal is what each of them refers to.
proof fn lemma_assets_along(s: StageView, prims: Seq<Seq<char>>, a: Seq<char>)
    ensures
        s.assets_along(prims).contains(a) <==> exists|i: int|
            0 <= i < prims.len() && s.assets_at(#[trigger] prims[i]).contains(a),
{
    if s.assets_along(prims).contains(a) {
        lemma_assets_along_are_referred_to(s, prims, a);
    }
    if exists|i: int| 0 <= i < prims.len() && s.assets_at(#[trigger] prims[i]).contains(a) {
        let i = choose|i: int| 0 <= i < prims.len() && s.assets_at(#[trigger] prims[i]).contains(a);
        lemma_assets_along_are_listed(s, prims, a, i);
    }
}

/// An asset is reported exactly where composition stumbled over it, or where a visited prim refers
/// to it, it is neither empty nor has a variable in it, and it cannot be found. Beyond those that
/// composition stumbled over, nothing is reported twice.
pub proof fn law_unresolved_assets(s: StageView, a: Seq<char>)
    ensures
        s.unresolved_assets().contains(a) <==> crate::assets::missing_assets(s.errors).contains(a)
            || (s.is_missing(a) && exists|i: int|
            0 <= i < s.traversal.len() && s.assets_at(#[trigger] s.traversal[i]).contains(a)),
        forall|x: int, y: int|
            0 <= x < y < s.unresolved_assets().len() && crate::assets::missing_assets(
                s.errors,
            ).len() <= y ==> #[trigger] s.unresolved_assets()[x]
                != #[trigger] s.unresolved_assets()[y],
{
    let report = crate::assets::missing_assets(s.errors);
    let assets = s.assets_along(s.traversal);
    let all = s.unresolved_assets();
    law_report(s, report, assets);
    lemma_assets_along(s, s.traversal, a);
    if s.is_missing(a) && assets.contains(a) {
        let k = choose|k: int| 0 <= k < assets.len() && assets[k] == a;
        assert(s.is_missing(assets[k]));
    }
    if report.contains(a) {
        let k = choose|k: int| 0 <= k < report.len() && report[k] == a;
        assert(all.take(report.len() as int)[k] == a);
        assert(all[k] == a);
    }
    if all.contains(a) && !report.contains(a) {
        let k = choose|k: int| 0 <= k < all.len() && all[k] == a;
        if k < report.len() {
            assert(all.take(report.len() as int)[k] == a);
            assert(report[k] == a);
        }
    }
}

/// Along a traversal, exactly the payloads of the visited prims are listed.
proof fn lemma_payloads_along(s: StageView, prims: Seq<Seq<char>>, p: SkippedView)
    ensures
        s.payloads_along(prims).contains(p) <==> prims.contains(p.prim_path)
            && crate::assets::payload_assets(s.payloads(p.prim_path)).contains(p.asset_path),
    decreases prims.len(),
{
    if prims.len() > 0 {
        let rest = prims.drop_last();
        let before = s.payloads_along(rest);
        let list = s.payloads(prims.last());
        let here = crate::assets::skipped_at(list, prims.last());
        let all = s.payloads_along(prims);
        lemma_payloads_along(s, rest, p);
        if all.contains(p) {
            let k = choose|k: int| 0 <= k < all.len() && all[k] == p;
            if k < before.len() {
                assert(before[k] == p);
                let i = choose|i: int| 0 <= i < rest.len() && rest[i] == p.prim_path;
                assert(prims[i] == p.prim_path);
            } else {
                assert(here[k - before.len()] == p);
                assert(prims[prims.len() - 1] == p.prim_path);
                assert(crate::assets::payload_assets(list)[k - before.len()] == p.asset_path);
            }
        }
        if prims.contains(p.prim_path) && crate::assets::payload_assets(
            s.payloads(p.prim_path),
        ).contains(p.asset_path) {
            let i = choose|i: int| 0 <= i < prims.len() && prims[i] == p.prim_path;
            if i < rest.len() {
                assert(rest[i] == p.prim_path);
                let k = choose|k: int| 0 <= k < before.len() && before[k] == p;
                assert(all[k] == p);
            } else {
                let assets = crate::assets::payload_assets(list);
                let k = choose|k: int| 0 <= k < assets.len() && assets[k] == p.asset_path;
                assert(here[k] == p);
                assert(all[before.len() + k] == p);
            }
        }
    }
}

/// Where payloads are loaded none was skipped; where none is loaded, exactly the payloads of the
/// visited prims were.
pub proof fn law_skipped_payloads(s: StageView, p: SkippedView)
    ensures
        s.load == InitialLoadSet::LoadAll ==> s.skipped_payloads().len() == 0,
        s.load == InitialLoadSet::LoadNone ==> (s.skipped_payloads().contains(p)
            <==> s.traversal.contains(p.prim_path) && crate::assets::payload_assets(
            s.payloads(p.prim_path),
        ).contains(p.asset_path)),
{
    lemma_payloads_along(s, s.traversal, p);
}

/// The bytes of a file matter only where the name of the root layer leaves its format open, and
/// there only the right ones make it binary.
pub proof fn law_head_matters_only_if_asked(s: StageView, head: Option<[u8; 8]>)
    ensures
        crate::scene::probe(s.identifier) != crate::scene::LayerProbe::ReadHead
            ==> s.root_layer_is_binary(head) == s.root_layer_is_binary(None),
        crate::scene::probe(s.identifier) == crate::scene::LayerProbe::ReadHead
            ==> !s.root_layer_is_binary(None),
{
}

/// A field answers what was recorded for it, and no other field changes.
pub proof fn law_recorded_value_is_read(
    s: StageView,
    path: Seq<char>,
    key: FieldKey,
    value: Value,
    other_path: Seq<char>,
    other_key: FieldKey,
)
    ensures
        ({
            let t = StageView {
                values: s.values.insert(
                    (path, key),
                    Ok::<Value, crate::error::ErrorView>(value),
                ),
                ..s
            };
            &&& t.value(path, key) == Some(value)
            &&& (path, key) != (other_path, other_key) ==> t.field(other_path, other_key)
                == s.field(other_path, other_key)
        }),
{
}

/// The place for a new prim is within the traversal.
proof fn lemma_place_under(t: Seq<Seq<char>>, top: Seq<char>)
    ensures
        0 <= crate::stage::place_under(t, top) <= t.len(),
        crate::stage::place_after(t, top) matches Some(k) ==> 0 <= k <= t.len(),
    decreases t.len(),
{
    if t.len() > 0 {
        lemma_place_under(t.drop_last(), top);
    }
}

/// A prim that is defined is visited, and defining it again changes nothing.
pub proof fn law_defining_twice(s: StageView, path: Seq<char>)
    ensures
        s.with_prim(path).traversal.contains(path),
        s.with_prim(path).with_prim(path) == s.with_prim(path),
{
    let top = crate::path::holder(path);
    lemma_place_under(s.traversal, top);
    if !s.traversal.contains(path) {
        let k = crate::stage::place_under(s.traversal, top);
        assert(s.with_prim(path).traversal[k] == path);
    }
}

/// A finite number is close to itself, and closeness goes both ways.
pub proof fn law_closeness(a: Double, b: Double)
    ensures
        a.finite() ==> a.close_to(a),
        a.close_to(b) ==> b.close_to(a),
{
    if a.finite() {
        a.lemma_close_to(a);
        crate::close::lemma_threshold_positive();
    }
    if a.close_to(b) {
        assert(crate::num::distance(a.value(), b.value()) == crate::num::distance(
            b.value(),
            a.value(),
        ));
    }
}

/// A single-precision number that is no NaN survives the way to double precision and back.
pub proof fn law_widening_loses_nothing(s: Single, d: Double)
    requires
        s.widens_to(d),
        s.abs() <= crate::num::single_infinity(),
    ensures
        d.narrowed() == s,
{
    let unit = pow2(925) as int;
    let one = crate::num::single_one();
    let top = crate::num::single_infinity();
    lemma_pow2_pos(925);
    if s.abs() == top {
        crate::num::lemma_infinity_covers();
        crate::num::lemma_nearest_top(d.magnitude(), one, top, unit);
    } else {
        crate::num::lemma_nearest_exact(s.abs(), one, top, unit);
    }
    d.lemma_narrowed(s);
}

/// Two halves of the same value in single precision have the same bits, unless they are NaNs.
pub proof fn law_half_widening_is_injective(a: Half, b: Half, r: Single)
    requires
        a.widens_to(r),
        b.widens_to(r),
        a.abs() <= crate::num::half_infinity(),
        b.abs() <= crate::num::half_infinity(),
    ensures
        a.bits == b.bits,
{
    let p = pow2(125) as int;
    lemma_pow2_pos(125);
    if a.abs() < crate::num::half_infinity() {
        let x = a.magnitude();
        let y = b.magnitude();
        assert(x == y) by (nonlinear_arith)
            requires
                x * p == y * p,
                p > 0,
        ;
        crate::num::lemma_magnitude_injective(a.abs(), b.abs(), crate::num::half_one());
    }
}

} // verus!
