//! What a mesh and its subsets hold, from what was recorded for them.
use crate::error::ErrorView;
use crate::laws::given::{lemma_authored, lemma_child, lemma_names, lemma_property, lemma_says};
use crate::mesh::{GeomSubsetView, MeshView};
use crate::num::Single;
use crate::stage::StageView;
use crate::table::FieldKey;
use crate::value::Value;
use vstd::prelude::*;

verus! {

/// The value that was recorded by default for an attribute of a prim.
pub open spec fn default_of(s: StageView, prim: Seq<char>, name: Seq<char>) -> Option<Value> {
    crate::laws::given::authored(s, prim, name, FieldKey::Default)
}

/// The error that was recorded by default for an attribute of a prim.
pub open spec fn error_of(s: StageView, prim: Seq<char>, name: Seq<char>) -> Option<ErrorView> {
    let key = (prim + seq!['.'] + name, FieldKey::Default);
    if s.values.contains_key(key) {
        match s.values[key] {
            Ok(_) => None,
            Err(e) => Some(e),
        }
    } else {
        None
    }
}

/// The attributes of a mesh, in the order in which an error of one goes before that of another.
pub open spec fn part(k: int) -> Seq<char> {
    if k == 0 {
        "points"@
    } else if k == 1 {
        "faceVertexIndices"@
    } else if k == 2 {
        "faceVertexCounts"@
    } else if k == 3 {
        "normals"@
    } else if k == 4 {
        "primvars:st"@
    } else if k == 5 {
        "primvars:displayColor"@
    } else if k == 6 {
        "primvars:skel:jointIndices"@
    } else {
        "primvars:skel:jointWeights"@
    }
}

/// What is read of an attribute of a prim, from what was recorded.
proof fn lemma_attribute(s: StageView, prim: Seq<char>, name: Seq<char>)
    requires
        crate::laws::given::is_prim(prim),
        crate::laws::given::is_plain(name),
    ensures
        match error_of(s, prim, name) {
            Some(e) => s.attribute(prim, name) == Err::<Option<Value>, ErrorView>(e) && default_of(
                s,
                prim,
                name,
            ) is None,
            None => s.attribute(prim, name) == Ok::<Option<Value>, ErrorView>(
                default_of(s, prim, name),
            ),
        },
{
    lemma_property(prim, name);
}

/// What is read of the eight attributes of a mesh.
proof fn lemma_parts(s: StageView, p: Seq<char>)
    requires
        crate::laws::given::is_prim(p),
    ensures
        forall|k: int|
            0 <= k < 8 ==> match error_of(s, p, #[trigger] part(k)) {
                Some(e) => s.attribute(p, part(k)) == Err::<Option<Value>, ErrorView>(e),
                None => s.attribute(p, part(k)) == Ok::<Option<Value>, ErrorView>(
                    default_of(s, p, part(k)),
                ),
            },
{
    lemma_names();
    assert forall|k: int| 0 <= k < 8 implies match error_of(s, p, #[trigger] part(k)) {
        Some(e) => s.attribute(p, part(k)) == Err::<Option<Value>, ErrorView>(e),
        None => s.attribute(p, part(k)) == Ok::<Option<Value>, ErrorView>(
            default_of(s, p, part(k)),
        ),
    } by {
        lemma_attribute(s, p, part(k));
    }
}

/// There is a mesh at a prim exactly where its type is `Mesh`, its points are triples, and none
/// of its attributes fails.
pub proof fn law_mesh_is_there(s: StageView, p: Seq<char>)
    requires
        crate::laws::given::is_prim(p),
    ensures
        (s.mesh(p) matches Ok(Some(m))) <==> crate::laws::given::says(
            s,
            p,
            FieldKey::TypeName,
            "Mesh"@,
        ) && (forall|k: int| 0 <= k < 8 ==> error_of(s, p, #[trigger] part(k)) is None) && (
        default_of(s, p, "points"@) matches Some(v) && crate::value::flat_vec3(v) is Some),
{
    lemma_says(s, p, FieldKey::TypeName);
    lemma_parts(s, p);
    if forall|k: int| 0 <= k < 8 ==> error_of(s, p, #[trigger] part(k)) is None {
        assert(error_of(s, p, part(0)) is None);
        assert(error_of(s, p, part(1)) is None);
        assert(error_of(s, p, part(2)) is None);
        assert(error_of(s, p, part(3)) is None);
        assert(error_of(s, p, part(4)) is None);
        assert(error_of(s, p, part(5)) is None);
        assert(error_of(s, p, part(6)) is None);
        assert(error_of(s, p, part(7)) is None);
    }
    if s.mesh(p) matches Ok(Some(m)) {
        assert forall|k: int| 0 <= k < 8 implies error_of(s, p, #[trigger] part(k)) is None by {
            assert(k == 0 || k == 1 || k == 2 || k == 3 || k == 4 || k == 5 || k == 6 || k == 7);
        }
    }
}

/// What is no mesh is none, without an error: a prim of another type, whatever its attributes
/// hold, and a mesh without points.
pub proof fn law_no_mesh(s: StageView, p: Seq<char>)
    ensures
        !crate::laws::given::says(s, p, FieldKey::TypeName, "Mesh"@) ==> s.mesh(p) == Ok::<
            Option<MeshView>,
            ErrorView,
        >(None),
        crate::laws::given::is_prim(p) && error_of(s, p, "points"@) is None && !(default_of(
            s,
            p,
            "points"@,
        ) matches Some(v) && crate::value::flat_vec3(v) is Some) ==> s.mesh(p) == Ok::<
            Option<MeshView>,
            ErrorView,
        >(None),
        crate::laws::given::says(s, p, FieldKey::TypeName, "Mesh"@) && !crate::laws::given::is_prim(
            p,
        ) ==> s.mesh(p) == Err::<Option<MeshView>, ErrorView>(
            ErrorView::InvalidPath { text: p + seq!['.'] + "points"@ },
        ),
{
    lemma_says(s, p, FieldKey::TypeName);
    lemma_names();
    lemma_property(p, "points"@);
    if crate::laws::given::is_prim(p) {
        lemma_attribute(s, p, "points"@);
    }
}

/// The error of a mesh is that of the first of its attributes that fails.
pub proof fn law_mesh_error(s: StageView, p: Seq<char>, k: int, e: ErrorView)
    requires
        crate::laws::given::is_prim(p),
        crate::laws::given::says(s, p, FieldKey::TypeName, "Mesh"@),
        0 <= k < 8,
        error_of(s, p, part(k)) == Some(e),
        forall|j: int| 0 <= j < k ==> error_of(s, p, #[trigger] part(j)) is None,
        k > 0 ==> (default_of(s, p, "points"@) matches Some(v) && crate::value::flat_vec3(
            v,
        ) is Some),
    ensures
        s.mesh(p) == Err::<Option<MeshView>, ErrorView>(e),
{
    lemma_says(s, p, FieldKey::TypeName);
    lemma_parts(s, p);
    assert(k > 0 ==> error_of(s, p, part(0)) is None);
    assert(k > 1 ==> error_of(s, p, part(1)) is None);
    assert(k > 2 ==> error_of(s, p, part(2)) is None);
    assert(k > 3 ==> error_of(s, p, part(3)) is None);
    assert(k > 4 ==> error_of(s, p, part(4)) is None);
    assert(k > 5 ==> error_of(s, p, part(5)) is None);
    assert(k > 6 ==> error_of(s, p, part(6)) is None);
    assert(k == 0 || k == 1 || k == 2 || k == 3 || k == 4 || k == 5 || k == 6 || k == 7);
}

/// Every part of a mesh is what was recorded under its name, brought to numbers, and is there
/// exactly where that makes numbers of the kind that belongs there. No part hangs on another.
pub proof fn law_mesh_parts(s: StageView, p: Seq<char>, m: MeshView)
    requires
        crate::laws::given::is_prim(p),
        s.mesh(p) == Ok::<Option<MeshView>, ErrorView>(Some(m)),
    ensures
        default_of(s, p, "points"@) matches Some(v) && crate::value::flat_vec3(v) == Some(m.points),
        match default_of(s, p, "faceVertexIndices"@) {
            Some(v) => match crate::value::signed_numbers(v) {
                Some(x) => m.face_vertex_indices == x,
                None => m.face_vertex_indices.len() == 0,
            },
            None => m.face_vertex_indices.len() == 0,
        },
        match default_of(s, p, "faceVertexCounts"@) {
            Some(v) => match crate::value::signed_numbers(v) {
                Some(x) => m.face_vertex_counts == x,
                None => m.face_vertex_counts.len() == 0,
            },
            None => m.face_vertex_counts.len() == 0,
        },
        match default_of(s, p, "normals"@) {
            Some(v) => m.normals == crate::value::flat_vec3(v),
            None => m.normals is None,
        },
        match default_of(s, p, "primvars:st"@) {
            Some(v) => m.uvs == crate::value::flat_vec2(v),
            None => m.uvs is None,
        },
        match default_of(s, p, "primvars:displayColor"@) {
            Some(v) => m.display_color == crate::value::flat_vec3(v),
            None => m.display_color is None,
        },
        match default_of(s, p, "primvars:skel:jointIndices"@) {
            Some(v) => m.joint_indices == crate::value::unsigned_numbers(v),
            None => m.joint_indices is None,
        },
        match default_of(s, p, "primvars:skel:jointWeights"@) {
            Some(v) => m.joint_weights == crate::value::single_numbers(v),
            None => m.joint_weights is None,
        },
{
    lemma_names();
    lemma_attribute(s, p, "points"@);
    lemma_attribute(s, p, "faceVertexIndices"@);
    lemma_attribute(s, p, "faceVertexCounts"@);
    lemma_attribute(s, p, "normals"@);
    lemma_attribute(s, p, "primvars:st"@);
    lemma_attribute(s, p, "primvars:displayColor"@);
    lemma_attribute(s, p, "primvars:skel:jointIndices"@);
    lemma_attribute(s, p, "primvars:skel:jointWeights"@);
}

/// The joint weights of a mesh are the numbers that were recorded for them: floats number for
/// number, doubles rounded and halves widened to single precision. There are none only where
/// nothing was recorded, or no array of floats, doubles or halves.
pub proof fn law_joint_weights(s: StageView, p: Seq<char>, m: MeshView, i: int)
    requires
        crate::laws::given::is_prim(p),
        s.mesh(p) == Ok::<Option<MeshView>, ErrorView>(Some(m)),
    ensures
        match default_of(s, p, "primvars:skel:jointWeights"@) {
            Some(Value::FloatVec(v)) => m.joint_weights == Some(v@),
            Some(Value::DoubleVec(v)) => m.joint_weights matches Some(r) && r.len() == v@.len() && (
            0 <= i < v@.len() ==> r[i] == v@[i].narrowed()),
            Some(Value::HalfVec(v)) => m.joint_weights matches Some(r) && r.len() == v@.len() && (0
                <= i < v@.len() ==> r[i] == v@[i].widened()),
            _ => m.joint_weights is None,
        },
{
    law_mesh_parts(s, p, m);
    if let Some(v) = default_of(s, p, "primvars:skel:jointWeights"@) {
        crate::laws::value::law_single_numbers(v, i);
    }
}

/// The joint indices of a mesh are the unsigned integers that were recorded for them, or the
/// signed ones that are not negative.
pub proof fn law_joint_indices(s: StageView, p: Seq<char>, m: MeshView)
    requires
        crate::laws::given::is_prim(p),
        s.mesh(p) == Ok::<Option<MeshView>, ErrorView>(Some(m)),
    ensures
        match default_of(s, p, "primvars:skel:jointIndices"@) {
            Some(Value::UintVec(v)) => m.joint_indices == Some(v@),
            Some(Value::IntVec(v)) => m.joint_indices matches Some(r) && ((forall|k: int|
                0 <= k < v@.len() ==> v@[k] >= 0) ==> r.len() == v@.len() && forall|k: int|
                0 <= k < v@.len() ==> #[trigger] r[k] == v@[k]),
            _ => m.joint_indices is None,
        },
{
    law_mesh_parts(s, p, m);
    if let Some(Value::IntVec(v)) = default_of(s, p, "primvars:skel:jointIndices"@) {
        if forall|k: int| 0 <= k < v@.len() ==> v@[k] >= 0 {
            crate::laws::value::law_nothing_to_leave_out(v@);
        }
    }
}

/// The points of a mesh are the triples that were recorded for them, whatever their precision:
/// the coordinates of point `i` stand at three times `i` and after it.
pub proof fn law_points(s: StageView, p: Seq<char>, m: MeshView, i: int, c: int)
    requires
        crate::laws::given::is_prim(p),
        s.mesh(p) == Ok::<Option<MeshView>, ErrorView>(Some(m)),
        0 <= c < 3,
    ensures
        match default_of(s, p, "points"@) {
            Some(Value::Vec3fVec(v)) => m.points.len() == 3 * v@.len() && (0 <= i < v@.len()
                ==> m.points[3 * i + c] == v@[i]@[c]),
            Some(Value::Vec3dVec(v)) => m.points.len() == 3 * v@.len() && (0 <= i < v@.len()
                ==> m.points[3 * i + c] == v@[i]@[c].narrowed()),
            Some(Value::Vec3hVec(v)) => m.points.len() == 3 * v@.len() && (0 <= i < v@.len()
                ==> m.points[3 * i + c] == v@[i]@[c].widened()),
            Some(Value::FloatVec(v)) => m.points == v@,
            Some(Value::DoubleVec(v)) => m.points.len() == v@.len() && (0 <= i < v@.len()
                ==> m.points[i] == v@[i].narrowed()),
            _ => false,
        },
{
    law_mesh_parts(s, p, m);
    if let Some(v) = default_of(s, p, "points"@) {
        crate::laws::value::law_flat_vec3(v, i, c);
    }
}

/// How many numbers an attribute declares for each of its elements.
pub open spec fn declared(s: StageView, prim: Seq<char>, name: Seq<char>) -> Option<int> {
    match crate::laws::given::authored(s, prim, name, FieldKey::ElementSize) {
        Some(Value::Int(n)) => if n >= 1 {
            Some(n as int)
        } else {
            None
        },
        Some(Value::Uint(n)) => if n >= 1 {
            Some(n as int)
        } else {
            None
        },
        _ => None,
    }
}

/// How many joints move a vertex: what the indices declare, else what the weights declare, else
/// the equal share of the indices that each point has, else none.
pub proof fn law_joints_per_vertex(s: StageView, p: Seq<char>, m: MeshView, share: int)
    requires
        s.mesh(p) == Ok::<Option<MeshView>, ErrorView>(Some(m)),
        m.joint_indices matches Some(x) ==> x.len() <= usize::MAX,
    ensures
        match (
            declared(s, p, "primvars:skel:jointIndices"@),
            declared(s, p, "primvars:skel:jointWeights"@),
            m.joint_indices,
        ) {
            (Some(n), _, _) => m.joints_per_vertex == n,
            (None, Some(n), _) => m.joints_per_vertex == n,
            (None, None, Some(x)) => {
                let count = m.points.len() as int / 3;
                &&& count > 0 && share * count == x.len() ==> m.joints_per_vertex == share
                &&& count == 0 ==> m.joints_per_vertex == 0
                &&& count > 0 && m.joints_per_vertex != 0 ==> m.joints_per_vertex * count == x.len()
            },
            (None, None, None) => m.joints_per_vertex == 0,
        },
{
    lemma_authored(s, p, "primvars:skel:jointIndices"@, FieldKey::ElementSize);
    lemma_authored(s, p, "primvars:skel:jointWeights"@, FieldKey::ElementSize);
    if let Some(x) = m.joint_indices {
        let count = m.points.len() as int / 3;
        let n = x.len() as int;
        if count > 0 {
            crate::laws::law_joint_share(m.points, x);
            assert(0 <= n / count <= n) by (nonlinear_arith)
                requires
                    n >= 0,
                    count > 0,
            ;
            if share * count == n {
                assert(share >= 0) by (nonlinear_arith)
                    requires
                        share * count == n,
                        n >= 0,
                        count > 0,
                ;
                vstd::arithmetic::div_mod::lemma_div_by_multiple(share, count);
                vstd::arithmetic::div_mod::lemma_mod_multiples_basic(share, count);
            }
        }
    }
}

/// What was recorded elsewhere has no part in a mesh: two stages with the same type and the same
/// entries for the properties of a prim have the same mesh there, error or not.
pub proof fn law_mesh_hangs_on_its_prim(s: StageView, t: StageView, p: Seq<char>)
    requires
        s.field(p, FieldKey::TypeName) == t.field(p, FieldKey::TypeName),
        forall|name: Seq<char>, key: FieldKey| #[trigger]
            s.field(p + seq!['.'] + name, key) == t.field(p + seq!['.'] + name, key),
    ensures
        s.mesh(p) == t.mesh(p),
{
    assert forall|name: Seq<char>, key: FieldKey| #[trigger]
        s.property_value(p, name, key) == t.property_value(p, name, key) by {
        lemma_property(p, name);
        assert(s.field(p + seq!['.'] + name, key) == t.field(p + seq!['.'] + name, key));
    }
    assert forall|name: Seq<char>| #[trigger] s.attribute(p, name) == t.attribute(p, name) by {
        lemma_property(p, name);
        assert(s.field(p + seq!['.'] + name, FieldKey::Default) == t.field(
            p + seq!['.'] + name,
            FieldKey::Default,
        ));
    }
    assert(s.attribute(p, "points"@) == t.attribute(p, "points"@));
    assert(s.attribute(p, "faceVertexIndices"@) == t.attribute(p, "faceVertexIndices"@));
    assert(s.attribute(p, "faceVertexCounts"@) == t.attribute(p, "faceVertexCounts"@));
    assert(s.attribute(p, "normals"@) == t.attribute(p, "normals"@));
    assert(s.attribute(p, "primvars:st"@) == t.attribute(p, "primvars:st"@));
    assert(s.attribute(p, "primvars:displayColor"@) == t.attribute(p, "primvars:displayColor"@));
    assert(s.attribute(p, "primvars:skel:jointIndices"@) == t.attribute(
        p,
        "primvars:skel:jointIndices"@,
    ));
    assert(s.attribute(p, "primvars:skel:jointWeights"@) == t.attribute(
        p,
        "primvars:skel:jointWeights"@,
    ));
    assert(s.property_value(p, "primvars:skel:jointIndices"@, FieldKey::ElementSize)
        == t.property_value(p, "primvars:skel:jointIndices"@, FieldKey::ElementSize));
    assert(s.property_value(p, "primvars:skel:jointWeights"@, FieldKey::ElementSize)
        == t.property_value(p, "primvars:skel:jointWeights"@, FieldKey::ElementSize));
}

/// A child of a mesh makes a subset exactly where its type is `GeomSubset`, its element type is
/// `face` or not said, and its indices are integers of which one at least is not negative. The
/// subset has the name of the child, those indices that are not negative, and the material that
/// the child is bound to.
pub proof fn law_geom_subset(s: StageView, mesh: Seq<char>, name: Seq<char>)
    requires
        crate::path::is_path_text(mesh + seq!['/'] + name),
    ensures
        ({
            let p = mesh + seq!['/'] + name;
            let kind = p + seq!['.'] + "elementType"@;
            let made = crate::laws::given::says(s, p, FieldKey::TypeName, "GeomSubset"@) && (
            crate::laws::given::says_nothing(s, kind, FieldKey::Default)
                || crate::laws::given::says(s, kind, FieldKey::Default, "face"@));
            match default_of(s, p, "indices"@) {
                Some(v) => match crate::value::signed_numbers(v) {
                    Some(x) => if made && crate::value::not_negative(x).len() > 0 {
                        s.geom_subset(mesh, name) == Some(
                            GeomSubsetView {
                                name,
                                indices: crate::value::not_negative(x),
                                material_binding: s.bound_material(p),
                            },
                        )
                    } else {
                        s.geom_subset(mesh, name) is None
                    },
                    None => s.geom_subset(mesh, name) is None,
                },
                None => s.geom_subset(mesh, name) is None,
            }
        }),
{
    let p = mesh + seq!['/'] + name;
    lemma_child(mesh, name);
    lemma_names();
    lemma_says(s, p, FieldKey::TypeName);
    lemma_property(p, "elementType"@);
    lemma_says(s, p + seq!['.'] + "elementType"@, FieldKey::Default);
    if crate::laws::given::is_prim(p) {
        lemma_attribute(s, p, "indices"@);
    }
    lemma_property(p, "indices"@);
}

/// A name that makes no path with that of the mesh makes no subset.
pub proof fn law_no_geom_subset(s: StageView, mesh: Seq<char>, name: Seq<char>)
    requires
        !crate::path::is_path_text(mesh + seq!['/'] + name),
    ensures
        s.geom_subset(mesh, name) is None,
{
    lemma_child(mesh, name);
}

/// The number of joints of a vertex, worked out of what is declared and of the arrays.
pub proof fn law_count_of_joints(
    a: usize,
    b: Option<usize>,
    points: Seq<Single>,
    x: Seq<u32>,
    any: Option<Seq<u32>>,
    share: int,
)
    ensures
        crate::mesh::joints_per_vertex(Some(a), b, points, any) == a,
        crate::mesh::joints_per_vertex(None, Some(a), points, any) == a,
        crate::mesh::joints_per_vertex(None, None, points, None) == 0,
        points.len() < 3 ==> crate::mesh::joints_per_vertex(None, None, points, Some(x)) == 0,
        points.len() >= 3 && share * (points.len() as int / 3) == x.len()
            ==> crate::mesh::joints_per_vertex(None, None, points, Some(x)) == share,
        points.len() >= 3 && x.len() as int % (points.len() as int / 3) != 0
            ==> crate::mesh::joints_per_vertex(None, None, points, Some(x)) == 0,
{
    let count = points.len() as int / 3;
    let n = x.len() as int;
    if count > 0 && share * count == n {
        assert(share >= 0) by (nonlinear_arith)
            requires
                share * count == n,
                n >= 0,
                count > 0,
        ;
        vstd::arithmetic::div_mod::lemma_div_by_multiple(share, count);
        vstd::arithmetic::div_mod::lemma_mod_multiples_basic(share, count);
    }
}

/// The subsets of a mesh come in the order of its children, each as often as its child is listed:
/// those of two lists of names are those of the first and then those of the second, one name makes
/// its subset or none, and where the children cannot be had there are no subsets.
pub proof fn law_subsets_in_order(
    s: StageView,
    mesh: Seq<char>,
    a: Seq<Seq<char>>,
    b: Seq<Seq<char>>,
    name: Seq<char>,
)
    ensures
        s.geom_subsets_among(mesh, a + b) == s.geom_subsets_among(mesh, a) + s.geom_subsets_among(
            mesh,
            b,
        ),
        match s.geom_subset(mesh, name) {
            Some(g) => s.geom_subsets_among(mesh, seq![name]) == seq![g],
            None => s.geom_subsets_among(mesh, seq![name]).len() == 0,
        },
        s.prim_children(mesh) == Ok::<Seq<Seq<char>>, ErrorView>(a) ==> s.geom_subsets(mesh)
            == s.geom_subsets_among(mesh, a),
        s.prim_children(mesh) is Err ==> s.geom_subsets(mesh).len() == 0,
    decreases b.len(),
{
    reveal_with_fuel(StageView::geom_subsets_among, 2);
    assert(seq![name].drop_last() =~= Seq::<Seq<char>>::empty());
    if b.len() == 0 {
        assert(a + b =~= a);
        assert(s.geom_subsets_among(mesh, b) =~= Seq::<GeomSubsetView>::empty());
    } else {
        law_subsets_in_order(s, mesh, a, b.drop_last(), name);
        assert((a + b).drop_last() =~= a + b.drop_last());
        assert((a + b).last() == b.last());
    }
}

} // verus!
