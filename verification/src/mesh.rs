//! Meshes, and the subsets of their faces that have a material of their own.
use crate::error::{Error, ErrorView};
use crate::num::Single;
use crate::path::Path;
use crate::read::{
    field_is, read_element_size, read_f32_array, read_i32_array, read_string_attr, read_u32_array,
    read_vec2_array, read_vec3_array,
};
use crate::stage::{Stage, StageView};
use crate::table::FieldKey;
use crate::text;
use crate::value::{copy_all, copy_path, keep_not_negative};
use vstd::prelude::*;

verus! {

/// A mesh, as flat arrays.
#[derive(Debug, PartialEq)]
pub struct MeshData {
    pub points: Vec<Single>,
    pub face_vertex_indices: Vec<i32>,
    pub face_vertex_counts: Vec<i32>,
    pub normals: Option<Vec<Single>>,
    pub uvs: Option<Vec<Single>>,
    pub joint_indices: Option<Vec<u32>>,
    pub joint_weights: Option<Vec<Single>>,
    pub joints_per_vertex: usize,
    pub display_color: Option<Vec<Single>>,
}

/// The model of a [`MeshData`].
pub struct MeshView {
    pub points: Seq<Single>,
    pub face_vertex_indices: Seq<i32>,
    pub face_vertex_counts: Seq<i32>,
    pub normals: Option<Seq<Single>>,
    pub uvs: Option<Seq<Single>>,
    pub joint_indices: Option<Seq<u32>>,
    pub joint_weights: Option<Seq<Single>>,
    pub joints_per_vertex: usize,
    pub display_color: Option<Seq<Single>>,
}

/// The contents of an array that may be absent.
pub open spec fn contents<T>(v: Option<Vec<T>>) -> Option<Seq<T>> {
    match v {
        Some(v) => Some(v@),
        None => None,
    }
}

impl View for MeshData {
    type V = MeshView;

    open spec fn view(&self) -> MeshView {
        MeshView {
            points: self.points@,
            face_vertex_indices: self.face_vertex_indices@,
            face_vertex_counts: self.face_vertex_counts@,
            normals: contents(self.normals),
            uvs: contents(self.uvs),
            joint_indices: contents(self.joint_indices),
            joint_weights: contents(self.joint_weights),
            joints_per_vertex: self.joints_per_vertex,
            display_color: contents(self.display_color),
        }
    }
}

/// Copies an array that may be absent.
fn copy_array<T: Copy>(v: &Option<Vec<T>>) -> (r: Option<Vec<T>>)
    ensures
        contents(r) == contents(*v),
{
    match v {
        Some(v) => Some(copy_all(v)),
        None => None,
    }
}

impl Default for MeshData {
    fn default() -> (r: Self)
        ensures
            r@ == (MeshView {
                points: seq![],
                face_vertex_indices: seq![],
                face_vertex_counts: seq![],
                normals: None,
                uvs: None,
                joint_indices: None,
                joint_weights: None,
                joints_per_vertex: 0,
                display_color: None,
            }),
    {
        MeshData {
            points: Vec::new(),
            face_vertex_indices: Vec::new(),
            face_vertex_counts: Vec::new(),
            normals: None,
            uvs: None,
            joint_indices: None,
            joint_weights: None,
            joints_per_vertex: 0,
            display_color: None,
        }
    }
}

impl Clone for MeshData {
    fn clone(&self) -> (r: Self)
        ensures
            r@ == self@,
    {
        MeshData {
            points: copy_all(&self.points),
            face_vertex_indices: copy_all(&self.face_vertex_indices),
            face_vertex_counts: copy_all(&self.face_vertex_counts),
            normals: copy_array(&self.normals),
            uvs: copy_array(&self.uvs),
            joint_indices: copy_array(&self.joint_indices),
            joint_weights: copy_array(&self.joint_weights),
            joints_per_vertex: self.joints_per_vertex,
            display_color: copy_array(&self.display_color),
        }
    }
}

/// How many joints move each vertex: what the joint indices or else the joint weights declare;
/// or else, where the joint indices divide evenly among the points, their share; or else none.
pub open spec fn joints_per_vertex(
    indices_declare: Option<usize>,
    weights_declare: Option<usize>,
    points: Seq<Single>,
    joint_indices: Option<Seq<u32>>,
) -> int {
    match (indices_declare, weights_declare, joint_indices) {
        (Some(n), _, _) => n as int,
        (None, Some(n), _) => n as int,
        (None, None, Some(indices)) => {
            let point_count = points.len() as int / 3;
            if point_count > 0 && indices.len() as int % point_count == 0 {
                indices.len() as int / point_count
            } else {
                0
            }
        },
        (None, None, None) => 0,
    }
}

/// Computes how many joints move each vertex.
pub fn count_joints_per_vertex(
    indices_declare: Option<usize>,
    weights_declare: Option<usize>,
    points: &Vec<Single>,
    joint_indices: &Option<Vec<u32>>,
) -> (r: usize)
    ensures
        r == joints_per_vertex(
            indices_declare,
            weights_declare,
            points@,
            contents(*joint_indices),
        ),
{
    match indices_declare {
        Some(n) => {
            return n;
        },
        None => {},
    }
    match weights_declare {
        Some(n) => {
            return n;
        },
        None => {},
    }
    match joint_indices {
        Some(indices) => {
            let point_count: usize = points.len() / 3;
            if point_count > 0 && indices.len() % point_count == 0 {
                indices.len() / point_count
            } else {
                0
            }
        },
        None => 0,
    }
}

/// The earlier of two errors that may have come.
pub open spec fn earlier(a: Option<ErrorView>, b: Option<ErrorView>) -> Option<ErrorView> {
    if a is Some {
        a
    } else {
        b
    }
}

/// The error of a read that failed.
pub open spec fn failure<T>(r: Result<Option<T>, ErrorView>) -> Option<ErrorView> {
    match r {
        Ok(_) => None,
        Err(e) => Some(e),
    }
}

/// What a read brought.
pub open spec fn brought<T>(r: Result<Option<T>, ErrorView>) -> Option<T> {
    match r {
        Ok(v) => v,
        Err(_) => None,
    }
}

/// What a read brought, or else an empty array.
pub open spec fn brought_or_empty<T>(r: Result<Option<Seq<T>>, ErrorView>) -> Seq<T> {
    match brought(r) {
        Some(v) => v,
        None => seq![],
    }
}

impl StageView {
    /// The first error among the reads of the parts of a mesh other than its points, in the order
    /// in which they are read.
    pub open spec fn mesh_failure(self, p: Seq<char>) -> Option<ErrorView> {
        earlier(
            failure(self.i32_array(p, "faceVertexIndices"@)),
            earlier(
                failure(self.i32_array(p, "faceVertexCounts"@)),
                earlier(
                    failure(self.vec3_array(p, "normals"@)),
                    earlier(
                        failure(self.vec2_array(p, "primvars:st"@)),
                        earlier(
                            failure(self.vec3_array(p, "primvars:displayColor"@)),
                            earlier(
                                failure(self.u32_array(p, "primvars:skel:jointIndices"@)),
                                failure(self.f32_array(p, "primvars:skel:jointWeights"@)),
                            ),
                        ),
                    ),
                ),
            ),
        )
    }

    /// The mesh with given points at a path.
    pub open spec fn mesh_with(self, p: Seq<char>, points: Seq<Single>) -> MeshView {
        let joint_indices = brought(self.u32_array(p, "primvars:skel:jointIndices"@));
        MeshView {
            points,
            face_vertex_indices: brought_or_empty(self.i32_array(p, "faceVertexIndices"@)),
            face_vertex_counts: brought_or_empty(self.i32_array(p, "faceVertexCounts"@)),
            normals: brought(self.vec3_array(p, "normals"@)),
            uvs: brought(self.vec2_array(p, "primvars:st"@)),
            joint_indices,
            joint_weights: brought(self.f32_array(p, "primvars:skel:jointWeights"@)),
            joints_per_vertex: joints_per_vertex(
                self.element_size(p, "primvars:skel:jointIndices"@),
                self.element_size(p, "primvars:skel:jointWeights"@),
                points,
                joint_indices,
            ) as usize,
            display_color: brought(self.vec3_array(p, "primvars:displayColor"@)),
        }
    }

    /// The mesh at a path. There is none where the prim is of another type or has no points.
    pub open spec fn mesh(self, p: Seq<char>) -> Result<Option<MeshView>, ErrorView> {
        if self.text(p, FieldKey::TypeName) != Some("Mesh"@) {
            Ok(None)
        } else {
            match self.vec3_array(p, "points"@) {
                Err(e) => Err(e),
                Ok(None) => Ok(None),
                Ok(Some(points)) => match self.mesh_failure(p) {
                    Some(e) => Err(e),
                    None => Ok(Some(self.mesh_with(p, points))),
                },
            }
        }
    }
}

impl Stage {
    /// Reads the mesh at a path.
    pub fn mesh_of(&self, prim_path: &Path) -> (r: Result<Option<MeshData>, Error>)
        ensures
            match r {
                Ok(Some(m)) => self@.mesh(prim_path@) == Ok::<Option<MeshView>, ErrorView>(Some(m@)),
                Ok(None) => self@.mesh(prim_path@) == Ok::<Option<MeshView>, ErrorView>(None),
                Err(e) => self@.mesh(prim_path@) == Err::<Option<MeshView>, ErrorView>(e@),
            },
    {
        if !field_is(self, prim_path, FieldKey::TypeName, "Mesh") {
            return Ok(None);
        }
        let points = match read_vec3_array(self, prim_path, "points") {
            Ok(Some(v)) => v,
            Ok(None) => {
                return Ok(None);
            },
            Err(e) => {
                return Err(e);
            },
        };
        let face_vertex_indices = match read_i32_array(self, prim_path, "faceVertexIndices") {
            Ok(Some(v)) => v,
            Ok(None) => Vec::new(),
            Err(e) => {
                return Err(e);
            },
        };
        let face_vertex_counts = match read_i32_array(self, prim_path, "faceVertexCounts") {
            Ok(Some(v)) => v,
            Ok(None) => Vec::new(),
            Err(e) => {
                return Err(e);
            },
        };
        let normals = match read_vec3_array(self, prim_path, "normals") {
            Ok(v) => v,
            Err(e) => {
                return Err(e);
            },
        };
        let uvs = match read_vec2_array(self, prim_path, "primvars:st") {
            Ok(v) => v,
            Err(e) => {
                return Err(e);
            },
        };
        let display_color = match read_vec3_array(self, prim_path, "primvars:displayColor") {
            Ok(v) => v,
            Err(e) => {
                return Err(e);
            },
        };
        let joint_indices = match read_u32_array(self, prim_path, "primvars:skel:jointIndices") {
            Ok(v) => v,
            Err(e) => {
                return Err(e);
            },
        };
        let joint_weights = match read_f32_array(self, prim_path, "primvars:skel:jointWeights") {
            Ok(v) => v,
            Err(e) => {
                return Err(e);
            },
        };
        let joints_per_vertex: usize = count_joints_per_vertex(
            read_element_size(self, prim_path, "primvars:skel:jointIndices"),
            read_element_size(self, prim_path, "primvars:skel:jointWeights"),
            &points,
            &joint_indices,
        );
        Ok(
            Some(
                MeshData {
                    points,
                    face_vertex_indices,
                    face_vertex_counts,
                    normals,
                    uvs,
                    joint_indices,
                    joint_weights,
                    joints_per_vertex,
                    display_color,
                },
            ),
        )
    }
}

/// Some faces of a mesh.
#[derive(Debug, PartialEq, Eq)]
pub struct GeomSubsetData {
    pub name: String,
    pub indices: Vec<u32>,
    pub material_binding: Option<Path>,
}

/// The model of a [`GeomSubsetData`].
pub struct GeomSubsetView {
    pub name: Seq<char>,
    pub indices: Seq<u32>,
    pub material_binding: Option<Seq<char>>,
}

impl View for GeomSubsetData {
    type V = GeomSubsetView;

    open spec fn view(&self) -> GeomSubsetView {
        GeomSubsetView {
            name: self.name@,
            indices: self.indices@,
            material_binding: crate::value::path_text(self.material_binding),
        }
    }
}

impl Default for GeomSubsetData {
    fn default() -> (r: Self)
        ensures
            r@ == (GeomSubsetView { name: seq![], indices: seq![], material_binding: None }),
    {
        GeomSubsetData { name: String::new(), indices: Vec::new(), material_binding: None }
    }
}

impl Clone for GeomSubsetData {
    fn clone(&self) -> (r: Self)
        ensures
            r@ == self@,
    {
        GeomSubsetData {
            name: self.name.clone(),
            indices: copy_all(&self.indices),
            material_binding: copy_path(&self.material_binding),
        }
    }
}

/// The models of several subsets.
pub open spec fn subset_views(v: Seq<GeomSubsetData>) -> Seq<GeomSubsetView> {
    v.map_values(|g: GeomSubsetData| g@)
}

impl StageView {
    /// The indices of the faces of the subset at a path: those that are not negative.
    pub open spec fn subset_indices(self, p: Seq<char>) -> Option<Seq<u32>> {
        match brought(self.i32_array(p, "indices"@)) {
            Some(v) => Some(crate::value::not_negative(v)),
            None => None,
        }
    }

    /// The subset under a mesh that a child of the mesh makes. A child makes none where it is of
    /// another type, where its elements are not faces, or where it has no index.
    pub open spec fn geom_subset(self, mesh: Seq<char>, name: Seq<char>) -> Option<GeomSubsetView> {
        match crate::path::child(mesh, name) {
            None => None,
            Some(p) => if self.text(p, FieldKey::TypeName) == Some("GeomSubset"@) && (
            self.attribute_text(p, "elementType"@) is None || self.attribute_text(p, "elementType"@)
                == Some("face"@)) {
                match self.subset_indices(p) {
                    Some(indices) => if indices.len() > 0 {
                        Some(
                            GeomSubsetView {
                                name,
                                indices,
                                material_binding: self.bound_material(p),
                            },
                        )
                    } else {
                        None
                    },
                    None => None,
                }
            } else {
                None
            },
        }
    }

    /// The subsets under a mesh that given children make, in order.
    pub open spec fn geom_subsets_among(
        self,
        mesh: Seq<char>,
        names: Seq<Seq<char>>,
    ) -> Seq<GeomSubsetView>
        decreases names.len(),
    {
        if names.len() == 0 {
            seq![]
        } else {
            let before = self.geom_subsets_among(mesh, names.drop_last());
            match self.geom_subset(mesh, names.last()) {
                Some(g) => before.push(g),
                None => before,
            }
        }
    }

    /// The subsets of a mesh, in the order of its children.
    pub open spec fn geom_subsets(self, mesh: Seq<char>) -> Seq<GeomSubsetView> {
        match self.prim_children(mesh) {
            Ok(names) => self.geom_subsets_among(mesh, names),
            Err(_) => seq![],
        }
    }
}

/// The path of a child of a prim, where the two texts make one.
pub fn child_path(path: &Path, name: &str) -> (r: Option<Path>)
    ensures
        match r {
            Some(p) => crate::path::child(path@, name@) == Some(p@),
            None => crate::path::child(path@, name@) is None,
        },
{
    match Path::new(text::join_with_slash(path.as_str(), name).as_str()) {
        Ok(p) => Some(p),
        Err(_) => None,
    }
}

impl Stage {
    /// Reads the subset that a child of a mesh makes.
    fn geom_subset_of(&self, mesh_path: &Path, name: &String) -> (r: Option<GeomSubsetData>)
        ensures
            match r {
                Some(g) => self@.geom_subset(mesh_path@, name@) == Some(g@),
                None => self@.geom_subset(mesh_path@, name@) is None,
            },
    {
        let subset_path = match child_path(mesh_path, name.as_str()) {
            Some(p) => p,
            None => {
                return None;
            },
        };
        if !field_is(self, &subset_path, FieldKey::TypeName, "GeomSubset") {
            return None;
        }
        match read_string_attr(self, &subset_path, "elementType") {
            Some(t) => {
                if !text::same(t.as_str(), "face") {
                    return None;
                }
            },
            None => {},
        }
        let indices = match read_i32_array(self, &subset_path, "indices") {
            Ok(Some(v)) => keep_not_negative(&v),
            _ => {
                return None;
            },
        };
        if indices.len() == 0 {
            return None;
        }
        let material_binding = self.bound_material(&subset_path);
        Some(GeomSubsetData { name: name.clone(), indices, material_binding })
    }

    /// Reads the subsets of the faces of a mesh.
    pub fn geom_subsets_of(&self, mesh_path: &Path) -> (r: Vec<GeomSubsetData>)
        ensures
            subset_views(r@) == self@.geom_subsets(mesh_path@),
    {
        let mut r: Vec<GeomSubsetData> = Vec::new();
        proof {
            assert(subset_views(r@) =~= seq![]);
        }
        let children = match self.prim_children(mesh_path) {
            Ok(v) => v,
            Err(_) => {
                return r;
            },
        };
        let ghost names = crate::value::texts(children@);
        let mut i: usize = 0;
        while i < children.len()
            invariant
                i <= children.len(),
                names == crate::value::texts(children@),
                subset_views(r@) == self@.geom_subsets_among(mesh_path@, names.take(i as int)),
            decreases children.len() - i,
        {
            let ghost before = r@;
            let subset = self.geom_subset_of(mesh_path, &children[i]);
            i += 1;
            proof {
                assert(names.take(i as int).drop_last() =~= names.take(i - 1));
                assert(names.take(i as int).last() == children@[i - 1]@);
            }
            match subset {
                Some(g) => {
                    r.push(g);
                    assert(subset_views(r@) =~= subset_views(before).push(g@));
                },
                None => {},
            }
        }
        assert(names.take(i as int) =~= names);
        r
    }
}

} // verus!
