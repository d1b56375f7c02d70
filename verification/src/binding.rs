//! Following relationships: to the material of a mesh, and up the tree where a prim has none.
use crate::error::{Error, ErrorView};
use crate::path::{parent_path, Path};
use crate::stage::{Stage, StageView};
use crate::table::FieldKey;
use vstd::prelude::*;

verus! {

/// A path and the paths above it, from the nearest to the farthest.
pub open spec fn ancestry(path: Seq<char>) -> Seq<Seq<char>>
    decreases path.len(),
{
    match crate::path::parent(path) {
        Some(q) => {
            proof {
                crate::text::lemma_last_index(path, '/');
            }
            seq![path] + ancestry(q)
        },
        None => seq![path],
    }
}

impl StageView {
    /// The first target of a relationship of a prim.
    pub open spec fn first_target(self, prim: Seq<char>, rel: Seq<char>) -> Option<Seq<char>> {
        match crate::path::property(prim, rel) {
            Some(p) => self.first_path(p, FieldKey::TargetPaths),
            None => None,
        }
    }

    /// The first target of a relationship of the first of several prims that has one.
    pub open spec fn target_along(self, prims: Seq<Seq<char>>, rel: Seq<char>) -> Option<Seq<char>>
        decreases prims.len(),
    {
        if prims.len() == 0 {
            None
        } else {
            match self.first_target(prims[0], rel) {
                Some(t) => Some(t),
                None => self.target_along(prims.drop_first(), rel),
            }
        }
    }

    /// The first target of a relationship of a prim, or else of the nearest prim above it that
    /// has one.
    pub open spec fn inherited_target(self, path: Seq<char>, rel: Seq<char>) -> Option<Seq<char>> {
        self.target_along(ancestry(path), rel)
    }

    /// The material of a mesh: that of the preview binding, of the full binding, or of the
    /// binding for every purpose, each inherited from the prims above.
    pub open spec fn bound_material(self, path: Seq<char>) -> Option<Seq<char>> {
        match self.inherited_target(path, "material:binding:preview"@) {
            Some(t) => Some(t),
            None => match self.inherited_target(path, "material:binding:full"@) {
                Some(t) => Some(t),
                None => self.inherited_target(path, "material:binding"@),
            },
        }
    }

    /// The names of the prims under a prim. A child without a name counts as one with an empty
    /// name.
    pub open spec fn prim_children(self, path: Seq<char>) -> Result<Seq<Seq<char>>, ErrorView> {
        match self.paths(path, FieldKey::PrimChildren) {
            Ok(v) => Ok(child_names(v)),
            Err(e) => Err(e),
        }
    }
}

/// The last names of paths.
pub open spec fn child_names(v: Seq<Seq<char>>) -> Seq<Seq<char>> {
    v.map_values(
        |p: Seq<char>|
            match crate::path::name_of(p) {
                Some(n) => n,
                None => seq![],
            },
    )
}

/// Where a prim has no target, one looks on above it.
pub proof fn lemma_inherited_step(s: StageView, path: Seq<char>, rel: Seq<char>)
    ensures
        s.inherited_target(path, rel) == (match s.first_target(path, rel) {
            Some(t) => Some(t),
            None => match crate::path::parent(path) {
                Some(q) => s.inherited_target(q, rel),
                None => None,
            },
        }),
{
    let chain = ancestry(path);
    crate::text::lemma_last_index(path, '/');
    assert(chain[0] == path);
    match crate::path::parent(path) {
        Some(q) => {
            assert(chain.drop_first() =~= ancestry(q));
        },
        None => {
            assert(chain.drop_first() =~= seq![]);
            assert(s.target_along(chain.drop_first(), rel) is None);
        },
    }
}

/// The first target of a relationship.
pub fn first_relationship_target(stage: &Stage, path: &Path) -> (r: Option<Path>)
    ensures
        match r {
            Some(p) => stage@.first_path(path@, FieldKey::TargetPaths) == Some(p@),
            None => stage@.first_path(path@, FieldKey::TargetPaths) is None,
        },
{
    stage.first_path(path, FieldKey::TargetPaths)
}

/// The first source that an attribute is connected to.
pub fn first_attribute_connection(stage: &Stage, path: &Path) -> (r: Option<Path>)
    ensures
        match r {
            Some(p) => stage@.first_path(path@, FieldKey::ConnectionPaths) == Some(p@),
            None => stage@.first_path(path@, FieldKey::ConnectionPaths) is None,
        },
{
    stage.first_path(path, FieldKey::ConnectionPaths)
}

/// The first target of a relationship of a prim.
pub fn first_target(stage: &Stage, prim_path: &Path, rel_name: &str) -> (r: Option<Path>)
    ensures
        match r {
            Some(p) => stage@.first_target(prim_path@, rel_name@) == Some(p@),
            None => stage@.first_target(prim_path@, rel_name@) is None,
        },
{
    match prim_path.append_property(rel_name) {
        Ok(p) => first_relationship_target(stage, &p),
        Err(_) => None,
    }
}

/// The first target of a relationship of a prim or of the nearest prim above it that has one.
pub fn first_target_in_self_or_ancestors(stage: &Stage, prim_path: &Path, rel_name: &str) -> (r:
    Option<Path>)
    ensures
        match r {
            Some(p) => stage@.inherited_target(prim_path@, rel_name@) == Some(p@),
            None => stage@.inherited_target(prim_path@, rel_name@) is None,
        },
{
    let mut current = prim_path.clone();
    loop
        invariant
            stage@.inherited_target(prim_path@, rel_name@) == stage@.inherited_target(
                current@,
                rel_name@,
            ),
        decreases current@.len(),
    {
        proof {
            lemma_inherited_step(stage@, current@, rel_name@);
            crate::text::lemma_last_index(current@, '/');
        }
        match first_target(stage, &current, rel_name) {
            Some(target) => {
                return Some(target);
            },
            None => {},
        }
        match parent_path(&current) {
            Some(above) => {
                current = above;
            },
            None => {
                return None;
            },
        }
    }
}

impl Stage {
    /// The names of the prims under a prim.
    pub fn prim_children(&self, path: &Path) -> (r: Result<Vec<String>, Error>)
        ensures
            match r {
                Ok(v) => self@.prim_children(path@) == Ok::<Seq<Seq<char>>, ErrorView>(
                    crate::value::texts(v@),
                ),
                Err(e) => self@.prim_children(path@) == Err::<Seq<Seq<char>>, ErrorView>(e@),
            },
    {
        let children = match self.paths(path, FieldKey::PrimChildren) {
            Ok(v) => v,
            Err(e) => {
                return Err(e);
            },
        };
        let ghost all = crate::stage::path_texts(children@);
        let mut r: Vec<String> = Vec::new();
        let mut i: usize = 0;
        while i < children.len()
            invariant
                i <= children.len(),
                all == crate::stage::path_texts(children@),
                crate::value::texts(r@) == child_names(all.take(i as int)),
            decreases children.len() - i,
        {
            let ghost before = r@;
            let name = match children[i].name() {
                Some(n) => n,
                None => String::new(),
            };
            r.push(name);
            i += 1;
            proof {
                let n = child_names(all)[i - 1];
                assert(crate::value::texts(r@) =~= crate::value::texts(before).push(n));
                assert(child_names(all.take(i as int)) =~= child_names(all.take(i - 1)).push(n));
            }
        }
        assert(all.take(i as int) =~= all);
        Ok(r)
    }

    /// The material of a mesh, inherited from the prims above it where it has none of its own.
    pub fn bound_material(&self, mesh_path: &Path) -> (r: Option<Path>)
        ensures
            match r {
                Some(p) => self@.bound_material(mesh_path@) == Some(p@),
                None => self@.bound_material(mesh_path@) is None,
            },
    {
        match first_target_in_self_or_ancestors(self, mesh_path, "material:binding:preview") {
            Some(p) => {
                return Some(p);
            },
            None => {},
        }
        match first_target_in_self_or_ancestors(self, mesh_path, "material:binding:full") {
            Some(p) => {
                return Some(p);
            },
            None => {},
        }
        first_target_in_self_or_ancestors(self, mesh_path, "material:binding")
    }
}

} // verus!
