//! Where the targets of a prim come from.
use crate::error::ErrorView;
use crate::laws::given::lemma_property;
use crate::stage::StageView;
use crate::table::FieldKey;
use vstd::prelude::*;

verus! {

/// The target that a prim has of its own, for a relationship.
pub open spec fn own_target(s: StageView, prim: Seq<char>, rel: Seq<char>) -> Option<Seq<char>> {
    let key = (prim + seq!['.'] + rel, FieldKey::TargetPaths);
    if crate::laws::given::is_prim(prim) && crate::laws::given::is_plain(rel)
        && s.links.contains_key(key) {
        match s.links[key] {
            Ok(v) => if v.len() == 0 {
                None
            } else {
                Some(v[0])
            },
            Err(_) => None,
        }
    } else {
        None
    }
}

/// The first target of a relationship is the first of the paths that were recorded for it.
pub proof fn law_first_target(s: StageView, prim: Seq<char>, rel: Seq<char>)
    ensures
        s.first_target(prim, rel) == own_target(s, prim, rel),
{
    lemma_property(prim, rel);
}

/// A path has the target of its own where it has one, and what the path above it has where it has
/// none. A path with nothing above it, such as that of a prim right under the root, has its own or
/// none.
pub proof fn law_inherited_target(
    s: StageView,
    prim: Seq<char>,
    name: Seq<char>,
    rel: Seq<char>,
)
    requires
        prim.len() > 0,
        forall|i: int| 0 <= i < name.len() ==> name[i] != '/',
    ensures
        ({
            let child = prim + seq!['/'] + name;
            &&& own_target(s, child, rel) is Some ==> s.inherited_target(child, rel) == own_target(
                s,
                child,
                rel,
            )
            &&& own_target(s, child, rel) is None ==> s.inherited_target(child, rel)
                == s.inherited_target(prim, rel)
        }),
        s.inherited_target(seq!['/'] + name, rel) == own_target(s, seq!['/'] + name, rel),
        s.inherited_target(name, rel) == own_target(s, name, rel),
{
    let child = prim + seq!['/'] + name;
    let top = seq!['/'] + name;
    crate::laws::path::law_parent(prim, name);
    law_first_target(s, child, rel);
    law_first_target(s, top, rel);
    law_first_target(s, name, rel);
    crate::binding::lemma_inherited_step(s, child, rel);
    crate::binding::lemma_inherited_step(s, top, rel);
    crate::binding::lemma_inherited_step(s, name, rel);
}

/// The paths from a prim upwards: first the prim itself, then those from the one above it.
pub proof fn law_ancestry(prim: Seq<char>, name: Seq<char>)
    requires
        prim.len() > 0,
        forall|i: int| 0 <= i < name.len() ==> name[i] != '/',
    ensures
        crate::binding::ancestry(prim + seq!['/'] + name) == seq![prim + seq!['/'] + name]
            + crate::binding::ancestry(prim),
        crate::binding::ancestry(seq!['/'] + name) == seq![seq!['/'] + name],
        crate::binding::ancestry(name) == seq![name],
{
    crate::laws::path::law_parent(prim, name);
}

/// A prim is bound to the first of its own preview targets. Where neither it nor anything above
/// it has one, the full binding counts in the same way, and where there is none of those either,
/// the binding for all purposes.
pub proof fn law_own_binding(s: StageView, path: Seq<char>, m: Seq<char>)
    ensures
        own_target(s, path, "material:binding:preview"@) == Some(m) ==> s.bound_material(path)
            == Some(m),
        s.inherited_target(path, "material:binding:preview"@) is None && own_target(
            s,
            path,
            "material:binding:full"@,
        ) == Some(m) ==> s.bound_material(path) == Some(m),
        s.inherited_target(path, "material:binding:preview"@) is None && s.inherited_target(
            path,
            "material:binding:full"@,
        ) is None && own_target(s, path, "material:binding"@) == Some(m) ==> s.bound_material(path)
            == Some(m),
        s.inherited_target(path, "material:binding:preview"@) is None && s.inherited_target(
            path,
            "material:binding:full"@,
        ) is None && s.inherited_target(path, "material:binding"@) is None ==> s.bound_material(
            path,
        ) is None,
{
    law_first_target(s, path, "material:binding:preview"@);
    law_first_target(s, path, "material:binding:full"@);
    law_first_target(s, path, "material:binding"@);
    crate::binding::lemma_inherited_step(s, path, "material:binding:preview"@);
    crate::binding::lemma_inherited_step(s, path, "material:binding:full"@);
    crate::binding::lemma_inherited_step(s, path, "material:binding"@);
}

/// Two stages with the same targets agree on what is inherited along a row of prims.
pub proof fn lemma_same_target_along(
    s: StageView,
    t: StageView,
    prims: Seq<Seq<char>>,
    rel: Seq<char>,
)
    requires
        forall|p: Seq<char>, r: Seq<char>| #[trigger] s.first_target(p, r) == t.first_target(p, r),
    ensures
        s.target_along(prims, rel) == t.target_along(prims, rel),
    decreases prims.len(),
{
    if prims.len() > 0 {
        assert(s.first_target(prims[0], rel) == t.first_target(prims[0], rel));
        lemma_same_target_along(s, t, prims.drop_first(), rel);
    }
}

/// What is inherited, and so the bound material, hangs on the targets of relationships alone: two
/// stages that agree on them agree on it.
pub proof fn law_binding_hangs_on_targets(
    s: StageView,
    t: StageView,
    path: Seq<char>,
    rel: Seq<char>,
)
    requires
        forall|p: Seq<char>|
            (#[trigger] s.links.contains_key((p, FieldKey::TargetPaths)) <==> t.links.contains_key(
                (p, FieldKey::TargetPaths),
            )) && s.links[(p, FieldKey::TargetPaths)] == t.links[(p, FieldKey::TargetPaths)],
    ensures
        s.inherited_target(path, rel) == t.inherited_target(path, rel),
        s.bound_material(path) == t.bound_material(path),
{
    assert forall|p: Seq<char>, r: Seq<char>| #[trigger] s.first_target(p, r) == t.first_target(
        p,
        r,
    ) by {
        assert(s.links.contains_key((crate::text::dot_joined(p, r), FieldKey::TargetPaths))
            <==> t.links.contains_key((crate::text::dot_joined(p, r), FieldKey::TargetPaths)));
    }
    let row = crate::binding::ancestry(path);
    lemma_same_target_along(s, t, row, rel);
    lemma_same_target_along(s, t, row, "material:binding:preview"@);
    lemma_same_target_along(s, t, row, "material:binding:full"@);
    lemma_same_target_along(s, t, row, "material:binding"@);
}

/// The children of a prim are listed in their order, each under what stands behind the last slash
/// of its path; where nothing was recorded there are none; and an error is handed on.
pub proof fn law_children(
    s: StageView,
    prim: Seq<char>,
    names: Seq<Seq<char>>,
    v: Seq<Seq<char>>,
    e: ErrorView,
)
    requires
        crate::laws::given::is_prim(prim),
        names.len() == v.len(),
        forall|k: int|
            0 <= k < v.len() ==> crate::laws::given::is_plain(#[trigger] names[k]) && v[k] == prim
                + seq!['/'] + names[k],
    ensures
        crate::laws::given::linked(s, prim, FieldKey::PrimChildren, v) ==> s.prim_children(prim)
            == Ok::<Seq<Seq<char>>, ErrorView>(names),
        !s.links.contains_key((prim, FieldKey::PrimChildren)) ==> s.prim_children(prim) == Ok::<
            Seq<Seq<char>>,
            ErrorView,
        >(seq![]),
        s.links.contains_key((prim, FieldKey::PrimChildren)) && s.links[(
            prim,
            FieldKey::PrimChildren,
        )] == Err::<Seq<Seq<char>>, ErrorView>(e) ==> s.prim_children(prim) == Err::<
            Seq<Seq<char>>,
            ErrorView,
        >(e),
{
    assert forall|k: int| 0 <= k < v.len() implies #[trigger] crate::binding::child_names(v)[k]
        == names[k] by {
        crate::laws::path::law_name(prim, names[k]);
    }
    assert(crate::binding::child_names(v) =~= names);
    assert(crate::binding::child_names(Seq::empty()) =~= Seq::<Seq<char>>::empty());
}

/// The children of anything are those that were recorded, by their names; where nothing was
/// recorded there are none, and an error is handed on.
pub proof fn law_children_are_named(s: StageView, path: Seq<char>, v: Seq<Seq<char>>, e: ErrorView)
    ensures
        crate::laws::given::linked(s, path, FieldKey::PrimChildren, v) ==> s.prim_children(path)
            == Ok::<Seq<Seq<char>>, ErrorView>(crate::binding::child_names(v)),
        !s.links.contains_key((path, FieldKey::PrimChildren)) ==> (s.prim_children(
            path,
        ) matches Ok(names) && names.len() == 0),
        s.links.contains_key((path, FieldKey::PrimChildren)) && s.links[(
            path,
            FieldKey::PrimChildren,
        )] == Err::<Seq<Seq<char>>, ErrorView>(e) ==> s.prim_children(path) == Err::<
            Seq<Seq<char>>,
            ErrorView,
        >(e),
{
}

/// There are as many names as children, and the root, which has no name, counts as a nameless one.
pub proof fn law_child_names(v: Seq<Seq<char>>, k: int)
    requires
        0 <= k < v.len(),
    ensures
        crate::binding::child_names(v).len() == v.len(),
        crate::path::name_of(v[k]) matches Some(n) ==> crate::binding::child_names(v)[k] == n,
        v[k] == seq!['/'] ==> crate::binding::child_names(v)[k].len() == 0,
{
}

/// The children of the root are listed under what follows the slash.
pub proof fn law_children_of_the_root(s: StageView, names: Seq<Seq<char>>, v: Seq<Seq<char>>)
    requires
        names.len() == v.len(),
        forall|k: int|
            0 <= k < v.len() ==> crate::laws::given::is_plain(#[trigger] names[k]) && v[k]
                == seq!['/'] + names[k],
        crate::laws::given::linked(s, seq!['/'], FieldKey::PrimChildren, v),
    ensures
        s.prim_children(seq!['/']) == Ok::<Seq<Seq<char>>, ErrorView>(names),
{
    assert forall|k: int| 0 <= k < v.len() implies #[trigger] crate::binding::child_names(v)[k]
        == names[k] by {
        crate::laws::path::law_name(names[k], names[k]);
    }
    assert(crate::binding::child_names(v) =~= names);
}

} // verus!
