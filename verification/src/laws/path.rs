//! What paths are, and how they are taken apart and put together.
use crate::laws::given::{lemma_child, lemma_is_plain, lemma_is_prim, lemma_property};
use crate::stage::StageView;
use crate::table::FieldKey;
use vstd::prelude::*;

verus! {

/// The root, a prim, and a prim with the name of a property are paths; every path is one of
/// these.
pub proof fn law_paths(s: Seq<char>, prim: Seq<char>, name: Seq<char>)
    requires
        crate::laws::given::is_prim(prim),
        crate::laws::given::is_plain(name),
    ensures
        crate::path::is_path_text(seq!['/']),
        crate::path::is_path_text(prim),
        crate::path::is_path_text(crate::laws::given::at(prim, name)),
        crate::path::is_path_text(s) ==> s == seq!['/'] || crate::laws::given::is_prim(s)
            || exists|p: Seq<char>, n: Seq<char>|
            crate::laws::given::is_prim(p) && crate::laws::given::is_plain(n) && s
                == #[trigger] crate::laws::given::at(p, n),
{
    let root = seq!['/'];
    assert(root[0] == '/' && root.len() == 1);
    assert(!root.contains('.'));
    lemma_is_prim(root);
    lemma_is_prim(prim);
    lemma_is_prim(s);
    assert(!prim.contains('.'));
    lemma_property(prim, name);
    lemma_is_plain(name);
    crate::path::lemma_property_is_path(prim, name);
    if crate::path::is_path_text(s) && s.contains('.') {
        let k = crate::text::first_index(s, '.');
        crate::text::lemma_first_index(s, '.');
        let p = s.take(k);
        let n = s.skip(k + 1);
        lemma_is_prim(p);
        lemma_is_plain(n);
        assert(s =~= crate::laws::given::at(p, n));
    }
}

/// A prim has a property of every name, and its path is that of the prim, a dot and the name.
/// The root has none, nor has a property, nor is there one of a name that is none.
pub proof fn law_property(prim: Seq<char>, name: Seq<char>)
    ensures
        crate::laws::given::is_prim(prim) && crate::laws::given::is_plain(name)
            ==> crate::path::property(prim, name) == Some(prim + seq!['.'] + name),
        !crate::laws::given::is_prim(prim) || !crate::laws::given::is_plain(name)
            ==> crate::path::property(prim, name) is None,
{
    lemma_property(prim, name);
}

/// Above a path that ends in a slash and a name stands what is left without them; a path with no
/// slash, or with none but the first, has nothing above it.
pub proof fn law_parent(above: Seq<char>, name: Seq<char>)
    requires
        above.len() > 0,
        forall|i: int| 0 <= i < name.len() ==> name[i] != '/',
    ensures
        crate::path::parent(above + seq!['/'] + name) == Some(above),
        crate::path::parent(seq!['/'] + name) is None,
        crate::path::parent(name) is None,
        crate::path::holder(above + seq!['/'] + name) == above,
        crate::path::holder(seq!['/'] + name) == seq!['/'],
        crate::path::holder(name) == seq!['/'],
{
    assert(!name.contains('/'));
    crate::laws::law_parent_of_child(above, name);
    assert(crate::text::slash_joined(above, name) =~= above + seq!['/'] + name);
    let t = seq!['/'] + name;
    assert(t[0] == '/');
    assert forall|j: int| 0 < j < t.len() implies t[j] != '/' by {
        assert(t[j] == name[j - 1]);
    }
    crate::text::lemma_last_index_is(t, '/', 0);
    crate::text::lemma_last_index(name, '/');
}

/// A child of a prim has the path of the prim, a slash and its name. In general there is a child
/// exactly where putting them together makes a path.
pub proof fn law_child(prim: Seq<char>, name: Seq<char>)
    ensures
        crate::laws::given::is_prim(prim) && crate::laws::given::is_plain(name)
            ==> crate::path::child(prim, name) == Some(prim + seq!['/'] + name),
        crate::path::is_path_text(prim + seq!['/'] + name) <==> crate::path::child(
            prim,
            name,
        ) is Some,
        crate::path::child(prim, name) matches Some(p) ==> p == prim + seq!['/'] + name,
{
    lemma_child(prim, name);
}

/// A child and a property are named by what was put behind the slash or the dot; a prim under the
/// root by what follows the slash; the root has no name.
pub proof fn law_name(prim: Seq<char>, name: Seq<char>)
    requires
        crate::laws::given::is_prim(prim),
        crate::laws::given::is_plain(name),
    ensures
        crate::path::name_of(prim + seq!['/'] + name) == Some(name),
        crate::path::name_of(prim + seq!['.'] + name) == Some(name),
        crate::path::name_of(seq!['/'] + name) == Some(name),
        crate::path::name_of(name) == Some(name),
        crate::path::name_of(seq!['/']) is None,
{
    let n = prim.len() as int;
    let root = seq!['/'];
    let a = prim + seq!['/'] + name;
    let b = prim + seq!['.'] + name;
    let c = root + name;
    lemma_is_prim(prim);
    lemma_child(prim, name);
    assert(crate::laws::given::is_prim(a));
    assert(!a.contains('.'));
    assert(a.len() >= 2 && b.len() >= 2 && c.len() >= 2 && root.len() == 1);
    assert forall|j: int| n < j < a.len() implies a[j] != '/' by {
        assert(a[j] == name[j - n - 1]);
    }
    assert(a[n] == '/');
    crate::text::lemma_last_index_is(a, '/', n);
    assert(a.skip(n + 1) =~= name);
    assert(b[n] == '.');
    assert forall|j: int| 0 <= j < n implies b[j] != '.' by {
        assert(b[j] == prim[j]);
    }
    assert(b.contains('.'));
    crate::text::lemma_first_index_is(b, '.', n);
    assert(b.skip(n + 1) =~= name);
    assert(c[0] == '/');
    assert forall|j: int| 0 < j < c.len() implies c[j] != '/' && c[j] != '.' by {
        assert(c[j] == name[j - 1]);
    }
    assert(!c.contains('.'));
    crate::text::lemma_last_index_is(c, '/', 0);
    assert(c.skip(1) =~= name);
    assert(!name.contains('.'));
    crate::text::lemma_last_index(name, '/');
    if name == root {
        assert(name[0] == '/');
    }
}

/// The prim that a property belongs to is what stands before the dot; that of a prim is the prim.
pub proof fn law_prim_part(prim: Seq<char>, name: Seq<char>)
    requires
        forall|i: int| 0 <= i < prim.len() ==> prim[i] != '.',
    ensures
        crate::path::prim_part(prim) == prim,
        crate::path::prim_part(prim + seq!['.'] + name) == prim,
{
    let b = prim + seq!['.'] + name;
    let n = prim.len() as int;
    assert(b[n] == '.');
    assert forall|j: int| 0 <= j < n implies b[j] != '.' by {
        assert(b[j] == prim[j]);
    }
    crate::text::lemma_first_index_is(b, '.', n);
    assert(b.take(n) =~= prim);
    crate::text::lemma_first_index(prim, '.');
    assert(prim.take(n) =~= prim);
}

/// A path lies within another where it is the same, or the other followed by a slash.
pub proof fn law_within(s: Seq<char>, top: Seq<char>)
    ensures
        crate::path::is_within(s, top) <==> s == top || exists|rest: Seq<char>|
            s == #[trigger] (top + seq!['/'] + rest),
{
    let n = top.len() as int;
    if crate::path::is_within(s, top) && s != top {
        let rest = s.skip(n + 1);
        assert(s =~= top + seq!['/'] + rest);
    }
    if exists|rest: Seq<char>| s == #[trigger] (top + seq!['/'] + rest) {
        let rest = choose|rest: Seq<char>| s == #[trigger] (top + seq!['/'] + rest);
        assert(s.take(n) =~= top);
        assert(s[n] == '/');
    }
}

/// A text holds a variable exactly where a dollar sign is followed by an opening brace.
pub proof fn law_variable(s: Seq<char>)
    ensures
        crate::text::has_variable(s) <==> exists|a: Seq<char>, b: Seq<char>|
            s == #[trigger] (a + "${"@ + b),
{
    reveal_strlit("${");
    if crate::text::has_variable(s) {
        let i = choose|i: int| 0 <= i < s.len() - 1 && #[trigger] s[i] == '$' && s[i + 1] == '{';
        let a = s.take(i);
        let b = s.skip(i + 2);
        assert(s =~= a + "${"@ + b);
    }
    if exists|a: Seq<char>, b: Seq<char>| s == #[trigger] (a + "${"@ + b) {
        let (a, b) = choose|a: Seq<char>, b: Seq<char>| s == #[trigger] (a + "${"@ + b);
        let i = a.len() as int;
        assert(s[i] == '$' && s[i + 1] == '{');
    }
}

/// A text ends in another exactly where it is something followed by the other.
pub proof fn law_suffix(s: Seq<char>, tail: Seq<char>)
    ensures
        crate::text::is_suffix(s, tail) <==> exists|head: Seq<char>| s == #[trigger] (head + tail),
{
    if crate::text::is_suffix(s, tail) {
        let head = s.take(s.len() - tail.len());
        assert(s =~= head + tail);
    }
    if exists|head: Seq<char>| s == #[trigger] (head + tail) {
        let head = choose|head: Seq<char>| s == #[trigger] (head + tail);
        assert(s.skip(s.len() - tail.len()) =~= tail);
    }
}

/// Where the new prim of a stage is put: the traversal is as before but for the new path, which
/// stands right behind the last path that lies within the prim above it, or at the end where
/// there is none.
pub open spec fn is_put_behind(
    before: Seq<Seq<char>>,
    after: Seq<Seq<char>>,
    path: Seq<char>,
    k: int,
) -> bool {
    let top = crate::path::holder(path);
    &&& 0 <= k <= before.len()
    &&& after.len() == before.len() + 1
    &&& forall|i: int| 0 <= i < k ==> #[trigger] after[i] == before[i]
    &&& after[k] == path
    &&& forall|i: int| k < i < after.len() ==> #[trigger] after[i] == before[i - 1]
    &&& (forall|i: int|
        0 <= i < before.len() ==> !crate::path::is_within(#[trigger] before[i], top)) ==> k
        == before.len()
    &&& (exists|i: int|
        0 <= i < before.len() && crate::path::is_within(#[trigger] before[i], top)) ==> k > 0
        && crate::path::is_within(before[k - 1], top)
    &&& forall|i: int| k <= i < before.len() ==> !crate::path::is_within(#[trigger] before[i], top)
}

/// The place after the last path within another.
proof fn lemma_place(t: Seq<Seq<char>>, top: Seq<char>)
    ensures
        match crate::stage::place_after(t, top) {
            Some(k) => 0 < k <= t.len() && crate::path::is_within(t[k - 1], top) && forall|i: int|
                k <= i < t.len() ==> !crate::path::is_within(#[trigger] t[i], top),
            None => forall|i: int|
                0 <= i < t.len() ==> !crate::path::is_within(#[trigger] t[i], top),
        },
    decreases t.len(),
{
    if t.len() > 0 && !crate::path::is_within(t.last(), top) {
        let rest = t.drop_last();
        lemma_place(rest, top);
        match crate::stage::place_after(t, top) {
            Some(k) => {
                assert(t[k - 1] == rest[k - 1]);
                assert forall|i: int| k <= i < t.len() implies !crate::path::is_within(
                    #[trigger] t[i],
                    top,
                ) by {
                    if i < rest.len() {
                        assert(t[i] == rest[i]);
                    }
                }
            },
            None => {
                assert forall|i: int| 0 <= i < t.len() implies !crate::path::is_within(
                    #[trigger] t[i],
                    top,
                ) by {
                    if i < rest.len() {
                        assert(t[i] == rest[i]);
                    }
                }
            },
        }
    }
}

/// Defining a prim that is visited already changes nothing at all.
pub proof fn law_known_prim(s: StageView, path: Seq<char>)
    requires
        s.traversal.contains(path),
    ensures
        s.with_prim(path) == s,
{
}

/// Defining a prim that is not visited yet puts it behind the prims that lie within the one above
/// it, makes it the last child of that one, and changes nothing else.
pub proof fn law_new_prim(s: StageView, path: Seq<char>, other: Seq<char>, key: FieldKey)
    requires
        !s.traversal.contains(path),
    ensures
        exists|k: int| #[trigger] is_put_behind(s.traversal, s.with_prim(path).traversal, path, k),
        ({
            let top = crate::path::holder(path);
            let t = s.with_prim(path);
            &&& (other, key) != (top, FieldKey::PrimChildren) ==> (t.links.contains_key(
                (other, key),
            ) <==> s.links.contains_key((other, key))) && t.links[(other, key)] == s.links[(
                other,
                key,
            )]
            &&& (s.links.contains_key((top, FieldKey::PrimChildren)) && s.links[(
                top,
                FieldKey::PrimChildren,
            )] is Err) ==> t.links == s.links
            &&& (s.links.contains_key((top, FieldKey::PrimChildren)) && s.links[(
                top,
                FieldKey::PrimChildren,
            )] is Ok) ==> crate::laws::given::linked(
                t,
                top,
                FieldKey::PrimChildren,
                s.links[(top, FieldKey::PrimChildren)]->Ok_0.push(path),
            )
            &&& !s.links.contains_key((top, FieldKey::PrimChildren)) ==> crate::laws::given::linked(
                t,
                top,
                FieldKey::PrimChildren,
                seq![path],
            )
            &&& t.identifier == s.identifier
            &&& t.load == s.load
            &&& t.values == s.values
            &&& t.errors == s.errors
            &&& t.found == s.found
        }),
{
    let top = crate::path::holder(path);
    let t = s.with_prim(path);
    let k = crate::stage::place_under(s.traversal, top);
    lemma_place(s.traversal, top);
    assert(t.traversal == s.traversal.insert(k, path));
    assert(is_put_behind(s.traversal, t.traversal, path, k));
    assert(Seq::<Seq<char>>::empty().push(path) =~= seq![path]);
}

} // verus!
