//! What is given: paths and answers, written out for the laws to speak of.
use crate::error::ErrorView;
use crate::stage::StageView;
use crate::table::FieldKey;
use crate::value::Value;
use vstd::prelude::*;

verus! {

/// A path of a prim other than the root: not empty, without a dot, without two slashes side by
/// side, and without a slash at its end.
pub open spec fn is_prim(s: Seq<char>) -> bool {
    &&& s.len() > 0
    &&& s[s.len() - 1] != '/'
    &&& forall|i: int| 0 <= i < s.len() ==> #[trigger] s[i] != '.'
    &&& forall|i: int| 0 < i < s.len() && #[trigger] s[i] == '/' ==> s[i - 1] != '/'
}

/// A name: not empty, without a dot and without a slash.
pub open spec fn is_plain(s: Seq<char>) -> bool {
    &&& s.len() > 0
    &&& forall|i: int| 0 <= i < s.len() ==> #[trigger] s[i] != '.' && s[i] != '/'
}

/// The path of a property.
pub open spec fn at(prim: Seq<char>, name: Seq<char>) -> Seq<char> {
    prim + seq!['.'] + name
}

/// The path of a child.
pub open spec fn under(prim: Seq<char>, name: Seq<char>) -> Seq<char> {
    prim + seq!['/'] + name
}

/// A field was recorded with a value.
pub open spec fn given(s: StageView, path: Seq<char>, key: FieldKey, v: Value) -> bool {
    s.values.contains_key((path, key)) && s.values[(path, key)] == Ok::<Value, ErrorView>(v)
}

/// A field was recorded with an error.
pub open spec fn refused(s: StageView, path: Seq<char>, key: FieldKey, e: ErrorView) -> bool {
    s.values.contains_key((path, key)) && s.values[(path, key)] == Err::<Value, ErrorView>(e)
}

/// A field has no value that can be had.
pub open spec fn without(s: StageView, path: Seq<char>, key: FieldKey) -> bool {
    s.values.contains_key((path, key)) ==> s.values[(path, key)] is Err
}

/// The value that was recorded for a field of a property of a prim, where there is one.
pub open spec fn authored(
    s: StageView,
    prim: Seq<char>,
    name: Seq<char>,
    key: FieldKey,
) -> Option<Value> {
    if is_prim(prim) && is_plain(name) && s.values.contains_key((at(prim, name), key)) {
        match s.values[(at(prim, name), key)] {
            Ok(v) => Some(v),
            Err(_) => None,
        }
    } else {
        None
    }
}

/// A field of paths was recorded with paths.
pub open spec fn linked(
    s: StageView,
    path: Seq<char>,
    key: FieldKey,
    v: Seq<Seq<char>>,
) -> bool {
    s.links.contains_key((path, key)) && s.links[(path, key)] == Ok::<Seq<Seq<char>>, ErrorView>(v)
}

/// A field of paths leads nowhere: it was not recorded, or with an error, or with no path.
pub open spec fn unlinked(s: StageView, path: Seq<char>, key: FieldKey) -> bool {
    s.links.contains_key((path, key)) ==> (s.links[(path, key)] matches Ok(v) ==> v.len() == 0)
}

/// A field was recorded with a text: as a string, a token or an asset path.
pub open spec fn says(s: StageView, path: Seq<char>, key: FieldKey, t: Seq<char>) -> bool {
    s.values.contains_key((path, key)) && match s.values[(path, key)] {
        Ok(Value::String(x)) => x@ == t,
        Ok(Value::Token(x)) => x@ == t,
        Ok(Value::AssetPath(x)) => x@ == t,
        _ => false,
    }
}

/// Nothing was recorded that makes a field hold a text.
pub open spec fn says_nothing(s: StageView, path: Seq<char>, key: FieldKey) -> bool {
    forall|t: Seq<char>| !says(s, path, key, t)
}

/// A prim path in these words is one that can have properties, and the other way round.
pub proof fn lemma_is_prim(s: Seq<char>)
    ensures
        is_prim(s) <==> crate::path::holds_properties(s),
        is_prim(s) || s == seq!['/'] <==> crate::path::is_prim_text(s),
{
    let root = seq!['/'];
    assert(root.len() == 1 && root[0] == '/' && root.last() == '/');
    assert(!root.contains('.'));
    if is_prim(s) {
        assert forall|i: int| 0 <= i < s.len() - 1 && s[i] == '/' implies #[trigger] s[i + 1]
            != '/' by {
            if s[i + 1] == '/' {
                assert(s[i + 1 - 1] != '/');
            }
        }
    }
    if crate::path::holds_properties(s) {
        assert forall|i: int| 0 <= i < s.len() implies #[trigger] s[i] != '.' by {
            assert(s.contains(s[i]));
        }
        assert forall|i: int| 0 < i < s.len() && #[trigger] s[i] == '/' implies s[i - 1]
            != '/' by {
            assert(s[i - 1 + 1] == '/');
        }
    }
}

/// A name in these words is one.
pub proof fn lemma_is_plain(s: Seq<char>)
    ensures
        is_plain(s) <==> crate::path::is_name(s),
{
    if crate::path::is_name(s) {
        assert forall|i: int| 0 <= i < s.len() implies #[trigger] s[i] != '.' && s[i] != '/' by {
            assert(s.contains(s[i]));
        }
    }
}

/// The path of a property of a prim.
pub proof fn lemma_property(prim: Seq<char>, name: Seq<char>)
    ensures
        crate::path::property(prim, name) == (if is_prim(prim) && is_plain(name) {
            Some(at(prim, name))
        } else {
            None
        }),
        crate::text::dot_joined(prim, name) == at(prim, name),
{
    lemma_is_prim(prim);
    lemma_is_plain(name);
    assert(crate::text::dot_joined(prim, name) =~= at(prim, name));
}

/// The path of a child of a prim.
pub proof fn lemma_child(prim: Seq<char>, name: Seq<char>)
    ensures
        crate::text::slash_joined(prim, name) == under(prim, name),
        is_prim(prim) && is_plain(name) ==> crate::path::child(prim, name) == Some(
            under(prim, name),
        ) && is_prim(under(prim, name)),
{
    let t = under(prim, name);
    assert(crate::text::slash_joined(prim, name) =~= t);
    if is_prim(prim) && is_plain(name) {
        let n = prim.len() as int;
        assert forall|i: int| 0 <= i < t.len() implies #[trigger] t[i] != '.' by {
            if i < n {
                assert(t[i] == prim[i]);
            } else if i > n {
                assert(t[i] == name[i - n - 1]);
            }
        }
        assert forall|i: int| 0 < i < t.len() && #[trigger] t[i] == '/' implies t[i - 1]
            != '/' by {
            if i < n {
                assert(t[i] == prim[i]);
                assert(t[i - 1] == prim[i - 1]);
            } else if i > n {
                assert(t[i] == name[i - n - 1]);
            } else {
                assert(t[i - 1] == prim[n - 1]);
            }
        }
        assert(t[t.len() - 1] == name[name.len() - 1]);
        lemma_is_prim(t);
        assert(!t.contains('.'));
    }
}

/// A field that says a text reads as that text.
pub proof fn lemma_says(s: StageView, path: Seq<char>, key: FieldKey)
    ensures
        match s.text(path, key) {
            Some(t) => says(s, path, key, t) && forall|u: Seq<char>|
                #[trigger] says(s, path, key, u) ==> u == t,
            None => says_nothing(s, path, key),
        },
        forall|t: Seq<char>| #[trigger] says(s, path, key, t) ==> s.text(path, key) == Some(t),
{
}

/// What is read of a property is what was recorded for it.
pub proof fn lemma_authored(s: StageView, prim: Seq<char>, name: Seq<char>, key: FieldKey)
    ensures
        s.property_value(prim, name, key) == authored(s, prim, name, key),
{
    lemma_property(prim, name);
}

/// The names of the attributes and relationships that are read are names.
pub proof fn lemma_names()
    ensures
        is_plain("points"@),
        is_plain("faceVertexIndices"@),
        is_plain("faceVertexCounts"@),
        is_plain("normals"@),
        is_plain("primvars:st"@),
        is_plain("primvars:displayColor"@),
        is_plain("primvars:skel:jointIndices"@),
        is_plain("primvars:skel:jointWeights"@),
        is_plain("elementType"@),
        is_plain("indices"@),
        is_plain("info:id"@),
        is_plain("inputs:file"@),
        is_plain("inputs:wrapS"@),
        is_plain("inputs:wrapT"@),
        is_plain("inputs:diffuseColor"@),
        is_plain("inputs:metallic"@),
        is_plain("inputs:roughness"@),
        is_plain("inputs:opacity"@),
        is_plain("inputs:emissiveColor"@),
        is_plain("material:binding:preview"@),
        is_plain("material:binding:full"@),
        is_plain("material:binding"@),
        is_plain("skel:skeleton"@),
        is_plain("skel:animationSource"@),
        is_plain("joints"@),
        is_plain("bindTransforms"@),
        is_plain("restTransforms"@),
        is_plain("translations"@),
        is_plain("rotations"@),
        is_plain("scales"@),
{
    reveal_strlit("points");
    reveal_strlit("faceVertexIndices");
    reveal_strlit("faceVertexCounts");
    reveal_strlit("normals");
    reveal_strlit("primvars:st");
    reveal_strlit("primvars:displayColor");
    reveal_strlit("primvars:skel:jointIndices");
    reveal_strlit("primvars:skel:jointWeights");
    reveal_strlit("elementType");
    reveal_strlit("indices");
    reveal_strlit("info:id");
    reveal_strlit("inputs:file");
    reveal_strlit("inputs:wrapS");
    reveal_strlit("inputs:wrapT");
    reveal_strlit("inputs:diffuseColor");
    reveal_strlit("inputs:metallic");
    reveal_strlit("inputs:roughness");
    reveal_strlit("inputs:opacity");
    reveal_strlit("inputs:emissiveColor");
    reveal_strlit("material:binding:preview");
    reveal_strlit("material:binding:full");
    reveal_strlit("material:binding");
    reveal_strlit("skel:skeleton");
    reveal_strlit("skel:animationSource");
    reveal_strlit("joints");
    reveal_strlit("bindTransforms");
    reveal_strlit("restTransforms");
    reveal_strlit("translations");
    reveal_strlit("rotations");
    reveal_strlit("scales");
}

} // verus!
