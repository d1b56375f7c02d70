//! What is read of a field is what was recorded for it.
use crate::error::{Error, ErrorView};
use crate::laws::given::{lemma_authored, lemma_property};
use crate::num::Single;
use crate::stage::StageView;
use crate::table::{Entry, FieldKey};
use crate::value::Value;
use vstd::prelude::*;

verus! {

/// A field that was recorded with a value has that value; one that was recorded with an error
/// fails with it and has no value; one that was not recorded has none either, and does not fail.
pub proof fn law_field(s: StageView, path: Seq<char>, key: FieldKey, v: Value, e: ErrorView)
    ensures
        crate::laws::given::given(s, path, key, v) ==> s.field(path, key) == Ok::<
            Option<Value>,
            ErrorView,
        >(Some(v)) && s.value(path, key) == Some(v),
        crate::laws::given::refused(s, path, key, e) ==> s.field(path, key) == Err::<
            Option<Value>,
            ErrorView,
        >(e) && s.value(path, key) is None,
        !s.values.contains_key((path, key)) ==> s.field(path, key) == Ok::<
            Option<Value>,
            ErrorView,
        >(None) && s.value(path, key) is None,
{
}

/// A field of paths leads where it was recorded to, first to the first of its paths; where nothing
/// was recorded it leads nowhere; an error is handed on, and leads nowhere.
pub proof fn law_links(
    s: StageView,
    path: Seq<char>,
    key: FieldKey,
    v: Seq<Seq<char>>,
    e: ErrorView,
)
    ensures
        crate::laws::given::linked(s, path, key, v) ==> s.paths(path, key) == Ok::<
            Seq<Seq<char>>,
            ErrorView,
        >(v) && (v.len() > 0 ==> s.first_path(path, key) == Some(v[0])),
        crate::laws::given::unlinked(s, path, key) ==> s.first_path(path, key) is None,
        !s.links.contains_key((path, key)) ==> s.paths(path, key) == Ok::<
            Seq<Seq<char>>,
            ErrorView,
        >(seq![]),
        s.links.contains_key((path, key)) && s.links[(path, key)] == Err::<
            Seq<Seq<char>>,
            ErrorView,
        >(e) ==> s.paths(path, key) == Err::<Seq<Seq<char>>, ErrorView>(e),
{
}

/// What was recorded last for a field is what it answers; what was recorded for the others stays.
pub proof fn law_last_answer(
    entries: Seq<Entry<Value>>,
    new: Entry<Value>,
    path: Seq<char>,
    key: FieldKey,
)
    ensures
        crate::table::answers(Seq::<Entry<Value>>::empty()).len() == 0,
        crate::table::answers(entries.push(new)).contains_key((new.path@, new.key)),
        new.answer matches Ok(v) ==> crate::table::answers(entries.push(new))[(
            new.path@,
            new.key,
        )] == Ok::<Value, ErrorView>(v),
        new.answer matches Err(e) ==> crate::table::answers(entries.push(new))[(
            new.path@,
            new.key,
        )] == Err::<Value, ErrorView>(e@),
        (path, key) != (new.path@, new.key) ==> (crate::table::answers(
            entries.push(new),
        ).contains_key((path, key)) <==> crate::table::answers(entries).contains_key((path, key)))
            && crate::table::answers(entries.push(new))[(path, key)] == crate::table::answers(
            entries,
        )[(path, key)],
{
    assert(entries.push(new).drop_last() =~= entries);
}

/// An attribute has the default value that was recorded for it, none where nothing was recorded,
/// and the error where one was. What cannot have attributes fails as a path that is none.
pub proof fn law_attribute(s: StageView, prim: Seq<char>, name: Seq<char>, v: Value, e: ErrorView)
    ensures
        crate::laws::given::is_prim(prim) && crate::laws::given::is_plain(name) ==> {
            let path = prim + seq!['.'] + name;
            &&& crate::laws::given::given(s, path, FieldKey::Default, v) ==> s.attribute(prim, name)
                == Ok::<Option<Value>, ErrorView>(Some(v))
            &&& crate::laws::given::refused(s, path, FieldKey::Default, e) ==> s.attribute(
                prim,
                name,
            ) == Err::<Option<Value>, ErrorView>(e)
            &&& !s.values.contains_key((path, FieldKey::Default)) ==> s.attribute(prim, name)
                == Ok::<Option<Value>, ErrorView>(None)
        },
        !crate::laws::given::is_prim(prim) || !crate::laws::given::is_plain(name) ==> s.attribute(
            prim,
            name,
        ) == Err::<Option<Value>, ErrorView>(
            ErrorView::InvalidPath { text: prim + seq!['.'] + name },
        ),
{
    lemma_property(prim, name);
}

/// The arrays of an attribute are read from its value: an error of the attribute is handed on,
/// and where it has no value there is no array.
pub proof fn law_arrays(s: StageView, prim: Seq<char>, name: Seq<char>)
    ensures
        match s.attribute(prim, name) {
            Ok(Some(v)) => {
                &&& s.vec3_array(prim, name) == Ok::<Option<Seq<Single>>, ErrorView>(
                    crate::value::flat_vec3(v),
                )
                &&& s.vec2_array(prim, name) == Ok::<Option<Seq<Single>>, ErrorView>(
                    crate::value::flat_vec2(v),
                )
                &&& s.f32_array(prim, name) == Ok::<Option<Seq<Single>>, ErrorView>(
                    crate::value::single_numbers(v),
                )
                &&& s.i32_array(prim, name) == Ok::<Option<Seq<i32>>, ErrorView>(
                    crate::value::signed_numbers(v),
                )
                &&& s.u32_array(prim, name) == Ok::<Option<Seq<u32>>, ErrorView>(
                    crate::value::unsigned_numbers(v),
                )
            },
            Ok(None) => {
                &&& s.vec3_array(prim, name) == Ok::<Option<Seq<Single>>, ErrorView>(None)
                &&& s.vec2_array(prim, name) == Ok::<Option<Seq<Single>>, ErrorView>(None)
                &&& s.f32_array(prim, name) == Ok::<Option<Seq<Single>>, ErrorView>(None)
                &&& s.i32_array(prim, name) == Ok::<Option<Seq<i32>>, ErrorView>(None)
                &&& s.u32_array(prim, name) == Ok::<Option<Seq<u32>>, ErrorView>(None)
            },
            Err(e) => {
                &&& s.vec3_array(prim, name) == Err::<Option<Seq<Single>>, ErrorView>(e)
                &&& s.vec2_array(prim, name) == Err::<Option<Seq<Single>>, ErrorView>(e)
                &&& s.f32_array(prim, name) == Err::<Option<Seq<Single>>, ErrorView>(e)
                &&& s.i32_array(prim, name) == Err::<Option<Seq<i32>>, ErrorView>(e)
                &&& s.u32_array(prim, name) == Err::<Option<Seq<u32>>, ErrorView>(e)
            },
        },
{
}

/// What is read matches what is expected exactly where it is the same array, no array, or the same
/// error.
pub proof fn law_reads(v: Vec<Single>, e: Error, x: Result<Option<Seq<Single>>, ErrorView>)
    ensures
        crate::read::reads(Ok(Some(v)), x) <==> x == Ok::<Option<Seq<Single>>, ErrorView>(Some(v@)),
        crate::read::reads(Ok(None::<Vec<Single>>), x) <==> x == Ok::<
            Option<Seq<Single>>,
            ErrorView,
        >(None),
        crate::read::reads(Err::<Option<Vec<Single>>, Error>(e), x) <==> x == Err::<
            Option<Seq<Single>>,
            ErrorView,
        >(e@),
{
}

/// A text is read where a string, a token or an asset path was recorded, and it is that one.
pub proof fn law_text(s: StageView, path: Seq<char>, key: FieldKey, t: Seq<char>)
    ensures
        s.text(path, key) == Some(t) <==> crate::laws::given::says(s, path, key, t),
{
}

/// The text of an attribute is that of its default value.
pub proof fn law_attribute_text(s: StageView, prim: Seq<char>, name: Seq<char>, t: Seq<char>)
    ensures
        s.attribute_text(prim, name) == Some(t) <==> crate::laws::given::is_prim(prim)
            && crate::laws::given::is_plain(name) && crate::laws::given::says(
            s,
            prim + seq!['.'] + name,
            FieldKey::Default,
            t,
        ),
{
    lemma_property(prim, name);
}

/// The inputs of a shader and the lists of texts are read from the default value alone.
pub proof fn law_inputs(s: StageView, prim: Seq<char>, name: Seq<char>)
    ensures
        match crate::laws::given::authored(s, prim, name, FieldKey::Default) {
            Some(v) => {
                &&& s.float_input(prim, name) == crate::value::one_single(v)
                &&& s.vec3_input(prim, name) == crate::value::one_vec3(v)
                &&& s.texts(prim, name) == crate::value::texts_of(v)
            },
            None => {
                &&& s.float_input(prim, name) is None
                &&& s.vec3_input(prim, name) is None
                &&& s.texts(prim, name) is None
            },
        },
{
    lemma_authored(s, prim, name, FieldKey::Default);
}

/// The size of an element is the positive integer, signed or not, that was recorded for it; zero,
/// a negative number and everything else leave it open.
pub proof fn law_element_size(s: StageView, prim: Seq<char>, name: Seq<char>, n: usize)
    ensures
        s.element_size(prim, name) == Some(n) <==> n > 0 && match crate::laws::given::authored(
            s,
            prim,
            name,
            FieldKey::ElementSize,
        ) {
            Some(Value::Int(v)) => v == n,
            Some(Value::Uint(v)) => v == n,
            _ => false,
        },
{
    lemma_authored(s, prim, name, FieldKey::ElementSize);
}

/// The time samples of an attribute are those that were recorded for it, all of them and in their
/// order.
pub proof fn law_time_samples(s: StageView, prim: Seq<char>, name: Seq<char>)
    ensures
        match crate::laws::given::authored(s, prim, name, FieldKey::TimeSamples) {
            Some(Value::TimeSamples(v)) => s.time_samples(prim, name) == Some(v@),
            _ => s.time_samples(prim, name) is None,
        },
{
    lemma_authored(s, prim, name, FieldKey::TimeSamples);
}

} // verus!
