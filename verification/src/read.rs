//! Reading the fields of a stage as text and as numbers.
use crate::error::{Error, ErrorView};
use crate::num::Single;
use crate::path::Path;
use crate::stage::{Stage, StageView};
use crate::table::FieldKey;
use crate::value::{
    flatten_vec2_value, flatten_vec3_value, float_value, signed_value, single_value, text_value,
    texts_value, unsigned_value, vec3_value, TimeSample, Value,
};
use vstd::prelude::*;

verus! {

/// Whether an array was read as the model says.
pub open spec fn reads<T>(
    r: Result<Option<Vec<T>>, Error>,
    expected: Result<Option<Seq<T>>, ErrorView>,
) -> bool {
    match r {
        Ok(Some(v)) => expected == Ok::<Option<Seq<T>>, ErrorView>(Some(v@)),
        Ok(None) => expected == Ok::<Option<Seq<T>>, ErrorView>(None),
        Err(e) => expected == Err::<Option<Seq<T>>, ErrorView>(e@),
    }
}

impl StageView {
    /// What an attribute of a prim answers outside of any time. A prim path that cannot have the
    /// attribute makes no path.
    pub open spec fn attribute(self, prim: Seq<char>, name: Seq<char>) -> Result<
        Option<Value>,
        ErrorView,
    > {
        match crate::path::property(prim, name) {
            Some(p) => self.field(p, FieldKey::Default),
            None => Err(ErrorView::InvalidPath { text: crate::text::dot_joined(prim, name) }),
        }
    }

    /// The value of a field of a property of a prim, where it has one that can be had.
    pub open spec fn property_value(
        self,
        prim: Seq<char>,
        name: Seq<char>,
        key: FieldKey,
    ) -> Option<Value> {
        match crate::path::property(prim, name) {
            Some(p) => self.value(p, key),
            None => None,
        }
    }

    /// The text of a field, where it holds one that can be had.
    pub open spec fn text(self, path: Seq<char>, key: FieldKey) -> Option<Seq<char>> {
        match self.value(path, key) {
            Some(v) => crate::value::text_of(v),
            None => None,
        }
    }

    /// The text of an attribute of a prim, where it holds one that can be had.
    pub open spec fn attribute_text(self, prim: Seq<char>, name: Seq<char>) -> Option<Seq<char>> {
        match crate::path::property(prim, name) {
            Some(p) => self.text(p, FieldKey::Default),
            None => None,
        }
    }

    /// An attribute as triples, flattened.
    pub open spec fn vec3_array(self, prim: Seq<char>, name: Seq<char>) -> Result<
        Option<Seq<Single>>,
        ErrorView,
    > {
        match self.attribute(prim, name) {
            Ok(Some(v)) => Ok(crate::value::flat_vec3(v)),
            Ok(None) => Ok(None),
            Err(e) => Err(e),
        }
    }

    /// An attribute as pairs, flattened.
    pub open spec fn vec2_array(self, prim: Seq<char>, name: Seq<char>) -> Result<
        Option<Seq<Single>>,
        ErrorView,
    > {
        match self.attribute(prim, name) {
            Ok(Some(v)) => Ok(crate::value::flat_vec2(v)),
            Ok(None) => Ok(None),
            Err(e) => Err(e),
        }
    }

    /// An attribute as signed whole numbers.
    pub open spec fn i32_array(self, prim: Seq<char>, name: Seq<char>) -> Result<
        Option<Seq<i32>>,
        ErrorView,
    > {
        match self.attribute(prim, name) {
            Ok(Some(v)) => Ok(crate::value::signed_numbers(v)),
            Ok(None) => Ok(None),
            Err(e) => Err(e),
        }
    }

    /// An attribute as unsigned whole numbers.
    pub open spec fn u32_array(self, prim: Seq<char>, name: Seq<char>) -> Result<
        Option<Seq<u32>>,
        ErrorView,
    > {
        match self.attribute(prim, name) {
            Ok(Some(v)) => Ok(crate::value::unsigned_numbers(v)),
            Ok(None) => Ok(None),
            Err(e) => Err(e),
        }
    }

    /// An attribute as single-precision numbers.
    pub open spec fn f32_array(self, prim: Seq<char>, name: Seq<char>) -> Result<
        Option<Seq<Single>>,
        ErrorView,
    > {
        match self.attribute(prim, name) {
            Ok(Some(v)) => Ok(crate::value::single_numbers(v)),
            Ok(None) => Ok(None),
            Err(e) => Err(e),
        }
    }

    /// How many numbers of an attribute belong together, where that is known and not zero.
    pub open spec fn element_size(self, prim: Seq<char>, name: Seq<char>) -> Option<usize> {
        match self.property_value(prim, name, FieldKey::ElementSize) {
            Some(Value::Int(v)) => if v > 0 {
                Some(v as usize)
            } else {
                None
            },
            Some(Value::Uint(v)) => if v > 0 {
                Some(v as usize)
            } else {
                None
            },
            _ => None,
        }
    }

    /// An attribute as a number.
    pub open spec fn float_input(self, prim: Seq<char>, name: Seq<char>) -> Option<Single> {
        match self.property_value(prim, name, FieldKey::Default) {
            Some(v) => crate::value::one_single(v),
            None => None,
        }
    }

    /// An attribute as one triple.
    pub open spec fn vec3_input(self, prim: Seq<char>, name: Seq<char>) -> Option<Seq<Single>> {
        match self.property_value(prim, name, FieldKey::Default) {
            Some(v) => crate::value::one_vec3(v),
            None => None,
        }
    }

    /// An attribute as texts.
    pub open spec fn texts(self, prim: Seq<char>, name: Seq<char>) -> Option<Seq<Seq<char>>> {
        match self.property_value(prim, name, FieldKey::Default) {
            Some(v) => crate::value::texts_of(v),
            None => None,
        }
    }

    /// The values of an attribute over time.
    pub open spec fn time_samples(self, prim: Seq<char>, name: Seq<char>) -> Option<
        Seq<TimeSample>,
    > {
        match self.property_value(prim, name, FieldKey::TimeSamples) {
            Some(Value::TimeSamples(v)) => Some(v@),
            _ => None,
        }
    }
}

/// What an attribute of a prim answers outside of any time.
pub fn read_attr<'a>(stage: &'a Stage, prim_path: &Path, name: &str) -> (r: Result<
    Option<&'a Value>,
    Error,
>)
    ensures
        match r {
            Ok(Some(v)) => stage@.attribute(prim_path@, name@) == Ok::<Option<Value>, ErrorView>(
                Some(*v),
            ),
            Ok(None) => stage@.attribute(prim_path@, name@) == Ok::<Option<Value>, ErrorView>(None),
            Err(e) => stage@.attribute(prim_path@, name@) == Err::<Option<Value>, ErrorView>(e@),
        },
{
    match prim_path.append_property(name) {
        Ok(p) => stage.field(&p, FieldKey::Default),
        Err(e) => Err(e),
    }
}

/// The value of a field of a property of a prim, where it has one that can be had.
pub fn read_property<'a>(stage: &'a Stage, prim_path: &Path, name: &str, key: FieldKey) -> (r:
    Option<&'a Value>)
    ensures
        match r {
            Some(v) => stage@.property_value(prim_path@, name@, key) == Some(*v),
            None => stage@.property_value(prim_path@, name@, key) is None,
        },
{
    match prim_path.append_property(name) {
        Ok(p) => stage.value(&p, key),
        Err(_) => None,
    }
}

/// Reads an attribute as triples, flattened.
pub fn read_vec3_array(stage: &Stage, prim_path: &Path, name: &str) -> (r: Result<
    Option<Vec<Single>>,
    Error,
>)
    ensures
        reads(r, stage@.vec3_array(prim_path@, name@)),
{
    match read_attr(stage, prim_path, name) {
        Ok(Some(v)) => Ok(flatten_vec3_value(v)),
        Ok(None) => Ok(None),
        Err(e) => Err(e),
    }
}

/// Reads an attribute as pairs, flattened.
pub fn read_vec2_array(stage: &Stage, prim_path: &Path, name: &str) -> (r: Result<
    Option<Vec<Single>>,
    Error,
>)
    ensures
        reads(r, stage@.vec2_array(prim_path@, name@)),
{
    match read_attr(stage, prim_path, name) {
        Ok(Some(v)) => Ok(flatten_vec2_value(v)),
        Ok(None) => Ok(None),
        Err(e) => Err(e),
    }
}

/// Reads an attribute as signed whole numbers.
pub fn read_i32_array(stage: &Stage, prim_path: &Path, name: &str) -> (r: Result<
    Option<Vec<i32>>,
    Error,
>)
    ensures
        reads(r, stage@.i32_array(prim_path@, name@)),
{
    match read_attr(stage, prim_path, name) {
        Ok(Some(v)) => Ok(signed_value(v)),
        Ok(None) => Ok(None),
        Err(e) => Err(e),
    }
}

/// Reads an attribute as unsigned whole numbers.
pub fn read_u32_array(stage: &Stage, prim_path: &Path, name: &str) -> (r: Result<
    Option<Vec<u32>>,
    Error,
>)
    ensures
        reads(r, stage@.u32_array(prim_path@, name@)),
{
    match read_attr(stage, prim_path, name) {
        Ok(Some(v)) => Ok(unsigned_value(v)),
        Ok(None) => Ok(None),
        Err(e) => Err(e),
    }
}

/// Reads an attribute as single-precision numbers.
pub fn read_f32_array(stage: &Stage, prim_path: &Path, name: &str) -> (r: Result<
    Option<Vec<Single>>,
    Error,
>)
    ensures
        reads(r, stage@.f32_array(prim_path@, name@)),
{
    match read_attr(stage, prim_path, name) {
        Ok(Some(v)) => Ok(single_value(v)),
        Ok(None) => Ok(None),
        Err(e) => Err(e),
    }
}

/// Reads how many numbers of an attribute belong together.
pub fn read_element_size(stage: &Stage, prim_path: &Path, name: &str) -> (r: Option<usize>)
    ensures
        r == stage@.element_size(prim_path@, name@),
{
    match read_property(stage, prim_path, name, FieldKey::ElementSize) {
        Some(Value::Int(v)) => if *v > 0 {
            Some(*v as usize)
        } else {
            None
        },
        Some(Value::Uint(v)) => if *v > 0 {
            Some(*v as usize)
        } else {
            None
        },
        _ => None,
    }
}

/// Reads the text of a field.
pub fn read_string_field(stage: &Stage, path: &Path, key: FieldKey) -> (r: Option<String>)
    ensures
        match r {
            Some(t) => stage@.text(path@, key) == Some(t@),
            None => stage@.text(path@, key) is None,
        },
{
    match stage.value(path, key) {
        Some(v) => text_value(v),
        None => None,
    }
}

/// Reads the text of an attribute.
pub fn read_string_attr(stage: &Stage, prim_path: &Path, name: &str) -> (r: Option<String>)
    ensures
        match r {
            Some(t) => stage@.attribute_text(prim_path@, name@) == Some(t@),
            None => stage@.attribute_text(prim_path@, name@) is None,
        },
{
    match prim_path.append_property(name) {
        Ok(p) => read_string_field(stage, &p, FieldKey::Default),
        Err(_) => None,
    }
}

/// Whether a field holds a given text.
pub fn field_is(stage: &Stage, path: &Path, key: FieldKey, expected: &str) -> (r: bool)
    ensures
        r == (stage@.text(path@, key) == Some(expected@)),
{
    match read_string_field(stage, path, key) {
        Some(t) => crate::text::same(t.as_str(), expected),
        None => false,
    }
}

/// Reads an attribute as a number.
pub fn read_float_input(stage: &Stage, shader_path: &Path, input_name: &str) -> (r: Option<Single>)
    ensures
        r == stage@.float_input(shader_path@, input_name@),
{
    match read_property(stage, shader_path, input_name, FieldKey::Default) {
        Some(v) => float_value(v),
        None => None,
    }
}

/// Reads an attribute as one triple.
pub fn read_vec3_input(stage: &Stage, shader_path: &Path, input_name: &str) -> (r: Option<
    [Single; 3],
>)
    ensures
        match r {
            Some(v) => stage@.vec3_input(shader_path@, input_name@) == Some(v@),
            None => stage@.vec3_input(shader_path@, input_name@) is None,
        },
{
    match read_property(stage, shader_path, input_name, FieldKey::Default) {
        Some(v) => vec3_value(v),
        None => None,
    }
}

/// Reads an attribute as texts.
pub fn read_string_vec_attr(stage: &Stage, prim_path: &Path, name: &str) -> (r: Option<Vec<String>>)
    ensures
        match r {
            Some(v) => stage@.texts(prim_path@, name@) == Some(crate::value::texts(v@)),
            None => stage@.texts(prim_path@, name@) is None,
        },
{
    match read_property(stage, prim_path, name, FieldKey::Default) {
        Some(v) => texts_value(v),
        None => None,
    }
}

/// Reads the values of an attribute over time.
pub fn read_time_samples<'a>(stage: &'a Stage, prim_path: &Path, name: &str) -> (r: Option<
    &'a Vec<TimeSample>,
>)
    ensures
        match r {
            Some(v) => stage@.time_samples(prim_path@, name@) == Some(v@),
            None => stage@.time_samples(prim_path@, name@) is None,
        },
{
    match read_property(stage, prim_path, name, FieldKey::TimeSamples) {
        Some(Value::TimeSamples(v)) => Some(v),
        _ => None,
    }
}

} // verus!
