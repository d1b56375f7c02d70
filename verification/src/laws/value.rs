//! What numbers and texts come out of a value, entry by entry, whatever kind of value it is.
use crate::num::{Double, Half};
use crate::value::Value;
use vstd::prelude::*;

verus! {

/// Triples of any precision are flattened entry by entry: the numbers of triple `i` stand at
/// three times `i` and after it, each the number itself, rounded or widened to single precision.
/// A plain array of floats or doubles counts as triples where it comes in threes. Nothing else
/// does.
pub proof fn law_flat_vec3(value: Value, i: int, c: int)
    requires
        0 <= c < 3,
    ensures
        match value {
            Value::Vec3fVec(v) => crate::value::flat_vec3(value) matches Some(r) && r.len() == 3
                * v@.len() && (0 <= i < v@.len() ==> r[3 * i + c] == v@[i]@[c]),
            Value::Vec3dVec(v) => crate::value::flat_vec3(value) matches Some(r) && r.len() == 3
                * v@.len() && (0 <= i < v@.len() ==> r[3 * i + c] == v@[i]@[c].narrowed()),
            Value::Vec3hVec(v) => crate::value::flat_vec3(value) matches Some(r) && r.len() == 3
                * v@.len() && (0 <= i < v@.len() ==> r[3 * i + c] == v@[i]@[c].widened()),
            Value::FloatVec(v) => {
                &&& v@.len() % 3 == 0 ==> crate::value::flat_vec3(value) == Some(v@)
                &&& v@.len() % 3 != 0 ==> crate::value::flat_vec3(value) is None
            },
            Value::DoubleVec(v) => {
                &&& v@.len() % 3 == 0 ==> (crate::value::flat_vec3(value) matches Some(r) && r.len()
                    == v@.len() && (0 <= i < v@.len() ==> r[i] == v@[i].narrowed()))
                &&& v@.len() % 3 != 0 ==> crate::value::flat_vec3(value) is None
            },
            _ => crate::value::flat_vec3(value) is None,
        },
{
    assert((3 * i + c) / 3 == i && (3 * i + c) % 3 == c);
}

/// Pairs of any precision are flattened entry by entry, and a plain array of floats or doubles
/// counts as pairs where it comes in twos. Nothing else does.
pub proof fn law_flat_vec2(value: Value, i: int, c: int)
    requires
        0 <= c < 2,
    ensures
        match value {
            Value::Vec2fVec(v) => crate::value::flat_vec2(value) matches Some(r) && r.len() == 2
                * v@.len() && (0 <= i < v@.len() ==> r[2 * i + c] == v@[i]@[c]),
            Value::Vec2dVec(v) => crate::value::flat_vec2(value) matches Some(r) && r.len() == 2
                * v@.len() && (0 <= i < v@.len() ==> r[2 * i + c] == v@[i]@[c].narrowed()),
            Value::Vec2hVec(v) => crate::value::flat_vec2(value) matches Some(r) && r.len() == 2
                * v@.len() && (0 <= i < v@.len() ==> r[2 * i + c] == v@[i]@[c].widened()),
            Value::FloatVec(v) => {
                &&& v@.len() % 2 == 0 ==> crate::value::flat_vec2(value) == Some(v@)
                &&& v@.len() % 2 != 0 ==> crate::value::flat_vec2(value) is None
            },
            Value::DoubleVec(v) => {
                &&& v@.len() % 2 == 0 ==> (crate::value::flat_vec2(value) matches Some(r) && r.len()
                    == v@.len() && (0 <= i < v@.len() ==> r[i] == v@[i].narrowed()))
                &&& v@.len() % 2 != 0 ==> crate::value::flat_vec2(value) is None
            },
            _ => crate::value::flat_vec2(value) is None,
        },
{
    assert((2 * i + c) / 2 == i && (2 * i + c) % 2 == c);
}

/// Quaternions of any precision are flattened with the real part last; arrays of four numbers
/// keep their order. Nothing else counts as quaternions.
pub proof fn law_flat_quat(value: Value, i: int)
    ensures
        match value {
            Value::QuatfVec(v) => crate::value::flat_quat(value) matches Some(r) && r.len() == 4
                * v@.len() && (0 <= i < v@.len() ==> r[4 * i] == v@[i].x && r[4 * i + 1] == v@[i].y
                && r[4 * i + 2] == v@[i].z && r[4 * i + 3] == v@[i].w),
            Value::QuatdVec(v) => crate::value::flat_quat(value) matches Some(r) && r.len() == 4
                * v@.len() && (0 <= i < v@.len() ==> r[4 * i] == v@[i].x.narrowed() && r[4 * i + 1]
                == v@[i].y.narrowed() && r[4 * i + 2] == v@[i].z.narrowed() && r[4 * i + 3]
                == v@[i].w.narrowed()),
            Value::QuathVec(v) => crate::value::flat_quat(value) matches Some(r) && r.len() == 4
                * v@.len() && (0 <= i < v@.len() ==> r[4 * i] == v@[i].x.widened() && r[4 * i + 1]
                == v@[i].y.widened() && r[4 * i + 2] == v@[i].z.widened() && r[4 * i + 3]
                == v@[i].w.widened()),
            Value::Vec4fVec(v) => crate::value::flat_quat(value) matches Some(r) && r.len() == 4
                * v@.len() && (0 <= i < v@.len() ==> r[4 * i] == v@[i]@[0] && r[4 * i + 1]
                == v@[i]@[1] && r[4 * i + 2] == v@[i]@[2] && r[4 * i + 3] == v@[i]@[3]),
            Value::Vec4dVec(v) => crate::value::flat_quat(value) matches Some(r) && r.len() == 4
                * v@.len() && (0 <= i < v@.len() ==> r[4 * i] == v@[i]@[0].narrowed() && r[4 * i
                + 1] == v@[i]@[1].narrowed() && r[4 * i + 2] == v@[i]@[2].narrowed() && r[4 * i + 3]
                == v@[i]@[3].narrowed()),
            _ => crate::value::flat_quat(value) is None,
        },
{
    assert((4 * i) / 4 == i && (4 * i) % 4 == 0);
    assert((4 * i + 1) / 4 == i && (4 * i + 1) % 4 == 1);
    assert((4 * i + 2) / 4 == i && (4 * i + 2) % 4 == 2);
    assert((4 * i + 3) / 4 == i && (4 * i + 3) % 4 == 3);
}

/// One triple, of any precision or as a plain array of three floats or doubles, gives its three
/// numbers; nothing else does.
pub proof fn law_one_vec3(value: Value, c: int)
    requires
        0 <= c < 3,
    ensures
        match value {
            Value::Vec3f(v) => crate::value::one_vec3(value) matches Some(r) && r.len() == 3 && r[c]
                == v@[c],
            Value::Vec3d(v) => crate::value::one_vec3(value) matches Some(r) && r.len() == 3 && r[c]
                == v@[c].narrowed(),
            Value::Vec3h(v) => crate::value::one_vec3(value) matches Some(r) && r.len() == 3 && r[c]
                == v@[c].widened(),
            Value::FloatVec(v) => {
                &&& v@.len() == 3 ==> crate::value::one_vec3(value) == Some(v@)
                &&& v@.len() != 3 ==> crate::value::one_vec3(value) is None
            },
            Value::DoubleVec(v) => {
                &&& v@.len() == 3 ==> (crate::value::one_vec3(value) matches Some(r) && r.len() == 3
                    && r[c] == v@[c].narrowed())
                &&& v@.len() != 3 ==> crate::value::one_vec3(value) is None
            },
            _ => crate::value::one_vec3(value) is None,
        },
{
}

/// An array of floats is read number for number, an array of doubles or halves with each number
/// brought to single precision; nothing else is an array of numbers.
pub proof fn law_single_numbers(value: Value, i: int)
    ensures
        match value {
            Value::FloatVec(v) => crate::value::single_numbers(value) == Some(v@),
            Value::DoubleVec(v) => crate::value::single_numbers(value) matches Some(r) && r.len()
                == v@.len() && (0 <= i < v@.len() ==> r[i] == v@[i].narrowed()),
            Value::HalfVec(v) => crate::value::single_numbers(value) matches Some(r) && r.len()
                == v@.len() && (0 <= i < v@.len() ==> r[i] == v@[i].widened()),
            _ => crate::value::single_numbers(value) is None,
        },
{
}

/// One number of any precision is read in single precision; nothing else is one.
pub proof fn law_one_single(value: Value)
    ensures
        match value {
            Value::Float(v) => crate::value::one_single(value) == Some(v),
            Value::Double(v) => crate::value::one_single(value) == Some(v.narrowed()),
            Value::Half(v) => crate::value::one_single(value) == Some(v.widened()),
            _ => crate::value::one_single(value) is None,
        },
{
}

/// Signed integers are read as they are. Unsigned ones keep their thirty-two bits: each result
/// differs from its number by nothing or by two to the thirty-second. Nothing else is read.
pub proof fn law_signed_numbers(value: Value, i: int)
    ensures
        match value {
            Value::IntVec(v) => crate::value::signed_numbers(value) == Some(v@),
            Value::UintVec(v) => crate::value::signed_numbers(value) matches Some(r) && r.len()
                == v@.len() && (0 <= i < v@.len() ==> (r[i] == v@[i] || r[i] + 0x1_0000_0000
                == v@[i])),
            _ => crate::value::signed_numbers(value) is None,
        },
{
}

/// Unsigned integers are read as they are, signed ones without the negative ones; nothing else is
/// read.
pub proof fn law_unsigned_numbers(value: Value)
    ensures
        match value {
            Value::UintVec(v) => crate::value::unsigned_numbers(value) == Some(v@),
            Value::IntVec(v) => crate::value::unsigned_numbers(value) == Some(
                crate::value::not_negative(v@),
            ),
            _ => crate::value::unsigned_numbers(value) is None,
        },
{
}

/// What is left of numbers one after the other is what is left of each: a number that is not
/// negative stays, in its place and as often as it comes, and a negative one goes.
pub proof fn law_not_negative_in_order(a: Seq<i32>, b: Seq<i32>, n: i32)
    ensures
        crate::value::not_negative(a + b) == crate::value::not_negative(a)
            + crate::value::not_negative(b),
        n >= 0 ==> crate::value::not_negative(seq![n]).len() == 1 && crate::value::not_negative(
            seq![n],
        )[0] == n,
        n < 0 ==> crate::value::not_negative(seq![n]).len() == 0,
    decreases b.len(),
{
    reveal_with_fuel(crate::value::not_negative, 2);
    if b.len() == 0 {
        assert(a + b =~= a);
    } else {
        law_not_negative_in_order(a, b.drop_last(), n);
        assert((a + b).drop_last() =~= a + b.drop_last());
    }
    assert(seq![n].drop_last() =~= Seq::<i32>::empty());
}

/// What is left of numbers none of which is negative is all of them.
pub proof fn law_nothing_to_leave_out(v: Seq<i32>)
    requires
        forall|i: int| 0 <= i < v.len() ==> v[i] >= 0,
    ensures
        crate::value::not_negative(v).len() == v.len(),
        forall|i: int| 0 <= i < v.len() ==> #[trigger] crate::value::not_negative(v)[i] == v[i],
    decreases v.len(),
{
    if v.len() > 0 {
        law_nothing_to_leave_out(v.drop_last());
    }
}

/// A string, a token and an asset path are texts, and nothing else is; an array of strings or of
/// tokens is an array of as many texts, in the same order, and nothing else is.
pub proof fn law_texts(value: Value, i: int)
    ensures
        match value {
            Value::String(x) => crate::value::text_of(value) == Some(x@),
            Value::Token(x) => crate::value::text_of(value) == Some(x@),
            Value::AssetPath(x) => crate::value::text_of(value) == Some(x@),
            _ => crate::value::text_of(value) is None,
        },
        match value {
            Value::StringVec(v) => crate::value::texts_of(value) matches Some(r) && r.len()
                == v@.len() && (0 <= i < v@.len() ==> r[i] == v@[i]@),
            Value::TokenVec(v) => crate::value::texts_of(value) matches Some(r) && r.len()
                == v@.len() && (0 <= i < v@.len() ==> r[i] == v@[i]@),
            _ => crate::value::texts_of(value) is None,
        },
{
}

} // verus!
