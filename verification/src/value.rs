//! The values that fields hold, and the plain number arrays that they stand for.
use crate::num::{Double, Half, Single};
use crate::path::Path;
use vstd::prelude::*;

verus! {

/// A quaternion: the vector part `x`, `y`, `z` and the scalar part `w`.
#[derive(Copy, Debug, PartialEq)]
pub struct Quat<T> {
    pub w: T,
    pub x: T,
    pub y: T,
    pub z: T,
}

impl<T: Copy> Clone for Quat<T> {
    fn clone(&self) -> (r: Self)
        ensures
            r == *self,
    {
        *self
    }
}

/// How the times of another layer map to this one.
#[derive(Clone, Copy, Debug, PartialEq)]
pub struct LayerOffset {
    pub offset: Double,
    pub scale: Double,
}

/// An arc to a prim in another layer.
#[derive(Debug, PartialEq)]
pub struct Reference {
    pub asset_path: String,
    pub prim_path: Option<Path>,
    pub layer_offset: LayerOffset,
}

/// An arc to a prim in another layer that can be left unloaded.
#[derive(Debug, PartialEq)]
pub struct Payload {
    pub asset_path: String,
    pub prim_path: Option<Path>,
    pub layer_offset: Option<LayerOffset>,
}

/// The model of a [`Reference`].
pub struct ReferenceView {
    pub asset_path: Seq<char>,
    pub prim_path: Option<Seq<char>>,
    pub layer_offset: LayerOffset,
}

/// The model of a [`Payload`].
pub struct PayloadView {
    pub asset_path: Seq<char>,
    pub prim_path: Option<Seq<char>>,
    pub layer_offset: Option<LayerOffset>,
}

/// The text of a path that may be absent.
pub open spec fn path_text(p: Option<Path>) -> Option<Seq<char>> {
    match p {
        Some(p) => Some(p@),
        None => None,
    }
}

impl View for Reference {
    type V = ReferenceView;

    open spec fn view(&self) -> ReferenceView {
        ReferenceView {
            asset_path: self.asset_path@,
            prim_path: path_text(self.prim_path),
            layer_offset: self.layer_offset,
        }
    }
}

impl View for Payload {
    type V = PayloadView;

    open spec fn view(&self) -> PayloadView {
        PayloadView {
            asset_path: self.asset_path@,
            prim_path: path_text(self.prim_path),
            layer_offset: self.layer_offset,
        }
    }
}

/// Copies a path that may be absent.
pub fn copy_path(p: &Option<Path>) -> (r: Option<Path>)
    ensures
        path_text(r) == path_text(*p),
{
    match p {
        Some(p) => Some(p.clone()),
        None => None,
    }
}

impl Clone for Reference {
    fn clone(&self) -> (r: Self)
        ensures
            r@ == self@,
    {
        Reference {
            asset_path: self.asset_path.clone(),
            prim_path: copy_path(&self.prim_path),
            layer_offset: self.layer_offset,
        }
    }
}

impl Clone for Payload {
    fn clone(&self) -> (r: Self)
        ensures
            r@ == self@,
    {
        Payload {
            asset_path: self.asset_path.clone(),
            prim_path: copy_path(&self.prim_path),
            layer_offset: self.layer_offset,
        }
    }
}

/// The models of several references.
pub open spec fn reference_views(v: Seq<Reference>) -> Seq<ReferenceView> {
    v.map_values(|r: Reference| r@)
}

/// The models of several payloads.
pub open spec fn payload_views(v: Seq<Payload>) -> Seq<PayloadView> {
    v.map_values(|p: Payload| p@)
}

/// Copies references.
pub fn copy_references(v: &Vec<Reference>) -> (r: Vec<Reference>)
    ensures
        reference_views(r@) == reference_views(v@),
{
    let mut r: Vec<Reference> = Vec::new();
    let mut i: usize = 0;
    while i < v.len()
        invariant
            i <= v.len(),
            reference_views(r@) == reference_views(v@).take(i as int),
        decreases v.len() - i,
    {
        let ghost before = r@;
        r.push(v[i].clone());
        i += 1;
        assert(reference_views(r@) =~= reference_views(before).push(v@[i - 1]@));
    }
    assert(reference_views(v@).take(i as int) =~= reference_views(v@));
    r
}

/// Copies payloads.
pub fn copy_payloads(v: &Vec<Payload>) -> (r: Vec<Payload>)
    ensures
        payload_views(r@) == payload_views(v@),
{
    let mut r: Vec<Payload> = Vec::new();
    let mut i: usize = 0;
    while i < v.len()
        invariant
            i <= v.len(),
            payload_views(r@) == payload_views(v@).take(i as int),
        decreases v.len() - i,
    {
        let ghost before = r@;
        r.push(v[i].clone());
        i += 1;
        assert(payload_views(r@) =~= payload_views(before).push(v@[i - 1]@));
    }
    assert(payload_views(v@).take(i as int) =~= payload_views(v@));
    r
}

/// A value at a time.
#[derive(Debug, PartialEq)]
pub struct TimeSample {
    pub time: Double,
    pub value: Value,
}

/// A value of a field. A list operation is held as the items that it lists, in order.
#[derive(Debug, PartialEq)]
pub enum Value {
    Token(String),
    String(String),
    AssetPath(String),
    Bool(bool),
    Int(i32),
    Uint(u32),
    Half(Half),
    Float(Single),
    Double(Double),
    IntVec(Vec<i32>),
    UintVec(Vec<u32>),
    HalfVec(Vec<Half>),
    FloatVec(Vec<Single>),
    DoubleVec(Vec<Double>),
    Vec2hVec(Vec<[Half; 2]>),
    Vec2fVec(Vec<[Single; 2]>),
    Vec2dVec(Vec<[Double; 2]>),
    Vec3h([Half; 3]),
    Vec3f([Single; 3]),
    Vec3d([Double; 3]),
    Vec3hVec(Vec<[Half; 3]>),
    Vec3fVec(Vec<[Single; 3]>),
    Vec3dVec(Vec<[Double; 3]>),
    Vec4fVec(Vec<[Single; 4]>),
    Vec4dVec(Vec<[Double; 4]>),
    QuathVec(Vec<Quat<Half>>),
    QuatfVec(Vec<Quat<Single>>),
    QuatdVec(Vec<Quat<Double>>),
    Matrix4dVec(Vec<[Double; 16]>),
    StringVec(Vec<String>),
    TokenVec(Vec<String>),
    ReferenceListOp(Vec<Reference>),
    Payload(Payload),
    PayloadListOp(Vec<Payload>),
    TimeSamples(Vec<TimeSample>),
    /// A value of any other type.
    Other,
}

/// The components of pairs, one pair after the other.
pub open spec fn pairs<T>(v: Seq<[T; 2]>) -> Seq<T> {
    Seq::new(2 * v.len(), |i: int| v[i / 2]@[i % 2])
}

/// The components of triples, one triple after the other.
pub open spec fn triples<T>(v: Seq<[T; 3]>) -> Seq<T> {
    Seq::new(3 * v.len(), |i: int| v[i / 3]@[i % 3])
}

/// The components of quadruples, one quadruple after the other.
pub open spec fn quadruples<T>(v: Seq<[T; 4]>) -> Seq<T> {
    Seq::new(4 * v.len(), |i: int| v[i / 4]@[i % 4])
}

/// The components of a quaternion, the scalar part last.
pub open spec fn quat_components<T>(q: Quat<T>) -> Seq<T> {
    seq![q.x, q.y, q.z, q.w]
}

/// The components of quaternions, one quaternion after the other.
pub open spec fn quats<T>(v: Seq<Quat<T>>) -> Seq<T> {
    Seq::new(4 * v.len(), |i: int| quat_components(v[i / 4])[i % 4])
}

/// Doubles, each rounded to single precision.
pub open spec fn narrowed(s: Seq<Double>) -> Seq<Single> {
    s.map_values(|d: Double| d.narrowed())
}

/// Halves, each in single precision.
pub open spec fn widened(s: Seq<Half>) -> Seq<Single> {
    s.map_values(|h: Half| h.widened())
}

/// Lists the components of pairs.
fn list_pairs<T: Copy>(v: &Vec<[T; 2]>) -> (r: Vec<T>)
    ensures
        r@ == pairs(v@),
{
    let mut r: Vec<T> = Vec::new();
    let mut i: usize = 0;
    while i < v.len()
        invariant
            i <= v.len(),
            r@ == pairs(v@.take(i as int)),
        decreases v.len() - i,
    {
        let e = v[i];
        r.push(e[0]);
        r.push(e[1]);
        i += 1;
        assert(r@ =~= pairs(v@.take(i as int)));
    }
    assert(v@.take(i as int) =~= v@);
    r
}

/// Lists the components of triples.
fn list_triples<T: Copy>(v: &Vec<[T; 3]>) -> (r: Vec<T>)
    ensures
        r@ == triples(v@),
{
    let mut r: Vec<T> = Vec::new();
    let mut i: usize = 0;
    while i < v.len()
        invariant
            i <= v.len(),
            r@ == triples(v@.take(i as int)),
        decreases v.len() - i,
    {
        let e = v[i];
        r.push(e[0]);
        r.push(e[1]);
        r.push(e[2]);
        i += 1;
        assert(r@ =~= triples(v@.take(i as int)));
    }
    assert(v@.take(i as int) =~= v@);
    r
}

/// Lists the components of quadruples.
fn list_quadruples<T: Copy>(v: &Vec<[T; 4]>) -> (r: Vec<T>)
    ensures
        r@ == quadruples(v@),
{
    let mut r: Vec<T> = Vec::new();
    let mut i: usize = 0;
    while i < v.len()
        invariant
            i <= v.len(),
            r@ == quadruples(v@.take(i as int)),
        decreases v.len() - i,
    {
        let e = v[i];
        r.push(e[0]);
        r.push(e[1]);
        r.push(e[2]);
        r.push(e[3]);
        i += 1;
        assert(r@ =~= quadruples(v@.take(i as int)));
    }
    assert(v@.take(i as int) =~= v@);
    r
}

/// Lists the components of quaternions, the scalar part of each last.
fn list_quats<T: Copy>(v: &Vec<Quat<T>>) -> (r: Vec<T>)
    ensures
        r@ == quats(v@),
{
    let mut r: Vec<T> = Vec::new();
    let mut i: usize = 0;
    while i < v.len()
        invariant
            i <= v.len(),
            r@ == quats(v@.take(i as int)),
        decreases v.len() - i,
    {
        let q = v[i];
        r.push(q.x);
        r.push(q.y);
        r.push(q.z);
        r.push(q.w);
        i += 1;
        assert(r@ =~= quats(v@.take(i as int)));
    }
    assert(v@.take(i as int) =~= v@);
    r
}

/// Rounds doubles to single precision.
pub fn narrow_all(v: &Vec<Double>) -> (r: Vec<Single>)
    ensures
        r@ == narrowed(v@),
{
    let mut r: Vec<Single> = Vec::new();
    let mut i: usize = 0;
    while i < v.len()
        invariant
            i <= v.len(),
            r@ == narrowed(v@.take(i as int)),
        decreases v.len() - i,
    {
        r.push(v[i].to_single());
        i += 1;
        assert(r@ =~= narrowed(v@.take(i as int)));
    }
    assert(v@.take(i as int) =~= v@);
    r
}

/// Converts halves to single precision.
pub fn widen_all(v: &Vec<Half>) -> (r: Vec<Single>)
    ensures
        r@ == widened(v@),
{
    let mut r: Vec<Single> = Vec::new();
    let mut i: usize = 0;
    while i < v.len()
        invariant
            i <= v.len(),
            r@ == widened(v@.take(i as int)),
        decreases v.len() - i,
    {
        r.push(v[i].to_single());
        i += 1;
        assert(r@ =~= widened(v@.take(i as int)));
    }
    assert(v@.take(i as int) =~= v@);
    r
}

/// Copies plain values.
pub fn copy_all<T: Copy>(v: &Vec<T>) -> (r: Vec<T>)
    ensures
        r@ == v@,
{
    let mut r: Vec<T> = Vec::new();
    let mut i: usize = 0;
    while i < v.len()
        invariant
            i <= v.len(),
            r@ == v@.take(i as int),
        decreases v.len() - i,
    {
        r.push(v[i]);
        i += 1;
    }
    r
}

/// The numbers of an array of triples, or of an array of numbers that could be one, in single
/// precision.
pub open spec fn flat_vec3(value: Value) -> Option<Seq<Single>> {
    match value {
        Value::Vec3fVec(v) => Some(triples(v@)),
        Value::Vec3dVec(v) => Some(narrowed(triples(v@))),
        Value::Vec3hVec(v) => Some(widened(triples(v@))),
        Value::FloatVec(v) => if v@.len() % 3 == 0 {
            Some(v@)
        } else {
            None
        },
        Value::DoubleVec(v) => if v@.len() % 3 == 0 {
            Some(narrowed(v@))
        } else {
            None
        },
        _ => None,
    }
}

/// Flattens an array of triples to single-precision numbers.
pub fn flatten_vec3_value(value: &Value) -> (r: Option<Vec<Single>>)
    ensures
        match r {
            Some(v) => flat_vec3(*value) == Some(v@),
            None => flat_vec3(*value) is None,
        },
{
    match value {
        Value::Vec3fVec(v) => Some(list_triples(v)),
        Value::Vec3dVec(v) => Some(narrow_all(&list_triples(v))),
        Value::Vec3hVec(v) => Some(widen_all(&list_triples(v))),
        Value::FloatVec(v) => if v.len() % 3 == 0 {
            Some(copy_all(v))
        } else {
            None
        },
        Value::DoubleVec(v) => if v.len() % 3 == 0 {
            Some(narrow_all(v))
        } else {
            None
        },
        _ => None,
    }
}

/// The numbers of an array of pairs, or of an array of numbers that could be one, in single
/// precision.
pub open spec fn flat_vec2(value: Value) -> Option<Seq<Single>> {
    match value {
        Value::Vec2fVec(v) => Some(pairs(v@)),
        Value::Vec2dVec(v) => Some(narrowed(pairs(v@))),
        Value::Vec2hVec(v) => Some(widened(pairs(v@))),
        Value::FloatVec(v) => if v@.len() % 2 == 0 {
            Some(v@)
        } else {
            None
        },
        Value::DoubleVec(v) => if v@.len() % 2 == 0 {
            Some(narrowed(v@))
        } else {
            None
        },
        _ => None,
    }
}

/// Flattens an array of pairs to single-precision numbers.
pub fn flatten_vec2_value(value: &Value) -> (r: Option<Vec<Single>>)
    ensures
        match r {
            Some(v) => flat_vec2(*value) == Some(v@),
            None => flat_vec2(*value) is None,
        },
{
    match value {
        Value::Vec2fVec(v) => Some(list_pairs(v)),
        Value::Vec2dVec(v) => Some(narrow_all(&list_pairs(v))),
        Value::Vec2hVec(v) => Some(widen_all(&list_pairs(v))),
        Value::FloatVec(v) => if v.len() % 2 == 0 {
            Some(copy_all(v))
        } else {
            None
        },
        Value::DoubleVec(v) => if v.len() % 2 == 0 {
            Some(narrow_all(v))
        } else {
            None
        },
        _ => None,
    }
}

/// The numbers of an array of quaternions, the scalar part of each last, or of an array of
/// quadruples, in single precision.
pub open spec fn flat_quat(value: Value) -> Option<Seq<Single>> {
    match value {
        Value::QuatfVec(v) => Some(quats(v@)),
        Value::QuatdVec(v) => Some(narrowed(quats(v@))),
        Value::QuathVec(v) => Some(widened(quats(v@))),
        Value::Vec4fVec(v) => Some(quadruples(v@)),
        Value::Vec4dVec(v) => Some(narrowed(quadruples(v@))),
        _ => None,
    }
}

/// Flattens an array of quaternions to single-precision numbers.
pub fn flatten_quat_value(value: &Value) -> (r: Option<Vec<Single>>)
    ensures
        match r {
            Some(v) => flat_quat(*value) == Some(v@),
            None => flat_quat(*value) is None,
        },
{
    match value {
        Value::QuatfVec(v) => Some(list_quats(v)),
        Value::QuatdVec(v) => Some(narrow_all(&list_quats(v))),
        Value::QuathVec(v) => Some(widen_all(&list_quats(v))),
        Value::Vec4fVec(v) => Some(list_quadruples(v)),
        Value::Vec4dVec(v) => Some(narrow_all(&list_quadruples(v))),
        _ => None,
    }
}

/// A triple, or an array of three numbers, in single precision.
pub open spec fn one_vec3(value: Value) -> Option<Seq<Single>> {
    match value {
        Value::Vec3f(v) => Some(v@),
        Value::Vec3d(v) => Some(narrowed(v@)),
        Value::Vec3h(v) => Some(widened(v@)),
        Value::FloatVec(v) => if v@.len() == 3 {
            Some(v@)
        } else {
            None
        },
        Value::DoubleVec(v) => if v@.len() == 3 {
            Some(narrowed(v@))
        } else {
            None
        },
        _ => None,
    }
}

/// Reads a triple as single-precision numbers.
pub fn vec3_value(value: &Value) -> (r: Option<[Single; 3]>)
    ensures
        match r {
            Some(v) => one_vec3(*value) == Some(v@),
            None => one_vec3(*value) is None,
        },
{
    match value {
        Value::Vec3f(v) => Some(*v),
        Value::Vec3d(v) => {
            let r = [v[0].to_single(), v[1].to_single(), v[2].to_single()];
            assert(r@ =~= narrowed(v@));
            Some(r)
        },
        Value::Vec3h(v) => {
            let r = [v[0].to_single(), v[1].to_single(), v[2].to_single()];
            assert(r@ =~= widened(v@));
            Some(r)
        },
        Value::FloatVec(v) => if v.len() == 3 {
            let r = [v[0], v[1], v[2]];
            assert(r@ =~= v@);
            Some(r)
        } else {
            None
        },
        Value::DoubleVec(v) => if v.len() == 3 {
            let r = [v[0].to_single(), v[1].to_single(), v[2].to_single()];
            assert(r@ =~= narrowed(v@));
            Some(r)
        } else {
            None
        },
        _ => None,
    }
}

/// The matrix `m`, given row by row, turned to columns and rounded to single precision: what is
/// listed at four times the column plus the row is the entry of that row and that column.
pub open spec fn column_major(m: Seq<Double>) -> Seq<Single> {
    Seq::new(16, |i: int| m[i % 4 * 4 + i / 4].narrowed())
}

/// Turns a matrix given row by row into one given column by column, in single precision.
pub fn row_major_mat4_to_column_major_f32(row_major: [Double; 16]) -> (r: [Single; 16])
    ensures
        r@ == column_major(row_major@),
{
    let mut out = [Single { bits: 0 }; 16];
    let mut row: usize = 0;
    while row < 4
        invariant
            row <= 4,
            out@.len() == 16,
            forall|i: int|
                0 <= i < 16 && i % 4 < row ==> #[trigger] out@[i] == column_major(row_major@)[i],
        decreases 4 - row,
    {
        let mut col: usize = 0;
        while col < 4
            invariant
                row < 4,
                col <= 4,
                out@.len() == 16,
                forall|i: int|
                    0 <= i < 16 && (i % 4 < row || (i % 4 == row && i / 4 < col))
                        ==> #[trigger] out@[i] == column_major(row_major@)[i],
            decreases 4 - col,
        {
            out[col * 4 + row] = row_major[row * 4 + col].to_single();
            col += 1;
        }
        row += 1;
    }
    assert(out@ =~= column_major(row_major@));
    out
}

/// An unsigned number whose bits are taken for those of a signed one.
pub open spec fn reinterpreted(v: u32) -> i32 {
    if v < 0x8000_0000 {
        v as i32
    } else {
        (v - 0x1_0000_0000) as i32
    }
}

/// The whole numbers of an array, unsigned ones being reinterpreted as signed ones.
pub open spec fn signed_numbers(value: Value) -> Option<Seq<i32>> {
    match value {
        Value::IntVec(v) => Some(v@),
        Value::UintVec(v) => Some(v@.map_values(|n: u32| reinterpreted(n))),
        _ => None,
    }
}

/// Reads an array of whole numbers as signed ones.
pub fn signed_value(value: &Value) -> (r: Option<Vec<i32>>)
    ensures
        match r {
            Some(v) => signed_numbers(*value) == Some(v@),
            None => signed_numbers(*value) is None,
        },
{
    match value {
        Value::IntVec(v) => Some(copy_all(v)),
        Value::UintVec(v) => {
            let mut r: Vec<i32> = Vec::new();
            let mut i: usize = 0;
            while i < v.len()
                invariant
                    i <= v.len(),
                    r@ == v@.take(i as int).map_values(|n: u32| reinterpreted(n)),
                decreases v.len() - i,
            {
                let n: u32 = v[i];
                if n < 0x8000_0000 {
                    r.push(n as i32);
                } else {
                    r.push((n as i64 - 0x1_0000_0000) as i32);
                }
                i += 1;
                assert(r@ =~= v@.take(i as int).map_values(|n: u32| reinterpreted(n)));
            }
            assert(v@.take(i as int) =~= v@);
            Some(r)
        },
        _ => None,
    }
}

/// The numbers of a list that are not negative, in order.
pub open spec fn not_negative(v: Seq<i32>) -> Seq<u32>
    decreases v.len(),
{
    if v.len() == 0 {
        seq![]
    } else if v.last() >= 0 {
        not_negative(v.drop_last()).push(v.last() as u32)
    } else {
        not_negative(v.drop_last())
    }
}

/// Keeps the numbers that are not negative.
pub fn keep_not_negative(v: &Vec<i32>) -> (r: Vec<u32>)
    ensures
        r@ == not_negative(v@),
{
    let mut r: Vec<u32> = Vec::new();
    let mut i: usize = 0;
    while i < v.len()
        invariant
            i <= v.len(),
            r@ == not_negative(v@.take(i as int)),
        decreases v.len() - i,
    {
        let n: i32 = v[i];
        if n >= 0 {
            r.push(n as u32);
        }
        i += 1;
        assert(v@.take(i as int).drop_last() =~= v@.take(i - 1));
    }
    assert(v@.take(i as int) =~= v@);
    r
}

/// The whole numbers of an array, negative ones being left out.
pub open spec fn unsigned_numbers(value: Value) -> Option<Seq<u32>> {
    match value {
        Value::UintVec(v) => Some(v@),
        Value::IntVec(v) => Some(not_negative(v@)),
        _ => None,
    }
}

/// Reads an array of whole numbers as unsigned ones.
pub fn unsigned_value(value: &Value) -> (r: Option<Vec<u32>>)
    ensures
        match r {
            Some(v) => unsigned_numbers(*value) == Some(v@),
            None => unsigned_numbers(*value) is None,
        },
{
    match value {
        Value::UintVec(v) => Some(copy_all(v)),
        Value::IntVec(v) => Some(keep_not_negative(v)),
        _ => None,
    }
}

/// The numbers of an array, in single precision.
pub open spec fn single_numbers(value: Value) -> Option<Seq<Single>> {
    match value {
        Value::FloatVec(v) => Some(v@),
        Value::DoubleVec(v) => Some(narrowed(v@)),
        Value::HalfVec(v) => Some(widened(v@)),
        _ => None,
    }
}

/// Reads an array of numbers as single-precision ones.
pub fn single_value(value: &Value) -> (r: Option<Vec<Single>>)
    ensures
        match r {
            Some(v) => single_numbers(*value) == Some(v@),
            None => single_numbers(*value) is None,
        },
{
    match value {
        Value::FloatVec(v) => Some(copy_all(v)),
        Value::DoubleVec(v) => Some(narrow_all(v)),
        Value::HalfVec(v) => Some(widen_all(v)),
        _ => None,
    }
}

/// A number, in single precision.
pub open spec fn one_single(value: Value) -> Option<Single> {
    match value {
        Value::Float(v) => Some(v),
        Value::Double(v) => Some(v.narrowed()),
        Value::Half(v) => Some(v.widened()),
        _ => None,
    }
}

/// Reads a number in single precision.
pub fn float_value(value: &Value) -> (r: Option<Single>)
    ensures
        r == one_single(*value),
{
    match value {
        Value::Float(v) => Some(*v),
        Value::Double(v) => Some(v.to_single()),
        Value::Half(v) => Some(v.to_single()),
        _ => None,
    }
}

/// The text of a string, a token or an asset path.
pub open spec fn text_of(value: Value) -> Option<Seq<char>> {
    match value {
        Value::String(v) => Some(v@),
        Value::Token(v) => Some(v@),
        Value::AssetPath(v) => Some(v@),
        _ => None,
    }
}

/// Reads the text of a string, a token or an asset path.
pub fn text_value(value: &Value) -> (r: Option<String>)
    ensures
        match r {
            Some(t) => text_of(*value) == Some(t@),
            None => text_of(*value) is None,
        },
{
    match value {
        Value::String(v) => Some(v.clone()),
        Value::Token(v) => Some(v.clone()),
        Value::AssetPath(v) => Some(v.clone()),
        _ => None,
    }
}

/// The characters of each of several strings.
pub open spec fn texts(v: Seq<String>) -> Seq<Seq<char>> {
    v.map_values(|s: String| s@)
}

/// The texts of an array of strings or tokens.
pub open spec fn texts_of(value: Value) -> Option<Seq<Seq<char>>> {
    match value {
        Value::StringVec(v) => Some(texts(v@)),
        Value::TokenVec(v) => Some(texts(v@)),
        _ => None,
    }
}

/// Copies strings.
pub fn copy_texts(v: &Vec<String>) -> (r: Vec<String>)
    ensures
        texts(r@) == texts(v@),
{
    let mut r: Vec<String> = Vec::new();
    let mut i: usize = 0;
    while i < v.len()
        invariant
            i <= v.len(),
            texts(r@) == texts(v@.take(i as int)),
        decreases v.len() - i,
    {
        let ghost before = r@;
        r.push(v[i].clone());
        i += 1;
        assert(texts(r@) =~= texts(before).push(v@[i - 1]@));
        assert(texts(v@.take(i as int)) =~= texts(v@.take(i - 1)).push(v@[i - 1]@));
    }
    assert(v@.take(i as int) =~= v@);
    r
}

/// Reads the texts of an array of strings or tokens.
pub fn texts_value(value: &Value) -> (r: Option<Vec<String>>)
    ensures
        match r {
            Some(v) => texts_of(*value) == Some(texts(v@)),
            None => texts_of(*value) is None,
        },
{
    match value {
        Value::StringVec(v) => Some(copy_texts(v)),
        Value::TokenVec(v) => Some(copy_texts(v)),
        _ => None,
    }
}

} // verus!
