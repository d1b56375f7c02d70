//! What a skeleton and its animation hold, from what was recorded for them.
use crate::laws::given::{lemma_authored, lemma_names, lemma_says};
use crate::laws::read::{law_inputs, law_time_samples};
use crate::num::{Double, Single};
use crate::skel::{SkelAnimationView, SkeletonView};
use crate::stage::StageView;
use crate::table::FieldKey;
use crate::times::KeyframeView;
use crate::value::{TimeSample, Value};
use vstd::prelude::*;
use vstd::seq_lib::*;

verus! {

/// Matrices were turned: there are as many as before, and the entry of a row and a column, rounded
/// to single precision, stands at four times the column plus the row.
pub open spec fn are_turned(r: Seq<Seq<Single>>, v: Seq<[Double; 16]>) -> bool {
    &&& r.len() == v.len()
    &&& forall|k: int, row: int, col: int|
        0 <= k < v.len() && 0 <= row < 4 && 0 <= col < 4 ==> r[k].len() == 16 && r[k][col * 4 + row]
            == (#[trigger] v[k]@[row * 4 + col]).narrowed()
}

/// Turning matrices.
proof fn lemma_turned(v: Seq<[Double; 16]>)
    ensures
        are_turned(crate::skel::column_major_all(v), v),
{
    let r = crate::skel::column_major_all(v);
    assert forall|k: int, row: int, col: int|
        0 <= k < v.len() && 0 <= row < 4 && 0 <= col < 4 implies r[k].len() == 16 && r[k][col * 4
        + row] == (#[trigger] v[k]@[row * 4 + col]).narrowed() by {
        assert(r[k] == crate::value::column_major(v[k]@));
        crate::laws::law_matrix_is_transposed(v[k]@, row, col);
    }
}

/// The matrices of an attribute are those that were recorded for it, turned; where none were,
/// there are none.
pub proof fn law_matrices(s: StageView, prim: Seq<char>, name: Seq<char>)
    ensures
        match crate::laws::given::authored(s, prim, name, FieldKey::Default) {
            Some(Value::Matrix4dVec(v)) => {
                &&& s.matrix_array(prim, name) matches Some(r) && are_turned(r, v@)
                &&& are_turned(s.matrices_or_none(prim, name), v@)
            },
            _ => s.matrix_array(prim, name) is None && s.matrices_or_none(prim, name).len() == 0,
        },
{
    lemma_authored(s, prim, name, FieldKey::Default);
    if let Some(Value::Matrix4dVec(v)) = crate::laws::given::authored(
        s,
        prim,
        name,
        FieldKey::Default,
    ) {
        lemma_turned(v@);
    }
}

/// The skeleton of a mesh is the inherited target of `skel:skeleton`, where that is of type
/// `Skeleton` and lists its joints. Its joints are those that are listed; its bind and rest
/// transforms are the matrices that were recorded under these names, turned, and none where no
/// matrices were.
pub proof fn law_skeleton_parts(
    s: StageView,
    mesh: Seq<char>,
    p: Seq<char>,
    at: Seq<char>,
    k: SkeletonView,
)
    requires
        s.inherited_target(mesh, "skel:skeleton"@) == Some(p),
        s.skeleton(mesh) == Some((at, k)),
    ensures
        at == p,
        match crate::laws::given::authored(s, p, "joints"@, FieldKey::Default) {
            Some(Value::TokenVec(v)) => k.joints.len() == v@.len() && forall|i: int|
                0 <= i < v@.len() ==> #[trigger] k.joints[i] == v@[i]@,
            Some(Value::StringVec(v)) => k.joints.len() == v@.len() && forall|i: int|
                0 <= i < v@.len() ==> #[trigger] k.joints[i] == v@[i]@,
            _ => false,
        },
        match crate::laws::given::authored(s, p, "restTransforms"@, FieldKey::Default) {
            Some(Value::Matrix4dVec(v)) => are_turned(k.rest_transforms, v@),
            _ => k.rest_transforms.len() == 0,
        },
        match crate::laws::given::authored(s, p, "bindTransforms"@, FieldKey::Default) {
            Some(Value::Matrix4dVec(v)) => are_turned(k.bind_transforms, v@),
            _ => k.bind_transforms.len() == 0,
        },
        k.parents == crate::skel::parents_of(k.joints),
{
    lemma_names();
    law_inputs(s, p, "joints"@);
    lemma_authored(s, p, "joints"@, FieldKey::Default);
    lemma_authored(s, p, "restTransforms"@, FieldKey::Default);
    lemma_authored(s, p, "bindTransforms"@, FieldKey::Default);
    if let Some(Value::Matrix4dVec(v)) = crate::laws::given::authored(
        s,
        p,
        "restTransforms"@,
        FieldKey::Default,
    ) {
        lemma_turned(v@);
    }
    if let Some(Value::Matrix4dVec(v)) = crate::laws::given::authored(
        s,
        p,
        "bindTransforms"@,
        FieldKey::Default,
    ) {
        lemma_turned(v@);
    }
}

/// A mesh has a skeleton exactly where `skel:skeleton` leads, for it or above it, to a prim of
/// type `Skeleton` whose joints are tokens or strings.
pub proof fn law_skeleton_is_there(s: StageView, mesh: Seq<char>)
    ensures
        match s.inherited_target(mesh, "skel:skeleton"@) {
            Some(p) => s.skeleton(mesh) is Some <==> crate::laws::given::says(
                s,
                p,
                FieldKey::TypeName,
                "Skeleton"@,
            ) && match crate::laws::given::authored(s, p, "joints"@, FieldKey::Default) {
                Some(Value::TokenVec(_)) => true,
                Some(Value::StringVec(_)) => true,
                _ => false,
            },
            None => s.skeleton(mesh) is None,
        },
{
    if let Some(p) = s.inherited_target(mesh, "skel:skeleton"@) {
        law_inputs(s, p, "joints"@);
        lemma_says(s, p, FieldKey::TypeName);
    }
}

/// The parent of a joint is the first of the joints whose path is that of the joint without its
/// last name; a joint has none where no path in the list is that, or where its own has one name
/// only.
pub proof fn law_joint_parent(
    joints: Seq<Seq<char>>,
    above: Seq<char>,
    name: Seq<char>,
    j: int,
    i: int,
)
    requires
        0 <= j < joints.len(),
        forall|c: int| 0 <= c < name.len() ==> name[c] != '/',
    ensures
        crate::skel::parents_of(joints).len() == joints.len(),
        joints[j] == name ==> crate::skel::parents_of(joints)[j] is None,
        joints[j] == above + seq!['/'] + name && 0 <= i < joints.len() && joints[i] == above && (
        forall|h: int| 0 <= h < i ==> #[trigger] joints[h] != above) ==> crate::skel::parents_of(
            joints,
        )[j] == Some(i),
        joints[j] == above + seq!['/'] + name && (forall|h: int|
            0 <= h < joints.len() ==> #[trigger] joints[h] != above) ==> crate::skel::parents_of(
            joints,
        )[j] is None,
{
    assert(crate::skel::parents_of(joints)[j] == crate::skel::joint_parent(joints, joints[j]));
    crate::text::lemma_last_index(name, '/');
    let t = above + seq!['/'] + name;
    let n = above.len() as int;
    assert(t[n] == '/');
    assert forall|c: int| n < c < t.len() implies t[c] != '/' by {
        assert(t[c] == name[c - n - 1]);
    }
    crate::text::lemma_last_index_is(t, '/', n);
    assert(t.take(n) =~= above);
    crate::skel::lemma_first_place(joints, above);
}

/// A value holds rotations.
pub open spec fn holds_rotations(v: Value) -> bool {
    match v {
        Value::QuatfVec(_) => true,
        Value::QuatdVec(_) => true,
        Value::QuathVec(_) => true,
        Value::Vec4fVec(_) => true,
        Value::Vec4dVec(_) => true,
        _ => false,
    }
}

/// A value holds triples.
pub open spec fn holds_triples(v: Value) -> bool {
    match v {
        Value::Vec3fVec(_) => true,
        Value::Vec3dVec(_) => true,
        Value::Vec3hVec(_) => true,
        Value::FloatVec(x) => x@.len() % 3 == 0,
        Value::DoubleVec(x) => x@.len() % 3 == 0,
        _ => false,
    }
}

/// The keyframes of samples one after the other are those of the first and then those of the
/// second.
pub proof fn law_rotation_frames_in_order(a: Seq<TimeSample>, b: Seq<TimeSample>)
    ensures
        crate::skel::quat_frames(a + b) == crate::skel::quat_frames(a)
            + crate::skel::quat_frames(b),
    decreases b.len(),
{
    if b.len() == 0 {
        assert(a + b =~= a);
        assert(crate::skel::quat_frames(b) =~= Seq::<KeyframeView>::empty());
    } else {
        law_rotation_frames_in_order(a, b.drop_last());
        assert((a + b).drop_last() =~= a + b.drop_last());
        assert((a + b).last() == b.last());
    }
}

/// One sample makes one keyframe, at its time and with its rotations flattened, where its value
/// holds rotations of any precision; otherwise it makes none.
pub proof fn law_one_rotation_frame(x: TimeSample)
    ensures
        holds_rotations(x.value) ==> (crate::value::flat_quat(x.value) matches Some(v)
            && crate::skel::quat_frames(seq![x]) == seq![KeyframeView { time: x.time, values: v }]),
        !holds_rotations(x.value) ==> crate::skel::quat_frames(seq![x]).len() == 0,
{
    reveal_with_fuel(crate::skel::quat_frames, 2);
    assert(seq![x].drop_last() =~= Seq::<TimeSample>::empty());
    crate::laws::value::law_flat_quat(x.value, 0);
}

/// Every sample that holds rotations has its keyframe, and there are as many keyframes as such
/// samples.
pub proof fn law_rotation_frames(samples: Seq<TimeSample>)
    ensures
        crate::skel::quat_frames(samples).len() == samples.filter(
            |x: TimeSample| holds_rotations(x.value),
        ).len(),
        forall|i: int|
            0 <= i < samples.len() && holds_rotations((#[trigger] samples[i]).value) ==> (
            crate::value::flat_quat(samples[i].value) matches Some(v) && crate::skel::quat_frames(
                samples,
            ).contains(KeyframeView { time: samples[i].time, values: v })),
    decreases samples.len(),
{
    reveal(Seq::filter);
    if samples.len() > 0 {
        let rest = samples.drop_last();
        let last = samples.last();
        let before = crate::skel::quat_frames(rest);
        let all = crate::skel::quat_frames(samples);
        law_rotation_frames(rest);
        crate::laws::value::law_flat_quat(last.value, 0);
        assert forall|i: int|
            0 <= i < samples.len() && holds_rotations((#[trigger] samples[i]).value) implies (
        crate::value::flat_quat(samples[i].value) matches Some(v) && all.contains(
            KeyframeView { time: samples[i].time, values: v },
        )) by {
            if i < rest.len() {
                assert(rest[i] == samples[i]);
                let f = KeyframeView {
                    time: rest[i].time,
                    values: crate::value::flat_quat(rest[i].value)->0,
                };
                assert(before.contains(f));
                let k = choose|k: int| 0 <= k < before.len() && before[k] == f;
                assert(all[k] == f);
            } else {
                assert(all[before.len() as int] == KeyframeView {
                    time: last.time,
                    values: crate::value::flat_quat(last.value)->0,
                });
            }
        }
    }
}

/// The keyframes of samples one after the other are those of the first and then those of the
/// second.
pub proof fn law_triple_frames_in_order(a: Seq<TimeSample>, b: Seq<TimeSample>)
    ensures
        crate::skel::vec3_frames(a + b) == crate::skel::vec3_frames(a)
            + crate::skel::vec3_frames(b),
    decreases b.len(),
{
    if b.len() == 0 {
        assert(a + b =~= a);
        assert(crate::skel::vec3_frames(b) =~= Seq::<KeyframeView>::empty());
    } else {
        law_triple_frames_in_order(a, b.drop_last());
        assert((a + b).drop_last() =~= a + b.drop_last());
        assert((a + b).last() == b.last());
    }
}

/// One sample makes one keyframe, at its time and with its triples flattened, where its value
/// holds triples of any precision; otherwise it makes none.
pub proof fn law_one_triple_frame(x: TimeSample)
    ensures
        holds_triples(x.value) ==> (crate::value::flat_vec3(x.value) matches Some(v)
            && crate::skel::vec3_frames(seq![x]) == seq![KeyframeView { time: x.time, values: v }]),
        !holds_triples(x.value) ==> crate::skel::vec3_frames(seq![x]).len() == 0,
{
    reveal_with_fuel(crate::skel::vec3_frames, 2);
    assert(seq![x].drop_last() =~= Seq::<TimeSample>::empty());
    crate::laws::value::law_flat_vec3(x.value, 0, 0);
}

/// Every sample that holds triples has its keyframe, and there are as many keyframes as such
/// samples.
pub proof fn law_triple_frames(samples: Seq<TimeSample>)
    ensures
        crate::skel::vec3_frames(samples).len() == samples.filter(
            |x: TimeSample| holds_triples(x.value),
        ).len(),
        forall|i: int|
            0 <= i < samples.len() && holds_triples((#[trigger] samples[i]).value) ==> (
            crate::value::flat_vec3(samples[i].value) matches Some(v) && crate::skel::vec3_frames(
                samples,
            ).contains(KeyframeView { time: samples[i].time, values: v })),
    decreases samples.len(),
{
    reveal(Seq::filter);
    if samples.len() > 0 {
        let rest = samples.drop_last();
        let last = samples.last();
        let before = crate::skel::vec3_frames(rest);
        let all = crate::skel::vec3_frames(samples);
        law_triple_frames(rest);
        crate::laws::value::law_flat_vec3(last.value, 0, 0);
        assert forall|i: int|
            0 <= i < samples.len() && holds_triples((#[trigger] samples[i]).value) implies (
        crate::value::flat_vec3(samples[i].value) matches Some(v) && all.contains(
            KeyframeView { time: samples[i].time, values: v },
        )) by {
            if i < rest.len() {
                assert(rest[i] == samples[i]);
                let f = KeyframeView {
                    time: rest[i].time,
                    values: crate::value::flat_vec3(rest[i].value)->0,
                };
                assert(before.contains(f));
                let k = choose|k: int| 0 <= k < before.len() && before[k] == f;
                assert(all[k] == f);
            } else {
                assert(all[before.len() as int] == KeyframeView {
                    time: last.time,
                    values: crate::value::flat_vec3(last.value)->0,
                });
            }
        }
    }
}

/// The samples that were recorded for an attribute.
pub open spec fn samples_of(s: StageView, prim: Seq<char>, name: Seq<char>) -> Seq<TimeSample> {
    match crate::laws::given::authored(s, prim, name, FieldKey::TimeSamples) {
        Some(Value::TimeSamples(v)) => v@,
        _ => seq![],
    }
}

/// The animation of a skeleton is read from the prim that `skel:animationSource` leads to: the
/// translations, rotations and scales from the samples that were recorded under these names, and
/// the joints from the list of texts there, if there is one. At each of the times each of the
/// three has the numbers of its keyframes at that time.
pub proof fn law_animation_parts(
    s: StageView,
    skeleton: Seq<char>,
    p: Seq<char>,
    a: SkelAnimationView,
    k: int,
)
    requires
        s.inherited_target(skeleton, "skel:animationSource"@) == Some(p),
        s.skel_animation(skeleton) == Some(a),
        0 <= k < a.times.len(),
    ensures
        crate::laws::given::says(s, p, FieldKey::TypeName, "SkelAnimation"@),
        a.translations.len() == a.times.len(),
        a.rotations.len() == a.times.len(),
        a.scales.len() == a.times.len(),
        a.translations[k] == crate::times::values_at(
            crate::skel::vec3_frames(samples_of(s, p, "translations"@)),
            a.times[k],
        ),
        a.rotations[k] == crate::times::values_at(
            crate::skel::quat_frames(samples_of(s, p, "rotations"@)),
            a.times[k],
        ),
        a.scales[k] == crate::times::values_at(
            crate::skel::vec3_frames(samples_of(s, p, "scales"@)),
            a.times[k],
        ),
        match crate::laws::given::authored(s, p, "joints"@, FieldKey::Default) {
            Some(Value::TokenVec(v)) => a.joints.len() == v@.len() && forall|i: int|
                0 <= i < v@.len() ==> #[trigger] a.joints[i] == v@[i]@,
            Some(Value::StringVec(v)) => a.joints.len() == v@.len() && forall|i: int|
                0 <= i < v@.len() ==> #[trigger] a.joints[i] == v@[i]@,
            _ => a.joints.len() == 0,
        },
{
    lemma_says(s, p, FieldKey::TypeName);
    lemma_samples(s, p, "translations"@);
    lemma_samples(s, p, "rotations"@);
    lemma_samples(s, p, "scales"@);
    law_inputs(s, p, "joints"@);
}

/// The keyframes of an attribute are those of its recorded samples.
proof fn lemma_samples(s: StageView, p: Seq<char>, name: Seq<char>)
    ensures
        s.vec3_samples(p, name) == crate::skel::vec3_frames(samples_of(s, p, name)),
        s.quat_samples(p, name) == crate::skel::quat_frames(samples_of(s, p, name)),
{
    law_time_samples(s, p, name);
}

/// A skeleton is animated exactly where `skel:animationSource` leads, for it or above it, to a
/// prim of type `SkelAnimation` with a sample of translations or scales that holds triples or one
/// of rotations that holds rotations.
pub proof fn law_animation_is_there(s: StageView, skeleton: Seq<char>)
    ensures
        match s.inherited_target(skeleton, "skel:animationSource"@) {
            Some(p) => s.skel_animation(skeleton) is Some <==> crate::laws::given::says(
                s,
                p,
                FieldKey::TypeName,
                "SkelAnimation"@,
            ) && (crate::skel::vec3_frames(samples_of(s, p, "translations"@)).len() > 0
                || crate::skel::quat_frames(samples_of(s, p, "rotations"@)).len() > 0
                || crate::skel::vec3_frames(samples_of(s, p, "scales"@)).len() > 0),
            None => s.skel_animation(skeleton) is None,
        },
{
    if let Some(p) = s.inherited_target(skeleton, "skel:animationSource"@) {
        lemma_says(s, p, FieldKey::TypeName);
        lemma_samples(s, p, "translations"@);
        lemma_samples(s, p, "rotations"@);
        lemma_samples(s, p, "scales"@);
        let t = s.vec3_samples(p, "translations"@);
        let r = s.quat_samples(p, "rotations"@);
        let c = s.vec3_samples(p, "scales"@);
        let all = crate::times::times_of(t) + crate::times::times_of(r) + crate::times::times_of(c);
        let leq = crate::times::by_rank();
        crate::times::lemma_by_rank_total();
        all.lemma_sort_by_ensures(leq);
        to_multiset_len(all);
        to_multiset_len(all.sort_by(leq));
        assert(crate::times::thinned(Seq::<Double>::empty()).len() == 0);
        crate::laws::lemma_thinned_from(all.sort_by(leq));
    }
}

/// Numbers in the order of the times they stand for.
pub open spec fn in_order(o: Seq<Double>) -> bool {
    forall|i: int, j: int|
        0 <= i < j < o.len() ==> (#[trigger] o[i]).rank() <= (#[trigger] o[j]).rank()
}

/// The times of an animation are those of its translations, rotations and scales, put in order
/// and thinned, whatever order they came in.
pub proof fn law_animation_times(
    s: StageView,
    skeleton: Seq<char>,
    p: Seq<char>,
    a: SkelAnimationView,
    o: Seq<Double>,
)
    requires
        s.inherited_target(skeleton, "skel:animationSource"@) == Some(p),
        s.skel_animation(skeleton) == Some(a),
        in_order(o),
        o.to_multiset() == (crate::times::times_of(
            crate::skel::vec3_frames(samples_of(s, p, "translations"@)),
        ) + crate::times::times_of(crate::skel::quat_frames(samples_of(s, p, "rotations"@)))
            + crate::times::times_of(
            crate::skel::vec3_frames(samples_of(s, p, "scales"@)),
        )).to_multiset(),
    ensures
        a.times == crate::times::thinned(o),
{
    lemma_samples(s, p, "translations"@);
    lemma_samples(s, p, "rotations"@);
    lemma_samples(s, p, "scales"@);
    let all = crate::times::times_of(s.vec3_samples(p, "translations"@)) + crate::times::times_of(
        s.quat_samples(p, "rotations"@),
    ) + crate::times::times_of(s.vec3_samples(p, "scales"@));
    let leq = crate::times::by_rank();
    crate::times::lemma_by_rank_total();
    all.lemma_sort_by_ensures(leq);
    assert forall|i: int, j: int| 0 <= i < j < o.len() implies #[trigger] leq(o[i], o[j]) by {
        assert(o[i].rank() <= o[j].rank());
    }
    vstd::seq_lib::lemma_sorted_unique(o, all.sort_by(leq), leq);
}

/// The times of keyframes are theirs, one each and in their order.
pub proof fn law_times_of(v: Seq<KeyframeView>, i: int)
    requires
        0 <= i < v.len(),
    ensures
        crate::times::times_of(v).len() == v.len(),
        crate::times::times_of(v)[i] == v[i].time,
{
}

/// Thinning goes from front to back. The first time stays; a further one is dropped exactly where
/// it is close to the last one that stayed; and what stayed before stays.
pub proof fn law_thinning(s: Seq<Double>, t: Double)
    ensures
        crate::times::thinned(Seq::empty()).len() == 0,
        crate::times::thinned(seq![t]) == seq![t],
        s.len() > 0 ==> crate::times::thinned(s).len() > 0 && crate::times::thinned(s)[0] == s[0],
        s.len() > 0 && t.close_to(crate::times::thinned(s).last()) ==> crate::times::thinned(
            s.push(t),
        ) == crate::times::thinned(s),
        s.len() > 0 && !t.close_to(crate::times::thinned(s).last()) ==> crate::times::thinned(
            s.push(t),
        ) == crate::times::thinned(s).push(t),
    decreases s.len(),
{
    reveal_with_fuel(crate::times::thinned, 2);
    assert(seq![t].drop_last() =~= Seq::<Double>::empty());
    assert(crate::times::thinned(seq![t]) =~= seq![t]);
    assert(s.push(t).drop_last() =~= s);
    if s.len() > 0 {
        law_thinning(s.drop_last(), s.last());
    }
}

/// What is aligned has one array for each time, and it is that of the keyframes at the time.
pub proof fn law_aligned(times: Seq<Double>, frames: Seq<KeyframeView>, k: int)
    requires
        0 <= k < times.len(),
    ensures
        crate::times::aligned(times, frames).len() == times.len(),
        crate::times::aligned(times, frames)[k] == crate::times::values_at(frames, times[k]),
{
}

} // verus!
