//! Skeletons and their animations.
use crate::binding::first_target_in_self_or_ancestors;
use crate::num::{Double, Single};
use crate::path::Path;
use crate::read::{field_is, read_property, read_string_vec_attr, read_time_samples};
use crate::stage::{Stage, StageView};
use crate::table::FieldKey;
use crate::text;
use crate::times::{align_samples, append_times, copy_arrays, sort_times, thin_times, Keyframe, KeyframeView};
use crate::value::{
    copy_all, copy_texts, flatten_quat_value, flatten_vec3_value, row_major_mat4_to_column_major_f32, TimeSample, Value,
};
use vstd::prelude::*;

verus! {

/// The joints of a skeleton, by their paths, with their transforms column by column.
#[derive(Debug, PartialEq)]
pub struct SkeletonData {
    pub joints: Vec<String>,
    pub bind_transforms: Vec<[Single; 16]>,
    pub rest_transforms: Vec<[Single; 16]>,
    pub parents: Vec<Option<usize>>,
}

/// The model of a [`SkeletonData`].
pub struct SkeletonView {
    pub joints: Seq<Seq<char>>,
    pub bind_transforms: Seq<Seq<Single>>,
    pub rest_transforms: Seq<Seq<Single>>,
    pub parents: Seq<Option<int>>,
}

/// The entries of matrices.
pub open spec fn matrices(v: Seq<[Single; 16]>) -> Seq<Seq<Single>> {
    v.map_values(|m: [Single; 16]| m@)
}

/// Places in a list that may be absent.
pub open spec fn places(v: Seq<Option<usize>>) -> Seq<Option<int>> {
    v.map_values(
        |k: Option<usize>|
            match k {
                Some(k) => Some(k as int),
                None => None,
            },
    )
}

impl View for SkeletonData {
    type V = SkeletonView;

    open spec fn view(&self) -> SkeletonView {
        SkeletonView {
            joints: crate::value::texts(self.joints@),
            bind_transforms: matrices(self.bind_transforms@),
            rest_transforms: matrices(self.rest_transforms@),
            parents: places(self.parents@),
        }
    }
}

impl Default for SkeletonData {
    fn default() -> (r: Self)
        ensures
            r@ == (SkeletonView {
                joints: seq![],
                bind_transforms: seq![],
                rest_transforms: seq![],
                parents: seq![],
            }),
    {
        let r = SkeletonData {
            joints: Vec::new(),
            bind_transforms: Vec::new(),
            rest_transforms: Vec::new(),
            parents: Vec::new(),
        };
        proof {
            assert(r@.joints =~= seq![]);
            assert(r@.bind_transforms =~= seq![]);
            assert(r@.rest_transforms =~= seq![]);
            assert(r@.parents =~= seq![]);
        }
        r
    }
}

impl Clone for SkeletonData {
    fn clone(&self) -> (r: Self)
        ensures
            r@ == self@,
    {
        SkeletonData {
            joints: copy_texts(&self.joints),
            bind_transforms: copy_all(&self.bind_transforms),
            rest_transforms: copy_all(&self.rest_transforms),
            parents: copy_all(&self.parents),
        }
    }
}

/// The first place of a name in a list.
pub open spec fn first_place(names: Seq<Seq<char>>, name: Seq<char>) -> Option<int>
    decreases names.len(),
{
    if names.len() == 0 {
        None
    } else {
        match first_place(names.drop_last(), name) {
            Some(k) => Some(k),
            None => if names.last() == name {
                Some(names.len() - 1)
            } else {
                None
            },
        }
    }
}

/// The place of the joint above a joint: the first joint whose path is what stands before the last
/// slash in the path of this one.
pub open spec fn joint_parent(joints: Seq<Seq<char>>, joint: Seq<char>) -> Option<int> {
    match text::last_index(joint, '/') {
        Some(k) => first_place(joints, joint.take(k)),
        None => None,
    }
}

/// The places of the joints above all joints.
pub open spec fn parents_of(joints: Seq<Seq<char>>) -> Seq<Option<int>> {
    joints.map_values(|j: Seq<char>| joint_parent(joints, j))
}

/// A first place holds the name, and nothing before it does.
pub proof fn lemma_first_place(names: Seq<Seq<char>>, name: Seq<char>)
    ensures
        match first_place(names, name) {
            Some(k) => 0 <= k < names.len() && names[k] == name && forall|j: int|
                0 <= j < k ==> names[j] != name,
            None => forall|j: int| 0 <= j < names.len() ==> names[j] != name,
        },
    decreases names.len(),
{
    if names.len() > 0 {
        let rest = names.drop_last();
        lemma_first_place(rest, name);
        assert forall|j: int| 0 <= j < rest.len() implies rest[j] == names[j] by {}
    }
}

/// Finds the first place of a name in a list.
fn find_place(names: &[String], name: &str) -> (r: Option<usize>)
    ensures
        match r {
            Some(k) => first_place(crate::value::texts(names@), name@) == Some(k as int),
            None => first_place(crate::value::texts(names@), name@) is None,
        },
{
    let ghost all = crate::value::texts(names@);
    let mut i: usize = 0;
    proof {
        lemma_first_place(all, name@);
    }
    while i < names.len()
        invariant
            i <= names.len(),
            all == crate::value::texts(names@),
            match first_place(all, name@) {
                Some(k) => 0 <= k < all.len() && all[k] == name@ && forall|j: int|
                    0 <= j < k ==> all[j] != name@,
                None => forall|j: int| 0 <= j < all.len() ==> all[j] != name@,
            },
            forall|j: int| 0 <= j < i ==> all[j] != name@,
        decreases names.len() - i,
    {
        if text::same(names[i].as_str(), name) {
            proof {
                assert(all[i as int] == name@);
            }
            return Some(i);
        }
        i += 1;
    }
    None
}

/// Finds the joint above each joint.
pub fn joint_parents(joints: &[String]) -> (r: Vec<Option<usize>>)
    ensures
        places(r@) == parents_of(crate::value::texts(joints@)),
{
    let ghost all = crate::value::texts(joints@);
    let mut r: Vec<Option<usize>> = Vec::new();
    let mut i: usize = 0;
    while i < joints.len()
        invariant
            i <= joints.len(),
            all == crate::value::texts(joints@),
            places(r@) == parents_of(all).take(i as int),
        decreases joints.len() - i,
    {
        let ghost before = r@;
        let joint = joints[i].as_str();
        let cs = text::to_chars(joint);
        proof {
            text::lemma_last_index(joint@, '/');
        }
        let parent: Option<usize> = match text::find_last(&cs, '/') {
            Some(slash) => find_place(joints, joint.substring_char(0, slash)),
            None => None,
        };
        r.push(parent);
        i += 1;
        proof {
            let p = joint_parent(all, joint@);
            assert(places(r@) =~= places(before).push(p));
            assert(parents_of(all)[i - 1] == p);
            assert(parents_of(all).take(i as int) =~= parents_of(all).take(i - 1).push(p));
        }
    }
    assert(parents_of(all).take(i as int) =~= parents_of(all));
    r
}

/// The matrices of an array, column by column, in single precision.
pub open spec fn column_major_all(v: Seq<[Double; 16]>) -> Seq<Seq<Single>> {
    v.map_values(|m: [Double; 16]| crate::value::column_major(m@))
}

impl StageView {
    /// An attribute as matrices.
    pub open spec fn matrix_array(self, prim: Seq<char>, name: Seq<char>) -> Option<
        Seq<Seq<Single>>,
    > {
        match self.property_value(prim, name, FieldKey::Default) {
            Some(Value::Matrix4dVec(v)) => Some(column_major_all(v@)),
            _ => None,
        }
    }

    /// An attribute as matrices, or else none.
    pub open spec fn matrices_or_none(self, prim: Seq<char>, name: Seq<char>) -> Seq<Seq<Single>> {
        match self.matrix_array(prim, name) {
            Some(v) => v,
            None => seq![],
        }
    }

    /// The skeleton of a mesh, and its path: the one that the mesh or the nearest prim above it
    /// names, if it is one and has joints.
    pub open spec fn skeleton(self, mesh: Seq<char>) -> Option<(Seq<char>, SkeletonView)> {
        match self.inherited_target(mesh, "skel:skeleton"@) {
            None => None,
            Some(p) => match self.texts(p, "joints"@) {
                Some(joints) => if self.text(p, FieldKey::TypeName) == Some("Skeleton"@) {
                    Some(
                        (
                            p,
                            SkeletonView {
                                joints,
                                bind_transforms: self.matrices_or_none(p, "bindTransforms"@),
                                rest_transforms: self.matrices_or_none(p, "restTransforms"@),
                                parents: parents_of(joints),
                            },
                        ),
                    )
                } else {
                    None
                },
                None => None,
            },
        }
    }
}

/// Reads an attribute as matrices, column by column, in single precision.
pub fn read_mat4_vec_attr(stage: &Stage, prim_path: &Path, name: &str) -> (r: Option<
    Vec<[Single; 16]>,
>)
    ensures
        match r {
            Some(v) => stage@.matrix_array(prim_path@, name@) == Some(matrices(v@)),
            None => stage@.matrix_array(prim_path@, name@) is None,
        },
{
    match read_property(stage, prim_path, name, FieldKey::Default) {
        Some(Value::Matrix4dVec(v)) => {
            let mut r: Vec<[Single; 16]> = Vec::new();
            let mut i: usize = 0;
            while i < v.len()
                invariant
                    i <= v.len(),
                    matrices(r@) == column_major_all(v@.take(i as int)),
                decreases v.len() - i,
            {
                let ghost before = r@;
                let m = row_major_mat4_to_column_major_f32(v[i]);
                r.push(m);
                i += 1;
                proof {
                    assert(matrices(r@) =~= matrices(before).push(m@));
                    assert(column_major_all(v@.take(i as int)) =~= column_major_all(
                        v@.take(i - 1),
                    ).push(m@));
                }
            }
            assert(v@.take(i as int) =~= v@);
            Some(r)
        },
        _ => None,
    }
}

/// Reads an attribute as matrices, or else none.
fn read_matrices_or_none(stage: &Stage, prim_path: &Path, name: &str) -> (r: Vec<[Single; 16]>)
    ensures
        matrices(r@) == stage@.matrices_or_none(prim_path@, name@),
{
    match read_mat4_vec_attr(stage, prim_path, name) {
        Some(v) => v,
        None => {
            let r: Vec<[Single; 16]> = Vec::new();
            assert(matrices(r@) =~= seq![]);
            r
        },
    }
}

impl Stage {
    /// Reads the skeleton of a mesh, and its path.
    pub fn skeleton_of(&self, mesh_path: &Path) -> (r: Option<(Path, SkeletonData)>)
        ensures
            match r {
                Some((p, s)) => self@.skeleton(mesh_path@) == Some((p@, s@)),
                None => self@.skeleton(mesh_path@) is None,
            },
    {
        let skeleton_path = match first_target_in_self_or_ancestors(
            self,
            mesh_path,
            "skel:skeleton",
        ) {
            Some(p) => p,
            None => {
                return None;
            },
        };
        if !field_is(self, &skeleton_path, FieldKey::TypeName, "Skeleton") {
            return None;
        }
        let joints = match read_string_vec_attr(self, &skeleton_path, "joints") {
            Some(v) => v,
            None => {
                return None;
            },
        };
        let bind_transforms = read_matrices_or_none(self, &skeleton_path, "bindTransforms");
        let rest_transforms = read_matrices_or_none(self, &skeleton_path, "restTransforms");
        let parents = joint_parents(joints.as_slice());
        Some((skeleton_path, SkeletonData { joints, bind_transforms, rest_transforms, parents }))
    }
}

/// The poses of joints over time. The lists of numbers are as long as the list of times.
#[derive(Debug, PartialEq)]
pub struct SkelAnimationData {
    pub times: Vec<Double>,
    pub translations: Vec<Vec<Single>>,
    pub rotations: Vec<Vec<Single>>,
    pub scales: Vec<Vec<Single>>,
    pub joints: Vec<String>,
}

/// The model of a [`SkelAnimationData`].
pub struct SkelAnimationView {
    pub times: Seq<Double>,
    pub translations: Seq<Seq<Single>>,
    pub rotations: Seq<Seq<Single>>,
    pub scales: Seq<Seq<Single>>,
    pub joints: Seq<Seq<char>>,
}

impl View for SkelAnimationData {
    type V = SkelAnimationView;

    open spec fn view(&self) -> SkelAnimationView {
        SkelAnimationView {
            times: self.times@,
            translations: crate::times::array_views(self.translations@),
            rotations: crate::times::array_views(self.rotations@),
            scales: crate::times::array_views(self.scales@),
            joints: crate::value::texts(self.joints@),
        }
    }
}

impl Default for SkelAnimationData {
    fn default() -> (r: Self)
        ensures
            r@ == (SkelAnimationView {
                times: seq![],
                translations: seq![],
                rotations: seq![],
                scales: seq![],
                joints: seq![],
            }),
    {
        let r = SkelAnimationData {
            times: Vec::new(),
            translations: Vec::new(),
            rotations: Vec::new(),
            scales: Vec::new(),
            joints: Vec::new(),
        };
        proof {
            assert(r@.translations =~= seq![]);
            assert(r@.rotations =~= seq![]);
            assert(r@.scales =~= seq![]);
            assert(r@.joints =~= seq![]);
        }
        r
    }
}

impl Clone for SkelAnimationData {
    fn clone(&self) -> (r: Self)
        ensures
            r@ == self@,
    {
        SkelAnimationData {
            times: copy_all(&self.times),
            translations: copy_arrays(&self.translations),
            rotations: copy_arrays(&self.rotations),
            scales: copy_arrays(&self.scales),
            joints: copy_texts(&self.joints),
        }
    }
}

/// The samples that are triples, flattened, in order.
pub open spec fn vec3_frames(samples: Seq<TimeSample>) -> Seq<KeyframeView>
    decreases samples.len(),
{
    if samples.len() == 0 {
        seq![]
    } else {
        let before = vec3_frames(samples.drop_last());
        match crate::value::flat_vec3(samples.last().value) {
            Some(values) => before.push(KeyframeView { time: samples.last().time, values }),
            None => before,
        }
    }
}

/// The samples that are quaternions, flattened, in order.
pub open spec fn quat_frames(samples: Seq<TimeSample>) -> Seq<KeyframeView>
    decreases samples.len(),
{
    if samples.len() == 0 {
        seq![]
    } else {
        let before = quat_frames(samples.drop_last());
        match crate::value::flat_quat(samples.last().value) {
            Some(values) => before.push(KeyframeView { time: samples.last().time, values }),
            None => before,
        }
    }
}

/// The times at which an animation is given: those of all keyframes, in the total order, without
/// those that are close to the one before.
pub open spec fn animation_times(
    translations: Seq<KeyframeView>,
    rotations: Seq<KeyframeView>,
    scales: Seq<KeyframeView>,
) -> Seq<Double> {
    let all = crate::times::times_of(translations) + crate::times::times_of(rotations)
        + crate::times::times_of(scales);
    crate::times::thinned(all.sort_by(crate::times::by_rank()))
}

impl StageView {
    /// The samples of an attribute that are triples.
    pub open spec fn vec3_samples(self, prim: Seq<char>, name: Seq<char>) -> Seq<KeyframeView> {
        match self.time_samples(prim, name) {
            Some(samples) => vec3_frames(samples),
            None => seq![],
        }
    }

    /// The samples of an attribute that are quaternions.
    pub open spec fn quat_samples(self, prim: Seq<char>, name: Seq<char>) -> Seq<KeyframeView> {
        match self.time_samples(prim, name) {
            Some(samples) => quat_frames(samples),
            None => seq![],
        }
    }

    /// The animation of a skeleton: the one that the skeleton or the nearest prim above it names,
    /// if it is one and has a sample.
    pub open spec fn skel_animation(self, skeleton: Seq<char>) -> Option<SkelAnimationView> {
        match self.inherited_target(skeleton, "skel:animationSource"@) {
            None => None,
            Some(p) => if self.text(p, FieldKey::TypeName) != Some("SkelAnimation"@) {
                None
            } else {
                let translations = self.vec3_samples(p, "translations"@);
                let rotations = self.quat_samples(p, "rotations"@);
                let scales = self.vec3_samples(p, "scales"@);
                let times = animation_times(translations, rotations, scales);
                if times.len() == 0 {
                    None
                } else {
                    Some(
                        SkelAnimationView {
                            times,
                            translations: crate::times::aligned(times, translations),
                            rotations: crate::times::aligned(times, rotations),
                            scales: crate::times::aligned(times, scales),
                            joints: match self.texts(p, "joints"@) {
                                Some(joints) => joints,
                                None => seq![],
                            },
                        },
                    )
                }
            },
        }
    }
}

/// Reads the samples of an attribute that are triples.
pub fn read_vec3_time_samples(stage: &Stage, prim_path: &Path, name: &str) -> (r: Vec<Keyframe>)
    ensures
        crate::times::keyframe_views(r@) == stage@.vec3_samples(prim_path@, name@),
{
    let mut r: Vec<Keyframe> = Vec::new();
    proof {
        assert(crate::times::keyframe_views(r@) =~= seq![]);
    }
    let samples = match read_time_samples(stage, prim_path, name) {
        Some(v) => v,
        None => {
            return r;
        },
    };
    let mut i: usize = 0;
    while i < samples.len()
        invariant
            i <= samples.len(),
            crate::times::keyframe_views(r@) == vec3_frames(samples@.take(i as int)),
        decreases samples.len() - i,
    {
        let ghost before = r@;
        let sample = &samples[i];
        i += 1;
        proof {
            assert(samples@.take(i as int).drop_last() =~= samples@.take(i - 1));
            assert(samples@.take(i as int).last() == *sample);
        }
        match flatten_vec3_value(&sample.value) {
            Some(values) => {
                let k = Keyframe { time: sample.time, values };
                r.push(k);
                assert(crate::times::keyframe_views(r@) =~= crate::times::keyframe_views(
                    before,
                ).push(k@));
            },
            None => {},
        }
    }
    assert(samples@.take(i as int) =~= samples@);
    r
}

/// Reads the samples of an attribute that are quaternions.
pub fn read_quat_time_samples(stage: &Stage, prim_path: &Path, name: &str) -> (r: Vec<Keyframe>)
    ensures
        crate::times::keyframe_views(r@) == stage@.quat_samples(prim_path@, name@),
{
    let mut r: Vec<Keyframe> = Vec::new();
    proof {
        assert(crate::times::keyframe_views(r@) =~= seq![]);
    }
    let samples = match read_time_samples(stage, prim_path, name) {
        Some(v) => v,
        None => {
            return r;
        },
    };
    let mut i: usize = 0;
    while i < samples.len()
        invariant
            i <= samples.len(),
            crate::times::keyframe_views(r@) == quat_frames(samples@.take(i as int)),
        decreases samples.len() - i,
    {
        let ghost before = r@;
        let sample = &samples[i];
        i += 1;
        proof {
            assert(samples@.take(i as int).drop_last() =~= samples@.take(i - 1));
            assert(samples@.take(i as int).last() == *sample);
        }
        match flatten_quat_value(&sample.value) {
            Some(values) => {
                let k = Keyframe { time: sample.time, values };
                r.push(k);
                assert(crate::times::keyframe_views(r@) =~= crate::times::keyframe_views(
                    before,
                ).push(k@));
            },
            None => {},
        }
    }
    assert(samples@.take(i as int) =~= samples@);
    r
}

impl Stage {
    /// Reads the animation of a skeleton.
    pub fn skel_animation_of(&self, skeleton_path: &Path) -> (r: Option<SkelAnimationData>)
        ensures
            match r {
                Some(a) => self@.skel_animation(skeleton_path@) == Some(a@),
                None => self@.skel_animation(skeleton_path@) is None,
            },
    {
        let anim_path = match first_target_in_self_or_ancestors(
            self,
            skeleton_path,
            "skel:animationSource",
        ) {
            Some(p) => p,
            None => {
                return None;
            },
        };
        if !field_is(self, &anim_path, FieldKey::TypeName, "SkelAnimation") {
            return None;
        }
        let joints = match read_string_vec_attr(self, &anim_path, "joints") {
            Some(v) => v,
            None => {
                let v: Vec<String> = Vec::new();
                assert(crate::value::texts(v@) =~= seq![]);
                v
            },
        };
        let translations = read_vec3_time_samples(self, &anim_path, "translations");
        let rotations = read_quat_time_samples(self, &anim_path, "rotations");
        let scales = read_vec3_time_samples(self, &anim_path, "scales");
        let mut all: Vec<Double> = Vec::new();
        append_times(&mut all, &translations);
        append_times(&mut all, &rotations);
        append_times(&mut all, &scales);
        proof {
            let t = crate::times::times_of(crate::times::keyframe_views(translations@));
            let q = crate::times::times_of(crate::times::keyframe_views(rotations@));
            let s = crate::times::times_of(crate::times::keyframe_views(scales@));
            assert(all@ =~= t + q + s);
        }
        let times = thin_times(&sort_times(&all));
        if times.len() == 0 {
            return None;
        }
        let translations = align_samples(&times, &translations);
        let rotations = align_samples(&times, &rotations);
        let scales = align_samples(&times, &scales);
        Some(SkelAnimationData { times, translations, rotations, scales, joints })
    }
}

} // verus!
