use yw_look::num::{Double, Half, Single};
use yw_look::path::Path;
use yw_look::read::{
    read_element_size, read_f32_array, read_float_input, read_i32_array, read_string_field,
    read_string_vec_attr, read_u32_array, read_vec2_array, read_vec3_input,
};
use yw_look::stage::Stage;
use yw_look::table::FieldKey;
use yw_look::times::{align_samples, sort_times, thin_times, Keyframe};
use yw_look::value::{
    flatten_quat_value, flatten_vec2_value, flatten_vec3_value, vec3_value, Quat, Value,
};

fn single(x: f32) -> Single {
    Single { bits: x.to_bits() }
}

fn double(x: f64) -> Double {
    Double { bits: x.to_bits() }
}

fn doubles(v: &[f64]) -> Vec<Double> {
    v.iter().map(|x| double(*x)).collect()
}

/// Bit patterns of all magnitudes, from a simple recurrence.
fn patterns() -> Vec<u64> {
    let mut v = vec![];
    let mut x: u64 = 0x9e37_79b9_7f4a_7c15;
    for i in 0..200_000u64 {
        x = x.wrapping_mul(6364136223846793005).wrapping_add(1442695040888963407);
        let mixed = x ^ (x >> 29);
        v.push(mixed);
        // Exponents around the range of single precision.
        let exponent = 860 + (i % 300);
        v.push((mixed & 0x800f_ffff_ffff_ffff) | (exponent << 52));
        // Ties between two single-precision numbers.
        v.push((mixed & 0x800f_ffff_e000_0000) | 0x1000_0000 | (exponent << 52));
    }
    v
}

#[test]
fn narrowing_agrees_with_the_machine() {
    for bits in patterns() {
        let x = f64::from_bits(bits);
        let r = Double { bits }.to_single();
        if x.is_nan() {
            assert!(f32::from_bits(r.bits).is_nan());
        } else {
            assert_eq!(r.bits, (x as f32).to_bits(), "{:x}", bits);
        }
    }
}

#[test]
fn narrowing_at_the_edges() {
    let to = |x: f64| Double { bits: x.to_bits() }.to_single().bits;
    for x in [
        0.0,
        -0.0,
        1.0,
        0.1,
        f64::MAX,
        f64::MIN,
        f64::INFINITY,
        f64::NEG_INFINITY,
        f64::MIN_POSITIVE,
        5e-324,
        f32::MAX as f64,
        3.4028235677973366e38,
        3.4028235677973362e38,
        f32::MIN_POSITIVE as f64,
        1.401298464324817e-45,
        7.006492321624085e-46,
        7.006492321624087e-46,
        1.1754942807573643e-38,
    ] {
        assert_eq!(to(x), (x as f32).to_bits());
        assert_eq!(to(-x), (-x as f32).to_bits());
    }
    assert_eq!(Double { bits: 0xfff4_0000_2000_0000 }.to_single().bits, 0xffe0_0001);
}

#[test]
fn widening_agrees_with_the_machine() {
    for bits in patterns() {
        let s = bits as u32;
        let x = f32::from_bits(s);
        let r = Single { bits: s }.to_double();
        if x.is_nan() {
            assert!(f64::from_bits(r.bits).is_nan());
        } else {
            assert_eq!(r.bits, (x as f64).to_bits());
            assert_eq!(r.to_single().bits, s);
        }
    }
    for s in [0u32, 1, 2, 0x7f_ffff, 0x80_0000, 0x8000_0001, 0x7f80_0000, 0xff80_0000] {
        assert_eq!(Single { bits: s }.to_double().bits, (f32::from_bits(s) as f64).to_bits());
    }
}

#[test]
fn halves_have_their_values() {
    for bits in 0..=0xffffu16 {
        let r = f32::from_bits(Half { bits }.to_single().bits);
        let sign = if bits >= 0x8000 { -1.0 } else { 1.0 };
        let exponent = (bits >> 10) & 0x1f;
        let fraction = (bits & 0x3ff) as f32;
        if exponent == 31 {
            if fraction == 0.0 {
                assert_eq!(r, sign * f32::INFINITY);
            } else {
                assert!(r.is_nan());
            }
        } else if exponent == 0 {
            assert_eq!(r, sign * fraction * 2f32.powi(-24));
            assert_eq!(r.is_sign_negative(), bits >= 0x8000);
        } else {
            assert_eq!(r, sign * (1024.0 + fraction) * 2f32.powi(exponent as i32 - 25));
        }
    }
    assert_eq!(Half { bits: 0x7c01 }.to_single().bits, 0x7fc0_2000);
}

#[test]
fn equality_is_that_of_numbers() {
    assert!(single(0.0) == single(-0.0));
    assert!(single(f32::NAN) != single(f32::NAN));
    assert!(double(0.0) == double(-0.0));
    assert!(double(f64::NAN) != double(f64::NAN));
    assert!(double(1.0) != double(-1.0));
    assert!(Half { bits: 0 } == Half { bits: 0x8000 });
    assert!(Half { bits: 0x7e00 } != Half { bits: 0x7e00 });
}

#[test]
fn closeness_agrees_with_the_machine() {
    let expected = |a: f64, b: f64| (a - b).abs() < f64::EPSILON;
    let mut v = vec![
        0.0,
        -0.0,
        1.0,
        -1.0,
        2.0,
        f64::EPSILON,
        -f64::EPSILON,
        f64::EPSILON / 2.0,
        f64::INFINITY,
        f64::NEG_INFINITY,
        f64::NAN,
        f64::MAX,
        f64::MIN,
        f64::MIN_POSITIVE,
        5e-324,
        1e-17,
    ];
    for bits in patterns().into_iter().take(300) {
        let x = f64::from_bits((bits & 0x800f_ffff_ffff_ffff) | ((960 + bits % 70) << 52));
        v.push(x);
    }
    let near: Vec<f64> = v.clone();
    for x in near {
        let bits = x.to_bits();
        for step in [1u64, 2, 3] {
            v.push(f64::from_bits(bits.wrapping_add(step)));
        }
        v.push(x + f64::EPSILON);
        v.push(x - f64::EPSILON);
        v.push(x + 0.75 * f64::EPSILON);
    }
    for a in &v {
        for b in &v {
            assert_eq!(double(*a).is_close(double(*b)), expected(*a, *b), "{:e} {:e}", a, b);
        }
    }
    let below = f64::from_bits(f64::EPSILON.to_bits() - 1);
    assert!(double(below).is_close(double(0.0)));
    assert!(!double(below).is_close(double(-5e-17)));
}

#[test]
fn times_are_sorted_as_by_the_total_order() {
    let mut v: Vec<f64> = patterns().into_iter().take(2000).map(f64::from_bits).collect();
    v.extend([0.0, -0.0, f64::NAN, -f64::NAN, f64::INFINITY, f64::NEG_INFINITY, 1.0, 1.0]);
    let sorted: Vec<u64> = sort_times(&doubles(&v)).iter().map(|d| d.bits).collect();
    v.sort_by(f64::total_cmp);
    assert_eq!(sorted, v.iter().map(|x| x.to_bits()).collect::<Vec<u64>>());
}

#[test]
fn times_are_thinned_as_by_dedup() {
    let e = f64::EPSILON;
    let v = vec![0.0, 0.6 * e, 1.2 * e, 1.8 * e, 1.0, 1.0, 1.0 + e, 2.0, f64::INFINITY, f64::INFINITY];
    let thin: Vec<u64> = thin_times(&doubles(&v)).iter().map(|d| d.bits).collect();
    let mut expected = v;
    expected.dedup_by(|a, b| (*a - *b).abs() < f64::EPSILON);
    assert_eq!(thin, expected.iter().map(|x| x.to_bits()).collect::<Vec<u64>>());
    assert_eq!(thin.len(), 7);
}

#[test]
fn samples_are_aligned_with_times() {
    let frame = |t: f64, x: f32| Keyframe { time: double(t), values: vec![single(x)] };
    let frames = vec![frame(1.0, 10.0), frame(1e-17, 20.0), frame(0.0, 30.0)];
    assert_eq!(
        align_samples(&doubles(&[0.0, 1.0, 2.0, f64::NAN]), &frames),
        vec![vec![single(20.0)], vec![single(10.0)], vec![], vec![]]
    );
}

#[test]
fn arrays_are_flattened() {
    let f = |v: &[f32]| Some(v.iter().map(|x| single(*x)).collect::<Vec<Single>>());
    let one = Half { bits: 0x3c00 };
    assert_eq!(
        flatten_vec3_value(&Value::Vec3fVec(vec![[1.0, 2.0, 3.0].map(single), [4.0, 5.0, 6.0].map(single)])),
        f(&[1.0, 2.0, 3.0, 4.0, 5.0, 6.0])
    );
    assert_eq!(flatten_vec3_value(&Value::Vec3dVec(vec![[0.1, 0.2, 0.3].map(double)])), f(&[0.1, 0.2, 0.3]));
    assert_eq!(flatten_vec3_value(&Value::Vec3hVec(vec![[one; 3]])), f(&[1.0; 3]));
    assert_eq!(flatten_vec3_value(&Value::DoubleVec(doubles(&[1.0, 2.0, 3.0]))), f(&[1.0, 2.0, 3.0]));
    assert_eq!(flatten_vec3_value(&Value::DoubleVec(doubles(&[1.0, 2.0]))), None);
    assert_eq!(flatten_vec3_value(&Value::FloatVec(vec![])), f(&[]));
    assert_eq!(flatten_vec3_value(&Value::HalfVec(vec![one; 3])), None);
    assert_eq!(flatten_vec2_value(&Value::Vec2fVec(vec![[1.0, 2.0].map(single), [3.0, 4.0].map(single)])), f(&[1.0, 2.0, 3.0, 4.0]));
    assert_eq!(flatten_vec2_value(&Value::Vec2dVec(vec![[0.1, 0.2].map(double)])), f(&[0.1, 0.2]));
    assert_eq!(flatten_vec2_value(&Value::Vec2hVec(vec![[one; 2]])), f(&[1.0; 2]));
    assert_eq!(flatten_vec2_value(&Value::FloatVec(vec![single(1.0); 3])), None);
    assert_eq!(flatten_vec2_value(&Value::FloatVec(vec![single(1.0); 2])), f(&[1.0; 2]));
    assert_eq!(flatten_vec2_value(&Value::DoubleVec(doubles(&[1.0, 0.1]))), f(&[1.0, 0.1]));
    assert_eq!(flatten_vec2_value(&Value::Vec3fVec(vec![])), None);
    let q = Quat { w: single(4.0), x: single(1.0), y: single(2.0), z: single(3.0) };
    assert_eq!(flatten_quat_value(&Value::QuatfVec(vec![q, q])), f(&[1.0, 2.0, 3.0, 4.0, 1.0, 2.0, 3.0, 4.0]));
    let h = Quat { w: Half { bits: 0 }, x: one, y: one, z: one };
    assert_eq!(flatten_quat_value(&Value::QuathVec(vec![h])), f(&[1.0, 1.0, 1.0, 0.0]));
    assert_eq!(flatten_quat_value(&Value::Vec4fVec(vec![[1.0, 2.0, 3.0, 4.0].map(single)])), f(&[1.0, 2.0, 3.0, 4.0]));
    assert_eq!(flatten_quat_value(&Value::Vec4dVec(vec![[0.1, 2.0, 3.0, 4.0].map(double)])), f(&[0.1, 2.0, 3.0, 4.0]));
    assert_eq!(flatten_quat_value(&Value::FloatVec(vec![single(1.0); 4])), None);
}

#[test]
fn triples_are_read() {
    let one = Half { bits: 0x3c00 };
    assert_eq!(vec3_value(&Value::Vec3f([1.0, 2.0, 3.0].map(single))), Some([1.0, 2.0, 3.0].map(single)));
    assert_eq!(vec3_value(&Value::Vec3d([0.1, 0.2, 0.3].map(double))), Some([0.1, 0.2, 0.3].map(single)));
    assert_eq!(vec3_value(&Value::Vec3h([one; 3])), Some([single(1.0); 3]));
    assert_eq!(vec3_value(&Value::DoubleVec(doubles(&[0.1, 0.2, 0.3]))), Some([0.1, 0.2, 0.3].map(single)));
    assert_eq!(vec3_value(&Value::FloatVec(vec![single(1.0); 6])), None);
    assert_eq!(vec3_value(&Value::Bool(true)), None);
}

#[test]
fn fields_are_read_by_type() {
    let mut stage = Stage::builder().in_memory("anon.usda");
    let p = Path::new("/P").unwrap();
    let a = Path::new("/P.a").unwrap();
    let text = |s: &str| s.to_string();
    for value in [Value::String(text("x")), Value::Token(text("x")), Value::AssetPath(text("x"))] {
        stage.set_value(&a, FieldKey::Default, Ok(value));
        assert_eq!(read_string_field(&stage, &a, FieldKey::Default), Some(text("x")));
    }
    assert_eq!(read_i32_array(&stage, &p, "a"), Ok(None));
    assert_eq!(read_i32_array(&stage, &p, "none"), Ok(None));
    assert!(read_i32_array(&stage, &a, "a").is_err());
    stage.set_value(&a, FieldKey::Default, Ok(Value::UintVec(vec![1, 0x8000_0000])));
    assert_eq!(read_i32_array(&stage, &p, "a"), Ok(Some(vec![1, i32::MIN])));
    assert_eq!(read_u32_array(&stage, &p, "a"), Ok(Some(vec![1, 0x8000_0000])));
    stage.set_value(&a, FieldKey::Default, Ok(Value::IntVec(vec![1, -1, 2])));
    assert_eq!(read_u32_array(&stage, &p, "a"), Ok(Some(vec![1, 2])));
    assert_eq!(read_string_field(&stage, &a, FieldKey::Default), None);
    stage.set_value(&a, FieldKey::Default, Ok(Value::HalfVec(vec![Half { bits: 0x4000 }])));
    assert_eq!(read_f32_array(&stage, &p, "a"), Ok(Some(vec![single(2.0)])));
    assert_eq!(read_vec2_array(&stage, &p, "a"), Ok(None));
    stage.set_value(&a, FieldKey::Default, Ok(Value::Double(double(0.1))));
    assert_eq!(read_float_input(&stage, &p, "a"), Some(single(0.1)));
    assert_eq!(read_vec3_input(&stage, &p, "a"), None);
    stage.set_value(&a, FieldKey::Default, Ok(Value::TokenVec(vec![text("u"), text("v")])));
    assert_eq!(read_string_vec_attr(&stage, &p, "a"), Some(vec![text("u"), text("v")]));
    assert_eq!(read_element_size(&stage, &p, "a"), None);
    stage.set_value(&a, FieldKey::ElementSize, Ok(Value::Int(-3)));
    assert_eq!(read_element_size(&stage, &p, "a"), None);
    stage.set_value(&a, FieldKey::ElementSize, Ok(Value::Uint(u32::MAX)));
    assert_eq!(read_element_size(&stage, &p, "a"), Some(u32::MAX as usize));
}
