// The score of two vectors is a single-precision dot product, accumulated
// left to right. The arithmetic itself is floating point and lives with the
// caller of the library; these tests pin down the properties the two scan
// paths both rely on.

use vecscan::vector::{Vector, DIM};

fn vector_from_f32(vals: &[f32]) -> Vector {
    let mut words: Vec<u32> = Vec::with_capacity(DIM);
    for i in 0..DIM {
        let x = if i < vals.len() { vals[i] } else { 0.0f32 };
        words.push(x.to_bits());
    }
    Vector::new(words).unwrap()
}

fn dot(a: &Vector, b: &Vector) -> f32 {
    let ab = a.bits();
    let bb = b.bits();
    let mut acc = 0.0f32;
    for i in 0..ab.len() {
        acc += f32::from_bits(ab[i]) * f32::from_bits(bb[i]);
    }
    acc
}

#[test]
fn dot_is_commutative() {
    let pairs = [
        (vec![0.1f32, 0.2, 0.3, 0.7], vec![0.9f32, 0.01, 7.5, 0.33]),
        (vec![1.5f32, -2.25, 4.125], vec![-0.875f32, 3.0, 0.0625]),
        (vec![0.0f32], vec![123.456f32]),
    ];
    for (a, b) in pairs.iter() {
        let va = vector_from_f32(a);
        let vb = vector_from_f32(b);
        assert_eq!(dot(&va, &vb).to_bits(), dot(&vb, &va).to_bits());
    }
}

#[test]
fn dot_with_self_is_nonnegative() {
    let samples = [
        vec![0.1f32, -0.2, 0.3],
        vec![-7.5f32, -0.001, 2.25],
        vec![0.0f32],
        vec![1e-20f32, -1e-20],
    ];
    for vals in samples.iter() {
        let v = vector_from_f32(vals);
        assert!(dot(&v, &v) >= 0.0);
    }
}

#[test]
fn dot_matches_known_value() {
    let a = vector_from_f32(&[1.0, 2.0, 3.0]);
    let b = vector_from_f32(&[4.0, 5.0, 6.0]);
    assert_eq!(dot(&a, &b), 32.0);
}
