//! Tests of the tensor engine: shapes, flat/multi-index conversion,
//! the index odometer, elementwise arithmetic, views and iteration.

use cognitio::shape::Shape;
use cognitio::tensor::Tensor;
use cognitio::view::SliceIndex;

#[test]
fn index_inverse_index_round_trip() {
    let shape = Shape::new(vec![3, 4, 5]);
    assert_eq!(shape.capacity(), 60);
    for f in 0..60usize {
        let idx = shape.inverse_index(f);
        assert_eq!(shape.index(&idx), Some(f));
    }
}

#[test]
fn index_rejects_rank_mismatch_and_out_of_bounds() {
    let shape = Shape::new(vec![2, 3]);
    assert_eq!(shape.index(&vec![1, 2]), Some(5));
    assert_eq!(shape.index(&vec![1]), None);
    assert_eq!(shape.index(&vec![1, 2, 0]), None);
    assert_eq!(shape.index(&vec![2, 0]), None);
    assert_eq!(shape.index(&vec![0, 3]), None);
}

#[test]
fn scalar_shape_has_capacity_one() {
    let shape = Shape::zero();
    assert_eq!(shape.capacity(), 1);
    assert_eq!(shape.dimensions(), 0);
    let by_new = Shape::new(vec![]);
    assert_eq!(by_new.capacity(), 1);
    assert!(shape == by_new);
}

#[test]
fn shape_equality_compares_dimensions_only() {
    let a = Shape::new(vec![2, 3]);
    let b = Shape::new(vec![2, 3]);
    let c = Shape::new(vec![3, 2]);
    assert!(a == b);
    assert!(a != c);
}

#[test]
fn increment_index_visits_every_index_in_lexicographic_order() {
    let shape = Shape::new(vec![2, 3]);
    let mut idx = vec![0usize, 0];
    let mut visited = vec![idx.clone()];
    for _ in 0..5 {
        assert!(shape.increment_index(&mut idx, 1));
        visited.push(idx.clone());
    }
    assert_eq!(
        visited,
        vec![
            vec![0, 0],
            vec![0, 1],
            vec![0, 2],
            vec![1, 0],
            vec![1, 1],
            vec![1, 2],
        ]
    );
    // the capacity-th increment signals exhaustion and wraps around
    assert!(!shape.increment_index(&mut idx, 1));
    assert_eq!(idx, vec![0, 0]);
}

#[test]
fn increment_index_carries_by_larger_steps() {
    let shape = Shape::new(vec![2, 3]);
    let mut idx = vec![0usize, 2];
    assert!(shape.increment_index(&mut idx, 2));
    assert_eq!(idx, vec![1, 1]);
}

#[test]
fn from_nested_rows_is_row_major() {
    let t = Tensor::from(vec![vec![1, 2], vec![3, 4]]);
    assert_eq!(t.get_shape().dimensions(), 2);
    assert_eq!(t.get_shape().dim(0), 2);
    assert_eq!(t.get_shape().dim(1), 2);
    assert_eq!(*t.get(&vec![1, 0]), 3);
    assert_eq!(*t.get(&vec![0, 1]), 2);
}

#[test]
fn from_rows_checked_rejects_ragged_rows() {
    assert!(Tensor::from_rows_checked(vec![vec![1, 2], vec![3]]).is_none());
    assert!(Tensor::from_rows_checked(vec![]).is_none());
    let t = Tensor::from_rows_checked(vec![vec![5, 6, 7]]).unwrap();
    assert_eq!(*t.get(&vec![0, 2]), 7);
}

#[test]
fn zero_fills_and_clear_resets() {
    let mut t = Tensor::from_vec(vec![4, 5, 6]);
    t.clear();
    for i in 0..3 {
        assert_eq!(*t.get(&vec![i]), 0);
    }
    let z = Tensor::zero(Shape::new(vec![2, 2]));
    assert_eq!(*z.get(&vec![1, 1]), 0);
    let d = Tensor::default(Shape::new(vec![2]));
    assert_eq!(*d.get(&vec![0]), 0);
}

#[test]
fn elementwise_arithmetic() {
    let a = Tensor::from_vec(vec![1, 2, 3]);
    let b = Tensor::from_vec(vec![10, 20, 30]);
    let s = a.clone().add(&b);
    assert_eq!(*s.get(&vec![0]), 11);
    assert_eq!(*s.get(&vec![2]), 33);
    let d = b.clone().sub(&a);
    assert_eq!(*d.get(&vec![1]), 18);
    let m = a.clone().mul(-2);
    assert_eq!(*m.get(&vec![2]), -6);
    let q = b.clone().div(10);
    assert_eq!(*q.get(&vec![1]), 2);
}

#[test]
fn scale_then_divide_restores_elements() {
    let t = Tensor::from_vec(vec![7, -8, 9, 0]);
    for c in [1i64, 2, -3, 5] {
        let back = t.clone().mul(c).div(c);
        for i in 0..4 {
            assert_eq!(*back.get(&vec![i]), *t.get(&vec![i]));
        }
    }
}

#[test]
fn sum_accumulates_pairwise() {
    let a = Tensor::from_vec(vec![1, 2]);
    let b = Tensor::from_vec(vec![10, 20]);
    let c = Tensor::from_vec(vec![100, 200]);
    let s = Tensor::sum(vec![a, b, c]);
    assert_eq!(*s.get(&vec![0]), 111);
    assert_eq!(*s.get(&vec![1]), 222);
}

#[test]
fn slicing_selects_a_strided_column() {
    let mut rows = Vec::new();
    for r in 0..4i64 {
        rows.push(vec![4 * r, 4 * r + 1, 4 * r + 2, 4 * r + 3]);
    }
    let t = Tensor::from(rows);
    let specs = vec![
        SliceIndex::Range(None, Some(2), None),
        SliceIndex::Single(1),
    ];
    assert!(t.check_slice(&specs));
    let view = t.slice(specs);
    assert_eq!(view.view_dims(), vec![2]);
    assert_eq!(*view.get(&vec![0]), *t.get(&vec![0, 1]));
    assert_eq!(*view.get(&vec![1]), *t.get(&vec![1, 1]));
}

#[test]
fn check_slice_validates_bounds_eagerly() {
    let t = Tensor::from(vec![vec![1, 2], vec![3, 4]]);
    assert!(!t.check_slice(&vec![SliceIndex::Range(None, Some(3), None), SliceIndex::Single(0)]));
    assert!(!t.check_slice(&vec![SliceIndex::Range(Some(2), None, None), SliceIndex::Single(0)]));
    assert!(!t.check_slice(&vec![SliceIndex::Range(Some(1), Some(1), None), SliceIndex::Single(0)]));
    assert!(t.check_slice(&vec![SliceIndex::Range(Some(0), Some(2), None), SliceIndex::Single(0)]));
}

#[test]
fn mutable_view_writes_through() {
    let mut t = Tensor::from(vec![vec![1, 2], vec![3, 4]]);
    let view = t.slice_mut(vec![SliceIndex::Single(1), SliceIndex::Range(None, None, None)]);
    view.set(&mut t, &vec![0], 30);
    view.set(&mut t, &vec![1], 40);
    assert_eq!(*t.get(&vec![1, 0]), 30);
    assert_eq!(*t.get(&vec![1, 1]), 40);
    assert_eq!(view.get(&t, &vec![0]), 30);
    assert_eq!(*t.get(&vec![0, 0]), 1);
}

#[test]
fn iteration_follows_flat_storage_order() {
    let t = Tensor::from(vec![vec![1, 2], vec![3, 4]]);
    let mut it = t.iter();
    let mut seen = Vec::new();
    while let Some(v) = it.next() {
        seen.push(*v);
    }
    assert_eq!(seen, vec![1, 2, 3, 4]);
    // a fresh pass restarts from the beginning
    let mut again = t.iter();
    assert_eq!(*again.next().unwrap(), 1);
}

#[test]
fn indexed_iteration_pairs_elements_with_their_coordinates() {
    let t = Tensor::from(vec![vec![1, 2], vec![3, 4]]);
    let mut it = t.iter().indexed();
    let mut pairs = Vec::new();
    while let Some((idx, v)) = it.next() {
        pairs.push((idx, *v));
    }
    assert_eq!(
        pairs,
        vec![
            (vec![0, 0], 1),
            (vec![0, 1], 2),
            (vec![1, 0], 3),
            (vec![1, 1], 4),
        ]
    );
}

#[test]
fn indexed_iteration_stays_correct_after_a_skip() {
    let t = Tensor::from(vec![vec![1, 2], vec![3, 4]]);
    let mut it = t.iter().skip(2).indexed();
    let (idx, v) = it.next().unwrap();
    assert_eq!(idx, vec![1, 0]);
    assert_eq!(*v, 3);
    let (idx2, v2) = it.next().unwrap();
    assert_eq!(idx2, vec![1, 1]);
    assert_eq!(*v2, 4);
    assert!(it.next().is_none());
}

#[test]
fn try_new_checks_suffix_products_at_run_time() {
    let s = Shape::try_new(vec![3, 4, 5]).unwrap();
    assert_eq!(s.capacity(), 60);
    assert!(Shape::try_new(vec![usize::MAX, 2]).is_none());
    assert!(Shape::try_new(vec![2, usize::MAX]).is_none());
    // a zero in front keeps the suffix products small
    assert!(Shape::try_new(vec![0, usize::MAX]).is_some());
}
