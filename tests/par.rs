use ndarray::{Array2, Axis};
use ndarray_parallel::lanes::AxisLanes;
use ndarray_parallel::par::{Parallel, ParallelProducer};

#[test]
fn length_invariant_reports_axis_length() {
    let arr = Array2::<i64>::zeros((8, 3));
    let n = arr.axis_iter(Axis(0)).len();
    let mut par = Parallel::from(AxisLanes::new(n));
    assert_eq!(par.len(), 8);
    assert_eq!(par.upper_bound(), 8);
    let producer = par.with_producer();
    assert_eq!(producer.size_hint(), (8, Some(8)));
    assert_eq!(producer.drain().len(), 8);
    par = Parallel::from(AxisLanes::new(5));
    assert_eq!(par.into_inner().len(), 5);
}

#[test]
fn sequential_drain_yields_lanes_in_order() {
    let mut p = Parallel::from(AxisLanes::new(3)).with_producer();
    assert_eq!(p.next(), Some(0));
    assert_eq!(p.size_hint(), (2, Some(2)));
    assert_eq!(p.next(), Some(1));
    assert_eq!(p.next(), Some(2));
    assert_eq!(p.next(), None);
    assert_eq!(p.next(), None);
    assert_eq!(p.size_hint(), (0, Some(0)));
}

#[test]
fn order_preserved_over_nested_splits() {
    let whole: Vec<usize> = Parallel::from(AxisLanes::new(10)).with_producer().drain();
    let p = Parallel::from(AxisLanes::new(10)).with_producer();
    let (a, b) = p.split_at(4);
    let (a1, a2) = a.split_at(1);
    let (b1, b2) = b.split_at(6);
    let (b21, b22) = b2.split_at(0);
    let mut joined = Vec::new();
    for leaf in [a1, a2, b1, b21, b22] {
        joined.extend(leaf.drain());
    }
    assert_eq!(joined, whole);
    assert_eq!(joined, (0..10).collect::<Vec<usize>>());
}

#[test]
fn partition_complete_at_every_index() {
    let n: usize = 7;
    for i in 0..=n {
        let p = Parallel::from(AxisLanes::new(n)).with_producer();
        let (left, right) = p.split_at(i);
        assert_eq!(left.size_hint().0, i);
        assert_eq!(right.size_hint().0, n - i);
        let l = left.drain();
        let r = right.drain();
        assert_eq!(l, (0..i).collect::<Vec<usize>>());
        assert_eq!(r, (i..n).collect::<Vec<usize>>());
        assert!(l.iter().all(|x| !r.contains(x)));
    }
}

#[test]
fn split_after_partial_drain_is_relative() {
    let mut p = Parallel::from(AxisLanes::new(6)).with_producer();
    assert_eq!(p.next(), Some(0));
    assert_eq!(p.next(), Some(1));
    let (l, r) = p.split_at(3);
    assert_eq!(l.drain(), vec![2, 3, 4]);
    assert_eq!(r.drain(), vec![5]);
}

#[test]
fn cost_is_linear_in_length() {
    let p = Parallel::from(AxisLanes::new(4)).with_producer();
    assert_eq!(p.cost(0), 0);
    assert_eq!(p.cost(4), 4);
    assert_eq!(p.cost(1000), 1000);
}

#[test]
fn mutable_halves_do_not_overlap() {
    let mut arr = Array2::<i64>::zeros((8, 3));
    let n = arr.len_of(Axis(0));
    let p = Parallel::from(AxisLanes::new(n)).with_producer();
    let (left, right) = p.split_at(3);
    let left_rows = left.drain();
    let right_rows = right.drain();
    let (it_left, it_right) = arr.axis_iter_mut(Axis(0)).split_at(left_rows.len());
    rayon::join(
        || {
            for (mut row, k) in it_left.zip(left_rows.iter()) {
                row.fill(100 + *k as i64);
            }
        },
        || {
            for (mut row, k) in it_right.zip(right_rows.iter()) {
                row.fill(200 + *k as i64);
            }
        },
    );
    for r in 0..8 {
        let expected = if r < 3 { 100 + r as i64 } else { 200 + r as i64 };
        for c in 0..3 {
            assert_eq!(arr[[r, c]], expected);
        }
    }
}

#[test]
fn empty_conversion_yields_nothing() {
    let arr = Array2::<i64>::zeros((0, 4));
    let n = arr.axis_iter(Axis(0)).len();
    let par = Parallel::from(AxisLanes::new(n));
    assert_eq!(par.len(), 0);
    assert_eq!(par.upper_bound(), 0);
    let mut p = par.with_producer();
    assert_eq!(p.next(), None);
    assert_eq!(p.drain(), Vec::<usize>::new());
}

#[test]
fn parallel_row_sum_matches_sequential() {
    let arr = Array2::from_shape_fn((8, 3), |(r, c)| (r * 10 + c) as f64 + 0.5);
    let sequential: f64 = arr.axis_iter(Axis(0)).map(|row| row[0]).sum();
    for threads in [1usize, 2, 8] {
        let pool = rayon::ThreadPoolBuilder::new().num_threads(threads).build().unwrap();
        let total = pool.install(|| {
            let p: ParallelProducer<AxisLanes> =
                Parallel::from(AxisLanes::new(arr.len_of(Axis(0)))).with_producer();
            let (a, b) = p.split_at(4);
            let (a1, a2) = a.split_at(2);
            let (b1, b2) = b.split_at(2);
            let sum_leaf = |leaf: ParallelProducer<AxisLanes>| -> f64 {
                leaf.drain().into_iter().map(|r| arr[[r, 0]]).sum()
            };
            let ((s1, s2), (s3, s4)) = rayon::join(
                || rayon::join(|| sum_leaf(a1), || sum_leaf(a2)),
                || rayon::join(|| sum_leaf(b1), || sum_leaf(b2)),
            );
            s1 + s2 + s3 + s4
        });
        assert_eq!(total, sequential);
    }
}
