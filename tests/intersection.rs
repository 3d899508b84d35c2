use renderer::intersection::{media_at, nearest_hit, sort_by_distance};

#[test]
fn finding_n1_and_n2_at_various_intersections() {
    // Three nested glass spheres: a (index 1.5) holds b (2.0) and c (2.5),
    // and the ray crosses a, b, c, b, c, a in that order.
    let a: usize = 0;
    let b: usize = 1;
    let c: usize = 2;
    let refractive_index = [1.5, 2.0, 2.5];
    let objects = vec![a, b, c, b, c, a];

    let index_of = |m: Option<usize>| m.map_or(1.0, |o| refractive_index[o]);

    let expected = [(1.0, 1.5), (1.5, 2.0), (2.0, 2.5), (2.5, 2.5), (2.5, 1.5), (1.5, 1.0)];
    for (hit, &(n1, n2)) in expected.iter().enumerate() {
        let (leaving, entering) = media_at(&objects, hit);
        assert_eq!(index_of(leaving), n1);
        assert_eq!(index_of(entering), n2);
    }
}

#[test]
fn nested_media_by_object() {
    let objects = vec![0, 1, 2, 1, 2, 0];

    assert_eq!(media_at(&objects, 0), (None, Some(0)));
    assert_eq!(media_at(&objects, 1), (Some(0), Some(1)));
    assert_eq!(media_at(&objects, 2), (Some(1), Some(2)));
    assert_eq!(media_at(&objects, 3), (Some(2), Some(2)));
    assert_eq!(media_at(&objects, 4), (Some(2), Some(0)));
    assert_eq!(media_at(&objects, 5), (Some(0), None));
}

#[test]
fn single_sphere_is_entered_then_left() {
    let objects = vec![4, 4];

    assert_eq!(media_at(&objects, 0), (None, Some(4)));
    assert_eq!(media_at(&objects, 1), (Some(4), None));
}

#[test]
fn leaving_an_outer_object_keeps_the_inner_one() {
    // Overlapping rather than nested: enter 0, enter 1, leave 0, leave 1.
    let objects = vec![0, 1, 0, 1];

    assert_eq!(media_at(&objects, 2), (Some(1), Some(1)));
    assert_eq!(media_at(&objects, 3), (Some(1), None));
}

fn distances(ts: &[f64]) -> Vec<u64> {
    ts.iter().map(|t| t.to_bits()).collect()
}

#[test]
fn the_hit_when_all_intersection_have_positive_t() {
    assert_eq!(nearest_hit(&distances(&[1., 2.])), Some(0));
}

#[test]
fn the_hit_when_some_intersection_have_negative_t() {
    assert_eq!(nearest_hit(&distances(&[-1., 1.])), Some(1));
}

#[test]
fn the_hit_when_all_intersection_have_negative_t() {
    assert_eq!(nearest_hit(&distances(&[-2., -1.])), None);
}

#[test]
fn the_hit_is_always_the_have_lowest_nonnegative_intersection() {
    assert_eq!(nearest_hit(&distances(&[5., 7., -3., 2.])), Some(3));
}

#[test]
fn the_hit_of_no_intersections() {
    assert_eq!(nearest_hit(&Vec::new()), None);
}

#[test]
fn the_hit_counts_zero_as_in_front() {
    assert_eq!(nearest_hit(&distances(&[-1., 0., 3.])), Some(1));
    assert_eq!(nearest_hit(&distances(&[-1., -0.0, 3.])), Some(1));
    assert_eq!(nearest_hit(&distances(&[0.5, 0.0, -0.0])), Some(1));
}

#[test]
fn the_hit_takes_the_first_of_equal_distances() {
    assert_eq!(nearest_hit(&distances(&[4., 2., 2.])), Some(1));
}

#[test]
fn the_hit_ignores_nan_and_reaches_infinity() {
    assert_eq!(nearest_hit(&distances(&[f64::NAN, f64::INFINITY])), Some(1));
    assert_eq!(nearest_hit(&distances(&[f64::NAN, -f64::NAN, f64::NEG_INFINITY])), None);
    assert_eq!(nearest_hit(&distances(&[1e300, f64::MIN_POSITIVE, 1.0])), Some(1));
}

#[test]
fn intersections_are_sorted_by_distance() {
    assert_eq!(sort_by_distance(&distances(&[5., 7., -3., 2.])), vec![2, 3, 0, 1]);
}

#[test]
fn sorting_keeps_equal_distances_in_order() {
    assert_eq!(sort_by_distance(&distances(&[1., -1., 1., -1.])), vec![1, 3, 0, 2]);
    assert_eq!(sort_by_distance(&distances(&[0.0, -0.0])), vec![0, 1]);
    assert_eq!(sort_by_distance(&distances(&[-0.0, 0.0])), vec![0, 1]);
}

#[test]
fn sorting_orders_extremes() {
    let ts = [f64::INFINITY, -f64::MIN_POSITIVE, f64::NEG_INFINITY, 0.0, f64::MIN_POSITIVE, -1e300];
    assert_eq!(sort_by_distance(&distances(&ts)), vec![2, 5, 1, 3, 4, 0]);
}

#[test]
fn sorting_nothing() {
    assert!(sort_by_distance(&Vec::new()).is_empty());
}

#[test]
fn sorted_list_hit_is_first_non_negative() {
    let ts = distances(&[5., 7., -3., 2.]);
    let order = sort_by_distance(&ts);
    let sorted: Vec<u64> = order.iter().map(|&i| ts[i]).collect();
    assert_eq!(nearest_hit(&sorted), Some(1));
    assert_eq!(order[1], 3);
}
