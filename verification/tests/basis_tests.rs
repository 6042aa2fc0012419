use donut::basis::reference_axis;

fn cross(a: [f64; 3], b: [f64; 3]) -> [f64; 3] {
    [a[1] * b[2] - a[2] * b[1], a[2] * b[0] - a[0] * b[2], a[0] * b[1] - a[1] * b[0]]
}

fn length(v: [f64; 3]) -> f64 {
    (v[0] * v[0] + v[1] * v[1] + v[2] * v[2]).sqrt()
}

fn ranks_for(direction: [f64; 3]) -> [u64; 3] {
    let mag = length(direction);
    let n = [direction[0] / mag, direction[1] / mag, direction[2] / mag];
    [
        length(cross(n, [1.0, 0.0, 0.0])).to_bits(),
        length(cross(n, [0.0, 1.0, 0.0])).to_bits(),
        length(cross(n, [0.0, 0.0, 1.0])).to_bits(),
    ]
}

#[test]
fn the_largest_rank_wins() {
    assert_eq!(reference_axis([3, 1, 2]), 0);
    assert_eq!(reference_axis([1, 3, 2]), 1);
    assert_eq!(reference_axis([1, 2, 3]), 2);
}

#[test]
fn the_first_of_equal_ranks_wins() {
    assert_eq!(reference_axis([5, 5, 5]), 0);
    assert_eq!(reference_axis([1, 5, 5]), 1);
    assert_eq!(reference_axis([5, 1, 5]), 0);
    assert_eq!(reference_axis([5, 5, 1]), 0);
}

#[test]
fn all_zero_ranks_keep_the_first_axis() {
    assert_eq!(reference_axis([0, 0, 0]), 0);
}

#[test]
fn extreme_ranks() {
    assert_eq!(reference_axis([u64::MAX, u64::MAX, u64::MAX]), 0);
    assert_eq!(reference_axis([0, 0, u64::MAX]), 2);
    assert_eq!(reference_axis([u64::MAX - 1, u64::MAX, 0]), 1);
}

#[test]
fn camera_looking_down_the_z_axis_builds_on_x() {
    assert_eq!(reference_axis(ranks_for([0.0, 0.0, -1.0])), 0);
}

#[test]
fn camera_looking_down_the_x_axis_builds_on_y() {
    assert_eq!(reference_axis(ranks_for([1.0, 0.0, 0.0])), 1);
}

#[test]
fn camera_looking_down_the_y_axis_builds_on_x() {
    assert_eq!(reference_axis(ranks_for([0.0, 2.0, 0.0])), 0);
}

#[test]
fn camera_direction_nearest_to_x_avoids_x() {
    let axis = reference_axis(ranks_for([0.9, 0.3, 0.1]));
    assert_eq!(axis, 2);
}

#[test]
fn bit_patterns_of_lengths_keep_their_order() {
    let lengths = [0.0_f64, 1e-300, 0.25, 0.5, 0.999, 1.0, 7.5, 1e300];
    for i in 0..lengths.len() {
        for j in 0..lengths.len() {
            assert_eq!(lengths[i] < lengths[j], lengths[i].to_bits() < lengths[j].to_bits());
        }
    }
}
