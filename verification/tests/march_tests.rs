use donut::march::{trace, March, Probe, Status, MAX_MARCH_STEPS};

const FAR_CLIP: f64 = 10.0;
const MIN_DIST: f64 = 0.01;

fn rotate(p: [f64; 3], r: [f64; 3]) -> [f64; 3] {
    let (cx, cy, cz) = (r[0].cos(), r[1].cos(), r[2].cos());
    let (sx, sy, sz) = (r[0].sin(), r[1].sin(), r[2].sin());
    let rows = [
        [cx * cy, cx * sy * sz - sx * cz, cx * sy * cz + sx * sz],
        [sx * cy, sx * sy * sz + cx * cz, sx * sy * cz - cx * sz],
        [-sy, cy * sz, cy * cz],
    ];
    [
        rows[0][0] * p[0] + rows[0][1] * p[1] + rows[0][2] * p[2],
        rows[1][0] * p[0] + rows[1][1] * p[1] + rows[1][2] * p[2],
        rows[2][0] * p[0] + rows[2][1] * p[1] + rows[2][2] * p[2],
    ]
}

fn scene_distance(p: [f64; 3], time: f64) -> f64 {
    let q = rotate(p, [std::f64::consts::PI / 3.5, 2.0 * time, 0.0]);
    let ring = (q[0] * q[0] + q[2] * q[2]).sqrt() - 0.5;
    (ring * ring + q[1] * q[1]).sqrt() - 0.25
}

fn raymarch(origin: [f64; 3], direction: [f64; 3], far_clip: f64, time: f64, cap: u64) -> (March, f64) {
    trace(cap, 0.0, |depth: f64| {
        let at = [
            origin[0] + direction[0] * depth,
            origin[1] + direction[1] * depth,
            origin[2] + direction[2] * depth,
        ];
        let dist = scene_distance(at, time);
        if dist < MIN_DIST {
            (Probe::Surface, depth)
        } else if depth + dist > far_clip {
            (Probe::Escaped, depth + dist)
        } else {
            (Probe::Advanced, depth + dist)
        }
    })
}

#[test]
fn step_cap_of_the_renderer() {
    assert_eq!(MAX_MARCH_STEPS, 100);
}

#[test]
fn a_fresh_march_awaits_its_first_probe() {
    let march = March::begin(100);
    assert_eq!(march.status(), Status::Marching);
    assert!(march.is_marching());
    assert_eq!(march.taken(), 0);
    assert_eq!(march.cap(), 100);
}

#[test]
fn a_march_with_no_steps_is_exhausted_at_once() {
    let march = March::begin(0);
    assert_eq!(march.status(), Status::Exhausted);
    assert!(!march.is_marching());
    assert_eq!(march.taken(), 0);
}

#[test]
fn surface_ends_the_march_with_a_hit() {
    let march = March::begin(5).observe(Probe::Advanced).observe(Probe::Surface);
    assert_eq!(march.status(), Status::Hit);
    assert_eq!(march.taken(), 2);
    assert!(!march.is_marching());
}

#[test]
fn escape_ends_the_march_with_a_miss() {
    let march = March::begin(5).observe(Probe::Escaped);
    assert_eq!(march.status(), Status::Miss);
    assert_eq!(march.taken(), 1);
}

#[test]
fn the_cap_ends_the_march() {
    let mut march = March::begin(3);
    march = march.observe(Probe::Advanced);
    assert_eq!(march.status(), Status::Marching);
    march = march.observe(Probe::Advanced);
    assert_eq!(march.status(), Status::Marching);
    march = march.observe(Probe::Advanced);
    assert_eq!(march.status(), Status::Exhausted);
    assert_eq!(march.taken(), 3);
}

#[test]
fn the_last_allowed_probe_may_still_decide() {
    let hit = March::begin(2).observe(Probe::Advanced).observe(Probe::Surface);
    assert_eq!(hit.status(), Status::Hit);
    let miss = March::begin(2).observe(Probe::Advanced).observe(Probe::Escaped);
    assert_eq!(miss.status(), Status::Miss);
    let single = March::begin(1).observe(Probe::Advanced);
    assert_eq!(single.status(), Status::Exhausted);
}

#[test]
fn a_finished_march_ignores_further_probes() {
    let hit = March::begin(10).observe(Probe::Surface);
    let later = hit.observe(Probe::Escaped).observe(Probe::Advanced);
    assert_eq!(later.status(), Status::Hit);
    assert_eq!(later.taken(), 1);

    let miss = March::begin(10).observe(Probe::Escaped).observe(Probe::Surface);
    assert_eq!(miss.status(), Status::Miss);
    assert_eq!(miss.taken(), 1);

    let spent = March::begin(1).observe(Probe::Advanced).observe(Probe::Surface);
    assert_eq!(spent.status(), Status::Exhausted);
    assert_eq!(spent.taken(), 1);
}

#[test]
fn a_march_never_uses_more_probes_than_its_cap() {
    for cap in 0..20u64 {
        let mut march = March::begin(cap);
        for _ in 0..40 {
            march = march.observe(Probe::Advanced);
            assert!(march.taken() <= cap);
        }
        assert_eq!(march.status(), Status::Exhausted);
        assert_eq!(march.taken(), cap);
    }
}

#[test]
fn trace_asks_the_sampler_until_the_march_is_over() {
    let (march, depth) = trace(100, 0u32, |depth: u32| {
        if depth == 7 {
            (Probe::Surface, depth)
        } else {
            (Probe::Advanced, depth + 1)
        }
    });
    assert_eq!(march.status(), Status::Hit);
    assert_eq!(march.taken(), 8);
    assert_eq!(depth, 7);
}

#[test]
fn trace_stops_at_the_cap() {
    let (march, depth) = trace(100, 0u32, |depth: u32| (Probe::Advanced, depth + 2));
    assert_eq!(march.status(), Status::Exhausted);
    assert_eq!(march.taken(), 100);
    assert_eq!(depth, 200);
}

#[test]
fn trace_with_no_steps_returns_the_origin() {
    let (march, depth) = trace(0, 42u32, |depth: u32| (Probe::Escaped, depth + 1));
    assert_eq!(march.status(), Status::Exhausted);
    assert_eq!(march.taken(), 0);
    assert_eq!(depth, 42);
}

#[test]
fn trace_reports_a_miss_with_the_depth_reached() {
    let (march, depth) = trace(100, 1u32, |depth: u32| {
        if depth * 3 > 50 {
            (Probe::Escaped, depth * 3)
        } else {
            (Probe::Advanced, depth * 3)
        }
    });
    assert_eq!(march.status(), Status::Miss);
    assert_eq!(march.taken(), 4);
    assert_eq!(depth, 81);
}

#[test]
fn ray_towards_the_torus_hits_near_four_and_a_quarter() {
    let (march, depth) = raymarch([0.0, 0.0, 5.0], [0.0, 0.0, -1.0], FAR_CLIP, 0.0, MAX_MARCH_STEPS);
    assert_eq!(march.status(), Status::Hit);
    assert!((depth - 4.25).abs() < 0.02);
    assert!(march.taken() <= MAX_MARCH_STEPS);
}

#[test]
fn ray_away_from_the_scene_misses() {
    let (march, _depth) = raymarch([0.0, 0.0, 5.0], [0.0, 0.0, 1.0], FAR_CLIP, 0.0, MAX_MARCH_STEPS);
    assert_eq!(march.status(), Status::Miss);
    assert_eq!(march.taken(), 2);
}

#[test]
fn ray_with_a_short_far_clip_misses_before_the_surface() {
    let (march, _depth) = raymarch([0.0, 0.0, 5.0], [0.0, 0.0, -1.0], 4.0, 0.0, MAX_MARCH_STEPS);
    assert_eq!(march.status(), Status::Miss);
    assert_eq!(march.taken(), 1);
}

#[test]
fn ray_with_a_small_cap_is_exhausted_on_its_way() {
    let (march, depth) = raymarch([-0.5, 0.5, 3.0], [0.3, -0.2, -1.0], FAR_CLIP, 0.4, 2);
    assert_eq!(march.status(), Status::Exhausted);
    assert_eq!(march.taken(), 2);
    assert!(depth > 0.0);
}

#[test]
fn equal_inputs_give_equal_marches() {
    let first = raymarch([-0.5, 0.5, 3.0], [0.1, -0.1, -1.0], FAR_CLIP, 1.25, MAX_MARCH_STEPS);
    let second = raymarch([-0.5, 0.5, 3.0], [0.1, -0.1, -1.0], FAR_CLIP, 1.25, MAX_MARCH_STEPS);
    assert_eq!(first.0.status(), second.0.status());
    assert_eq!(first.0.taken(), second.0.taken());
    assert_eq!(first.1.to_bits(), second.1.to_bits());
}
