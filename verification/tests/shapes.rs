use raycast::shapes::{plane_hit, sphere_hit, EPSILON};
use raycast::tracer::Hit;

fn distance_of<P>(hit: &Option<Hit<P>>) -> Option<f64> {
    hit.as_ref().map(|h| f64::from_bits(h.distance))
}

#[test]
fn epsilon_is_one_millionth() {
    assert_eq!(EPSILON, 1e-6f64.to_bits());
}

#[test]
fn sphere_is_missed_when_the_ray_passes_outside_the_radius() {
    let hit = sphere_hit(9.5f64.to_bits(), 9.0f64.to_bits(), 44.0f64.to_bits(), 'p');
    assert!(hit.is_none());
    let hit = sphere_hit(1e300f64.to_bits(), 1.0f64.to_bits(), 0.0f64.to_bits(), 'p');
    assert!(hit.is_none());
    let hit = sphere_hit(f64::INFINITY.to_bits(), 1e300f64.to_bits(), 0.0f64.to_bits(), 'p');
    assert!(hit.is_none());
}

#[test]
fn sphere_is_hit_when_the_ray_passes_inside_the_radius() {
    let hit = sphere_hit(4.0f64.to_bits(), 9.0f64.to_bits(), 44.0f64.to_bits(), 'p');
    assert_eq!(distance_of(&hit), Some(44.0));
    assert_eq!(hit.unwrap().point, 'p');
}

#[test]
fn sphere_is_hit_when_the_ray_touches_it() {
    let hit = sphere_hit(9.0f64.to_bits(), 9.0f64.to_bits(), (-2.5f64).to_bits(), 7u8);
    assert_eq!(distance_of(&hit), Some(-2.5));
    assert_eq!(hit.unwrap().point, 7);
}

#[test]
fn sphere_hit_keeps_distance_and_point_as_given() {
    let hit = sphere_hit(0.0f64.to_bits(), 1.0f64.to_bits(), 0x1234_5678_9abc_def0, (1, 2, 3));
    let hit = hit.unwrap();
    assert_eq!(hit.distance, 0x1234_5678_9abc_def0);
    assert_eq!(hit.point, (1, 2, 3));
}

#[test]
fn sphere_with_an_undefined_approach_counts_as_hit() {
    let hit = sphere_hit(f64::NAN.to_bits(), 9.0f64.to_bits(), 1.0f64.to_bits(), ());
    assert_eq!(distance_of(&hit), Some(1.0));
}

#[test]
fn plane_is_met_from_the_side_its_normal_points_away_from() {
    let hit = plane_hit(0.7f64.to_bits(), 11.0f64.to_bits(), "here");
    assert_eq!(distance_of(&hit), Some(11.0));
    assert_eq!(hit.unwrap().point, "here");
}

#[test]
fn plane_is_missed_by_a_parallel_ray() {
    assert!(plane_hit(0.0f64.to_bits(), 11.0f64.to_bits(), ()).is_none());
    assert!(plane_hit((-0.0f64).to_bits(), 11.0f64.to_bits(), ()).is_none());
    assert!(plane_hit(1e-7f64.to_bits(), 11.0f64.to_bits(), ()).is_none());
}

#[test]
fn plane_is_missed_at_the_threshold_and_met_just_above_it() {
    assert!(plane_hit(1e-6f64.to_bits(), 11.0f64.to_bits(), ()).is_none());
    assert!(plane_hit(EPSILON + 1, 11.0f64.to_bits(), ()).is_some());
    assert!(plane_hit(EPSILON - 1, 11.0f64.to_bits(), ()).is_none());
}

#[test]
fn plane_is_missed_from_behind() {
    assert!(plane_hit((-0.7f64).to_bits(), 11.0f64.to_bits(), ()).is_none());
    assert!(plane_hit((-1e-6f64).to_bits(), 11.0f64.to_bits(), ()).is_none());
    assert!(plane_hit(f64::NEG_INFINITY.to_bits(), 11.0f64.to_bits(), ()).is_none());
}

#[test]
fn plane_behind_the_origin_is_missed() {
    assert!(plane_hit(0.7f64.to_bits(), (-0.001f64).to_bits(), ()).is_none());
    assert!(plane_hit(0.7f64.to_bits(), (-1e300f64).to_bits(), ()).is_none());
}

#[test]
fn plane_through_the_origin_is_met() {
    assert_eq!(distance_of(&plane_hit(0.7f64.to_bits(), 0.0f64.to_bits(), ())), Some(0.0));
    assert!(plane_hit(0.7f64.to_bits(), (-0.0f64).to_bits(), ()).is_some());
}

#[test]
fn plane_with_undefined_quantities_is_missed() {
    assert!(plane_hit(f64::NAN.to_bits(), 11.0f64.to_bits(), ()).is_none());
    assert!(plane_hit(0.7f64.to_bits(), f64::NAN.to_bits(), ()).is_none());
}

#[test]
fn plane_hit_agrees_with_the_comparisons_on_numbers() {
    let values = [
        -1.0, -1e-6, -0.0, 0.0, 1e-7, 1e-6, 1.0000001e-6, 0.5, 1.0, 40.0, f64::INFINITY,
        f64::NEG_INFINITY, f64::NAN,
    ];
    for facing in values {
        for distance in values {
            let hit = plane_hit(facing.to_bits(), distance.to_bits(), ());
            assert_eq!(hit.is_some(), facing > 1e-6 && distance >= 0.0);
        }
    }
}

#[test]
fn sphere_hit_agrees_with_the_comparison_on_numbers() {
    let values = [
        -1.0, -0.0, 0.0, 1e-7, 0.5, 1.0, 4.0, 9.0, 9.000000000000002, 40.0, f64::INFINITY,
        f64::NEG_INFINITY, f64::NAN,
    ];
    for approach in values {
        for radius in values {
            let hit = sphere_hit(approach.to_bits(), radius.to_bits(), 1.0f64.to_bits(), ());
            assert_eq!(hit.is_none(), approach > radius);
        }
    }
}
