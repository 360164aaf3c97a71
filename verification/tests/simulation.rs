//! Runs of the integrator: drag-free closed forms, the symmetric launch,
//! the concrete drag scenario, and the stop conditions.

use dragsim::physics::{simulate_motion, MotionState, Parameters, Vec2};

fn state(px: i64, py: i64, vx: i64, vy: i64) -> MotionState {
    MotionState {
        position: Vec2::new(px, py),
        velocity: Vec2::new(vx, vy),
        acceleration: Vec2::new(0, 0),
        time: 0,
    }
}

#[test]
fn test_no_drag_closed_form() {
    // 30 m/s across, 40 m/s up, no drag: drag coefficient zero.
    let params = Parameters::new(10_000, 1_200_000, 0, 145_000, 1_000, state(0, 0, 30_000_000, 40_000_000), 10_000_000).unwrap();
    let states = simulate_motion(params).unwrap();
    assert!(states.len() > 2);
    for (i, s) in states.iter().enumerate() {
        let i: i64 = i as i64;
        // horizontal velocity constant, vertical velocity linear, one scaled
        // gravity increment (9.81 ticks-per-tick * 0.001 s = 9810 ticks) per step
        assert_eq!(s.velocity.x, 30_000_000);
        assert_eq!(s.velocity.y, 40_000_000 - 9_810 * i);
        // horizontal position linear, 30 m/s * 0.001 s per step
        assert_eq!(s.position.x, 30_000 * i);
        // vertical position matches the analytic parabola within the
        // accumulated rounding of one step per recorded state
        let t = i as f64 * 0.001;
        let analytic = 40.0 * t - 4.905 * t * t;
        let recorded = s.position.y as f64 / 1e6;
        assert!((recorded - analytic).abs() < 0.05, "step {i}: {recorded} vs {analytic}");
        // time climbs one step per state
        assert_eq!(s.time, 1_000 * i);
    }
}

#[test]
fn test_no_drag_exact_parabola() {
    // a hundredth-of-a-unit step keeps every scaled product on whole ticks:
    // the gravity increment per step is 9.81 * 0.01 = 98100 ticks of
    // velocity, 981 ticks of position, half-term 490; the vertical position
    // follows the discrete parabola exactly
    let params = Parameters::new(10_000, 1_200_000, 0, 145_000, 10_000, state(0, 0, 30_000_000, 40_000_000), 10_000_000).unwrap();
    let states = simulate_motion(params).unwrap();
    assert!(states.len() > 100);
    for (i, s) in states.iter().enumerate() {
        let i: i64 = i as i64;
        assert_eq!(s.velocity.y, 40_000_000 - 98_100 * i);
        assert_eq!(s.position.y, 400_000 * i - 981 * (i * (i - 1) / 2) - 490 * i);
    }
}

#[test]
fn test_symmetry_45_degrees() {
    // 40 m/s at 45 degrees: both components 40 / sqrt(2), no drag, flat ground.
    let v: i64 = 28_284_271;
    let params = Parameters::new(10_000, 1_200_000, 0, 145_000, 1_000, state(0, 0, v, v), 10_000_000).unwrap();
    let states = simulate_motion(params).unwrap();
    // peak height is V * V / (4 * g) = 40.7747 m
    let peak = states.iter().map(|s| s.position.y).max().unwrap();
    assert!(peak > 40_700_000, "peak {peak}");
    assert!(peak < 40_850_000, "peak {peak}");
    // total range is V * V / g = 163.0989 m
    let last = states.last().unwrap();
    assert!(last.position.y < 0);
    assert!(last.position.x > 163_000_000, "range {}", last.position.x);
    assert!(last.position.x < 163_200_000, "range {}", last.position.x);
}

#[test]
fn test_concrete_drag_scenario() {
    // cross_area 0.01, fluid density 1.2, drag coefficient 0.47, mass 0.145,
    // step 0.001, launch 40 m/s at 45 degrees from the origin, stop at 10 s.
    let v: i64 = 28_284_271;
    let params = Parameters::new(10_000, 1_200_000, 470_000, 145_000, 1_000, state(0, 0, v, v), 10_000_000).unwrap();
    assert_eq!(params.drag_proportion(), 2_820);
    let states = simulate_motion(params).unwrap();
    // terminates on ground impact, well before the stop time
    let last = states.last().unwrap();
    assert!(last.position.y < 0);
    assert!(last.time < 10_000_000);
    // peak strictly below the drag-free analytic peak of 40.77 m
    let peak = states.iter().map(|s| s.position.y).max().unwrap();
    assert!(peak < 40_800_000, "peak {peak}");
    assert!(peak > 10_000_000, "peak {peak}");
}

#[test]
fn test_monotonic_time() {
    let v: i64 = 28_284_271;
    let params = Parameters::new(10_000, 1_200_000, 470_000, 145_000, 1_000, state(0, 0, v, v), 10_000_000).unwrap();
    let states = simulate_motion(params).unwrap();
    for w in states.windows(2) {
        assert_eq!(w[1].time, w[0].time + 1_000);
    }
}

#[test]
fn test_ground_stop_or_time_stop() {
    let v: i64 = 28_284_271;
    // with drag and a distant stop time: ends below ground
    let impact = Parameters::new(10_000, 1_200_000, 470_000, 145_000, 1_000, state(0, 0, v, v), 10_000_000).unwrap();
    let states = simulate_motion(impact).unwrap();
    let last = states.last().unwrap();
    assert!(last.position.y < 0 || last.time >= 10_000_000);
    for (i, s) in states.iter().enumerate() {
        if i + 1 < states.len() {
            assert!(s.time < 10_000_000);
            if i >= 1 {
                assert!(s.position.y >= 0);
            }
        }
    }
    // with a stop time before the impact: ends exactly at the stop time
    let timed = Parameters::new(10_000, 1_200_000, 470_000, 145_000, 1_000, state(0, 0, v, v), 1_000_000).unwrap();
    let states = simulate_motion(timed).unwrap();
    assert_eq!(states.len(), 1_001);
    assert_eq!(states.last().unwrap().time, 1_000_000);
    assert!(states.iter().all(|s| s.position.y >= 0));
}

#[test]
fn test_drag_reduces_range() {
    let v: i64 = 28_284_271;
    let mild = Parameters::new(10_000, 1_200_000, 470_000, 145_000, 1_000, state(0, 0, v, v), 10_000_000).unwrap();
    let strong = Parameters::new(10_000, 1_200_000, 940_000, 145_000, 1_000, state(0, 0, v, v), 10_000_000).unwrap();
    let none = Parameters::new(10_000, 1_200_000, 0, 145_000, 1_000, state(0, 0, v, v), 10_000_000).unwrap();
    let range = |p| {
        let states = simulate_motion(p).unwrap();
        dragsim::chart::find_maxes(&states).0
    };
    let r_none = range(none);
    let r_mild = range(mild);
    let r_strong = range(strong);
    assert!(r_strong < r_mild, "{r_strong} vs {r_mild}");
    assert!(r_mild < r_none, "{r_mild} vs {r_none}");
}

#[test]
fn test_no_drag_variants_agree() {
    // zeroing any drag input through the constructor gives the same
    // drag-free run; the derived proportion is never set by hand
    let init = state(0, 0, 20_000_000, 20_000_000);
    let by_coefficient = Parameters::new(10_000, 1_200_000, 0, 145_000, 1_000, init, 5_000_000).unwrap();
    let by_area = Parameters::new(0, 1_200_000, 470_000, 145_000, 1_000, init, 5_000_000).unwrap();
    let with_drag = Parameters::new(10_000, 1_200_000, 470_000, 145_000, 1_000, init, 5_000_000).unwrap();
    let derived = with_drag.without_drag();
    let a = simulate_motion(by_coefficient).unwrap();
    let b = simulate_motion(by_area).unwrap();
    let c = simulate_motion(derived).unwrap();
    assert_eq!(a, b);
    assert_eq!(a, c);
}

#[test]
fn test_zero_gravity_straight_line() {
    let params = Parameters::new_with_gravity(
        10_000, 1_200_000, 0, 145_000, 1_000, state(0, 0, 1_000_000, 1_000_000), 10_000, 0,
    )
    .unwrap();
    let states = simulate_motion(params).unwrap();
    assert_eq!(states.len(), 11);
    for (i, s) in states.iter().enumerate() {
        let i: i64 = i as i64;
        assert_eq!(s.velocity.x, 1_000_000);
        assert_eq!(s.velocity.y, 1_000_000);
        assert_eq!(s.position.x, 1_000 * i);
        assert_eq!(s.position.y, 1_000 * i);
    }
}

#[test]
fn test_ending_before_start_records_only_initial() {
    let init = state(5, 7, 1_000_000, 1_000_000);
    let params = Parameters::new(10_000, 1_200_000, 470_000, 145_000, 1_000, init, 0).unwrap();
    let states = simulate_motion(params).unwrap();
    assert_eq!(states.len(), 1);
    assert_eq!(states[0], init);
    let params = Parameters::new(10_000, 1_200_000, 470_000, 145_000, 1_000, init, -5_000).unwrap();
    assert_eq!(simulate_motion(params).unwrap().len(), 1);
}

#[test]
fn test_initial_below_ground_still_steps_once() {
    // the ground check runs only on freshly recorded states, so a start
    // below ground is stepped once and the run stops on the second state
    let init = state(0, -1, 0, 0);
    let params = Parameters::new(10_000, 1_200_000, 470_000, 145_000, 1_000, init, 10_000_000).unwrap();
    let states = simulate_motion(params).unwrap();
    assert_eq!(states.len(), 2);
    assert!(states[1].position.y < 0);
}
