use dynlab::calibration::{ExpSystem, RampSystem};
use dynlab::double_pendulum::{DoublePendulum, PendulumTrig};
use dynlab::dynamical_system::{DynamicalSystem, Noise};
use dynlab::integrators::{euler_step, rk4_step};
use dynlab::logistic_map::{logistic_map, LogisticMap};
use dynlab::lorenz::Lorenz;
use dynlab::lyapunov::{
    lyapunov_derivative_magnitudes, lyapunov_trajectory_ratios, HalvingMap, QuadraticMap,
};
use dynlab::math::Vec2;
use dynlab::rational::Rat;
use dynlab::session::{Session, Simulation};
use dynlab::StepError;

fn q(n: i64, d: i64) -> Rat {
    Rat::new(n, d)
}

fn qi(n: i64) -> Rat {
    Rat::from_int(n)
}

#[test]
fn test_vec2_add() {
    let v1 = Vec2::new(qi(1), qi(2));
    let v2 = Vec2::new(qi(1), qi(2));
    assert_eq!(Vec2::new(qi(2), qi(4)), v1.add(&v2).unwrap());
}

#[test]
fn test_vec2_sub() {
    let v1 = Vec2::new(qi(1), qi(2));
    let v2 = Vec2::new(qi(1), qi(2));
    assert_eq!(Vec2::new(qi(0), qi(0)), v1.sub(&v2).unwrap());
}

#[test]
fn test_vec2_mul() {
    let v1 = Vec2::new(qi(1), qi(2));
    assert_eq!(Vec2::new(qi(2), qi(4)), v1.mul(qi(2)).unwrap());
}

#[test]
fn test_vec2_dot() {
    let v1 = Vec2::new(qi(1), qi(2));
    let v2 = Vec2::new(qi(1), qi(2));
    assert_eq!(qi(5), v1.dot(&v2).unwrap());
}

#[test]
fn vec2_eq_tolerates_tiny_differences() {
    // components less than 2^-52 apart compare equal; at or above it, not
    let a = Vec2::new(qi(0), qi(0));
    let closer = Vec2::new(q(1, 9007199254740992), qi(0));
    let at_eps = Vec2::new(q(1, 4503599627370496), qi(0));
    let farther = Vec2::new(q(1, 2251799813685248), qi(0));
    assert_eq!(a, closer);
    assert_ne!(a, at_eps);
    assert_ne!(a, farther);
    assert_eq!(at_eps, at_eps);
}

#[test]
fn rat_add_exact_components() {
    let r = q(1, 2).add(q(1, 3)).unwrap();
    assert_eq!(5, r.numer());
    assert_eq!(6, r.denom());
}

#[test]
fn rat_sub_and_mul_exact() {
    let r = q(3, 4).sub(q(1, 4)).unwrap();
    assert_eq!(q(1, 2), r);
    let p = q(2, 3).mul(q(3, 2)).unwrap();
    assert_eq!(qi(1), p);
}

#[test]
fn rat_div_normalizes_sign() {
    let r = q(1, 2).div(q(-3, 4)).unwrap();
    assert_eq!(-4, r.numer());
    assert_eq!(6, r.denom());
}

#[test]
fn rat_abs_and_compare() {
    let r = q(-5, 3).abs().unwrap();
    assert_eq!(q(5, 3), r);
    assert!(q(1, 3).lt(&q(1, 2)));
    assert!(!q(1, 2).lt(&q(1, 3)));
    assert_eq!(q(2, 4), q(1, 2));
}

#[test]
fn rat_add_overflow_is_none() {
    assert!(qi(i64::MAX).add(qi(1)).is_none());
    assert!(qi(i64::MAX).mul(qi(2)).is_none());
}

#[test]
fn lorenz_default_parameters() {
    let l = Lorenz::default();
    assert_eq!(qi(10), l.sigma);
    assert_eq!(qi(28), l.ro);
    assert_eq!(q(8, 3), l.beta);
}

#[test]
fn lorenz_rhs_exact_values() {
    // sigma=10, ro=28, beta=8/3 at [1, 2, 3]:
    // [10*(2-1), 1*(28-3)-2, 1*2 - (8/3)*3] = [10, 23, -6]
    let l = Lorenz::default();
    let state = vec![qi(1), qi(2), qi(3)];
    let d = l.rhs(qi(0), &state).unwrap();
    assert_eq!(3, d.len());
    assert_eq!(qi(10), d[0]);
    assert_eq!(qi(23), d[1]);
    assert_eq!(qi(-6), d[2]);
}

#[test]
fn rhs_length_matches_dimension() {
    let l = Lorenz::default();
    let d = l.rhs(qi(0), &vec![qi(1), qi(1), qi(1)]).unwrap();
    assert_eq!(l.dimension(), d.len());
    let m = LogisticMap::default();
    let d = m.rhs(q(1, 2), &vec![qi(0)]).unwrap();
    assert_eq!(m.dimension(), d.len());
    let e = ExpSystem;
    let d = e.rhs(qi(0), &vec![qi(7)]).unwrap();
    assert_eq!(e.dimension(), d.len());
    let r = RampSystem;
    let d = r.rhs(qi(3), &vec![qi(7)]).unwrap();
    assert_eq!(r.dimension(), d.len());
    let dp = DoublePendulum::default();
    let d = dp
        .rhs_with_trig(qi(0), &vec![qi(0); 4], &rest_trig())
        .unwrap();
    assert_eq!(dp.dimension(), d.len());
}

#[test]
fn test_euler_step() {
    let mut state = vec![qi(1)];
    let t = qi(0);
    let dt = q(1, 10);
    let sys = LogisticMap { r: q(357, 1000) };
    euler_step(&sys, &mut state, t, dt).unwrap();
    // the map reads its input from t = 0, so the derivative is zero
    assert_eq!(qi(1), state[0]);
}

#[test]
fn euler_zero_step_is_noop() {
    let l = Lorenz::default();
    let mut state = vec![qi(1), qi(2), qi(3)];
    euler_step(&l, &mut state, qi(0), qi(0)).unwrap();
    assert_eq!(qi(1), state[0]);
    assert_eq!(qi(2), state[1]);
    assert_eq!(qi(3), state[2]);
}

#[test]
fn test_integrators_rk4() {
    // x' = -t from x = 1 with dt = 1/10: exactly 0.995
    let mut state = vec![qi(1)];
    let t = qi(0);
    let dt = q(1, 10);
    rk4_step(&RampSystem, &mut state, t, dt).unwrap();
    assert_eq!(q(995, 1000), state[0]);
}

#[test]
fn rk4_exponential_taylor_factor() {
    // x' = x from x = 1 with dt = 1/100: exactly the fourth Taylor partial
    // sum of exp at 1/100
    let mut state = vec![qi(1)];
    rk4_step(&ExpSystem, &mut state, qi(0), q(1, 100)).unwrap();
    assert_eq!(q(2424120401, 2400000000), state[0]);
}

#[test]
fn rk4_unrepresentable_leaves_state() {
    let mut state = vec![qi(1)];
    rk4_step(&ExpSystem, &mut state, qi(0), q(1, 100)).unwrap();
    let before = state[0];
    // the exact components of a second step exceed 64 bits
    let r = rk4_step(&ExpSystem, &mut state, q(1, 100), q(1, 100));
    assert_eq!(Err(StepError::Unrepresentable), r);
    assert_eq!(before, state[0]);
}

#[test]
fn dimension_mismatch_rejected_before_mutation() {
    let l = Lorenz::default();
    let mut short = vec![qi(1), qi(2)];
    assert_eq!(
        Err(StepError::DimensionMismatch),
        euler_step(&l, &mut short, qi(0), q(1, 10))
    );
    assert_eq!(2, short.len());
    assert_eq!(qi(1), short[0]);
    assert_eq!(qi(2), short[1]);
    let mut long = vec![qi(1), qi(2), qi(3), qi(4)];
    assert_eq!(
        Err(StepError::DimensionMismatch),
        rk4_step(&l, &mut long, qi(0), q(1, 10))
    );
    assert_eq!(4, long.len());
    assert_eq!(qi(4), long[3]);
}

#[test]
fn euler_round_trip_does_not_return() {
    // forward by dt, back by -dt: Euler is not reversible
    let sys = Lorenz {
        sigma: qi(1),
        ro: qi(0),
        beta: qi(0),
    };
    let mut state = vec![qi(0), qi(1), qi(0)];
    euler_step(&sys, &mut state, qi(0), qi(1)).unwrap();
    euler_step(&sys, &mut state, qi(1), qi(-1)).unwrap();
    assert_eq!(qi(2), state[0]);
    assert_ne!(qi(0), state[0]);
}

fn rest_trig() -> PendulumTrig {
    PendulumTrig {
        sin_theta1: qi(0),
        sin_theta1_minus_2theta2: qi(0),
        sin_delta: qi(0),
        cos_delta: qi(1),
        cos_two_delta: qi(1),
        cos_theta1: qi(1),
    }
}

#[test]
fn pendulum_rest_state_has_zero_derivative() {
    let dp = DoublePendulum::default();
    let state = vec![qi(0), qi(0), qi(0), qi(0)];
    let d = dp.rhs_with_trig(qi(0), &state, &rest_trig()).unwrap();
    assert_eq!(4, d.len());
    for c in d {
        assert_eq!(qi(0), c);
    }
}

#[test]
fn pendulum_acceleration_exact_value() {
    // unit masses and lengths, sin(theta1) = 1, all other sines zero:
    // a1 = -g*(2+1)*1 / (1*(2+1-1)) = -(2943/100)/2 = -2943/200, a2 = 0
    let dp = DoublePendulum::default();
    let trig = PendulumTrig {
        sin_theta1: qi(1),
        sin_theta1_minus_2theta2: qi(0),
        sin_delta: qi(0),
        cos_delta: qi(1),
        cos_two_delta: qi(1),
        cos_theta1: qi(1),
    };
    let state = vec![qi(0), qi(0), qi(0), qi(0)];
    let d = dp.rhs_with_trig(qi(0), &state, &trig).unwrap();
    assert_eq!(q(-2943, 200), d[2]);
    assert_eq!(qi(0), d[3]);
}

#[test]
fn pendulum_near_singular_denominator_suppressed() {
    // cos(2*delta) chosen so the shared denominator is 1e-7 < 1e-6: the
    // acceleration is reported as exactly zero although its numerator is not
    let dp = DoublePendulum::default();
    let trig = PendulumTrig {
        sin_theta1: q(1, 2),
        sin_theta1_minus_2theta2: qi(0),
        sin_delta: qi(0),
        cos_delta: qi(1),
        cos_two_delta: q(29999999, 10000000),
        cos_theta1: qi(1),
    };
    let state = vec![qi(0), qi(0), qi(0), qi(0)];
    let d = dp.rhs_with_trig(qi(0), &state, &trig).unwrap();
    assert_eq!(qi(0), d[2]);
    assert_eq!(qi(0), d[3]);
}

#[test]
fn logistic_map_exact_iterates() {
    // r = 4 from x = 1/2: 1, then 0, then 0...
    let out = logistic_map(q(1, 2), 3, qi(4)).unwrap();
    assert_eq!(3, out.len());
    assert_eq!(qi(1), out[0]);
    assert_eq!(qi(0), out[1]);
    assert_eq!(qi(0), out[2]);
}

#[test]
fn logistic_map_fixed_point() {
    // r = 2 holds x = 1/2 fixed (the exact denominators square at every
    // application, so only a few iterations are representable)
    let out = logistic_map(q(1, 2), 4, qi(2)).unwrap();
    for v in out {
        assert_eq!(q(1, 2), v);
    }
}

#[test]
fn logistic_map_overflow_is_none() {
    // the exact denominators square at every application
    assert!(logistic_map(q(1, 3), 30, qi(4)).is_none());
}

#[test]
fn logistic_map_default_parameter() {
    assert_eq!(q(3, 10), LogisticMap::default().r);
}

#[test]
fn lyapunov_halving_ratios_are_one_half() {
    // the contracting map: every log-argument is exactly 1/2 < 1, so the
    // exponent, a mean of logarithms of these, is strictly negative
    let ratios = lyapunov_trajectory_ratios(q(9, 10), 5, &HalvingMap).unwrap();
    assert_eq!(5, ratios.len());
    let one = qi(1);
    for r in ratios {
        assert_eq!(q(1, 2), r);
        assert!(r.lt(&one));
    }
}

#[test]
fn lyapunov_quadratic_first_ratio() {
    // r = 4 from x = 1/2: the first separation is 4*eps^2, so the first
    // log-argument is exactly 4*eps = 4/100000000
    let ratios = lyapunov_trajectory_ratios(q(1, 2), 1, &QuadraticMap { r: qi(4) }).unwrap();
    assert_eq!(1, ratios.len());
    assert_eq!(q(4, 100000000), ratios[0]);
}

#[test]
fn lyapunov_trajectory_overflow_is_none() {
    assert!(lyapunov_trajectory_ratios(q(1, 2), 2, &QuadraticMap { r: qi(4) }).is_none());
}

#[test]
fn lyapunov_derivative_magnitudes_exact() {
    // the logistic system reads the time index: |r*t*(1-t)| at t = 0, 1, 2
    let sys = LogisticMap { r: qi(1) };
    let mags = lyapunov_derivative_magnitudes(3, &sys, &vec![qi(0)]).unwrap();
    assert_eq!(3, mags.len());
    assert_eq!(qi(0), mags[0]);
    assert_eq!(qi(0), mags[1]);
    assert_eq!(qi(2), mags[2]);
}

#[test]
fn noisy_lorenz_within_bounds() {
    let l = Lorenz::default();
    let noise = qi(1);
    let n = l.new_noisy(noise).unwrap();
    assert!(!n.sigma.lt(&l.sigma));
    assert!(n.sigma.lt(&qi(11)));
    assert!(!n.ro.lt(&l.ro));
    assert!(n.ro.lt(&qi(29)));
    assert!(!n.beta.lt(&l.beta));
    assert!(n.beta.lt(&q(11, 3)));
}

#[test]
fn session_defaults() {
    let s = Session::default();
    assert_eq!(Simulation::Lorenz, s.simulation);
    assert!(!s.is_playing);
    assert_eq!(50, s.speed);
}

#[test]
fn session_play_and_reset() {
    let mut s = Session::default();
    s.on_play_clicked();
    assert!(s.is_playing);
    s.on_play_clicked();
    assert!(!s.is_playing);
    s.on_play_clicked();
    s.on_reset_clicked();
    assert!(!s.is_playing);
}

#[test]
fn session_select_simulation() {
    let mut s = Session::default();
    s.on_play_clicked();
    assert!(!s.select_simulation(Simulation::Lorenz));
    assert!(s.is_playing);
    assert!(s.select_simulation(Simulation::Dp));
    assert_eq!(Simulation::Dp, s.simulation);
    assert!(!s.is_playing);
}

#[test]
fn session_repaint_delay() {
    let mut s = Session::default();
    assert_eq!(50, s.repaint_delay_millis());
    s.speed = 100;
    assert_eq!(0, s.repaint_delay_millis());
    s.speed = 120;
    assert_eq!(20, s.repaint_delay_millis());
}

#[test]
fn simulation_labels() {
    assert_eq!("lorenz", Simulation::Lorenz.to_string());
    assert_eq!("double pendulum", Simulation::Dp.to_string());
    assert_eq!("logistic map", Simulation::Lmap.to_string());
}
