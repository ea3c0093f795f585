use std::cell::RefCell;
use std::rc::Rc;

use n_body_animated::mechanics::{get_derivatives, ForceLaw};
use n_body_animated::trajectory::{solve_outcome, IntegrationStats};
use n_body_animated::utils::{vecs_to_y, y_to_vecs};
use n_body_animated::{SimError, Vector3};
use ode_solvers::dop_shared::OutputType;
use ode_solvers::dopri5::Dopri5;

type State = ode_solvers::DVector<f64>;
type Solution = (IntegrationStats, Vec<f64>, Vec<Vec<f64>>);

fn v(x: f64, y: f64, z: f64) -> Vector3<f64> {
    Vector3::new(x, y, z)
}

fn gravity(g: f64, r1: Vector3<f64>, r2: Vector3<f64>, m1: f64, m2: f64) -> Vector3<f64> {
    let d = v(r2.x - r1.x, r2.y - r1.y, r2.z - r1.z);
    let s = g * m1 * m2 / (d.x * d.x + d.y * d.y + d.z * d.z).sqrt().powi(3);
    v(s * d.x, s * d.y, s * d.z)
}

fn newton(
    g: f64,
) -> ForceLaw<
    f64,
    impl Fn(f64) -> bool,
    impl Fn(f64) -> bool,
    impl Fn(Vector3<f64>, Vector3<f64>, f64, f64) -> Vector3<f64>,
    impl Fn(Vector3<f64>, Vector3<f64>) -> Vector3<f64>,
    impl Fn(Vector3<f64>) -> Vector3<f64>,
    impl Fn(Vector3<f64>, f64) -> Vector3<f64>,
> {
    ForceLaw {
        zero: v(0.0, 0.0, 0.0),
        is_positive: |m: f64| m > 0.0,
        is_finite: |c: f64| c.is_finite(),
        force: move |r1, r2, m1, m2| gravity(g, r1, r2, m1, m2),
        plus: |a: Vector3<f64>, b: Vector3<f64>| v(a.x + b.x, a.y + b.y, a.z + b.z),
        negate: |a: Vector3<f64>| v(-a.x, -a.y, -a.z),
        divide: |a: Vector3<f64>, m: f64| v(a.x / m, a.y / m, a.z / m),
    }
}

struct Bodies {
    g: f64,
    masses: Vec<f64>,
    failure: Rc<RefCell<Option<SimError>>>,
}

impl ode_solvers::System<State> for Bodies {
    fn system(&self, _t: f64, y: &State, dy: &mut State) {
        let state: Vec<f64> = y.iter().cloned().collect();
        match get_derivatives(state, &self.masses, self.masses.len(), &newton(self.g)) {
            Ok(out) => {
                for i in 0..y.len() {
                    dy[i] = out[i];
                }
            }
            Err(e) => {
                self.failure.borrow_mut().get_or_insert(e);
                dy.fill(f64::NAN);
            }
        }
    }

    fn solout(&mut self, _t: f64, _y: &State, _dy: &State) -> bool {
        self.failure.borrow().is_some()
    }
}

fn solve(
    initial: &Vec<f64>,
    masses: &Vec<f64>,
    g: f64,
    t1: f64,
    tol: f64,
    n_max: u32,
) -> Result<Solution, SimError> {
    let failure = Rc::new(RefCell::new(None));
    let system = Bodies { g, masses: masses.clone(), failure: failure.clone() };
    let mut stepper = Dopri5::from_param(
        system,
        0.0,
        t1,
        0.0,
        State::from_vec(initial.clone()),
        tol,
        tol,
        0.9,
        0.04,
        0.2,
        10.0,
        t1,
        0.01,
        n_max,
        1000,
        OutputType::Sparse,
    );
    let stats = stepper.integrate().ok().map(|s| IntegrationStats {
        num_eval: s.num_eval,
        accepted_steps: s.accepted_steps,
        rejected_steps: s.rejected_steps,
    });
    let x = stepper.x_out().clone();
    let y: Vec<Vec<f64>> =
        stepper.y_out().iter().map(|line| line.iter().cloned().collect()).collect();
    let rhs_failure = *failure.borrow();
    solve_outcome(
        rhs_failure,
        stats,
        x,
        y,
        initial,
        masses.len(),
        |c: f64| c.is_finite(),
        |a: f64, b: f64| a <= b,
    )
}

/// Two bodies of mass 1 at distance 1 on a circle about their centre of
/// mass, with the gravitational constant 1.
fn circular_orbit() -> (Vec<f64>, Vec<f64>) {
    let speed = 0.5f64.sqrt();
    let r = vec![v(-0.5, 0.0, 0.0), v(0.5, 0.0, 0.0)];
    let vel = vec![v(0.0, -speed, 0.0), v(0.0, speed, 0.0)];
    (vecs_to_y(r, vel, 2).unwrap(), vec![1.0, 1.0])
}

fn momentum(state: &Vec<f64>, masses: &Vec<f64>) -> (f64, f64, f64) {
    let (_, vel) = y_to_vecs(state.clone(), masses.len()).unwrap();
    vel.iter().zip(masses).fold((0.0, 0.0, 0.0), |p, (u, m)| {
        (p.0 + m * u.x, p.1 + m * u.y, p.2 + m * u.z)
    })
}

fn energy(state: &Vec<f64>, masses: &Vec<f64>, g: f64) -> f64 {
    let (r, vel) = y_to_vecs(state.clone(), masses.len()).unwrap();
    let mut e = 0.0;
    for i in 0..masses.len() {
        e += 0.5 * masses[i] * (vel[i].x * vel[i].x + vel[i].y * vel[i].y + vel[i].z * vel[i].z);
        for j in 0..i {
            let d = ((r[i].x - r[j].x).powi(2) + (r[i].y - r[j].y).powi(2)
                + (r[i].z - r[j].z).powi(2))
            .sqrt();
            e -= g * masses[i] * masses[j] / d;
        }
    }
    e
}

#[test]
fn a_circular_orbit_keeps_its_energy_and_momentum() {
    let (initial, masses) = circular_orbit();
    let (stats, x, y) = solve(&initial, &masses, 1.0, 10.0, 1.0e-12, 100000).unwrap();
    assert_eq!(y.len(), stats.accepted_steps as usize + 1);
    assert_eq!(x.len(), y.len());
    assert_eq!(y[0], initial);
    assert_eq!(x[0], 0.0);
    assert!((x[x.len() - 1] - 10.0).abs() < 1.0e-12);

    let last = &y[y.len() - 1];
    let e_start = energy(&initial, &masses, 1.0);
    let e_end = energy(last, &masses, 1.0);
    assert!((e_start - -0.5).abs() < 1.0e-15);
    assert!(((e_end - e_start) / e_start).abs() < 1.0e-6);

    let p_start = momentum(&initial, &masses);
    let p_end = momentum(last, &masses);
    assert_eq!(p_start, (0.0, 0.0, 0.0));
    assert!(p_end.0.abs() < 1.0e-9 && p_end.1.abs() < 1.0e-9 && p_end.2.abs() < 1.0e-9);
}

#[test]
fn a_circular_orbit_stays_on_its_circle() {
    let (initial, masses) = circular_orbit();
    let (_, _, y) = solve(&initial, &masses, 1.0, 10.0, 1.0e-12, 100000).unwrap();
    for state in y.iter() {
        let (r, _) = y_to_vecs(state.clone(), 2).unwrap();
        for p in r.iter() {
            let radius = (p.x * p.x + p.y * p.y + p.z * p.z).sqrt();
            assert!((radius - 0.5).abs() < 1.0e-8);
        }
    }
}

#[test]
fn solving_twice_gives_the_same_trajectory_bit_for_bit() {
    let (initial, masses) = circular_orbit();
    let (stats_a, x_a, y_a) = solve(&initial, &masses, 1.0, 3.0, 1.0e-10, 100000).unwrap();
    let (stats_b, x_b, y_b) = solve(&initial, &masses, 1.0, 3.0, 1.0e-10, 100000).unwrap();
    assert_eq!(stats_a, stats_b);
    let bits = |s: &Vec<f64>| s.iter().map(|c| c.to_bits()).collect::<Vec<u64>>();
    assert_eq!(bits(&x_a), bits(&x_b));
    assert_eq!(y_a.len(), y_b.len());
    for (a, b) in y_a.iter().zip(y_b.iter()) {
        assert_eq!(bits(a), bits(b));
    }
}

#[test]
fn times_of_a_trajectory_do_not_go_back() {
    let (initial, masses) = circular_orbit();
    let (_, x, _) = solve(&initial, &masses, 1.0, 3.0, 1.0e-10, 100000).unwrap();
    assert!(x.len() > 2);
    for k in 1..x.len() {
        assert!(x[k - 1] < x[k]);
    }
}

#[test]
fn bodies_at_one_place_make_solving_fail_with_a_singularity() {
    let initial = vec![1.0, 2.0, 3.0, 1.0, 2.0, 3.0, 0.0, 0.0, 0.0, 0.0, 0.0, 0.0];
    let res = solve(&initial, &vec![1.0, 1.0], 1.0, 1.0, 1.0e-10, 200);
    assert_eq!(res, Err(SimError::Singularity));
}

#[test]
fn a_mass_that_is_not_positive_makes_solving_fail_as_invalid() {
    let (initial, _) = circular_orbit();
    let res = solve(&initial, &vec![1.0, 0.0], 1.0, 1.0, 1.0e-10, 200);
    assert_eq!(res, Err(SimError::InvalidInput));
}

#[test]
fn too_few_steps_make_solving_fail() {
    let (initial, masses) = circular_orbit();
    let res = solve(&initial, &masses, 1.0, 1000.0, 1.0e-12, 5);
    assert_eq!(res, Err(SimError::IntegrationFailure));
}

#[test]
fn a_lone_body_moves_in_a_straight_line() {
    let initial = vec![0.0, 0.0, 0.0, 1.0, 2.0, 3.0];
    let (_, x, y) = solve(&initial, &vec![5.0], 1.0, 2.0, 1.0e-10, 100000).unwrap();
    let last = &y[y.len() - 1];
    let t = x[x.len() - 1];
    assert!((last[0] - t).abs() < 1.0e-9);
    assert!((last[1] - 2.0 * t).abs() < 1.0e-9);
    assert!((last[2] - 3.0 * t).abs() < 1.0e-9);
    assert_eq!(&last[3..], &[1.0, 2.0, 3.0]);
}
