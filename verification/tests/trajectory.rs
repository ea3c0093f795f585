use n_body_animated::trajectory::{solve_outcome, IntegrationStats};
use n_body_animated::SimError;

type Solved = Result<(IntegrationStats, Vec<f64>, Vec<Vec<f64>>), SimError>;

const FAILED: Solved = Err(SimError::IntegrationFailure);

fn stats(accepted_steps: u32) -> IntegrationStats {
    IntegrationStats { num_eval: 44, accepted_steps, rejected_steps: 1 }
}

fn samples() -> (Vec<f64>, Vec<Vec<f64>>) {
    (vec![0.0, 0.5, 1.0], vec![vec![1.0; 12], vec![2.0; 12], vec![3.0; 12]])
}

fn outcome(
    rhs_failure: Option<SimError>,
    stats: Option<IntegrationStats>,
    x: Vec<f64>,
    y: Vec<Vec<f64>>,
    initial: &Vec<f64>,
    n_objects: usize,
) -> Solved {
    solve_outcome(
        rhs_failure,
        stats,
        x,
        y,
        initial,
        n_objects,
        |c: f64| c.is_finite(),
        |a: f64, b: f64| a <= b,
    )
}

#[test]
fn a_complete_run_is_handed_out_unchanged() {
    let (x, y) = samples();
    let res = outcome(None, Some(stats(2)), x.clone(), y.clone(), &vec![1.0; 12], 2);
    assert_eq!(res, Ok((stats(2), x, y)));
}

#[test]
fn the_initial_sample_alone_is_a_trajectory() {
    let res = outcome(None, Some(stats(0)), vec![0.0], vec![Vec::new()], &Vec::new(), 0);
    assert_eq!(res, Ok((stats(0), vec![0.0], vec![Vec::new()])));
    let res = outcome(None, Some(stats(0)), vec![7.0], vec![vec![0.5; 6]], &vec![0.5; 6], 1);
    assert_eq!(res, Ok((stats(0), vec![7.0], vec![vec![0.5; 6]])));
}

#[test]
fn times_may_stand_still() {
    let (_, y) = samples();
    let x = vec![0.0, 0.0, 1.0];
    let res = outcome(None, Some(stats(2)), x.clone(), y.clone(), &vec![1.0; 12], 2);
    assert_eq!(res, Ok((stats(2), x, y)));
}

#[test]
fn a_failure_of_the_right_hand_side_is_handed_on() {
    let (x, y) = samples();
    let start = vec![1.0; 12];
    assert_eq!(
        outcome(Some(SimError::Singularity), Some(stats(2)), x.clone(), y.clone(), &start, 2),
        Err(SimError::Singularity)
    );
    assert_eq!(
        outcome(Some(SimError::InvalidInput), None, x.clone(), y.clone(), &start, 2),
        Err(SimError::InvalidInput)
    );
    assert_eq!(
        outcome(Some(SimError::Singularity), None, Vec::new(), Vec::new(), &start, 2),
        Err(SimError::Singularity)
    );
}

#[test]
fn a_run_that_was_given_up_is_an_integration_failure() {
    let (x, y) = samples();
    assert_eq!(outcome(None, None, x, y, &vec![1.0; 12], 2), FAILED);
}

#[test]
fn a_number_that_is_not_finite_is_an_integration_failure() {
    let start = vec![1.0; 12];
    for bad in [f64::NAN, f64::INFINITY, f64::NEG_INFINITY] {
        let (x, mut y) = samples();
        y[1][7] = bad;
        assert_eq!(outcome(None, Some(stats(2)), x, y, &start, 2), FAILED);
        let (x, mut y) = samples();
        y[2][11] = bad;
        assert_eq!(outcome(None, Some(stats(2)), x, y, &start, 2), FAILED);
        let (mut x, y) = samples();
        x[2] = bad;
        assert_eq!(outcome(None, Some(stats(2)), x, y, &start, 2), FAILED);
    }
}

#[test]
fn samples_of_the_wrong_shape_are_an_integration_failure() {
    let (x, y) = samples();
    let start = vec![1.0; 12];
    assert_eq!(outcome(None, Some(stats(2)), x.clone(), y.clone(), &start, 3), FAILED);
    assert_eq!(outcome(None, Some(stats(2)), x[..2].to_vec(), y.clone(), &start, 2), FAILED);
    let mut short = y.clone();
    short[2].pop();
    assert_eq!(outcome(None, Some(stats(2)), x.clone(), short, &start, 2), FAILED);
    assert_eq!(outcome(None, Some(stats(0)), Vec::new(), Vec::new(), &start, 2), FAILED);
}

#[test]
fn one_sample_per_accepted_step_is_asked_for() {
    let (x, y) = samples();
    let start = vec![1.0; 12];
    assert_eq!(outcome(None, Some(stats(1)), x.clone(), y.clone(), &start, 2), FAILED);
    assert_eq!(outcome(None, Some(stats(3)), x.clone(), y.clone(), &start, 2), FAILED);
    assert_eq!(outcome(None, Some(stats(u32::MAX)), x, y, &start, 2), FAILED);
}

#[test]
fn times_that_go_back_are_an_integration_failure() {
    let (_, y) = samples();
    let start = vec![1.0; 12];
    assert_eq!(outcome(None, Some(stats(2)), vec![0.0, 1.0, 0.5], y.clone(), &start, 2), FAILED);
    assert_eq!(outcome(None, Some(stats(2)), vec![0.5, 0.0, 1.0], y, &start, 2), FAILED);
}

#[test]
fn a_record_that_starts_elsewhere_is_an_integration_failure() {
    let (x, y) = samples();
    let mut start = vec![1.0; 12];
    start[5] = 1.5;
    assert_eq!(outcome(None, Some(stats(2)), x.clone(), y.clone(), &start, 2), FAILED);
    assert_eq!(outcome(None, Some(stats(2)), x, y, &vec![1.0; 6], 2), FAILED);
}
