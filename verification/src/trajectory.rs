//! What a call to solve the system hands out once the integrator has run.
//!
//! The integrator is not part of this library and nothing is taken on trust
//! from it: what it recorded is looked at, and handed out only where it is a
//! trajectory.

use vstd::prelude::*;
use crate::SimError;

verus! {

/// Counts kept by one run of the integrator. They describe the run and
/// decide nothing.
#[derive(Clone, Copy, Debug, PartialEq, Eq, Structural)]
pub struct IntegrationStats {
    /// Evaluations of the right-hand side.
    pub num_eval: u32,
    /// Steps that were taken.
    pub accepted_steps: u32,
    /// Steps that were tried again with a smaller size.
    pub rejected_steps: u32,
}

/// Whether times `x` and states `y` have the shape of the trajectory of `n`
/// bodies after `steps` accepted steps: the initial sample and one sample per
/// step, one time for each state, and six entries per body in every state.
pub open spec fn is_trajectory<T>(x: Seq<T>, y: Seq<Vec<T>>, n: nat, steps: nat) -> bool {
    &&& y.len() == steps + 1
    &&& x.len() == y.len()
    &&& forall|k: int| 0 <= k < y.len() ==> (#[trigger] y[k])@.len() == 6 * n
}

/// Every number of `s` is found finite.
pub open spec fn all_finite<T, F: Fn(T) -> bool>(is_finite: F, s: Seq<T>) -> bool {
    forall|k: int| 0 <= k < s.len() ==> is_finite.ensures((#[trigger] s[k],), true)
}

/// Some number of `s` is found not to be finite.
pub open spec fn some_not_finite<T, F: Fn(T) -> bool>(is_finite: F, s: Seq<T>) -> bool {
    exists|k: int| 0 <= k < s.len() && is_finite.ensures((#[trigger] s[k],), false)
}

/// Every number of every state of `y` is found finite.
pub open spec fn all_states_finite<T, F: Fn(T) -> bool>(is_finite: F, y: Seq<Vec<T>>) -> bool {
    forall|k: int| 0 <= k < y.len() ==> all_finite(is_finite, (#[trigger] y[k])@)
}

/// Some number of some state of `y` is found not to be finite.
pub open spec fn some_state_not_finite<T, F: Fn(T) -> bool>(is_finite: F, y: Seq<Vec<T>>) -> bool {
    exists|k: int| 0 <= k < y.len() && some_not_finite(is_finite, (#[trigger] y[k])@)
}

/// The time at `k` is found not to come after the time that follows it.
pub open spec fn in_order_at<T, L: Fn(T, T) -> bool>(precedes: L, x: Seq<T>, k: int) -> bool {
    precedes.ensures((x[k], x[k + 1]), true)
}

/// The time at `k` is found to come after the time that follows it.
pub open spec fn out_of_order_at<T, L: Fn(T, T) -> bool>(precedes: L, x: Seq<T>, k: int) -> bool {
    precedes.ensures((x[k], x[k + 1]), false)
}

/// No time of `x` is found to come after the time that follows it.
pub open spec fn in_order<T, L: Fn(T, T) -> bool>(precedes: L, x: Seq<T>) -> bool {
    forall|k: int| 0 <= k < x.len() - 1 ==> #[trigger] in_order_at(precedes, x, k)
}

/// Some time of `x` is found to come after the time that follows it.
pub open spec fn out_of_order<T, L: Fn(T, T) -> bool>(precedes: L, x: Seq<T>) -> bool {
    exists|k: int| 0 <= k < x.len() - 1 && #[trigger] out_of_order_at(precedes, x, k)
}

/// `a` and `b` are found to be the same number: neither comes after the
/// other.
pub open spec fn same_number<T, L: Fn(T, T) -> bool>(precedes: L, a: T, b: T) -> bool {
    precedes.ensures((a, b), true) && precedes.ensures((b, a), true)
}

/// `a` and `b` are found to differ: one of them comes after the other.
pub open spec fn other_number<T, L: Fn(T, T) -> bool>(precedes: L, a: T, b: T) -> bool {
    precedes.ensures((a, b), false) || precedes.ensures((b, a), false)
}

/// `a` and `b` are found to hold the same numbers.
pub open spec fn same_state<T, L: Fn(T, T) -> bool>(precedes: L, a: Seq<T>, b: Seq<T>) -> bool {
    &&& a.len() == b.len()
    &&& forall|k: int| 0 <= k < a.len() ==> same_number(precedes, #[trigger] a[k], b[k])
}

/// `a` and `b` differ in length, or at some place are found to hold
/// different numbers.
pub open spec fn other_state<T, L: Fn(T, T) -> bool>(precedes: L, a: Seq<T>, b: Seq<T>) -> bool {
    a.len() != b.len() || exists|k: int|
        0 <= k < a.len() && other_number(precedes, #[trigger] a[k], b[k])
}

/// What was recorded is the trajectory of `n` bodies that starts at
/// `initial`: it has the shape of one after `steps` accepted steps, every
/// number in it is found finite, no time is found to come after the next,
/// and the first state is found to be `initial`.
pub open spec fn is_sound<T, F: Fn(T) -> bool, L: Fn(T, T) -> bool>(
    is_finite: F,
    precedes: L,
    x: Seq<T>,
    y: Seq<Vec<T>>,
    initial: Seq<T>,
    n: nat,
    steps: nat,
) -> bool {
    &&& is_trajectory(x, y, n, steps)
    &&& all_finite(is_finite, x)
    &&& all_states_finite(is_finite, y)
    &&& in_order(precedes, x)
    &&& same_state(precedes, y[0]@, initial)
}

/// What was recorded is found wanting in one of the ways in which it can
/// fail to be the trajectory of `n` bodies that starts at `initial`.
pub open spec fn is_flawed<T, F: Fn(T) -> bool, L: Fn(T, T) -> bool>(
    is_finite: F,
    precedes: L,
    x: Seq<T>,
    y: Seq<Vec<T>>,
    initial: Seq<T>,
    n: nat,
    steps: nat,
) -> bool {
    ||| !is_trajectory(x, y, n, steps)
    ||| some_not_finite(is_finite, x)
    ||| some_state_not_finite(is_finite, y)
    ||| out_of_order(precedes, x)
    ||| other_state(precedes, y[0]@, initial)
}

/// Neither question about a number has two answers.
pub open spec fn is_deterministic<T, F: Fn(T) -> bool, L: Fn(T, T) -> bool>(
    is_finite: F,
    precedes: L,
) -> bool {
    &&& forall|c: T, a: bool, b: bool|
        #![trigger is_finite.ensures((c,), a), is_finite.ensures((c,), b)]
        is_finite.ensures((c,), a) && is_finite.ensures((c,), b) ==> a == b
    &&& forall|u: T, w: T, a: bool, b: bool|
        #![trigger precedes.ensures((u, w), a), precedes.ensures((u, w), b)]
        precedes.ensures((u, w), a) && precedes.ensures((u, w), b) ==> a == b
}

/// Where neither question has two answers, a record is not both a
/// trajectory and found wanting: what is handed out and what is turned down
/// are told apart by the record alone.
pub proof fn sound_is_not_flawed<T, F: Fn(T) -> bool, L: Fn(T, T) -> bool>(
    is_finite: F,
    precedes: L,
    x: Seq<T>,
    y: Seq<Vec<T>>,
    initial: Seq<T>,
    n: nat,
    steps: nat,
)
    requires
        is_deterministic(is_finite, precedes),
    ensures
        !(is_sound(is_finite, precedes, x, y, initial, n, steps) && is_flawed(
            is_finite,
            precedes,
            x,
            y,
            initial,
            n,
            steps,
        )),
{
    if is_sound(is_finite, precedes, x, y, initial, n, steps) {
        if some_state_not_finite(is_finite, y) {
            let k = choose|k: int|
                0 <= k < y.len() && some_not_finite(is_finite, (#[trigger] y[k])@);
            assert(all_finite(is_finite, y[k]@));
        }
        if out_of_order(precedes, x) {
            let k = choose|k: int| 0 <= k < x.len() - 1 && #[trigger] out_of_order_at(precedes, x, k);
            assert(in_order_at(precedes, x, k));
        }
    }
}

/// Whether every state of `y` holds six entries per body.
fn states_fit<T>(y: &Vec<Vec<T>>, n_objects: usize) -> (fit: bool)
    ensures
        fit == forall|k: int| 0 <= k < y@.len() ==> (#[trigger] y@[k])@.len() == 6 * n_objects,
{
    let mut k: usize = 0;
    while k < y.len()
        invariant
            k <= y.len(),
            forall|m: int| 0 <= m < k ==> (#[trigger] y@[m])@.len() == 6 * n_objects,
        decreases y.len() - k,
    {
        let len: usize = y[k].len();
        if len % 6 != 0 || len / 6 != n_objects {
            return false;
        }
        k += 1;
    }
    true
}

/// Whether every number of `s` is finite.
fn finite<T: Copy, F: Fn(T) -> bool>(is_finite: &F, s: &Vec<T>) -> (all: bool)
    requires
        forall|a: T| is_finite.requires((a,)),
    ensures
        all ==> all_finite(*is_finite, s@),
        !all ==> some_not_finite(*is_finite, s@),
{
    let mut k: usize = 0;
    while k < s.len()
        invariant
            k <= s.len(),
            forall|a: T| is_finite.requires((a,)),
            forall|m: int| 0 <= m < k ==> is_finite.ensures((#[trigger] s@[m],), true),
        decreases s.len() - k,
    {
        if !is_finite(s[k]) {
            return false;
        }
        k += 1;
    }
    true
}

/// Whether every number of every state of `y` is finite.
fn states_finite<T: Copy, F: Fn(T) -> bool>(is_finite: &F, y: &Vec<Vec<T>>) -> (all: bool)
    requires
        forall|a: T| is_finite.requires((a,)),
    ensures
        all ==> all_states_finite(*is_finite, y@),
        !all ==> some_state_not_finite(*is_finite, y@),
{
    let mut k: usize = 0;
    while k < y.len()
        invariant
            k <= y.len(),
            forall|a: T| is_finite.requires((a,)),
            forall|m: int| 0 <= m < k ==> all_finite(*is_finite, (#[trigger] y@[m])@),
        decreases y.len() - k,
    {
        if !finite(is_finite, &y[k]) {
            return false;
        }
        k += 1;
    }
    true
}

/// Whether no time of `x` comes after the time that follows it.
fn ordered<T: Copy, L: Fn(T, T) -> bool>(precedes: &L, x: &Vec<T>) -> (all: bool)
    requires
        forall|a: T, b: T| precedes.requires((a, b)),
    ensures
        all ==> in_order(*precedes, x@),
        !all ==> out_of_order(*precedes, x@),
{
    let mut k: usize = 1;
    while k < x.len()
        invariant
            1 <= k,
            forall|a: T, b: T| precedes.requires((a, b)),
            forall|m: int| 0 <= m < k - 1 ==> #[trigger] in_order_at(*precedes, x@, m),
        decreases x.len() - k,
    {
        if !precedes(x[k - 1], x[k]) {
            assert(out_of_order_at(*precedes, x@, k - 1));
            return false;
        }
        k += 1;
    }
    true
}

/// Whether `a` and `b` hold the same numbers.
fn same<T: Copy, L: Fn(T, T) -> bool>(precedes: &L, a: &Vec<T>, b: &Vec<T>) -> (all: bool)
    requires
        forall|a: T, b: T| precedes.requires((a, b)),
    ensures
        all ==> same_state(*precedes, a@, b@),
        !all ==> other_state(*precedes, a@, b@),
{
    if a.len() != b.len() {
        return false;
    }
    let mut k: usize = 0;
    while k < a.len()
        invariant
            k <= a.len(),
            a.len() == b.len(),
            forall|a: T, b: T| precedes.requires((a, b)),
            forall|m: int| 0 <= m < k ==> same_number(*precedes, #[trigger] a@[m], b@[m]),
        decreases a.len() - k,
    {
        if !precedes(a[k], b[k]) || !precedes(b[k], a[k]) {
            return false;
        }
        k += 1;
    }
    true
}

/// What a call to solve the system of `n_objects` bodies from the state
/// `initial` returns once the integrator has run.
///
/// `rhs_failure` is the first failure of the right-hand side during the
/// run, `stats` the counts of a run that the integrator completed, and `x`
/// and `y` the times and states that it recorded. `is_finite` says whether a
/// number is finite, `precedes` whether the first of two numbers is less than
/// or equal to the second.
///
/// A failure of the right-hand side is handed on as it is. Otherwise a run
/// that was not completed is an integration failure, and so is a record that
/// is not a trajectory: one that does not hold the initial sample and one
/// sample per accepted step, with a time for each state and six entries per
/// body in each state; one with a number that is not finite; one whose
/// times go back; one that does not start at `initial`. Only a complete
/// trajectory is handed out, and then unchanged.
pub fn solve_outcome<T: Copy, F: Fn(T) -> bool, L: Fn(T, T) -> bool>(
    rhs_failure: Option<SimError>,
    stats: Option<IntegrationStats>,
    x: Vec<T>,
    y: Vec<Vec<T>>,
    initial: &Vec<T>,
    n_objects: usize,
    is_finite: F,
    precedes: L,
) -> (res: Result<(IntegrationStats, Vec<T>, Vec<Vec<T>>), SimError>)
    requires
        forall|a: T| is_finite.requires((a,)),
        forall|a: T, b: T| precedes.requires((a, b)),
    ensures
        match res {
            Ok((s, xs, ys)) => rhs_failure is None && stats == Some(s) && xs == x && ys == y
                && is_sound(
                is_finite,
                precedes,
                x@,
                y@,
                initial@,
                n_objects as nat,
                s.accepted_steps as nat,
            ),
            Err(e) => match (rhs_failure, stats) {
                (Some(f), _) => e == f,
                (None, None) => e == SimError::IntegrationFailure,
                (None, Some(s)) => e == SimError::IntegrationFailure && is_flawed(
                    is_finite,
                    precedes,
                    x@,
                    y@,
                    initial@,
                    n_objects as nat,
                    s.accepted_steps as nat,
                ),
            },
        },
{
    if let Some(f) = rhs_failure {
        return Err(f);
    }
    match stats {
        Some(s) => {
            let shaped = y.len() >= 1 && y.len() - 1 == s.accepted_steps as usize && x.len()
                == y.len() && states_fit(&y, n_objects);
            if shaped && finite(&is_finite, &x) && states_finite(&is_finite, &y) && ordered(
                &precedes,
                &x,
            ) && same(&precedes, &y[0], initial) {
                Ok((s, x, y))
            } else {
                Err(SimError::IntegrationFailure)
            }
        },
        None => Err(SimError::IntegrationFailure),
    }
}

} // verus!
