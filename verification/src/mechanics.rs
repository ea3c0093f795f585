//! Net accelerations from pairwise forces, and the right-hand side of the
//! equations of motion.
//!
//! The force between two bodies and the arithmetic on vectors are handed in
//! as a [`ForceLaw`]. What is fixed here is how they are put together: which
//! pairs are visited, in which order, and what each visit does to the totals
//! of the two bodies.

use vstd::prelude::*;
use crate::utils::{positions_of, stacked, velocities_of, vecs_to_y, y_to_vecs};
use crate::SimError;
use crate::Vector3;

verus! {

/// The number of unordered pairs among `n` bodies.
pub open spec fn pair_count(n: nat) -> nat {
    (n * (n - 1) / 2) as nat
}

/// The pairs whose larger member is `j`, by their smaller member.
pub open spec fn pairs_below(j: nat) -> Seq<(usize, usize)> {
    Seq::new(j, |i: int| (i as usize, j as usize))
}

/// Every pair `(i, j)` with `i < j < n`, ordered by `j` and then by `i`:
/// `(0, 1)`, `(0, 2)`, `(1, 2)`, `(0, 3)` and so on. This is the order in
/// which the pairs are visited.
pub open spec fn pairs(n: nat) -> Seq<(usize, usize)>
    decreases n,
{
    if n == 0 {
        Seq::empty()
    } else {
        pairs((n - 1) as nat) + pairs_below((n - 1) as nat)
    }
}

/// The place of the pair `(i, j)`, `i < j`, in `pairs(n)` for any `n > j`.
pub open spec fn pair_index(i: nat, j: nat) -> nat {
    pair_count(j) + i
}

proof fn pair_count_step(n: nat)
    requires
        n > 0,
    ensures
        pair_count(n) == pair_count((n - 1) as nat) + (n - 1),
{
    assert(n * (n - 1) == (n - 1) * (n - 2) + 2 * (n - 1)) by (nonlinear_arith);
    assert((n - 1) * (n - 2) >= 0) by (nonlinear_arith)
        requires
            n >= 1,
    ;
}

/// Among `n` bodies `n (n - 1) / 2` pairs are visited.
pub proof fn pairs_len(n: nat)
    ensures
        pairs(n).len() == pair_count(n),
    decreases n,
{
    if n > 0 {
        pairs_len((n - 1) as nat);
        pair_count_step(n);
    } else {
        assert(n * (n - 1) == 0) by (nonlinear_arith)
            requires
                n == 0,
        ;
    }
}

/// Each entry of `pairs(n)` is a pair of two different bodies of the `n`,
/// smaller index first, and stands at the place that `pair_index` gives it.
pub proof fn pairs_entry(n: nat, k: int)
    requires
        n <= usize::MAX,
        0 <= k < pairs(n).len(),
    ensures
        pairs(n)[k].0 < pairs(n)[k].1 < n,
        k == pair_index(pairs(n)[k].0 as nat, pairs(n)[k].1 as nat),
    decreases n,
{
    let m = (n - 1) as nat;
    pairs_len(m);
    if k < pairs(m).len() {
        pairs_entry(m, k);
    }
}

/// Every unordered pair of the `n` bodies is visited exactly once: the pair
/// `(i, j)` stands at `pair_index(i, j)` and at no other place.
pub proof fn each_pair_once(n: nat, i: nat, j: nat)
    requires
        i < j < n <= usize::MAX,
    ensures
        pair_index(i, j) < pairs(n).len(),
        pairs(n)[pair_index(i, j) as int] == (i as usize, j as usize),
        forall|k: int|
            0 <= k < pairs(n).len() && pairs(n)[k] == (i as usize, j as usize) ==> k
                == pair_index(i, j),
    decreases n,
{
    let m = (n - 1) as nat;
    pairs_len(m);
    if j < m {
        each_pair_once(m, i, j);
    }
    assert forall|k: int|
        0 <= k < pairs(n).len() && pairs(n)[k] == (i as usize, j as usize) implies k
        == pair_index(i, j) by {
        pairs_entry(n, k);
    }
}

/// The force between two bodies and the arithmetic on vectors, in the
/// caller's scalars.
///
/// The operations need not be functions in the mathematical sense: what is
/// said of a result below is said of the values that the operations did
/// return.
pub struct ForceLaw<T, P, Q, F, A, N, D> {
    /// The total of a body that no force acts on.
    pub zero: Vector3<T>,
    /// Whether a mass is greater than zero.
    pub is_positive: P,
    /// Whether a number is finite.
    pub is_finite: Q,
    /// The force on a body at the first position and of the first mass from
    /// a body at the second position and of the second mass.
    pub force: F,
    /// The sum of two vectors.
    pub plus: A,
    /// The negation of a vector.
    pub negate: N,
    /// A vector divided by a scalar.
    pub divide: D,
}

impl<T, P, Q, F, A, N, D> ForceLaw<T, P, Q, F, A, N, D> where
    P: Fn(T) -> bool,
    Q: Fn(T) -> bool,
    F: Fn(Vector3<T>, Vector3<T>, T, T) -> Vector3<T>,
    A: Fn(Vector3<T>, Vector3<T>) -> Vector3<T>,
    N: Fn(Vector3<T>) -> Vector3<T>,
    D: Fn(Vector3<T>, T) -> Vector3<T>,
 {
    /// Every operation takes every argument.
    pub open spec fn is_total(self) -> bool {
        &&& forall|m: T| self.is_positive.requires((m,))
        &&& forall|c: T| self.is_finite.requires((c,))
        &&& forall|r1: Vector3<T>, r2: Vector3<T>, m1: T, m2: T|
            self.force.requires((r1, r2, m1, m2))
        &&& forall|a: Vector3<T>, b: Vector3<T>| self.plus.requires((a, b))
        &&& forall|a: Vector3<T>| self.negate.requires((a,))
        &&& forall|a: Vector3<T>, m: T| self.divide.requires((a, m))
    }

    /// No operation gives two different results for the same arguments.
    pub open spec fn is_deterministic(self) -> bool {
        &&& forall|m: T, a: bool, b: bool|
            #![trigger self.is_positive.ensures((m,), a), self.is_positive.ensures((m,), b)]
            self.is_positive.ensures((m,), a) && self.is_positive.ensures((m,), b) ==> a == b
        &&& forall|c: T, a: bool, b: bool|
            #![trigger self.is_finite.ensures((c,), a), self.is_finite.ensures((c,), b)]
            self.is_finite.ensures((c,), a) && self.is_finite.ensures((c,), b) ==> a == b
        &&& forall|r1: Vector3<T>, r2: Vector3<T>, m1: T, m2: T, a: Vector3<T>, b: Vector3<T>|
            #![trigger self.force.ensures((r1, r2, m1, m2), a), self.force.ensures((r1, r2, m1, m2), b)]
            self.force.ensures((r1, r2, m1, m2), a) && self.force.ensures((r1, r2, m1, m2), b)
                ==> a == b
        &&& forall|u: Vector3<T>, w: Vector3<T>, a: Vector3<T>, b: Vector3<T>|
            #![trigger self.plus.ensures((u, w), a), self.plus.ensures((u, w), b)]
            self.plus.ensures((u, w), a) && self.plus.ensures((u, w), b) ==> a == b
        &&& forall|u: Vector3<T>, a: Vector3<T>, b: Vector3<T>|
            #![trigger self.negate.ensures((u,), a), self.negate.ensures((u,), b)]
            self.negate.ensures((u,), a) && self.negate.ensures((u,), b) ==> a == b
        &&& forall|u: Vector3<T>, m: T, a: Vector3<T>, b: Vector3<T>|
            #![trigger self.divide.ensures((u, m), a), self.divide.ensures((u, m), b)]
            self.divide.ensures((u, m), a) && self.divide.ensures((u, m), b) ==> a == b
    }

    /// Every mass of `masses` is found positive.
    pub open spec fn accepts(self, masses: Seq<T>) -> bool {
        forall|k: int|
            0 <= k < masses.len() ==> self.is_positive.ensures((#[trigger] masses[k],), true)
    }

    /// Some mass of `masses` is found not to be positive.
    pub open spec fn rejects(self, masses: Seq<T>) -> bool {
        exists|k: int|
            0 <= k < masses.len() && self.is_positive.ensures((#[trigger] masses[k],), false)
    }

    /// Every component of `f` is found finite.
    pub open spec fn is_finite_vector(self, f: Vector3<T>) -> bool {
        &&& self.is_finite.ensures((f.x,), true)
        &&& self.is_finite.ensures((f.y,), true)
        &&& self.is_finite.ensures((f.z,), true)
    }

    /// Some component of `f` is found not to be finite.
    pub open spec fn is_not_finite_vector(self, f: Vector3<T>) -> bool {
        ||| self.is_finite.ensures((f.x,), false)
        ||| self.is_finite.ensures((f.y,), false)
        ||| self.is_finite.ensures((f.z,), false)
    }

    /// The force on the first body of `pair` from the second comes out as
    /// `f`.
    pub open spec fn force_is(
        self,
        positions: Seq<Vector3<T>>,
        masses: Seq<T>,
        pair: (usize, usize),
        f: Vector3<T>,
    ) -> bool {
        self.force.ensures(
            (
                positions[pair.0 as int],
                positions[pair.1 as int],
                masses[pair.0 as int],
                masses[pair.1 as int],
            ),
            f,
        )
    }

    /// One visit of `pair` with the finite force `f` on its first body turns
    /// the totals `before` into `after`: `f` is added to the total of the
    /// first body, the negation of `f` to the total of the second, and no
    /// other total changes.
    pub open spec fn visit_is(
        self,
        before: Seq<Vector3<T>>,
        pair: (usize, usize),
        f: Vector3<T>,
        after: Seq<Vector3<T>>,
    ) -> bool {
        &&& after.len() == before.len()
        &&& self.is_finite_vector(f)
        &&& self.plus.ensures((before[pair.0 as int], f), after[pair.0 as int])
        &&& exists|g: Vector3<T>| #[trigger]
            self.negate.ensures((f,), g) && self.plus.ensures(
                (before[pair.1 as int], g),
                after[pair.1 as int],
            )
        &&& forall|k: int|
            0 <= k < before.len() && k != pair.0 && k != pair.1 ==> after[k] == before[k]
    }

    /// `totals` is what the first `count` visits, in the order of `pairs`,
    /// make of totals that are all zero.
    pub open spec fn totals_are(
        self,
        positions: Seq<Vector3<T>>,
        masses: Seq<T>,
        count: nat,
        totals: Seq<Vector3<T>>,
    ) -> bool
        decreases count,
    {
        if count == 0 {
            totals == Seq::new(positions.len(), |k: int| self.zero)
        } else {
            let pair = pairs(positions.len())[count - 1];
            exists|before: Seq<Vector3<T>>, f: Vector3<T>| #[trigger]
                self.visit_is(before, pair, f, totals) && self.totals_are(
                    positions,
                    masses,
                    (count - 1) as nat,
                    before,
                ) && self.force_is(positions, masses, pair, f)
        }
    }

    /// Each of `accelerations` is the total of its body divided by the
    /// body's own mass.
    pub open spec fn quotients_are(
        self,
        totals: Seq<Vector3<T>>,
        masses: Seq<T>,
        accelerations: Seq<Vector3<T>>,
    ) -> bool {
        &&& accelerations.len() == totals.len()
        &&& forall|k: int|
            0 <= k < totals.len() ==> self.divide.ensures(
                (totals[k], masses[k]),
                #[trigger] accelerations[k],
            )
    }

    /// Bodies at `positions` with `masses` are given `accelerations`: there
    /// is one mass per position, every mass is found positive, all pairs are
    /// visited, and each total is divided by the body's own mass.
    pub open spec fn accelerations_are(
        self,
        positions: Seq<Vector3<T>>,
        masses: Seq<T>,
        accelerations: Seq<Vector3<T>>,
    ) -> bool {
        &&& positions.len() == masses.len()
        &&& self.accepts(masses)
        &&& exists|totals: Seq<Vector3<T>>| #[trigger]
            self.quotients_are(totals, masses, accelerations) && self.totals_are(
                positions,
                masses,
                pair_count(positions.len()),
                totals,
            )
    }

    /// After `count` visits with the totals `before`, the force `f` of the
    /// next pair is found not to be finite.
    pub open spec fn singularity_is(
        self,
        positions: Seq<Vector3<T>>,
        masses: Seq<T>,
        count: nat,
        before: Seq<Vector3<T>>,
        f: Vector3<T>,
    ) -> bool {
        &&& count < pair_count(positions.len())
        &&& self.totals_are(positions, masses, count, before)
        &&& self.force_is(positions, masses, pairs(positions.len())[count as int], f)
        &&& self.is_not_finite_vector(f)
    }

    /// The visits come upon a pair whose force is not finite.
    pub open spec fn meets_singularity(self, positions: Seq<Vector3<T>>, masses: Seq<T>) -> bool {
        exists|count: nat, before: Seq<Vector3<T>>, f: Vector3<T>| #[trigger]
            self.singularity_is(positions, masses, count, before, f)
    }

    /// Bodies at `positions` with `masses` are turned down with `e`: as
    /// invalid input where a mass is missing or is found not to be positive,
    /// and as a singularity where the masses are in order and the visits come
    /// upon a pair whose force is not finite.
    pub open spec fn refuses(
        self,
        positions: Seq<Vector3<T>>,
        masses: Seq<T>,
        e: SimError,
    ) -> bool {
        ||| e == SimError::InvalidInput && (positions.len() != masses.len() || self.rejects(
            masses,
        ))
        ||| e == SimError::Singularity && positions.len() == masses.len() && self.accepts(masses)
            && self.meets_singularity(positions, masses)
    }

    proof fn one_more_visit(
        self,
        positions: Seq<Vector3<T>>,
        masses: Seq<T>,
        count: nat,
        before: Seq<Vector3<T>>,
        f: Vector3<T>,
        after: Seq<Vector3<T>>,
    )
        requires
            count < pairs(positions.len()).len(),
            self.totals_are(positions, masses, count, before),
            self.force_is(positions, masses, pairs(positions.len())[count as int], f),
            self.visit_is(before, pairs(positions.len())[count as int], f, after),
        ensures
            self.totals_are(positions, masses, count + 1, after),
    {
        let next = count + 1;
        let pair = pairs(positions.len())[next - 1];
        assert(self.visit_is(before, pair, f, after) && self.totals_are(
            positions,
            masses,
            (next - 1) as nat,
            before,
        ) && self.force_is(positions, masses, pair, f));
    }

    /// However many pairs have been visited, there is one total per body.
    pub proof fn totals_len(
        self,
        positions: Seq<Vector3<T>>,
        masses: Seq<T>,
        count: nat,
        totals: Seq<Vector3<T>>,
    )
        requires
            self.totals_are(positions, masses, count, totals),
        ensures
            totals.len() == positions.len(),
        decreases count,
    {
        if count > 0 {
            let pair = pairs(positions.len())[count - 1];
            let (before, f) = choose|before: Seq<Vector3<T>>, f: Vector3<T>| #[trigger]
                self.visit_is(before, pair, f, totals) && self.totals_are(
                    positions,
                    masses,
                    (count - 1) as nat,
                    before,
                ) && self.force_is(positions, masses, pair, f);
            self.totals_len(positions, masses, (count - 1) as nat, before);
        }
    }

    /// What the last of `count` visits did: it asked for the force `f` on the
    /// first body of its pair, found it finite, added `f` to the total of
    /// that body and the negation `g` of `f` to the total of the other body,
    /// and left every other total as it was.
    pub open spec fn last_visit_is(
        self,
        positions: Seq<Vector3<T>>,
        masses: Seq<T>,
        count: nat,
        before: Seq<Vector3<T>>,
        f: Vector3<T>,
        g: Vector3<T>,
        after: Seq<Vector3<T>>,
    ) -> bool {
        let pair = pairs(positions.len())[count - 1];
        &&& self.totals_are(positions, masses, (count - 1) as nat, before)
        &&& self.totals_are(positions, masses, count, after)
        &&& self.force_is(positions, masses, pair, f)
        &&& self.is_finite_vector(f)
        &&& self.negate.ensures((f,), g)
        &&& self.plus.ensures((before[pair.0 as int], f), after[pair.0 as int])
        &&& self.plus.ensures((before[pair.1 as int], g), after[pair.1 as int])
        &&& after.len() == before.len()
        &&& forall|k: int|
            0 <= k < before.len() && k != pair.0 && k != pair.1 ==> after[k] == before[k]
    }

    /// Totals after `count` visits come from totals after one visit less by
    /// a visit that obeys Newton's third law.
    pub proof fn visits_are_symmetric(
        self,
        positions: Seq<Vector3<T>>,
        masses: Seq<T>,
        count: nat,
        totals: Seq<Vector3<T>>,
    )
        requires
            count > 0,
            self.totals_are(positions, masses, count, totals),
        ensures
            exists|before: Seq<Vector3<T>>, f: Vector3<T>, g: Vector3<T>| #[trigger]
                self.last_visit_is(positions, masses, count, before, f, g, totals),
    {
        let pair = pairs(positions.len())[count - 1];
        let (before, f) = choose|before: Seq<Vector3<T>>, f: Vector3<T>| #[trigger]
            self.visit_is(before, pair, f, totals) && self.totals_are(
                positions,
                masses,
                (count - 1) as nat,
                before,
            ) && self.force_is(positions, masses, pair, f);
        let g = choose|g: Vector3<T>| #[trigger]
            self.negate.ensures((f,), g) && self.plus.ensures(
                (before[pair.1 as int], g),
                totals[pair.1 as int],
            );
        assert(self.last_visit_is(positions, masses, count, before, f, g, totals));
    }

    /// Where `total` visits lead to totals, so does any smaller number of
    /// visits.
    pub proof fn earlier_totals_exist(
        self,
        positions: Seq<Vector3<T>>,
        masses: Seq<T>,
        total: nat,
        totals: Seq<Vector3<T>>,
        count: nat,
    )
        requires
            count <= total,
            self.totals_are(positions, masses, total, totals),
        ensures
            exists|earlier: Seq<Vector3<T>>| #[trigger]
                self.totals_are(positions, masses, count, earlier),
        decreases total,
    {
        if count < total {
            let pair = pairs(positions.len())[total - 1];
            let (before, f) = choose|before: Seq<Vector3<T>>, f: Vector3<T>| #[trigger]
                self.visit_is(before, pair, f, totals) && self.totals_are(
                    positions,
                    masses,
                    (total - 1) as nat,
                    before,
                ) && self.force_is(positions, masses, pair, f);
            self.earlier_totals_exist(positions, masses, (total - 1) as nat, before, count);
        }
    }

    /// Newton's third law. Where all pairs of the bodies have been visited,
    /// the visit of the pair `(i, j)` asked for the force `f` on body `i`,
    /// added `f` to the total of body `i` and the negation of `f` to the
    /// total of body `j`, and left every other total as it was. This holds of
    /// every pair, wherever in the order of visits it stands.
    pub proof fn each_pair_is_visited_symmetrically(
        self,
        positions: Seq<Vector3<T>>,
        masses: Seq<T>,
        totals: Seq<Vector3<T>>,
        i: nat,
        j: nat,
    )
        requires
            i < j < positions.len() <= usize::MAX,
            self.totals_are(positions, masses, pair_count(positions.len()), totals),
        ensures
            pairs(positions.len())[pair_index(i, j) as int] == (i as usize, j as usize),
            exists|before: Seq<Vector3<T>>, f: Vector3<T>, g: Vector3<T>, after: Seq<Vector3<T>>|
             #[trigger]
                self.last_visit_is(positions, masses, pair_index(i, j) + 1, before, f, g, after),
    {
        let n = positions.len();
        let count = pair_index(i, j) + 1;
        each_pair_once(n, i, j);
        pairs_len(n);
        self.earlier_totals_exist(positions, masses, pair_count(n), totals, count);
        let after = choose|after: Seq<Vector3<T>>| #[trigger]
            self.totals_are(positions, masses, count, after);
        self.visits_are_symmetric(positions, masses, count, after);
    }

    /// Operations that are deterministic leave one possibility for the
    /// totals after `count` visits.
    pub proof fn totals_are_unique(
        self,
        positions: Seq<Vector3<T>>,
        masses: Seq<T>,
        count: nat,
        one: Seq<Vector3<T>>,
        other: Seq<Vector3<T>>,
    )
        requires
            self.is_deterministic(),
            self.totals_are(positions, masses, count, one),
            self.totals_are(positions, masses, count, other),
        ensures
            one == other,
        decreases count,
    {
        if count > 0 {
            let pair = pairs(positions.len())[count - 1];
            let (b1, f1) = choose|before: Seq<Vector3<T>>, f: Vector3<T>| #[trigger]
                self.visit_is(before, pair, f, one) && self.totals_are(
                    positions,
                    masses,
                    (count - 1) as nat,
                    before,
                ) && self.force_is(positions, masses, pair, f);
            let (b2, f2) = choose|before: Seq<Vector3<T>>, f: Vector3<T>| #[trigger]
                self.visit_is(before, pair, f, other) && self.totals_are(
                    positions,
                    masses,
                    (count - 1) as nat,
                    before,
                ) && self.force_is(positions, masses, pair, f);
            self.totals_are_unique(positions, masses, (count - 1) as nat, b1, b2);
            assert(one =~= other);
        }
    }

    /// Among visits that all found a finite force, each found one: where
    /// `total` visits lead to totals, the force of visit number `count` is
    /// found finite.
    pub proof fn visited_forces_are_finite(
        self,
        positions: Seq<Vector3<T>>,
        masses: Seq<T>,
        total: nat,
        totals: Seq<Vector3<T>>,
        count: nat,
    )
        requires
            count < total,
            self.totals_are(positions, masses, total, totals),
        ensures
            exists|f: Vector3<T>| #[trigger]
                self.force_is(positions, masses, pairs(positions.len())[count as int], f)
                    && self.is_finite_vector(f),
        decreases total,
    {
        let pair = pairs(positions.len())[total - 1];
        let (before, f) = choose|before: Seq<Vector3<T>>, f: Vector3<T>| #[trigger]
            self.visit_is(before, pair, f, totals) && self.totals_are(
                positions,
                masses,
                (total - 1) as nat,
                before,
            ) && self.force_is(positions, masses, pair, f);
        if count + 1 < total {
            self.visited_forces_are_finite(positions, masses, (total - 1) as nat, before, count);
        }
    }

    /// Operations that are deterministic leave one possibility for what
    /// becomes of bodies at `positions` with `masses`: they are given
    /// accelerations, and then no others, or they are turned down, and then
    /// for one reason.
    pub proof fn outcome_is_unique(self, positions: Seq<Vector3<T>>, masses: Seq<T>)
        requires
            self.is_deterministic(),
        ensures
            forall|one: Seq<Vector3<T>>, other: Seq<Vector3<T>>|
                #![trigger self.accelerations_are(positions, masses, one), self.accelerations_are(positions, masses, other)]
                self.accelerations_are(positions, masses, one) && self.accelerations_are(
                    positions,
                    masses,
                    other,
                ) ==> one == other,
            forall|accelerations: Seq<Vector3<T>>, e: SimError|
                #![trigger self.accelerations_are(positions, masses, accelerations), self.refuses(positions, masses, e)]
                !(self.accelerations_are(positions, masses, accelerations) && self.refuses(
                    positions,
                    masses,
                    e,
                )),
            forall|one: SimError, other: SimError|
                #![trigger self.refuses(positions, masses, one), self.refuses(positions, masses, other)]
                self.refuses(positions, masses, one) && self.refuses(positions, masses, other)
                    ==> one == other,
    {
        let all = pair_count(positions.len());
        assert forall|one: Seq<Vector3<T>>, other: Seq<Vector3<T>>|
            self.accelerations_are(positions, masses, one) && self.accelerations_are(
                positions,
                masses,
                other,
            ) implies one == other by {
            let t1 = choose|totals: Seq<Vector3<T>>| #[trigger]
                self.quotients_are(totals, masses, one) && self.totals_are(
                    positions,
                    masses,
                    all,
                    totals,
                );
            let t2 = choose|totals: Seq<Vector3<T>>| #[trigger]
                self.quotients_are(totals, masses, other) && self.totals_are(
                    positions,
                    masses,
                    all,
                    totals,
                );
            self.totals_are_unique(positions, masses, all, t1, t2);
            assert(one =~= other);
        }
        assert forall|accelerations: Seq<Vector3<T>>, e: SimError|
            !(self.accelerations_are(positions, masses, accelerations) && self.refuses(
                positions,
                masses,
                e,
            )) by {
            if self.accelerations_are(positions, masses, accelerations) && self.refuses(
                positions,
                masses,
                e,
            ) {
                let totals = choose|totals: Seq<Vector3<T>>| #[trigger]
                    self.quotients_are(totals, masses, accelerations) && self.totals_are(
                        positions,
                        masses,
                        all,
                        totals,
                    );
                self.no_singularity_among_visits(positions, masses, totals);
            }
        }
    }

    proof fn no_singularity_among_visits(
        self,
        positions: Seq<Vector3<T>>,
        masses: Seq<T>,
        totals: Seq<Vector3<T>>,
    )
        requires
            self.is_deterministic(),
            self.totals_are(positions, masses, pair_count(positions.len()), totals),
        ensures
            !self.meets_singularity(positions, masses),
    {
        if self.meets_singularity(positions, masses) {
            let (count, before, f) = choose|count: nat, before: Seq<Vector3<T>>, f: Vector3<T>|
             #[trigger]
                self.singularity_is(positions, masses, count, before, f);
            self.visited_forces_are_finite(
                positions,
                masses,
                pair_count(positions.len()),
                totals,
                count,
            );
        }
    }

    /// With no body or a single one no pair is visited: no force is asked
    /// for, so none can fail to be finite, and every acceleration is the zero
    /// total divided by the body's mass. Such bodies are turned down only for
    /// a mass that is missing or is found not to be positive.
    pub proof fn lone_body_is_at_rest(self, positions: Seq<Vector3<T>>, masses: Seq<T>)
        requires
            positions.len() <= 1,
        ensures
            pairs(positions.len()).len() == 0,
            !self.meets_singularity(positions, masses),
            forall|e: SimError| #[trigger]
                self.refuses(positions, masses, e) ==> e == SimError::InvalidInput,
            forall|accelerations: Seq<Vector3<T>>| #[trigger]
                self.accelerations_are(positions, masses, accelerations) ==> self.quotients_are(
                    Seq::new(positions.len(), |k: int| self.zero),
                    masses,
                    accelerations,
                ),
    {
        pairs_len(positions.len());
        assert(pair_count(positions.len()) == 0) by {
            if positions.len() == 1 {
                pair_count_step(1);
                pairs_len(0);
            }
        }
    }
}

/// The net acceleration of every body under the pairwise forces of `law`.
///
/// Every unordered pair of bodies is visited once, in the order of `pairs`:
/// the force on the first body of the pair is added to that body's total and
/// its negation to the second body's. Each total is then divided by the
/// body's own mass. No body gives no acceleration, one body the zero total
/// divided by its mass.
///
/// A missing mass, or one that is found not to be positive, is invalid
/// input. A pair whose force has a component that is found not to be finite,
/// as between two bodies at one place, is a singularity: no such force
/// enters a total.
pub fn compute_accelerations<T: Copy, P, Q, F, A, N, D>(
    positions: &Vec<Vector3<T>>,
    masses: &Vec<T>,
    law: &ForceLaw<T, P, Q, F, A, N, D>,
) -> (res: Result<Vec<Vector3<T>>, SimError>) where
    P: Fn(T) -> bool,
    Q: Fn(T) -> bool,
    F: Fn(Vector3<T>, Vector3<T>, T, T) -> Vector3<T>,
    A: Fn(Vector3<T>, Vector3<T>) -> Vector3<T>,
    N: Fn(Vector3<T>) -> Vector3<T>,
    D: Fn(Vector3<T>, T) -> Vector3<T>,

    requires
        law.is_total(),
    ensures
        match res {
            Ok(accelerations) => law.accelerations_are(positions@, masses@, accelerations@),
            Err(e) => law.refuses(positions@, masses@, e),
        },
{
    let n: usize = positions.len();
    if masses.len() != n {
        return Err(SimError::InvalidInput);
    }
    let mut k: usize = 0;
    while k < n
        invariant
            k <= n,
            n == masses.len(),
            law.is_total(),
            forall|m: int| 0 <= m < k ==> law.is_positive.ensures((#[trigger] masses@[m],), true),
        decreases n - k,
    {
        if !(law.is_positive)(masses[k]) {
            return Err(SimError::InvalidInput);
        }
        k += 1;
    }
    let mut totals: Vec<Vector3<T>> = Vec::new();
    k = 0;
    while k < n
        invariant
            k <= n,
            totals@ == Seq::new(k as nat, |m: int| law.zero),
        decreases n - k,
    {
        totals.push(law.zero);
        k += 1;
    }
    proof {
        pairs_len(0);
    }
    let mut j: usize = 0;
    while j < n
        invariant
            j <= n,
            n == positions.len(),
            n == masses.len(),
            law.is_total(),
            law.accepts(masses@),
            totals.len() == n,
            law.totals_are(positions@, masses@, pair_count(j as nat), totals@),
        decreases n - j,
    {
        let mut i: usize = 0;
        while i < j
            invariant
                i <= j,
                j < n,
                n == positions.len(),
                n == masses.len(),
                law.is_total(),
                law.accepts(masses@),
                totals.len() == n,
                law.totals_are(positions@, masses@, pair_index(i as nat, j as nat), totals@),
            decreases j - i,
        {
            proof {
                each_pair_once(n as nat, i as nat, j as nat);
            }
            let ghost before = totals@;
            let f = (law.force)(positions[i], positions[j], masses[i], masses[j]);
            if !((law.is_finite)(f.x) && (law.is_finite)(f.y) && (law.is_finite)(f.z)) {
                proof {
                    pairs_len(n as nat);
                    assert(law.singularity_is(
                        positions@,
                        masses@,
                        pair_index(i as nat, j as nat),
                        before,
                        f,
                    ));
                }
                return Err(SimError::Singularity);
            }
            let g = (law.negate)(f);
            let first = (law.plus)(totals[i], f);
            let second = (law.plus)(totals[j], g);
            totals.set(i, first);
            totals.set(j, second);
            proof {
                law.one_more_visit(
                    positions@,
                    masses@,
                    pair_index(i as nat, j as nat),
                    before,
                    f,
                    totals@,
                );
            }
            i += 1;
        }
        proof {
            pair_count_step((j + 1) as nat);
        }
        j += 1;
    }
    let mut accelerations: Vec<Vector3<T>> = Vec::new();
    k = 0;
    while k < n
        invariant
            k <= n,
            n == positions.len(),
            n == masses.len(),
            totals.len() == n,
            law.is_total(),
            law.accepts(masses@),
            law.totals_are(positions@, masses@, pair_count(n as nat), totals@),
            accelerations.len() == k,
            forall|m: int|
                0 <= m < k ==> law.divide.ensures(
                    (totals@[m], masses@[m]),
                    #[trigger] accelerations@[m],
                ),
        decreases n - k,
    {
        accelerations.push((law.divide)(totals[k], masses[k]));
        k += 1;
    }
    assert(law.quotients_are(totals@, masses@, accelerations@));
    Ok(accelerations)
}

/// The right-hand side of the equations of motion at the state `y` of
/// `n_objects` bodies: the derivative of a position is the velocity, the
/// derivative of a velocity is the acceleration that `law` gives the body.
///
/// A state that does not hold six entries per body is invalid input; what
/// makes the accelerations fail makes the derivative fail in the same way.
pub fn get_derivatives<T: Copy, P, Q, F, A, N, D>(
    y: Vec<T>,
    masses: &Vec<T>,
    n_objects: usize,
    law: &ForceLaw<T, P, Q, F, A, N, D>,
) -> (res: Result<Vec<T>, SimError>) where
    P: Fn(T) -> bool,
    Q: Fn(T) -> bool,
    F: Fn(Vector3<T>, Vector3<T>, T, T) -> Vector3<T>,
    A: Fn(Vector3<T>, Vector3<T>) -> Vector3<T>,
    N: Fn(Vector3<T>) -> Vector3<T>,
    D: Fn(Vector3<T>, T) -> Vector3<T>,

    requires
        law.is_total(),
    ensures
        match res {
            Ok(dy) => y.len() == 6 * n_objects && exists|accelerations: Seq<Vector3<T>>| #[trigger]
                law.accelerations_are(positions_of(y@, n_objects as nat), masses@, accelerations)
                    && dy@ == stacked(velocities_of(y@, n_objects as nat), accelerations),
            Err(e) => if y.len() == 6 * n_objects {
                law.refuses(positions_of(y@, n_objects as nat), masses@, e)
            } else {
                e == SimError::InvalidInput
            },
        },
{
    match y_to_vecs(y, n_objects) {
        Ok((r, v)) => {
            match compute_accelerations(&r, masses, law) {
                Ok(accelerations) => {
                    proof {
                        let totals = choose|totals: Seq<Vector3<T>>| #[trigger]
                            law.quotients_are(totals, masses@, accelerations@) && law.totals_are(
                                r@,
                                masses@,
                                pair_count(r@.len()),
                                totals,
                            );
                        law.totals_len(r@, masses@, pair_count(r@.len()), totals);
                    }
                    vecs_to_y(v, accelerations, n_objects)
                },
                Err(e) => Err(e),
            }
        },
        Err(e) => Err(e),
    }
}

} // verus!
