//! The flat state vector: all positions, body by body, then all velocities in
//! the same order.

use vstd::prelude::*;
use crate::SimError;
use crate::Vector3;

verus! {

/// Component `c` of `p`: 0 is x, 1 is y, anything else is z.
pub open spec fn component<T>(p: Vector3<T>, c: int) -> T {
    if c == 0 {
        p.x
    } else if c == 1 {
        p.y
    } else {
        p.z
    }
}

/// The components of all vectors of `vs`, vector by vector.
pub open spec fn flattened<T>(vs: Seq<Vector3<T>>) -> Seq<T> {
    Seq::new((3 * vs.len()) as nat, |k: int| component(vs[k / 3], k % 3))
}

/// The state vector that holds positions `r` and velocities `v`.
pub open spec fn stacked<T>(r: Seq<Vector3<T>>, v: Seq<Vector3<T>>) -> Seq<T> {
    flattened(r) + flattened(v)
}

/// The vector made of the three entries of `y` from `start + 3 * i` on.
pub open spec fn vector_at<T>(y: Seq<T>, start: int, i: int) -> Vector3<T> {
    Vector3 { x: y[start + 3 * i], y: y[start + 3 * i + 1], z: y[start + 3 * i + 2] }
}

/// The `n` vectors stored in `y` from `start` on.
pub open spec fn block<T>(y: Seq<T>, start: int, n: nat) -> Seq<Vector3<T>> {
    Seq::new(n, |i: int| vector_at(y, start, i))
}

/// The positions held by a state vector of `n` bodies.
pub open spec fn positions_of<T>(y: Seq<T>, n: nat) -> Seq<Vector3<T>> {
    block(y, 0, n)
}

/// The velocities held by a state vector of `n` bodies.
pub open spec fn velocities_of<T>(y: Seq<T>, n: nat) -> Seq<Vector3<T>> {
    block(y, 3 * (n as int), n)
}

/// How many bodies' positions can be read from the front of a state of
/// `len` entries when `n_bodies` are asked for.
pub open spec fn point_count(len: nat, n_bodies: nat) -> nat {
    if n_bodies <= len / 3 {
        n_bodies
    } else {
        len / 3
    }
}

/// The positions at the front of `state` as coordinate triples: those of the
/// first `n_bodies` bodies, or of as many as `state` holds in full.
pub open spec fn points_of<T>(state: Seq<T>, n_bodies: nat) -> Seq<(T, T, T)> {
    Seq::new(
        point_count(state.len(), n_bodies),
        |i: int| (state[3 * i], state[3 * i + 1], state[3 * i + 2]),
    )
}

/// Splitting a stacked state vector gives back the positions and the
/// velocities it was stacked from, whatever their number.
pub proof fn split_undoes_stack<T>(r: Seq<Vector3<T>>, v: Seq<Vector3<T>>)
    requires
        r.len() == v.len(),
    ensures
        stacked(r, v).len() == 6 * r.len(),
        positions_of(stacked(r, v), r.len()) == r,
        velocities_of(stacked(r, v), r.len()) == v,
{
    let y = stacked(r, v);
    let n = r.len();
    assert forall|i: int| 0 <= i < n implies vector_at(y, 0, i) == r[i] by {}
    assert forall|i: int| 0 <= i < n implies vector_at(y, 3 * (n as int), i) == v[i] by {}
}

/// Stacking what a state vector of `n` bodies splits into gives back the
/// state vector: the layout loses nothing in either direction.
pub proof fn stack_undoes_split<T>(y: Seq<T>, n: nat)
    requires
        y.len() == 6 * n,
    ensures
        positions_of(y, n).len() == n,
        velocities_of(y, n).len() == n,
        stacked(positions_of(y, n), velocities_of(y, n)) == y,
{
    let z = stacked(positions_of(y, n), velocities_of(y, n));
    assert forall|k: int| 0 <= k < 6 * n implies z[k] == y[k] by {}
}

/// In a state of `n` bodies the coordinate triples are the positions.
pub proof fn points_are_positions<T>(y: Seq<T>, n: nat, i: int)
    requires
        y.len() == 6 * n,
        0 <= i < n,
    ensures
        points_of(y, n).len() == n,
        points_of(y, n)[i] == (
            positions_of(y, n)[i].x,
            positions_of(y, n)[i].y,
            positions_of(y, n)[i].z,
        ),
{
}

/// Appends the components of `vs` to `y`.
fn append_flattened<T: Copy>(y: &mut Vec<T>, vs: &Vec<Vector3<T>>)
    ensures
        final(y)@ == old(y)@ + flattened(vs@),
{
    let mut i: usize = 0;
    while i < vs.len()
        invariant
            i <= vs.len(),
            y@ == old(y)@ + flattened(vs@.take(i as int)),
        decreases vs.len() - i,
    {
        let p = vs[i];
        y.push(p.x);
        y.push(p.y);
        y.push(p.z);
        i += 1;
    }
}

/// Reads `n` vectors out of `y`, the first one at `start`.
fn read_block<T: Copy>(y: &Vec<T>, start: usize, n: usize) -> (vs: Vec<Vector3<T>>)
    requires
        start + 3 * n <= y.len(),
    ensures
        vs@ == block(y@, start as int, n as nat),
{
    let mut vs: Vec<Vector3<T>> = Vec::new();
    let mut i: usize = 0;
    while i < n
        invariant
            i <= n,
            start + 3 * n <= y.len(),
            vs@ == block(y@, start as int, i as nat),
        decreases n - i,
    {
        let at: usize = start + 3 * i;
        vs.push(Vector3 { x: y[at], y: y[at + 1], z: y[at + 2] });
        i += 1;
    }
    vs
}

/// Stacks positions and velocities into one state vector.
///
/// Both sequences must hold one vector per body; otherwise the call is
/// turned down.
pub fn vecs_to_y<T: Copy>(
    r_vec: Vec<Vector3<T>>,
    v_vec: Vec<Vector3<T>>,
    n_objects: usize,
) -> (res: Result<Vec<T>, SimError>)
    ensures
        match res {
            Ok(y) => r_vec.len() == n_objects && v_vec.len() == n_objects && y@ == stacked(
                r_vec@,
                v_vec@,
            ),
            Err(e) => e == SimError::InvalidInput && (r_vec.len() != n_objects || v_vec.len()
                != n_objects),
        },
{
    if r_vec.len() != n_objects || v_vec.len() != n_objects {
        return Err(SimError::InvalidInput);
    }
    let mut y: Vec<T> = Vec::new();
    append_flattened(&mut y, &r_vec);
    append_flattened(&mut y, &v_vec);
    Ok(y)
}

/// Splits a state vector into positions and velocities.
///
/// The vector must hold six entries per body; otherwise the call is turned
/// down.
pub fn y_to_vecs<T: Copy>(y: Vec<T>, n_objects: usize) -> (res: Result<
    (Vec<Vector3<T>>, Vec<Vector3<T>>),
    SimError,
>)
    ensures
        match res {
            Ok((r, v)) => y.len() == 6 * n_objects && r@ == positions_of(y@, n_objects as nat)
                && v@ == velocities_of(y@, n_objects as nat),
            Err(e) => e == SimError::InvalidInput && y.len() != 6 * n_objects,
        },
{
    if y.len() % 6 != 0 || y.len() / 6 != n_objects {
        return Err(SimError::InvalidInput);
    }
    let r = read_block(&y, 0, n_objects);
    let v = read_block(&y, 3 * n_objects, n_objects);
    Ok((r, v))
}

/// The positions of the bodies in `state` as coordinate triples, for a
/// renderer. A state that is too short for `n_bodies` gives the bodies that
/// it holds in full.
pub fn body_points<T: Copy>(state: &Vec<T>, n_bodies: usize) -> (points: Vec<(T, T, T)>)
    ensures
        points@ == points_of(state@, n_bodies as nat),
{
    let held: usize = state.len() / 3;
    let count: usize = if n_bodies <= held {
        n_bodies
    } else {
        held
    };
    let mut points: Vec<(T, T, T)> = Vec::new();
    let mut i: usize = 0;
    while i < count
        invariant
            i <= count,
            3 * count <= state.len(),
            count == point_count(state@.len(), n_bodies as nat),
            points@ == points_of(state@, n_bodies as nat).take(i as int),
        decreases count - i,
    {
        let at: usize = 3 * i;
        points.push((state[at], state[at + 1], state[at + 2]));
        i += 1;
    }
    assert(points_of(state@, n_bodies as nat).take(count as int) == points_of(
        state@,
        n_bodies as nat,
    ));
    points
}

/// The positions of the bodies in every state of a trajectory, state by
/// state.
pub fn trajectory_points<T: Copy>(states: &Vec<Vec<T>>, n_bodies: usize) -> (frames: Vec<
    Vec<(T, T, T)>,
>)
    ensures
        frames@.len() == states@.len(),
        forall|k: int|
            0 <= k < states@.len() ==> (#[trigger] frames@[k])@ == points_of(
                states@[k]@,
                n_bodies as nat,
            ),
{
    let mut frames: Vec<Vec<(T, T, T)>> = Vec::new();
    let mut k: usize = 0;
    while k < states.len()
        invariant
            k <= states.len(),
            frames@.len() == k,
            forall|m: int|
                0 <= m < k ==> (#[trigger] frames@[m])@ == points_of(states@[m]@, n_bodies as nat),
        decreases states.len() - k,
    {
        frames.push(body_points(&states[k], n_bodies));
        k += 1;
    }
    frames
}

} // verus!
