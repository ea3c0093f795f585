//! Body records as a loader hands them in, and what the simulation reads
//! from them.

use vstd::prelude::*;
use vstd::string::StrSliceExecFns;
use crate::SimError;
use crate::Vector3;

verus! {

/// Makes `std::io::Error` known as a type whose values are carried through
/// unread: nothing is said of what such a value holds.
#[verifier::external_type_specification]
#[verifier::external_body]
pub struct ExIoError(std::io::Error);

/// Makes `serde_json::Error` known as a type whose values are carried
/// through unread: nothing is said of what such a value holds.
#[verifier::external_type_specification]
#[verifier::external_body]
pub struct ExJsonError(serde_json::Error);

/// One body of the system.
#[derive(Debug)]
pub struct Body<T> {
    /// The number by which the body is known.
    pub id: u8,
    /// The name of the body.
    pub label: String,
    /// The mass of the body.
    pub mass: T,
    /// The position of the body: three coordinates.
    pub pos: Vec<T>,
    /// The velocity of the body: three components.
    pub vel: Vec<T>,
    /// How the body is to be drawn. It has no part in the dynamics.
    pub obj_col: T,
}

/// Why a system description could not be loaded.
#[derive(Debug)]
pub enum SemantixError {
    /// The description could not be read.
    IO(std::io::Error),
    /// The description was read but is not a system of bodies.
    Parse(serde_json::Error),
}

impl From<std::io::Error> for SemantixError {
    fn from(err: std::io::Error) -> (e: Self) {
        SemantixError::IO(err)
    }
}

impl vstd::std_specs::convert::FromSpecImpl<std::io::Error> for SemantixError {
    open spec fn obeys_from_spec() -> bool {
        true
    }

    open spec fn from_spec(err: std::io::Error) -> Self {
        SemantixError::IO(err)
    }
}

impl From<serde_json::Error> for SemantixError {
    fn from(err: serde_json::Error) -> (e: Self) {
        SemantixError::Parse(err)
    }
}

impl vstd::std_specs::convert::FromSpecImpl<serde_json::Error> for SemantixError {
    open spec fn obeys_from_spec() -> bool {
        true
    }

    open spec fn from_spec(err: serde_json::Error) -> Self {
        SemantixError::Parse(err)
    }
}

/// A system of bodies.
#[derive(Debug)]
pub struct Data<T> {
    /// The bodies, in the order of their indices.
    pub system_vec: Vec<Body<T>>,
}

/// Whether `name` names a field that holds a vector per body.
pub open spec fn is_vector_field(name: Seq<char>) -> bool {
    name == "pos"@ || name == "vel"@
}

/// What `body` holds in the field `name`: its position for `"pos"`, its
/// velocity otherwise.
pub open spec fn vector_field<T>(body: Body<T>, name: Seq<char>) -> Seq<T> {
    if name == "pos"@ {
        body.pos@
    } else {
        body.vel@
    }
}

/// The vector made of the first three entries of `s`.
pub open spec fn leading_vector<T>(s: Seq<T>) -> Vector3<T> {
    Vector3 { x: s[0], y: s[1], z: s[2] }
}

/// The field `name` of every body as a vector, where `name` is a vector
/// field and every body holds at least three entries in it.
pub open spec fn field_mat<T>(bodies: Seq<Body<T>>, name: Seq<char>) -> Option<Seq<Vector3<T>>> {
    if is_vector_field(name) && forall|i: int|
        0 <= i < bodies.len() ==> (#[trigger] vector_field(bodies[i], name)).len() >= 3 {
        Some(Seq::new(bodies.len(), |i: int| leading_vector(vector_field(bodies[i], name))))
    } else {
        None
    }
}

/// The mass of every body.
pub open spec fn field_mass<T>(bodies: Seq<Body<T>>) -> Seq<T> {
    Seq::new(bodies.len(), |i: int| bodies[i].mass)
}

/// Whether two texts hold the same characters.
fn same_text(a: &str, b: &str) -> (same: bool)
    ensures
        same == (a@ == b@),
{
    let n: usize = a.unicode_len();
    if b.unicode_len() != n {
        return false;
    }
    let mut i: usize = 0;
    while i < n
        invariant
            i <= n,
            n == a@.len(),
            n == b@.len(),
            forall|k: int| 0 <= k < i ==> a@[k] == b@[k],
        decreases n - i,
    {
        if a.get_char(i) != b.get_char(i) {
            return false;
        }
        i += 1;
    }
    assert(a@ =~= b@);
    true
}

impl<T: Copy> Data<T> {
    /// The position (`"pos"`) or the velocity (`"vel"`) of every body, made
    /// of the first three entries that the body holds for it.
    ///
    /// Any other field name, or a body with fewer than three entries, has
    /// the call turned down.
    pub fn get_field_mat(&self, field_type: &str) -> (res: Result<Vec<Vector3<T>>, SimError>)
        ensures
            match res {
                Ok(m) => field_mat(self.system_vec@, field_type@) == Some(m@),
                Err(e) => e == SimError::InvalidInput && field_mat(self.system_vec@, field_type@)
                    is None,
            },
    {
        let positions = same_text(field_type, "pos");
        if !positions && !same_text(field_type, "vel") {
            return Err(SimError::InvalidInput);
        }
        let mut m: Vec<Vector3<T>> = Vec::new();
        let mut i: usize = 0;
        while i < self.system_vec.len()
            invariant
                i <= self.system_vec.len(),
                is_vector_field(field_type@),
                positions == (field_type@ == "pos"@),
                m@.len() == i,
                forall|k: int|
                    0 <= k < i ==> (#[trigger] vector_field(self.system_vec@[k], field_type@)).len()
                        >= 3,
                forall|k: int|
                    0 <= k < i ==> m@[k] == leading_vector(
                        vector_field(self.system_vec@[k], field_type@),
                    ),
            decreases self.system_vec.len() - i,
        {
            let body = &self.system_vec[i];
            let entries = if positions {
                &body.pos
            } else {
                &body.vel
            };
            if entries.len() < 3 {
                assert(vector_field(self.system_vec@[i as int], field_type@).len() < 3);
                return Err(SimError::InvalidInput);
            }
            m.push(Vector3 { x: entries[0], y: entries[1], z: entries[2] });
            i += 1;
        }
        Ok(m)
    }

    /// The mass of every body.
    pub fn get_field_mass(self) -> (masses: Vec<T>)
        ensures
            masses@ == field_mass(self.system_vec@),
    {
        let mut masses: Vec<T> = Vec::new();
        let mut i: usize = 0;
        while i < self.system_vec.len()
            invariant
                i <= self.system_vec.len(),
                masses@.len() == i,
                forall|k: int| 0 <= k < i ==> masses@[k] == self.system_vec@[k].mass,
            decreases self.system_vec.len() - i,
        {
            masses.push(self.system_vec[i].mass);
            i += 1;
        }
        masses
    }
}

} // verus!
