//! Assignments keyed by the port that they write.

use crate::structure::{Assignment, PortId};
use std::hash::{Hash, Hasher};
use vstd::prelude::*;

verus! {

/// `usize::hash`: feeds `identity` to the hasher. Nothing is claimed of what
/// the hasher then holds.
#[verifier::external_body]
fn hash_identity<H: Hasher>(identity: usize, state: &mut H) {
    identity.hash(state)
}

/// An assignment together with the identity of its destination port. Two of
/// them are equal exactly if they write the same port, and they hash by that
/// port alone, so a hash set holds at most one assignment for each port.
pub struct PortAssignment<'a> {
    port: PortId,
    assignment: &'a Assignment<()>,
}

impl<'a> PortAssignment<'a> {
    /// The destination port.
    pub closed spec fn port(self) -> PortId {
        self.port
    }

    /// The assignment.
    pub closed spec fn assignment(self) -> &'a Assignment<()> {
        self.assignment
    }

    /// The key of `a_ref`: its destination port, with `a_ref` itself.
    pub fn new(a_ref: &'a Assignment<()>) -> (keyed: PortAssignment<'a>)
        ensures
            keyed.port() == a_ref.dst,
            keyed.assignment() == a_ref,
    {
        PortAssignment { port: a_ref.dst, assignment: a_ref }
    }

    /// The destination port.
    pub fn get_port(&self) -> (port: PortId)
        ensures
            port == self.port(),
    {
        self.port
    }

    /// The assignment.
    pub fn get_assignment(&self) -> (assignment: &Assignment<()>)
        ensures
            assignment == self.assignment(),
    {
        self.assignment
    }
}

impl<'a> PartialEq for PortAssignment<'a> {
    fn eq(&self, other: &Self) -> (equal: bool) {
        self.port == other.port
    }
}

impl<'a> vstd::std_specs::cmp::PartialEqSpecImpl for PortAssignment<'a> {
    open spec fn obeys_eq_spec() -> bool {
        true
    }

    open spec fn eq_spec(&self, other: &Self) -> bool {
        self.port() == other.port()
    }
}

impl<'a> Eq for PortAssignment<'a> {

}

impl<'a> Hash for PortAssignment<'a> {
    fn hash<H: Hasher>(&self, state: &mut H) {
        hash_identity(self.port, state)
    }
}

} // verus!
