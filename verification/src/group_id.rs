//! Group identifiers: strictly positive integers naming a curated collection.

use crate::text::{dec_str, usize_to_string};
use vstd::prelude::*;

verus! {

/// The rejection of a zero identifier.
#[derive(Debug, Clone, Copy, PartialEq, Eq, Structural)]
pub struct GroupIdError;

/// A strictly positive group identifier.
#[derive(Debug, Clone, Copy, PartialEq, Eq, Structural)]
pub struct GroupId {
    id: usize,
}

impl GroupId {
    pub closed spec fn spec_get(&self) -> int {
        self.id as int
    }

    pub open spec fn wf(&self) -> bool {
        self.spec_get() >= 1
    }

    /// Zero is rejected; every positive value is accepted unchanged.
    pub fn try_from(id: usize) -> (r: Result<Self, GroupIdError>)
        ensures
            r is Ok <==> id > 0,
            r matches Ok(g) ==> g.spec_get() == id && g.wf(),
    {
        if id == 0 {
            Err(GroupIdError)
        } else {
            Ok(Self { id })
        }
    }

    pub fn get(&self) -> (r: usize)
        ensures
            r == self.spec_get(),
    {
        self.id
    }

    pub fn as_usize(&self) -> (r: usize)
        ensures
            r == self.spec_get(),
    {
        self.id
    }

    /// The identifier rendered in decimal.
    pub fn to_string(&self) -> (s: String)
        ensures
            s@ == dec_str(self.spec_get() as nat),
    {
        usize_to_string(self.id)
    }
}

} // verus!
