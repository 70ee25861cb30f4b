//! Stable identities of the objects that the interface shows.

use vstd::prelude::*;

verus! {

/// Identity of a track.
#[derive(Clone, Copy, Debug, PartialEq, Eq, Structural, PartialOrd, Ord, Hash)]
pub struct TrackId(pub u64);

/// Identity of an application port.
#[derive(Clone, Copy, Debug, PartialEq, Eq, Structural, PartialOrd, Ord, Hash)]
pub struct PortId(pub u64);

/// Identity of a loop.
#[derive(Clone, Copy, Debug, PartialEq, Eq, Structural, PartialOrd, Ord, Hash)]
pub struct LoopId(pub u64);

/// Identity of a script.
#[derive(Clone, Copy, Debug, PartialEq, Eq, Structural, PartialOrd, Ord, Hash)]
pub struct ScriptId(pub u64);

impl TrackId {
    pub fn from_raw(raw: u64) -> (r: Self)
        ensures
            r.0 == raw,
    {
        TrackId(raw)
    }

    pub fn raw(self) -> (r: u64)
        ensures
            r == self.0,
    {
        self.0
    }
}

impl PortId {
    pub fn from_raw(raw: u64) -> (r: Self)
        ensures
            r.0 == raw,
    {
        PortId(raw)
    }

    pub fn raw(self) -> (r: u64)
        ensures
            r == self.0,
    {
        self.0
    }
}

impl LoopId {
    /// The identity that no loop has.
    pub fn invalid() -> (r: Self)
        ensures
            r.0 == 0,
    {
        LoopId(0)
    }

    pub fn from_raw(raw: u64) -> (r: Self)
        ensures
            r.0 == raw,
    {
        LoopId(raw)
    }

    pub fn raw(self) -> (r: u64)
        ensures
            r == self.0,
    {
        self.0
    }
}

impl ScriptId {
    pub fn from_raw(raw: u64) -> (r: Self)
        ensures
            r.0 == raw,
    {
        ScriptId(raw)
    }

    pub fn raw(self) -> (r: u64)
        ensures
            r == self.0,
    {
        self.0
    }
}

/// Identity of a port of the host audio system, as the host names it.
#[derive(Clone, Debug, PartialEq, Eq, PartialOrd, Ord, Hash)]
pub struct HostPortId(pub String);

impl HostPortId {
    pub fn new(id: &str) -> (r: Self)
        ensures
            r.0@ == id@,
    {
        HostPortId(id.to_string())
    }

    pub fn from_string(id: String) -> (r: Self)
        ensures
            r.0 == id,
    {
        HostPortId(id)
    }

    pub fn as_str(&self) -> (r: &str)
        ensures
            r@ == self.0@,
    {
        self.0.as_str()
    }

    /// A copy of this identity.
    pub fn duplicate(&self) -> (r: Self)
        ensures
            r == *self,
    {
        HostPortId(self.0.clone())
    }

    /// Whether two host identities are the same.
    pub fn same_as(&self, other: &HostPortId) -> (r: bool)
        ensures
            r == (self.0@ == other.0@),
    {
        self.0 == other.0
    }
}

} // verus!
