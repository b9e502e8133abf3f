//! The kinds of node that a Parity node reports.
use vstd::prelude::*;

verus! {

/// Describes the kind of node. This information can provide a hint to
/// applications about how to utilize the RPC.
#[derive(Debug, Clone, Copy, PartialEq, Eq, Structural)]
pub struct ParityNodeKind {
    /// The capability of the node.
    pub capability: Capability,
    /// Who the node is available to.
    pub availability: Availability,
}

/// Who the node is available to.
#[derive(Debug, Clone, Copy, PartialEq, Eq, Structural)]
pub enum Availability {
    /// A personal node, not intended to be available to everyone.
    Personal,
    /// A public, open node.
    Public,
}

/// The capability of the node.
#[derive(Debug, Clone, Copy, PartialEq, Eq, Structural)]
pub enum Capability {
    /// A full node stores the full state and fully enacts incoming blocks.
    Full,
    /// A light node does a minimal header sync and fetches data as needed
    /// from the network.
    Light,
}

/// The name of an availability in JSON (camel case).
pub open spec fn availability_name(a: Availability) -> Seq<char> {
    match a {
        Availability::Personal => "personal"@,
        Availability::Public => "public"@,
    }
}

/// The name of a capability in JSON (camel case).
pub open spec fn capability_name(c: Capability) -> Seq<char> {
    match c {
        Capability::Full => "full"@,
        Capability::Light => "light"@,
    }
}

impl Availability {
    /// The name of this availability in JSON.
    pub fn name(&self) -> (s: String)
        ensures
            s@ == availability_name(*self),
    {
        match self {
            Availability::Personal => String::from_str("personal"),
            Availability::Public => String::from_str("public"),
        }
    }

    /// The availability with this JSON name, if any.
    pub fn from_name(name: &String) -> (r: Option<Availability>)
        ensures
            match r {
                Some(a) => availability_name(a) == name@,
                None => forall|a: Availability| availability_name(a) != name@,
            },
    {
        proof {
            reveal_strlit("personal");
            reveal_strlit("public");
        }
        if *name == String::from_str("personal") {
            Some(Availability::Personal)
        } else if *name == String::from_str("public") {
            Some(Availability::Public)
        } else {
            proof {
                assert forall|a: Availability| availability_name(a) != name@ by {
                    match a {
                        Availability::Personal => {},
                        Availability::Public => {},
                    }
                }
            }
            None
        }
    }
}

impl Capability {
    /// The name of this capability in JSON.
    pub fn name(&self) -> (s: String)
        ensures
            s@ == capability_name(*self),
    {
        match self {
            Capability::Full => String::from_str("full"),
            Capability::Light => String::from_str("light"),
        }
    }

    /// The capability with this JSON name, if any.
    pub fn from_name(name: &String) -> (r: Option<Capability>)
        ensures
            match r {
                Some(c) => capability_name(c) == name@,
                None => forall|c: Capability| capability_name(c) != name@,
            },
    {
        proof {
            reveal_strlit("full");
            reveal_strlit("light");
        }
        if *name == String::from_str("full") {
            Some(Capability::Full)
        } else if *name == String::from_str("light") {
            Some(Capability::Light)
        } else {
            proof {
                assert forall|c: Capability| capability_name(c) != name@ by {
                    match c {
                        Capability::Full => {},
                        Capability::Light => {},
                    }
                }
            }
            None
        }
    }
}

impl ParityNodeKind {
    /// The node kind with these JSON names of its availability and capability.
    pub fn from_names(availability: &String, capability: &String) -> (r: Option<ParityNodeKind>)
        ensures
            match r {
                Some(k) => availability_name(k.availability) == availability@
                    && capability_name(k.capability) == capability@,
                None => (forall|a: Availability| availability_name(a) != availability@)
                    || (forall|c: Capability| capability_name(c) != capability@),
            },
    {
        match (Availability::from_name(availability), Capability::from_name(capability)) {
            (Some(availability), Some(capability)) => Some(ParityNodeKind { capability, availability }),
            _ => None,
        }
    }
}

/// The JSON names tell the kinds apart: reading back the name of an
/// availability or a capability gives it again.
pub proof fn law_names_round_trip(a: Availability, b: Availability, c: Capability, d: Capability)
    ensures
        availability_name(a) == availability_name(b) ==> a == b,
        capability_name(c) == capability_name(d) ==> c == d,
{
    reveal_strlit("personal");
    reveal_strlit("public");
    reveal_strlit("full");
    reveal_strlit("light");
    assert("personal"@.len() != "public"@.len());
    assert("full"@.len() != "light"@.len());
}

} // verus!
