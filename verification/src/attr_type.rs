//! The registry of path attribute type codes.
use vstd::prelude::*;
use ::arbitrary::Unstructured;
use crate::entropy::{arbitrary_u8, entropy};

verus! {

/// The kind of a path attribute, as its one-octet type code names it. A code that the
/// registry does not know is kept as it came, so that the attribute can be handed on
/// untouched.
#[derive(Clone, Copy, Debug, PartialEq, Eq, Structural, Hash)]
pub enum AttrType {
    Origin,
    AsPath,
    Nexthop,
    Med,
    LocalPref,
    AtomicAggregate,
    Aggregator,
    Communities,
    OriginatorId,
    ClusterList,
    MpReachNlri,
    MpUnreachNlri,
    ExtCommunities,
    As4Path,
    As4Aggregator,
    Extv6Community,
    LargeCommunity,
    Unrecognized(u8),
}

impl AttrType {
    /// The attribute type that a wire code stands for.
    pub open spec fn of_code(code: u8) -> AttrType {
        if code == 1 {
            AttrType::Origin
        } else if code == 2 {
            AttrType::AsPath
        } else if code == 3 {
            AttrType::Nexthop
        } else if code == 4 {
            AttrType::Med
        } else if code == 5 {
            AttrType::LocalPref
        } else if code == 6 {
            AttrType::AtomicAggregate
        } else if code == 7 {
            AttrType::Aggregator
        } else if code == 8 {
            AttrType::Communities
        } else if code == 9 {
            AttrType::OriginatorId
        } else if code == 10 {
            AttrType::ClusterList
        } else if code == 14 {
            AttrType::MpReachNlri
        } else if code == 15 {
            AttrType::MpUnreachNlri
        } else if code == 16 {
            AttrType::ExtCommunities
        } else if code == 17 {
            AttrType::As4Path
        } else if code == 18 {
            AttrType::As4Aggregator
        } else if code == 25 {
            AttrType::Extv6Community
        } else if code == 32 {
            AttrType::LargeCommunity
        } else {
            AttrType::Unrecognized(code)
        }
    }

    /// The wire code of an attribute type.
    pub open spec fn code(self) -> u8 {
        match self {
            AttrType::Origin => 1,
            AttrType::AsPath => 2,
            AttrType::Nexthop => 3,
            AttrType::Med => 4,
            AttrType::LocalPref => 5,
            AttrType::AtomicAggregate => 6,
            AttrType::Aggregator => 7,
            AttrType::Communities => 8,
            AttrType::OriginatorId => 9,
            AttrType::ClusterList => 10,
            AttrType::MpReachNlri => 14,
            AttrType::MpUnreachNlri => 15,
            AttrType::ExtCommunities => 16,
            AttrType::As4Path => 17,
            AttrType::As4Aggregator => 18,
            AttrType::Extv6Community => 25,
            AttrType::LargeCommunity => 32,
            AttrType::Unrecognized(code) => code,
        }
    }

    /// Whether the registry knows this type by name.
    pub open spec fn is_recognized(self) -> bool {
        !(self is Unrecognized)
    }

    /// Whether this is the value that the registry gives for its code: a named type, or
    /// the catch-all with a code that has no name.
    pub open spec fn is_canonical(self) -> bool {
        AttrType::of_code(self.code()) == self
    }

    /// Resolves a wire code. Every code resolves: one without a name to the catch-all
    /// that carries it.
    pub fn from_u8(code: u8) -> (t: AttrType)
        ensures
            t == AttrType::of_code(code),
    {
        match code {
            1 => AttrType::Origin,
            2 => AttrType::AsPath,
            3 => AttrType::Nexthop,
            4 => AttrType::Med,
            5 => AttrType::LocalPref,
            6 => AttrType::AtomicAggregate,
            7 => AttrType::Aggregator,
            8 => AttrType::Communities,
            9 => AttrType::OriginatorId,
            10 => AttrType::ClusterList,
            14 => AttrType::MpReachNlri,
            15 => AttrType::MpUnreachNlri,
            16 => AttrType::ExtCommunities,
            17 => AttrType::As4Path,
            18 => AttrType::As4Aggregator,
            25 => AttrType::Extv6Community,
            32 => AttrType::LargeCommunity,
            _ => AttrType::Unrecognized(code),
        }
    }

    /// The wire code of this type.
    pub fn to_u8(&self) -> (code: u8)
        ensures
            code == self.code(),
    {
        match self {
            AttrType::Origin => 1,
            AttrType::AsPath => 2,
            AttrType::Nexthop => 3,
            AttrType::Med => 4,
            AttrType::LocalPref => 5,
            AttrType::AtomicAggregate => 6,
            AttrType::Aggregator => 7,
            AttrType::Communities => 8,
            AttrType::OriginatorId => 9,
            AttrType::ClusterList => 10,
            AttrType::MpReachNlri => 14,
            AttrType::MpUnreachNlri => 15,
            AttrType::ExtCommunities => 16,
            AttrType::As4Path => 17,
            AttrType::As4Aggregator => 18,
            AttrType::Extv6Community => 25,
            AttrType::LargeCommunity => 32,
            AttrType::Unrecognized(code) => *code,
        }
    }

    /// Makes an attribute type from unstructured data: the type that the next raw octet
    /// is the code of, or that of code zero when no octet is left.
    pub fn arbitrary(u: &mut Unstructured<'_>) -> (r: Result<AttrType, ::arbitrary::Error>)
        ensures
            r is Ok,
            entropy(*old(u)).len() == 0 ==> r->Ok_0 == AttrType::of_code(0) && entropy(*final(u))
                == entropy(*old(u)),
            entropy(*old(u)).len() > 0 ==> r->Ok_0 == AttrType::of_code(entropy(*old(u))[0])
                && entropy(*final(u)) == entropy(*old(u)).skip(1),
    {
        match arbitrary_u8(u) {
            Ok(code) => Ok(AttrType::from_u8(code)),
            Err(e) => Err(e),
        }
    }

    /// Resolving a code loses nothing: the type that a code resolves to has that code,
    /// and is the registry's own value for it.
    pub proof fn lemma_code_of_code(code: u8)
        ensures
            AttrType::of_code(code).code() == code,
            AttrType::of_code(code).is_canonical(),
    {
    }

    /// A named type resolves from its own code.
    pub proof fn lemma_recognized_is_canonical(t: AttrType)
        requires
            t.is_recognized(),
        ensures
            AttrType::of_code(t.code()) == t,
    {
    }
}

} // verus!
