//! The kinds of cluster that register with the placement center.
use crate::text::str_eq;
use vstd::prelude::*;

verus! {

/// The kind of cluster a node belongs to.
#[derive(Clone, Copy, Debug, PartialEq, Eq, Structural, Hash, PartialOrd, Ord)]
pub enum ClusterType {
    BrokerServer,
    StorageEngine,
    PlacementCenter,
}

/// The name of a `ClusterType` in the protocol definition.
pub open spec fn cluster_type_label(t: ClusterType) -> Seq<char> {
    match t {
        ClusterType::BrokerServer => "BrokerServer"@,
        ClusterType::StorageEngine => "StorageEngine"@,
        ClusterType::PlacementCenter => "PlacementCenter"@,
    }
}

/// The `ClusterType` named `s` in the protocol definition, if any.
pub open spec fn cluster_type_named(s: Seq<char>) -> Option<ClusterType> {
    if s == "BrokerServer"@ {
        Some(ClusterType::BrokerServer)
    } else if s == "StorageEngine"@ {
        Some(ClusterType::StorageEngine)
    } else if s == "PlacementCenter"@ {
        Some(ClusterType::PlacementCenter)
    } else {
        None
    }
}

impl ClusterType {
    /// The name of the value in the protocol definition.
    pub fn as_str_name(&self) -> (r: &'static str)
        ensures
            r@ == cluster_type_label(*self),
    {
        match self {
            ClusterType::BrokerServer => "BrokerServer",
            ClusterType::StorageEngine => "StorageEngine",
            ClusterType::PlacementCenter => "PlacementCenter",
        }
    }

    /// The value with the given name in the protocol definition.
    pub fn from_str_name(value: &str) -> (r: Option<Self>)
        ensures
            r == cluster_type_named(value@),
    {
        if str_eq(value, "BrokerServer") {
            return Some(ClusterType::BrokerServer);
        }
        if str_eq(value, "StorageEngine") {
            return Some(ClusterType::StorageEngine);
        }
        if str_eq(value, "PlacementCenter") {
            return Some(ClusterType::PlacementCenter);
        }
        None
    }
}

/// Reading back the name of a `ClusterType` gives the same value.
pub proof fn lemma_cluster_type_name_roundtrip(t: ClusterType)
    ensures
        cluster_type_named(cluster_type_label(t)) == Some(t),
{
    reveal_strlit("BrokerServer");
    reveal_strlit("StorageEngine");
    reveal_strlit("PlacementCenter");
    assert("BrokerServer"@[0] != "StorageEngine"@[0]);
    assert("BrokerServer"@[0] != "PlacementCenter"@[0]);
    assert("StorageEngine"@[0] != "PlacementCenter"@[0]);
}

} // verus!
