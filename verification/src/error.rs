//! The errors that abort a batch.
use vstd::prelude::*;

verus! {

/// The polling stage in which a deadline passed.
#[derive(Debug, Clone, Copy, PartialEq, Eq, Structural)]
pub enum Stage {
    /// Waiting for capacity requests to be fulfilled.
    Fulfillment,
    /// Waiting for instances to become reachable.
    Readiness,
}

/// The provider call that failed.
#[derive(Debug, Clone, Copy, PartialEq, Eq, Structural)]
pub enum Operation {
    Connect,
    CreateSecurityGroup,
    CreateKeyPair,
    RequestCapacity,
    DescribeRequests,
    CancelRequests,
    DescribeInstances,
    TerminateInstances,
    DeleteSecurityGroup,
    DeleteKeyPair,
    CreateVm,
    OpenPorts,
    CreateResourceGroup,
    DeleteResourceGroup,
    ListSizes,
}

/// Why a batch was aborted.
#[derive(Debug, Clone)]
pub enum Error {
    /// Two descriptors were registered under one nickname.
    DuplicateNickname { nickname: String },
    /// A batch held no machine.
    EmptyBatch,
    /// The region is not one this provider knows.
    UnsupportedRegion { region: String },
    /// A descriptor reached the provider without an image.
    MissingImage { nickname: String },
    /// The instance size is not offered in the region.
    InvalidInstanceType { instance_type: String },
    /// A provider call failed for a reason that is not retried.
    Provider { operation: Operation, cause: String },
    /// The provider answered a capacity request with the wrong number of
    /// request identifiers.
    RequestCountMismatch { got: usize, expected: usize },
    /// The deadline passed.
    Timeout { stage: Stage },
    /// The SSH handshake with a machine failed.
    Connectivity { nickname: String, address: String },
    /// The setup procedure of a machine failed.
    Setup { nickname: String },
    /// A connection was asked for a machine that never became reachable.
    NotInitialized,
    /// None of the candidate addresses of a machine accepted a connection.
    NoValidAddress,
}

} // verus!
