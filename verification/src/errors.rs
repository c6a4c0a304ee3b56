//! Error taxonomy of the networking core.
//!
//! `DiscoveryError` covers failures of the service-advertisement subsystem and
//! is generally fatal to discovery; `CommunicationError` is local to a single
//! connection attempt. `NetworkError` is the union surfaced to callers.
//! Each error renders to a fixed human-readable message; no error here carries
//! an operating-system payload, the unverified shell maps its own failures onto
//! these variants.

use vstd::prelude::*;
use vstd::string::StringExecFns;

verus! {

#[derive(Clone, Copy, Debug, PartialEq, Eq, Structural)]
pub enum CommunicationError {
    /// A socket write failed.
    WriteError,
    /// A socket read failed.
    ReadError,
    /// A payload could not be decoded as the message its type tag names.
    DecodeError,
    /// No candidate address of the peer accepted a connection.
    NoReachableAddress,
    /// The first frame on an inbound connection was not a `Link` request.
    Unauthenticated,
    /// The named peer is not present in the connection registry.
    PeerNotFound,
    /// A frame carried a type tag outside the closed enumeration.
    InvalidMessageType,
    /// A frame declared a payload longer than the fixed maximum.
    OversizedPayload,
    /// The stream ended before a full frame arrived.
    UnexpectedEof,
}

#[derive(Clone, Copy, Debug, PartialEq, Eq, Structural)]
pub enum DiscoveryError {
    /// Building the local service record failed.
    ServiceError,
    /// The service daemon could not be created or configured.
    ServiceDaemonError,
    /// Registering the local service record failed.
    ServiceRegisterError,
    /// Starting the browse for other instances failed.
    BrowseError,
    /// The local hostname could not be determined.
    HostnameError,
    /// Stopping the daemon or unregistering the service failed.
    ShutdownError,
}

#[derive(Clone, Copy, Debug, PartialEq, Eq, Structural)]
pub enum NetworkError {
    DiscoveryError(DiscoveryError),
    CommunicationError(CommunicationError),
}

pub open spec fn spec_communication_message(e: CommunicationError) -> Seq<char> {
    match e {
        CommunicationError::WriteError => "failed to write to the socket"@,
        CommunicationError::ReadError => "failed to read to the socket"@,
        CommunicationError::DecodeError => "failed to decode peer message"@,
        CommunicationError::NoReachableAddress => "no reachable address for the peer"@,
        CommunicationError::Unauthenticated => "peer sent unexpected messages before linking"@,
        CommunicationError::PeerNotFound => "peer not found by discovery service"@,
        CommunicationError::InvalidMessageType => "invalid value given to convert to message type"@,
        CommunicationError::OversizedPayload => "peer declared a payload larger than the maximum frame size"@,
        CommunicationError::UnexpectedEof => "stream ended before a full frame arrived"@,
    }
}

pub open spec fn spec_discovery_message(e: DiscoveryError) -> Seq<char> {
    match e {
        DiscoveryError::ServiceError => "service error"@,
        DiscoveryError::ServiceDaemonError => "failed to create mDNS service daemon"@,
        DiscoveryError::ServiceRegisterError => "failed to register service with mDNS service daemon"@,
        DiscoveryError::BrowseError => "failed to browse service with mDNS service daemon"@,
        DiscoveryError::HostnameError => "cannot determine system hostname"@,
        DiscoveryError::ShutdownError => "mDNS shutdown error"@,
    }
}

/// Message of the error itself, without the cause that it wraps.
pub open spec fn spec_network_message(e: NetworkError) -> Seq<char> {
    match e {
        NetworkError::DiscoveryError(_) => "discovery error"@,
        NetworkError::CommunicationError(_) => "failed to communicate on the network"@,
    }
}

/// Message of the wrapped cause.
pub open spec fn spec_network_cause(e: NetworkError) -> Seq<char> {
    match e {
        NetworkError::DiscoveryError(d) => spec_discovery_message(d),
        NetworkError::CommunicationError(c) => spec_communication_message(c),
    }
}

/// The full report `human_readable_error` renders: the error's own message,
/// a separator, then the numbered cause.
pub open spec fn spec_error_report(e: NetworkError) -> Seq<char> {
    spec_network_message(e) + "\n\nCaused by:\n"@ + "1.\t"@ + spec_network_cause(e)
}

impl CommunicationError {
    pub fn message(&self) -> (s: String)
        ensures
            s@ == spec_communication_message(*self),
    {
        match self {
            CommunicationError::WriteError => "failed to write to the socket".to_owned(),
            CommunicationError::ReadError => "failed to read to the socket".to_owned(),
            CommunicationError::DecodeError => "failed to decode peer message".to_owned(),
            CommunicationError::NoReachableAddress => "no reachable address for the peer".to_owned(),
            CommunicationError::Unauthenticated => "peer sent unexpected messages before linking".to_owned(),
            CommunicationError::PeerNotFound => "peer not found by discovery service".to_owned(),
            CommunicationError::InvalidMessageType => "invalid value given to convert to message type".to_owned(),
            CommunicationError::OversizedPayload => "peer declared a payload larger than the maximum frame size".to_owned(),
            CommunicationError::UnexpectedEof => "stream ended before a full frame arrived".to_owned(),
        }
    }
}

impl DiscoveryError {
    pub fn message(&self) -> (s: String)
        ensures
            s@ == spec_discovery_message(*self),
    {
        match self {
            DiscoveryError::ServiceError => "service error".to_owned(),
            DiscoveryError::ServiceDaemonError => "failed to create mDNS service daemon".to_owned(),
            DiscoveryError::ServiceRegisterError => "failed to register service with mDNS service daemon".to_owned(),
            DiscoveryError::BrowseError => "failed to browse service with mDNS service daemon".to_owned(),
            DiscoveryError::HostnameError => "cannot determine system hostname".to_owned(),
            DiscoveryError::ShutdownError => "mDNS shutdown error".to_owned(),
        }
    }
}

impl NetworkError {
    pub fn message(&self) -> (s: String)
        ensures
            s@ == spec_network_message(*self),
    {
        match self {
            NetworkError::DiscoveryError(_) => "discovery error".to_owned(),
            NetworkError::CommunicationError(_) => "failed to communicate on the network".to_owned(),
        }
    }

    pub fn cause_message(&self) -> (s: String)
        ensures
            s@ == spec_network_cause(*self),
    {
        match self {
            NetworkError::DiscoveryError(d) => d.message(),
            NetworkError::CommunicationError(c) => c.message(),
        }
    }
}

/// Formats an error and the cause it wraps into a human-readable report.
pub fn human_readable_error(start: &NetworkError) -> (s: String)
    ensures
        s@ == spec_error_report(*start),
{
    let mut s = start.message();
    s.append("\n\nCaused by:\n");
    s.append("1.\t");
    let cause = start.cause_message();
    s.append(cause.as_str());
    s
}

} // verus!
