//! Error types of the providers and of the domain boundary they report to.
use vstd::prelude::*;

use crate::text::{concat, owned};

verus! {

/// Errors produced by concrete providers. Each variant carries a message.
#[derive(Debug, Clone, PartialEq, Eq)]
pub enum ProvidersError {
    Io(String),
    Serde(String),
    ConfigParse(String),
    ServiceUnavailable(String),
    DbusTransport(String),
    Spawn(String),
}

/// Errors crossing the domain boundary (the IPC layer reports these).
#[derive(Debug, Clone, PartialEq, Eq)]
pub enum DomainError {
    Unsupported(String),
    ActionFailed { reason: String },
    NotFound(String),
    InvalidQuery(String),
    ProviderNotFound(String),
}

/// Errors of the shared D-Bus helpers.
#[derive(Debug, Clone, PartialEq, Eq)]
pub enum DbusError {
    Transport(String),
    ServiceUnavailable(String),
}

impl ProvidersError {
    /// The provider error a D-Bus helper error becomes: transport failures
    /// stay transport failures, a missing service stays unavailable, and the
    /// message is kept.
    pub fn from_dbus(e: DbusError) -> (r: ProvidersError)
        ensures
            match e {
                DbusError::Transport(s) => r == ProvidersError::DbusTransport(s),
                DbusError::ServiceUnavailable(s) => r == ProvidersError::ServiceUnavailable(s),
            },
    {
        match e {
            DbusError::Transport(s) => ProvidersError::DbusTransport(s),
            DbusError::ServiceUnavailable(s) => ProvidersError::ServiceUnavailable(s),
        }
    }

    /// A copy of the error.
    pub fn copy(&self) -> (r: ProvidersError)
        ensures
            r == *self,
    {
        match self {
            ProvidersError::Io(s) => ProvidersError::Io(s.clone()),
            ProvidersError::Serde(s) => ProvidersError::Serde(s.clone()),
            ProvidersError::ConfigParse(s) => ProvidersError::ConfigParse(s.clone()),
            ProvidersError::ServiceUnavailable(s) => ProvidersError::ServiceUnavailable(s.clone()),
            ProvidersError::DbusTransport(s) => ProvidersError::DbusTransport(s.clone()),
            ProvidersError::Spawn(s) => ProvidersError::Spawn(s.clone()),
        }
    }

    /// The message the error displays (`"<kind>: <detail>"`).
    pub fn message(&self) -> (r: String)
        ensures
            r@ == self.spec_message(),
    {
        match self {
            ProvidersError::Io(s) => concat("I/O error: ", s.as_str()),
            ProvidersError::Serde(s) => concat("serde error: ", s.as_str()),
            ProvidersError::ConfigParse(s) => concat("config parse error: ", s.as_str()),
            ProvidersError::ServiceUnavailable(s) => concat("service unavailable: ", s.as_str()),
            ProvidersError::DbusTransport(s) => concat("dbus transport error: ", s.as_str()),
            ProvidersError::Spawn(s) => concat("spawn error: ", s.as_str()),
        }
    }

    pub open spec fn spec_message(&self) -> Seq<char> {
        match self {
            ProvidersError::Io(s) => "I/O error: "@ + s@,
            ProvidersError::Serde(s) => "serde error: "@ + s@,
            ProvidersError::ConfigParse(s) => "config parse error: "@ + s@,
            ProvidersError::ServiceUnavailable(s) => "service unavailable: "@ + s@,
            ProvidersError::DbusTransport(s) => "dbus transport error: "@ + s@,
            ProvidersError::Spawn(s) => "spawn error: "@ + s@,
        }
    }
}

impl DomainError {
    /// An `Unsupported` error carrying `msg`.
    pub fn unsupported(msg: &str) -> (r: DomainError)
        ensures
            r == DomainError::Unsupported(r->Unsupported_0) && r->Unsupported_0@ == msg@,
    {
        DomainError::Unsupported(owned(msg))
    }

    /// An `ActionFailed` error carrying `msg`.
    pub fn action_failed(msg: &str) -> (r: DomainError)
        ensures
            r is ActionFailed && r->reason@ == msg@,
    {
        DomainError::ActionFailed { reason: owned(msg) }
    }
}

impl DomainError {
    /// A copy of the error.
    pub fn copy(&self) -> (r: DomainError)
        ensures
            r == *self,
    {
        match self {
            DomainError::Unsupported(s) => DomainError::Unsupported(s.clone()),
            DomainError::ActionFailed { reason } => DomainError::ActionFailed { reason: reason.clone() },
            DomainError::NotFound(s) => DomainError::NotFound(s.clone()),
            DomainError::InvalidQuery(s) => DomainError::InvalidQuery(s.clone()),
            DomainError::ProviderNotFound(s) => DomainError::ProviderNotFound(s.clone()),
        }
    }
}

/// Errors of the infrastructure layer: a domain error, or one of its own.
#[derive(Debug, Clone)]
pub enum InfrastructureError {
    Domain(DomainError),
    Io(String),
    Serde(String),
    ConfigParse(String),
    HyprlandUnreachable,
    Spawn(String),
    ServiceUnavailable(String),
    DbusTransport(String),
}

impl InfrastructureError {
    /// The domain error reported across the IPC boundary: a domain error as
    /// it is; configuration errors as invalid queries; everything else as
    /// unsupported, with a prefix naming the failure.
    pub fn to_domain(&self) -> (r: DomainError)
        ensures
            match self {
                InfrastructureError::Domain(e) => r == *e,
                InfrastructureError::Io(m) => r is Unsupported && r->Unsupported_0@ == "IO error: "@ + m@,
                InfrastructureError::Serde(m) => r is Unsupported && r->Unsupported_0@ == "serde error: "@ + m@,
                InfrastructureError::ConfigParse(m) => r is InvalidQuery && r->InvalidQuery_0@ == "config: "@ + m@,
                InfrastructureError::HyprlandUnreachable => r is Unsupported && r->Unsupported_0@ == "Hyprland unreachable"@,
                InfrastructureError::Spawn(m) => r is Unsupported && r->Unsupported_0@ == "spawn: "@ + m@,
                InfrastructureError::ServiceUnavailable(m) => r is Unsupported && r->Unsupported_0@ == "service unavailable: "@ + m@,
                InfrastructureError::DbusTransport(m) => r is Unsupported && r->Unsupported_0@ == "DBus transport: "@ + m@,
            },
    {
        match self {
            InfrastructureError::Domain(e) => e.copy(),
            InfrastructureError::Io(m) => DomainError::Unsupported(concat("IO error: ", m.as_str())),
            InfrastructureError::Serde(m) => DomainError::Unsupported(concat("serde error: ", m.as_str())),
            InfrastructureError::ConfigParse(m) => DomainError::InvalidQuery(concat("config: ", m.as_str())),
            InfrastructureError::HyprlandUnreachable => DomainError::Unsupported(owned("Hyprland unreachable")),
            InfrastructureError::Spawn(m) => DomainError::Unsupported(concat("spawn: ", m.as_str())),
            InfrastructureError::ServiceUnavailable(m) => DomainError::Unsupported(
                concat("service unavailable: ", m.as_str()),
            ),
            InfrastructureError::DbusTransport(m) => DomainError::Unsupported(concat("DBus transport: ", m.as_str())),
        }
    }

    /// The infrastructure error of a D-Bus helper error.
    pub fn from_dbus(e: DbusError) -> (r: InfrastructureError)
        ensures
            match e {
                DbusError::Transport(s) => r == InfrastructureError::DbusTransport(s),
                DbusError::ServiceUnavailable(s) => r == InfrastructureError::ServiceUnavailable(s),
            },
    {
        match e {
            DbusError::Transport(s) => InfrastructureError::DbusTransport(s),
            DbusError::ServiceUnavailable(s) => InfrastructureError::ServiceUnavailable(s),
        }
    }

    /// The infrastructure error wrapping a domain error.
    pub fn from_domain(e: DomainError) -> (r: InfrastructureError)
        ensures
            r == InfrastructureError::Domain(e),
    {
        InfrastructureError::Domain(e)
    }
}

} // verus!
