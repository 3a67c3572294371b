//! The failures a node can meet, and how far each one propagates.

use vstd::prelude::*;

verus! {

/// The wallet seed file could not be turned into a seed.
#[derive(Clone, Copy, Debug, PartialEq, Eq, Structural)]
pub enum KeyLoadError {
    /// No file at the hotkey location.
    Missing,
    /// The file exists but could not be read.
    Unreadable,
    /// The file was read but does not hold a seed.
    InvalidEncoding,
}

/// The seed bytes cannot be expanded into a signing key.
#[derive(Clone, Copy, Debug, PartialEq, Eq, Structural)]
pub enum InvalidSeedError {
    /// A seed has exactly 32 bytes; `found` were given.
    WrongLength { found: usize },
}

/// A failed exchange with the chain.
#[derive(Clone, Debug)]
pub enum ChainError {
    /// The RPC endpoint could not be reached.
    ChainUnavailable,
    /// The chain refused the transaction; the text is the chain's own.
    ExtrinsicRejected(String),
    /// The transaction was not included within the waiting window.
    Timeout,
}

/// The release source could not be asked for the latest version.
#[derive(Clone, Copy, Debug, PartialEq, Eq, Structural)]
pub enum UpdateCheckError {
    /// The release source could not be reached.
    Network,
    /// The release source answered with something that is no version.
    Parse,
}

/// The telemetry listener could not be bound.
#[derive(Clone, Copy, Debug, PartialEq, Eq, Structural)]
pub struct TelemetryServerBindError {
    /// The port that was unavailable.
    pub port: u16,
}

/// Any failure of a node.
#[derive(Clone, Debug)]
pub enum NodeError {
    KeyLoad(KeyLoadError),
    InvalidSeed(InvalidSeedError),
    Chain(ChainError),
    UpdateCheck(UpdateCheckError),
    TelemetryServerBind(TelemetryServerBindError),
}

/// How far a failure propagates.
#[derive(Clone, Copy, Debug, PartialEq, Eq, Structural)]
pub enum Propagation {
    /// The process ends with a non-zero status.
    Fatal,
    /// The operation is tried again, a bounded number of times, before the
    /// failure becomes fatal.
    Retryable,
    /// The failure is logged and the operation tried again at the next
    /// interval.
    NonFatal,
}

impl ChainError {
    /// A transient network condition is worth another attempt; a refusal by
    /// the chain is not.
    pub open spec fn retryable(&self) -> bool {
        !(self is ExtrinsicRejected)
    }

    /// Whether this failure is worth another attempt.
    pub fn is_retryable(&self) -> (yes: bool)
        ensures
            yes == self.retryable(),
    {
        match self {
            ChainError::ChainUnavailable => true,
            ChainError::ExtrinsicRejected(_) => false,
            ChainError::Timeout => true,
        }
    }
}

impl NodeError {
    /// How far this failure propagates.
    pub open spec fn propagation_spec(&self) -> Propagation {
        match self {
            NodeError::KeyLoad(_) => Propagation::Fatal,
            NodeError::InvalidSeed(_) => Propagation::Fatal,
            NodeError::Chain(e) => if e.retryable() {
                Propagation::Retryable
            } else {
                Propagation::Fatal
            },
            NodeError::UpdateCheck(_) => Propagation::NonFatal,
            NodeError::TelemetryServerBind(_) => Propagation::Fatal,
        }
    }

    /// How far this failure propagates.
    pub fn propagation(&self) -> (p: Propagation)
        ensures
            p == self.propagation_spec(),
    {
        match self {
            NodeError::KeyLoad(_) => Propagation::Fatal,
            NodeError::InvalidSeed(_) => Propagation::Fatal,
            NodeError::Chain(e) => if e.is_retryable() {
                Propagation::Retryable
            } else {
                Propagation::Fatal
            },
            NodeError::UpdateCheck(_) => Propagation::NonFatal,
            NodeError::TelemetryServerBind(_) => Propagation::Fatal,
        }
    }

    /// The text shown to the operator.
    pub open spec fn message_spec(&self) -> Seq<char> {
        match self {
            NodeError::KeyLoad(KeyLoadError::Missing) => "wallet seed file is missing"@,
            NodeError::KeyLoad(KeyLoadError::Unreadable) => "wallet seed file cannot be read"@,
            NodeError::KeyLoad(KeyLoadError::InvalidEncoding) => "wallet seed file holds no seed"@,
            NodeError::InvalidSeed(_) => "seed must be exactly 32 bytes"@,
            NodeError::Chain(ChainError::ChainUnavailable) => "chain endpoint is unreachable"@,
            NodeError::Chain(ChainError::ExtrinsicRejected(reason)) => reason@,
            NodeError::Chain(ChainError::Timeout) => "transaction was not included in time"@,
            NodeError::UpdateCheck(UpdateCheckError::Network) => "release source is unreachable"@,
            NodeError::UpdateCheck(UpdateCheckError::Parse) => "release source sent no version"@,
            NodeError::TelemetryServerBind(_) => "telemetry port is unavailable"@,
        }
    }

    /// The text shown to the operator.  A refusal by the chain is passed on
    /// word for word.
    pub fn message(&self) -> (text: String)
        ensures
            text@ == self.message_spec(),
    {
        match self {
            NodeError::KeyLoad(KeyLoadError::Missing) => "wallet seed file is missing".to_owned(),
            NodeError::KeyLoad(KeyLoadError::Unreadable) => {
                "wallet seed file cannot be read".to_owned()
            },
            NodeError::KeyLoad(KeyLoadError::InvalidEncoding) => {
                "wallet seed file holds no seed".to_owned()
            },
            NodeError::InvalidSeed(_) => "seed must be exactly 32 bytes".to_owned(),
            NodeError::Chain(ChainError::ChainUnavailable) => {
                "chain endpoint is unreachable".to_owned()
            },
            NodeError::Chain(ChainError::ExtrinsicRejected(reason)) => reason.clone(),
            NodeError::Chain(ChainError::Timeout) => {
                "transaction was not included in time".to_owned()
            },
            NodeError::UpdateCheck(UpdateCheckError::Network) => {
                "release source is unreachable".to_owned()
            },
            NodeError::UpdateCheck(UpdateCheckError::Parse) => {
                "release source sent no version".to_owned()
            },
            NodeError::TelemetryServerBind(_) => "telemetry port is unavailable".to_owned(),
        }
    }
}

/// The process exit status for the outcome of a run: zero on success and on
/// nothing else.
pub open spec fn exit_status_spec<T>(outcome: Result<T, NodeError>) -> u8 {
    if outcome is Ok {
        0u8
    } else {
        1u8
    }
}

/// The process exit status for the outcome of a run.
pub fn exit_status<T>(outcome: &Result<T, NodeError>) -> (code: u8)
    ensures
        code == exit_status_spec(*outcome),
        (code == 0) == (*outcome is Ok),
{
    match outcome {
        Ok(_) => 0,
        Err(_) => 1,
    }
}

} // verus!
