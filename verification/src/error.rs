//! The errors of the indexer and what each means for the watcher that meets
//! it.

use crate::decoder::DecodeError;
use vstd::prelude::*;
use vstd::string::StringExecFns;

verus! {

/// How far an error reaches.
#[derive(Clone, Copy, Debug, PartialEq, Eq, Structural)]
pub enum Severity {
    /// Retried with backoff; never fatal.
    Transient,
    /// One record is skipped and counted; the batch goes on.
    PerItem,
    /// The batch is abandoned and the cycle retried; the checkpoint stays.
    AbortsBatch,
    /// The watcher of this chain halts; other chains go on.
    FatalForChain,
    /// Nothing starts.
    FatalAtStartup,
}

/// An error of the indexer. Errors of a chain client, the database or a
/// socket are carried as their message.
#[derive(Clone, Debug, PartialEq, Eq)]
pub enum IndexerError {
    BlockchainError(String),
    DatabaseError(String),
    ConfigError(String),
    SolanaRpcError(String),
    WsError(String),
    DecodeError(DecodeError),
    ReorgBeyondBound,
}

/// An error of the Solana side.
#[derive(Clone, Debug, PartialEq, Eq)]
pub enum SolanaError {
    RpcError(String),
    WsError(String),
    TransactionParseError,
    InvalidDexData,
}

impl IndexerError {
    /// How far an error of this kind reaches.
    pub open spec fn spec_severity(self) -> Severity {
        match self {
            IndexerError::BlockchainError(_) => Severity::Transient,
            IndexerError::SolanaRpcError(_) => Severity::Transient,
            IndexerError::WsError(_) => Severity::Transient,
            IndexerError::DecodeError(_) => Severity::PerItem,
            IndexerError::DatabaseError(_) => Severity::AbortsBatch,
            IndexerError::ReorgBeyondBound => Severity::FatalForChain,
            IndexerError::ConfigError(_) => Severity::FatalAtStartup,
        }
    }

    /// The text of the error.
    pub open spec fn spec_message(self) -> Seq<char> {
        match self {
            IndexerError::BlockchainError(m) => "Blockchain error: "@ + m@,
            IndexerError::DatabaseError(m) => "Database error: "@ + m@,
            IndexerError::ConfigError(m) => "Configuration error: "@ + m@,
            IndexerError::SolanaRpcError(m) => "Solana RPC error: "@ + m@,
            IndexerError::WsError(m) => "WebSocket error: "@ + m@,
            IndexerError::DecodeError(_) => "Malformed swap record"@,
            IndexerError::ReorgBeyondBound => "Reorganization deeper than the recovery bound"@,
        }
    }

    /// How far the error reaches.
    pub fn severity(&self) -> (r: Severity)
        ensures
            r == self.spec_severity(),
    {
        match self {
            IndexerError::BlockchainError(_) => Severity::Transient,
            IndexerError::SolanaRpcError(_) => Severity::Transient,
            IndexerError::WsError(_) => Severity::Transient,
            IndexerError::DecodeError(_) => Severity::PerItem,
            IndexerError::DatabaseError(_) => Severity::AbortsBatch,
            IndexerError::ReorgBeyondBound => Severity::FatalForChain,
            IndexerError::ConfigError(_) => Severity::FatalAtStartup,
        }
    }

    /// The text of the error.
    pub fn message(&self) -> (r: String)
        ensures
            r@ == self.spec_message(),
    {
        match self {
            IndexerError::BlockchainError(m) => String::from_str("Blockchain error: ").concat(
                m.as_str(),
            ),
            IndexerError::DatabaseError(m) => String::from_str("Database error: ").concat(
                m.as_str(),
            ),
            IndexerError::ConfigError(m) => String::from_str("Configuration error: ").concat(
                m.as_str(),
            ),
            IndexerError::SolanaRpcError(m) => String::from_str("Solana RPC error: ").concat(
                m.as_str(),
            ),
            IndexerError::WsError(m) => String::from_str("WebSocket error: ").concat(m.as_str()),
            IndexerError::DecodeError(_) => String::from_str("Malformed swap record"),
            IndexerError::ReorgBeyondBound => String::from_str(
                "Reorganization deeper than the recovery bound",
            ),
        }
    }
}

impl SolanaError {
    /// The Solana error that a malformed instruction is reported as: a
    /// transaction that lacks accounts cannot be parsed, any other fault is
    /// in the venue's data.
    pub open spec fn spec_from_decode(e: DecodeError) -> SolanaError {
        match e {
            DecodeError::AccountCount => SolanaError::TransactionParseError,
            _ => SolanaError::InvalidDexData,
        }
    }

    /// The text of the error.
    pub open spec fn spec_message(self) -> Seq<char> {
        match self {
            SolanaError::RpcError(m) => "RPC error: "@ + m@,
            SolanaError::WsError(m) => "WebSocket error: "@ + m@,
            SolanaError::TransactionParseError => "Transaction parsing error"@,
            SolanaError::InvalidDexData => "Invalid DEX data format"@,
        }
    }

    /// The Solana error that a malformed instruction is reported as.
    pub fn from_decode(e: DecodeError) -> (r: SolanaError)
        ensures
            r == SolanaError::spec_from_decode(e),
    {
        match e {
            DecodeError::AccountCount => SolanaError::TransactionParseError,
            _ => SolanaError::InvalidDexData,
        }
    }

    /// The text of the error.
    pub fn message(&self) -> (r: String)
        ensures
            r@ == self.spec_message(),
    {
        match self {
            SolanaError::RpcError(m) => String::from_str("RPC error: ").concat(m.as_str()),
            SolanaError::WsError(m) => String::from_str("WebSocket error: ").concat(m.as_str()),
            SolanaError::TransactionParseError => String::from_str("Transaction parsing error"),
            SolanaError::InvalidDexData => String::from_str("Invalid DEX data format"),
        }
    }
}

} // verus!
