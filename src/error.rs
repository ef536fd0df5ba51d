//! The errors that the contract reports to the host.
use vstd::prelude::*;
use crate::msg::DecodeError;

verus! {

#[derive(Clone, Debug, PartialEq, Eq)]
pub enum ContractError {
    /// A generic error, rendered as "Generic error: " and its message.
    Std { msg: String },
    InvalidIbcVersion { version: String },
    OnlyOrderedChannel,
    KeyNotFound,
    EthAbiDecoding { reason: DecodeError },
}

pub open spec fn decode_error_text(e: DecodeError) -> Seq<char> {
    match e {
        DecodeError::MalformedTag => "malformed operation tag"@,
        DecodeError::TruncatedField => "truncated field"@,
        DecodeError::InvalidUtf8 => "invalid UTF-8 in string field"@,
        DecodeError::UnknownOperation => "unknown operation"@,
    }
}

impl DecodeError {
    /// A short description of the failure.
    pub fn description(&self) -> (r: String)
        ensures
            r@ == decode_error_text(*self),
    {
        match self {
            DecodeError::MalformedTag => "malformed operation tag".to_string(),
            DecodeError::TruncatedField => "truncated field".to_string(),
            DecodeError::InvalidUtf8 => "invalid UTF-8 in string field".to_string(),
            DecodeError::UnknownOperation => "unknown operation".to_string(),
        }
    }
}

pub open spec fn error_text(e: ContractError) -> Seq<char> {
    match e {
        ContractError::Std { msg } => "Generic error: "@ + msg@,
        ContractError::InvalidIbcVersion { version } => "Invalid IBC version, got "@ + version@,
        ContractError::OnlyOrderedChannel => "Only supports unordered channel"@,
        ContractError::KeyNotFound => "key not found"@,
        ContractError::EthAbiDecoding { reason } => decode_error_text(reason),
    }
}

impl ContractError {
    /// The error as the host shows it.
    pub fn message(&self) -> (r: String)
        ensures
            r@ == error_text(*self),
    {
        match self {
            ContractError::Std { msg } => "Generic error: ".to_string().concat(msg.as_str()),
            ContractError::InvalidIbcVersion { version } => "Invalid IBC version, got ".to_string().concat(
                version.as_str(),
            ),
            ContractError::OnlyOrderedChannel => "Only supports unordered channel".to_string(),
            ContractError::KeyNotFound => "key not found".to_string(),
            ContractError::EthAbiDecoding { reason } => reason.description(),
        }
    }
}

} // verus!
