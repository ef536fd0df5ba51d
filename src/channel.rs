//! Channel negotiation: which channels the protocol accepts.
use vstd::prelude::*;
use crate::error::ContractError;

verus! {

/// The version string that both ends of a channel must declare.
pub const PROTOCOL_VERSION: &'static str = "key-value-protocol";

/// Whether a channel delivers its packets in order.
#[derive(Clone, Copy, Debug, PartialEq, Eq, Structural)]
pub enum IbcOrder {
    Unordered,
    Ordered,
}

/// The ordering the protocol runs on.
pub const PROTOCOL_ORDERING: IbcOrder = IbcOrder::Unordered;

/// The message that refuses to close a channel.
pub const CLOSE_FORBIDDEN: &'static str = "The game is infinite";

/// A channel as the host describes it during the handshake.
#[derive(Clone, Debug, PartialEq, Eq)]
pub struct IbcChannel {
    pub channel_id: String,
    pub order: IbcOrder,
    pub version: String,
}

/// Whether a channel, with the version its counterparty declared if any,
/// speaks the protocol.
pub open spec fn channel_accepted(channel: IbcChannel, counterparty_version: Option<String>) -> bool {
    &&& channel.version@ == PROTOCOL_VERSION@
    &&& (counterparty_version matches Some(v) ==> v@ == PROTOCOL_VERSION@)
    &&& channel.order == IbcOrder::Unordered
}

/// `r` rejects the version `v`.
pub open spec fn rejects_version(r: Result<(), ContractError>, v: Seq<char>) -> bool {
    r matches Err(ContractError::InvalidIbcVersion { version }) && version@ == v
}

/// The outcome of a handshake step: the channel's own version is checked
/// first, then the counterparty's, then the ordering.
pub open spec fn negotiation_result(
    channel: IbcChannel,
    counterparty_version: Option<String>,
    r: Result<(), ContractError>,
) -> bool {
    if channel.version@ != PROTOCOL_VERSION@ {
        rejects_version(r, channel.version@)
    } else if counterparty_version is Some && counterparty_version.unwrap()@ != PROTOCOL_VERSION@ {
        rejects_version(r, counterparty_version.unwrap()@)
    } else if channel.order != IbcOrder::Unordered {
        r == Err::<(), ContractError>(ContractError::OnlyOrderedChannel)
    } else {
        r is Ok
    }
}

fn enforce_order_and_version(channel: &IbcChannel, counterparty_version: &Option<String>) -> (r:
    Result<(), ContractError>)
    ensures
        negotiation_result(*channel, *counterparty_version, r),
        r is Ok <==> channel_accepted(*channel, *counterparty_version),
{
    let expected = PROTOCOL_VERSION.to_string();
    if channel.version != expected {
        return Err(ContractError::InvalidIbcVersion { version: channel.version.clone() });
    }
    if let Some(version) = counterparty_version {
        if *version != expected {
            return Err(ContractError::InvalidIbcVersion { version: version.clone() });
        }
    }
    if channel.order != PROTOCOL_ORDERING {
        return Err(ContractError::OnlyOrderedChannel);
    }
    Ok(())
}

/// First handshake step: accepts the channel exactly when it speaks the protocol.
pub fn ibc_channel_open(channel: &IbcChannel, counterparty_version: &Option<String>) -> (r: Result<
    (),
    ContractError,
>)
    ensures
        negotiation_result(*channel, *counterparty_version, r),
{
    enforce_order_and_version(channel, counterparty_version)
}

/// Second handshake step: checks the channel again, since the counterparty
/// may have changed its version in between.
pub fn ibc_channel_connect(channel: &IbcChannel, counterparty_version: &Option<String>) -> (r:
    Result<(), ContractError>)
    ensures
        negotiation_result(*channel, *counterparty_version, r),
{
    enforce_order_and_version(channel, counterparty_version)
}

/// A channel is never closed: every request fails with the same error.
pub fn ibc_channel_close(channel: &IbcChannel) -> (r: Result<(), ContractError>)
    ensures
        r matches Err(ContractError::Std { msg }) && msg@ == CLOSE_FORBIDDEN@,
{
    Err(ContractError::Std { msg: CLOSE_FORBIDDEN.to_string() })
}

} // verus!
