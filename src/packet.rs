//! Packet lifecycle: what a received packet asks for, the acknowledgement it
//! gets, and what is recorded when an acknowledgement or a timeout comes back.
use vstd::prelude::*;
use vstd::string::StrSliceExecFns;
use vstd::utf8::encode_utf8;
use crate::error::decode_error_text;
use crate::msg::{decoded, encodable, wire_bytes, ExecuteMsg, Operation, Packet};

verus! {

/// A key/value pair recorded with a response, for monitoring.
#[derive(Clone, Debug, PartialEq, Eq)]
pub struct Attribute {
    pub key: String,
    pub value: String,
}

pub open spec fn attribute_pairs(attrs: Seq<Attribute>) -> Seq<(Seq<char>, Seq<char>)> {
    attrs.map_values(|a: Attribute| (a.key@, a.value@))
}

fn attr(key: &str, value: String) -> (r: Attribute)
    ensures
        r.key@ == key@,
        r.value@ == value@,
{
    Attribute { key: key.to_string(), value }
}

/// The acknowledgement that answers a received packet.
#[derive(Clone, Debug, PartialEq, Eq)]
pub enum AckOutcome {
    Success { value: String },
    Failure { reason: String },
}

/// The reply to a received packet.
#[derive(Clone, Debug, PartialEq, Eq)]
pub struct ReceiveResponse {
    pub acknowledgement: AckOutcome,
    pub attributes: Vec<Attribute>,
}

/// What the host must do with a received packet: look a key up in the store
/// and hand the result to `on_lookup`, or send the response as it stands.
#[derive(Clone, Debug, PartialEq, Eq)]
pub enum ReceiveAction {
    Lookup { key: String },
    Respond(ReceiveResponse),
}

/// The reason given when a key is not in the store.
pub const KEY_NOT_FOUND: &'static str = "key not found";

/// The reason given for a write, which the store does not take over a channel.
pub const WRITE_UNSUPPORTED: &'static str = "write operations are not supported";

/// The window between sending a packet and its timeout: five minutes.
pub const PACKET_TIMEOUT_NANOS: u64 = 300_000_000_000;

/// The bytes that acknowledge a successful read: the value's UTF-8 bytes.
pub fn ack_success(value: String) -> (r: Vec<u8>)
    ensures
        r@ == encode_utf8(value@),
{
    value.as_str().as_bytes_vec()
}

impl AckOutcome {
    /// The acknowledgement's payload: the value read, or the reason for the failure.
    pub fn to_bytes(&self) -> (r: Vec<u8>)
        ensures
            r@ == encode_utf8(
                match self {
                    AckOutcome::Success { value } => value@,
                    AckOutcome::Failure { reason } => reason@,
                },
            ),
    {
        match self {
            AckOutcome::Success { value } => value.as_str().as_bytes_vec(),
            AckOutcome::Failure { reason } => reason.as_str().as_bytes_vec(),
        }
    }
}

/// A failed receive: the acknowledgement carries `reason`, and the attributes
/// name the operation when one was decoded.
pub open spec fn is_failure(r: ReceiveResponse, operation: Option<Seq<char>>, reason: Seq<char>) -> bool {
    &&& r.acknowledgement matches AckOutcome::Failure { reason: got } && got@ == reason
    &&& attribute_pairs(r.attributes@) == match operation {
        Some(op) => seq![
            ("action"@, "received_packet"@),
            ("operation"@, op),
            ("success"@, "false"@),
            ("error"@, reason),
        ],
        None => seq![("action"@, "received_packet"@), ("success"@, "false"@), ("error"@, reason)],
    }
}

fn failure(operation: Option<&str>, reason: String) -> (r: ReceiveResponse)
    ensures
        is_failure(
            r,
            match operation {
                Some(op) => Some(op@),
                None => None,
            },
            reason@,
        ),
{
    let mut attributes: Vec<Attribute> = Vec::new();
    attributes.push(attr("action", "received_packet".to_string()));
    if let Some(op) = operation {
        attributes.push(attr("operation", op.to_string()));
    }
    attributes.push(attr("success", "false".to_string()));
    attributes.push(attr("error", reason.clone()));
    let r = ReceiveResponse { acknowledgement: AckOutcome::Failure { reason }, attributes };
    proof {
        let expected = match operation {
            Some(op) => seq![
                ("action"@, "received_packet"@),
                ("operation"@, op@),
                ("success"@, "false"@),
                ("error"@, reason@),
            ],
            None => seq![("action"@, "received_packet"@), ("success"@, "false"@), ("error"@, reason@)],
        };
        assert(attribute_pairs(r.attributes@) =~= expected);
    }
    r
}

/// Decides what a received packet needs: a read becomes a store lookup;
/// bytes that do not decode, and writes, are answered with a failure at once.
pub fn ibc_packet_receive(data: &[u8]) -> (r: ReceiveAction)
    ensures
        match decoded(data@) {
            Ok(Operation::Read { key }) => r matches ReceiveAction::Lookup { key: k } && k@ == key,
            Ok(Operation::Write { .. }) => r matches ReceiveAction::Respond(resp) && is_failure(
                resp,
                Some("write"@),
                WRITE_UNSUPPORTED@,
            ),
            Err(e) => r matches ReceiveAction::Respond(resp) && is_failure(
                resp,
                None,
                decode_error_text(e),
            ),
        },
{
    match Packet::decode(data) {
        Ok(Packet::Read(key)) => ReceiveAction::Lookup { key },
        Ok(Packet::Write(_, _)) => ReceiveAction::Respond(
            failure(Some("write"), WRITE_UNSUPPORTED.to_string()),
        ),
        Err(e) => ReceiveAction::Respond(failure(None, e.description())),
    }
}

/// Answers a read from what the store held under its key.
pub fn on_lookup(found: Option<String>) -> (r: ReceiveResponse)
    ensures
        match found {
            Some(v) => {
                &&& r.acknowledgement matches AckOutcome::Success { value } && value@ == v@
                &&& attribute_pairs(r.attributes@) == seq![
                    ("action"@, "received_packet"@),
                    ("operation"@, "read"@),
                    ("success"@, "true"@),
                ]
            },
            None => is_failure(r, Some("read"@), KEY_NOT_FOUND@),
        },
{
    match found {
        Some(value) => {
            let attributes = vec![
                attr("action", "received_packet".to_string()),
                attr("operation", "read".to_string()),
                attr("success", "true".to_string()),
            ];
            let r = ReceiveResponse { acknowledgement: AckOutcome::Success { value }, attributes };
            assert(attribute_pairs(r.attributes@) =~= seq![
                ("action"@, "received_packet"@),
                ("operation"@, "read"@),
                ("success"@, "true"@),
            ]);
            r
        },
        None => failure(Some("read"), KEY_NOT_FOUND.to_string()),
    }
}

/// Records that an acknowledgement came back for a sent packet.
pub fn ibc_packet_ack() -> (r: Vec<Attribute>)
    ensures
        attribute_pairs(r@) == seq![("action"@, "acknowledge"@)],
{
    let r = vec![attr("action", "acknowledge".to_string())];
    assert(attribute_pairs(r@) =~= seq![("action"@, "acknowledge"@)]);
    r
}

/// Records a sent packet that failed for good, with the reason.
pub fn on_packet_failure(err: String) -> (r: Vec<Attribute>)
    ensures
        attribute_pairs(r@) == seq![
            ("action"@, "acknowledge"@),
            ("success"@, "false"@),
            ("error"@, err@),
        ],
{
    let r = vec![
        attr("action", "acknowledge".to_string()),
        attr("success", "false".to_string()),
        attr("error", err),
    ];
    assert(attribute_pairs(r@) =~= seq![
        ("action"@, "acknowledge"@),
        ("success"@, "false"@),
        ("error"@, err@),
    ]);
    r
}

/// Records a sent packet that timed out: it is not sent again.
pub fn ibc_packet_timeout() -> (r: Vec<Attribute>)
    ensures
        attribute_pairs(r@) == seq![
            ("action"@, "acknowledge"@),
            ("success"@, "false"@),
            ("error"@, "timeout"@),
        ],
{
    on_packet_failure("timeout".to_string())
}

/// A packet ready for the transport.
#[derive(Clone, Debug, PartialEq, Eq)]
pub struct SendPacket {
    pub channel_id: String,
    pub data: Vec<u8>,
    pub timeout_nanos: u64,
}

/// Encodes the operation and sends it on the channel, to time out five
/// minutes after `now_nanos`.
pub fn execute(now_nanos: u64, msg: ExecuteMsg) -> (r: SendPacket)
    requires
        encodable(msg.packet@),
        now_nanos + PACKET_TIMEOUT_NANOS <= u64::MAX,
    ensures
        r.channel_id@ == msg.channel_id@,
        r.data@ == wire_bytes(msg.packet@),
        r.timeout_nanos == now_nanos + PACKET_TIMEOUT_NANOS,
{
    let ExecuteMsg { channel_id, packet } = msg;
    SendPacket { channel_id, data: packet.encode(), timeout_nanos: now_nanos + PACKET_TIMEOUT_NANOS }
}

} // verus!
