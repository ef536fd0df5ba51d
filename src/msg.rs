//! The operations that travel over a channel, and their wire form.
use vstd::prelude::*;
use vstd::utf8::{
    decode_utf8, encode_utf8, encode_utf8_decode_utf8, encode_utf8_valid_utf8, valid_utf8,
};
use crate::wire::{
    abi_encode, abi_encoding, heads, lemma_word_at, padded_len, read_word, string_region, tail_of,
    tails, word, word_at, AbiToken,
};

verus! {

/// A request to the remote store.
#[derive(Clone, Debug, PartialEq, Eq)]
pub enum Packet {
    Read(String),
    Write(String, String),
}

/// What a `Packet` stands for.
pub ghost enum Operation {
    Read { key: Seq<char> },
    Write { key: Seq<char>, value: Seq<char> },
}

impl View for Packet {
    type V = Operation;

    open spec fn view(&self) -> Operation {
        match self {
            Packet::Read(key) => Operation::Read { key: key@ },
            Packet::Write(key, value) => Operation::Write { key: key@, value: value@ },
        }
    }
}

/// Why bytes do not decode to an operation.
#[derive(Clone, Copy, Debug, PartialEq, Eq, Structural)]
pub enum DecodeError {
    MalformedTag,
    TruncatedField,
    InvalidUtf8,
    UnknownOperation,
}

/// A channel to send on, and the operation to send.
#[derive(Clone, Debug, PartialEq, Eq)]
pub struct ExecuteMsg {
    pub channel_id: String,
    pub packet: Packet,
}

/// The entry the store starts with.
#[derive(Clone, Debug, PartialEq, Eq)]
pub struct InitMsg {
    pub initial_key: String,
    pub initial_value: String,
}

/// The wire form of an operation: the tag word (0 for a read, 1 for a write),
/// one offset word per string, then each string's region in order.
pub open spec fn wire_bytes(op: Operation) -> Seq<u8> {
    match op {
        Operation::Read { key } => word(0) + word(64) + string_region(key),
        Operation::Write { key, value } => word(1) + word(96) + word(
            (96 + string_region(key).len()) as u64,
        ) + string_region(key) + string_region(value),
    }
}

/// The encoder counts in 32 bits: the whole message must fit.
pub open spec fn encodable(op: Operation) -> bool {
    wire_bytes(op).len() <= u32::MAX
}

/// The string whose offset word stands at `pos`: the offset must address a
/// length word inside the buffer, and the length must keep the string's bytes
/// inside it too; those bytes must be UTF-8.
pub open spec fn field_at(b: Seq<u8>, pos: int) -> Result<Seq<char>, DecodeError> {
    if b.len() < pos + 32 {
        Err(DecodeError::TruncatedField)
    } else {
        match word_at(b, pos) {
            None => Err(DecodeError::TruncatedField),
            Some(off) => if b.len() < off + 32 {
                Err(DecodeError::TruncatedField)
            } else {
                match word_at(b, off as int) {
                    None => Err(DecodeError::TruncatedField),
                    Some(len) => if b.len() < off + 32 + len {
                        Err(DecodeError::TruncatedField)
                    } else {
                        let s = b.subrange(off + 32, off + 32 + len);
                        if valid_utf8(s) {
                            Ok(decode_utf8(s))
                        } else {
                            Err(DecodeError::InvalidUtf8)
                        }
                    },
                }
            },
        }
    }
}

/// The size of the fixed header of the operation with this tag: the tag word
/// and one offset word per string.
pub open spec fn header_len(tag: u64) -> int {
    if tag == 0 {
        64
    } else {
        96
    }
}

/// What a buffer decodes to: the tag picks the operation, the buffer must
/// hold its header, then its strings are resolved in order, the key before
/// the value.
pub open spec fn decoded(b: Seq<u8>) -> Result<Operation, DecodeError> {
    if b.len() < 32 {
        Err(DecodeError::MalformedTag)
    } else if !(word_at(b, 0) == Some(0u64) || word_at(b, 0) == Some(1u64)) {
        Err(DecodeError::UnknownOperation)
    } else if b.len() < header_len(word_at(b, 0).unwrap()) {
        Err(DecodeError::TruncatedField)
    } else if word_at(b, 0) == Some(0u64) {
        match field_at(b, 32) {
            Ok(key) => Ok(Operation::Read { key }),
            Err(e) => Err(e),
        }
    } else {
        match field_at(b, 32) {
            Err(e) => Err(e),
            Ok(key) => match field_at(b, 64) {
                Err(e) => Err(e),
                Ok(value) => Ok(Operation::Write { key, value }),
            },
        }
    }
}

/// Relies on String::from_utf8: it accepts exactly the valid UTF-8 byte
/// sequences, and the string holds the characters they encode.
#[verifier::external_body]
fn string_from_utf8(bytes: Vec<u8>) -> (r: Option<String>)
    ensures
        r is Some <==> valid_utf8(bytes@),
        r matches Some(s) ==> s@ == decode_utf8(bytes@),
{
    String::from_utf8(bytes).ok()
}

/// Resolves the string whose offset word stands at `pos`.
fn read_field(data: &[u8], pos: usize) -> (r: Result<String, DecodeError>)
    requires
        pos + 32 <= data@.len(),
    ensures
        match r {
            Ok(s) => field_at(data@, pos as int) == Ok::<Seq<char>, DecodeError>(s@),
            Err(e) => field_at(data@, pos as int) == Err::<Seq<char>, DecodeError>(e),
        },
{
    let n: usize = data.len();
    let off: u64 = match read_word(data, pos) {
        None => return Err(DecodeError::TruncatedField),
        Some(o) => o,
    };
    if off > n as u64 || (n as u64) - off < 32 {
        return Err(DecodeError::TruncatedField);
    }
    let off: usize = off as usize;
    let len: u64 = match read_word(data, off) {
        None => return Err(DecodeError::TruncatedField),
        Some(l) => l,
    };
    if len > (n - off - 32) as u64 {
        return Err(DecodeError::TruncatedField);
    }
    let start: usize = off + 32;
    let end: usize = start + len as usize;
    let mut bytes: Vec<u8> = Vec::new();
    let mut i: usize = start;
    while i < end
        invariant
            start <= i <= end <= n == data@.len(),
            bytes@ == data@.subrange(start as int, i as int),
        decreases end - i,
    {
        bytes.push(data[i]);
        i = i + 1;
    }
    match string_from_utf8(bytes) {
        Some(s) => Ok(s),
        None => Err(DecodeError::InvalidUtf8),
    }
}

proof fn lemma_encoding_read(key: String)
    ensures
        abi_encoding(seq![AbiToken::Uint(0), AbiToken::Str(key)]) == wire_bytes(
            Operation::Read { key: key@ },
        ),
{
    let ts = seq![AbiToken::Uint(0), AbiToken::Str(key)];
    let t0 = ts.drop_last();
    assert(t0 =~= seq![AbiToken::Uint(0)]);
    assert(t0.drop_last() =~= Seq::<AbiToken>::empty());
    assert(tails(t0.drop_last()) =~= Seq::<u8>::empty());
    assert(heads(t0.drop_last(), 32 * ts.len()) =~= Seq::<u8>::empty());
    assert(tail_of(t0.last()) =~= Seq::<u8>::empty());
    assert(tails(t0) =~= Seq::<u8>::empty());
    assert(heads(t0, 64) =~= word(0));
    assert(heads(ts, 64) =~= word(0) + word(64));
    assert(tails(ts) =~= string_region(key@));
    assert(abi_encoding(ts) =~= wire_bytes(Operation::Read { key: key@ }));
}

proof fn lemma_encoding_write(key: String, value: String)
    ensures
        abi_encoding(seq![AbiToken::Uint(1), AbiToken::Str(key), AbiToken::Str(value)])
            == wire_bytes(Operation::Write { key: key@, value: value@ }),
{
    let ts = seq![AbiToken::Uint(1), AbiToken::Str(key), AbiToken::Str(value)];
    let t1 = ts.drop_last();
    let t0 = t1.drop_last();
    assert(t1 =~= seq![AbiToken::Uint(1), AbiToken::Str(key)]);
    assert(t0 =~= seq![AbiToken::Uint(1)]);
    assert(t0.drop_last() =~= Seq::<AbiToken>::empty());
    assert(tails(t0.drop_last()) =~= Seq::<u8>::empty());
    assert(heads(t0.drop_last(), 32 * ts.len()) =~= Seq::<u8>::empty());
    assert(tail_of(t0.last()) =~= Seq::<u8>::empty());
    assert(tails(t0) =~= Seq::<u8>::empty());
    assert(tails(t1) =~= string_region(key@));
    assert(tails(ts) =~= string_region(key@) + string_region(value@));
    assert(heads(t0, 96) =~= word(1));
    assert(heads(t1, 96) =~= word(1) + word(96));
    assert(heads(ts, 96) =~= word(1) + word(96) + word((96 + string_region(key@).len()) as u64));
    assert(abi_encoding(ts) =~= wire_bytes(Operation::Write { key: key@, value: value@ }));
}

/// The size of the region of `s`, or `None` when it exceeds what the
/// encoder can count.
fn region_len(s: &String) -> (r: Option<u64>)
    ensures
        r matches Some(n) ==> n == string_region(s@).len() && n <= u32::MAX + 64,
        r is None ==> string_region(s@).len() > u32::MAX,
{
    let t = s.as_str();
    let l: usize = t.as_bytes().len();
    let ghost b = encode_utf8(s@);
    proof {
        lemma_padded_len(b.len());
        assert(string_region(s@).len() == 32 + padded_len(b.len()));
    }
    if l > u32::MAX as usize {
        None
    } else {
        let l: u64 = l as u64;
        assert(l == b.len());
        Some(32 + (l + 31) / 32 * 32)
    }
}

impl Packet {
    /// Whether the operation is small enough to encode.
    pub fn is_encodable(&self) -> (r: bool)
        ensures
            r == encodable(self@),
    {
        match self {
            Packet::Read(key) => match region_len(key) {
                Some(k) => 64 + k <= u32::MAX as u64,
                None => false,
            },
            Packet::Write(key, value) => match (region_len(key), region_len(value)) {
                (Some(k), Some(v)) => 96 + k + v <= u32::MAX as u64,
                _ => false,
            },
        }
    }

    /// The wire form of this operation.
    pub fn encode(self) -> (r: Vec<u8>)
        requires
            encodable(self@),
        ensures
            r@ == wire_bytes(self@),
    {
        match self {
            Packet::Read(key) => {
                proof {
                    lemma_encoding_read(key);
                }
                let tokens = vec![AbiToken::Uint(0), AbiToken::Str(key)];
                abi_encode(&tokens)
            },
            Packet::Write(key, value) => {
                proof {
                    lemma_encoding_write(key, value);
                }
                let tokens = vec![AbiToken::Uint(1), AbiToken::Str(key), AbiToken::Str(value)];
                abi_encode(&tokens)
            },
        }
    }

    /// The operation that `data` holds, or why it holds none.
    pub fn decode(data: &[u8]) -> (r: Result<Packet, DecodeError>)
        ensures
            match r {
                Ok(p) => decoded(data@) == Ok::<Operation, DecodeError>(p@),
                Err(e) => decoded(data@) == Err::<Operation, DecodeError>(e),
            },
    {
        if data.len() < 32 {
            return Err(DecodeError::MalformedTag);
        }
        let tag = read_word(data, 0);
        if tag == Some(0u64) {
            if data.len() < 64 {
                return Err(DecodeError::TruncatedField);
            }
            match read_field(data, 32) {
                Ok(key) => Ok(Packet::Read(key)),
                Err(e) => Err(e),
            }
        } else if tag == Some(1u64) {
            if data.len() < 96 {
                return Err(DecodeError::TruncatedField);
            }
            let key = match read_field(data, 32) {
                Ok(key) => key,
                Err(e) => return Err(e),
            };
            match read_field(data, 64) {
                Ok(value) => Ok(Packet::Write(key, value)),
                Err(e) => Err(e),
            }
        } else {
            Err(DecodeError::UnknownOperation)
        }
    }
}

proof fn lemma_padded_len(n: nat)
    ensures
        n <= padded_len(n) < n + 32,
{
    assert((n + 31) / 32 * 32 <= n + 31 && (n + 31) / 32 * 32 > n - 1) by (nonlinear_arith);
}

/// A buffer that holds an offset word at `pos` pointing at the region of `s`
/// resolves to `s` there.
proof fn lemma_field_at(b: Seq<u8>, pos: int, off: u64, s: Seq<char>)
    requires
        0 <= pos,
        pos + 32 <= b.len() <= u32::MAX,
        b.subrange(pos, pos + 32) == word(off),
        off + string_region(s).len() <= b.len(),
        b.subrange(off as int, off + string_region(s).len()) == string_region(s),
    ensures
        field_at(b, pos) == Ok::<Seq<char>, DecodeError>(s),
{
    let e = encode_utf8(s);
    let r = string_region(s);
    let len: int = e.len() as int;
    lemma_padded_len(e.len());
    assert(r.len() == 32 + len + (padded_len(e.len()) - len));
    lemma_word_at(b, pos, off);
    assert(b.subrange(off as int, off + 32) =~= r.subrange(0, 32));
    assert(r.subrange(0, 32) =~= word(len as u64));
    lemma_word_at(b, off as int, len as u64);
    assert(b.subrange(off + 32, off + 32 + len) =~= r.subrange(32, 32 + len));
    assert(r.subrange(32, 32 + len) =~= e);
    encode_utf8_valid_utf8(s);
    encode_utf8_decode_utf8(s);
}

proof fn lemma_round_trip_read(key: Seq<char>)
    requires
        encodable(Operation::Read { key }),
    ensures
        decoded(wire_bytes(Operation::Read { key })) == Ok::<Operation, DecodeError>(
            Operation::Read { key },
        ),
{
    let b = wire_bytes(Operation::Read { key });
    let r = string_region(key);
    let rl: int = r.len() as int;
    lemma_padded_len(encode_utf8(key).len());
    assert(b.subrange(0, 32) =~= word(0));
    lemma_word_at(b, 0, 0);
    assert(b.subrange(32, 64) =~= word(64));
    assert(b.subrange(64, 64 + rl) =~= r);
    lemma_field_at(b, 32, 64, key);
}

#[verifier::rlimit(40)]
proof fn lemma_round_trip_write(key: Seq<char>, value: Seq<char>)
    requires
        encodable(Operation::Write { key, value }),
    ensures
        decoded(wire_bytes(Operation::Write { key, value })) == Ok::<Operation, DecodeError>(
            Operation::Write { key, value },
        ),
{
    let b = wire_bytes(Operation::Write { key, value });
    let rk = string_region(key);
    let rv = string_region(value);
    lemma_padded_len(encode_utf8(key).len());
    lemma_padded_len(encode_utf8(value).len());
    let voff = (96 + rk.len()) as u64;
    assert(b.len() == 96 + rk.len() + rv.len());
    assert(b.subrange(0, 32) =~= word(1));
    lemma_word_at(b, 0, 1);
    assert(b.subrange(32, 64) =~= word(96));
    assert(b.subrange(64, 96) =~= word(voff));
    assert(b.subrange(96, 96 + rk.len() as int) =~= rk);
    assert(b.subrange(voff as int, voff + rv.len()) =~= rv);
    lemma_field_at(b, 32, 96, key);
    lemma_field_at(b, 64, voff, value);
}

/// Decoding the wire form of an operation gives the operation back.
pub proof fn lemma_round_trip(op: Operation)
    requires
        encodable(op),
    ensures
        decoded(wire_bytes(op)) == Ok::<Operation, DecodeError>(op),
{
    match op {
        Operation::Read { key } => lemma_round_trip_read(key),
        Operation::Write { key, value } => lemma_round_trip_write(key, value),
    }
}

/// A tag word whose value is neither 0 nor 1 names no operation.
pub proof fn lemma_unknown_tag(b: Seq<u8>)
    requires
        b.len() >= 32,
        word_at(b, 0) != Some(0u64),
        word_at(b, 0) != Some(1u64),
    ensures
        decoded(b) == Err::<Operation, DecodeError>(DecodeError::UnknownOperation),
{
}

/// A buffer that ends before the header that its tag calls for is truncated.
pub proof fn lemma_truncated_header(b: Seq<u8>, tag: u64)
    requires
        b.len() >= 32,
        word_at(b, 0) == Some(tag),
        tag == 0 || tag == 1,
        b.len() < header_len(tag),
    ensures
        decoded(b) == Err::<Operation, DecodeError>(DecodeError::TruncatedField),
{
}

} // verus!
