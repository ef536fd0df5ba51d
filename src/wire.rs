//! Words of the binary layout: 32-byte big-endian unsigned integers.
use vstd::prelude::*;
use vstd::utf8::encode_utf8;

verus! {

/// The low eight bytes of a word, starting at `at`, as a big-endian `u64`.
pub open spec fn be_u64(b: Seq<u8>, at: int) -> u64 {
    (b[at] as u64) << 56u64 | (b[at + 1] as u64) << 48u64 | (b[at + 2] as u64) << 40u64
        | (b[at + 3] as u64) << 32u64 | (b[at + 4] as u64) << 24u64 | (b[at + 5] as u64)
        << 16u64 | (b[at + 6] as u64) << 8u64 | (b[at + 7] as u64)
}

/// The word at `at`, when its value fits in 64 bits; `None` when one of its
/// 24 high bytes is set, that is when the value is at least 2^64.
pub open spec fn word_at(b: Seq<u8>, at: int) -> Option<u64> {
    if forall|i: int| at <= i < at + 24 ==> #[trigger] b[i] == 0u8 {
        Some(be_u64(b, at + 24))
    } else {
        None
    }
}

/// The 32-byte big-endian encoding of `n`.
pub open spec fn word(n: u64) -> Seq<u8> {
    Seq::new(32, |i: int| if i < 24 { 0u8 } else { ((n >> ((31 - i) * 8) as u64) & 0xffu64) as u8 })
}

proof fn lemma_bytes_of_u64(n: u64, b0: u8, b1: u8, b2: u8, b3: u8, b4: u8, b5: u8, b6: u8, b7: u8)
    by (bit_vector)
    requires
        b0 == ((n >> 56u64) & 0xffu64) as u8,
        b1 == ((n >> 48u64) & 0xffu64) as u8,
        b2 == ((n >> 40u64) & 0xffu64) as u8,
        b3 == ((n >> 32u64) & 0xffu64) as u8,
        b4 == ((n >> 24u64) & 0xffu64) as u8,
        b5 == ((n >> 16u64) & 0xffu64) as u8,
        b6 == ((n >> 8u64) & 0xffu64) as u8,
        b7 == ((n >> 0u64) & 0xffu64) as u8,
    ensures
        (b0 as u64) << 56u64 | (b1 as u64) << 48u64 | (b2 as u64) << 40u64 | (b3 as u64) << 32u64
            | (b4 as u64) << 24u64 | (b5 as u64) << 16u64 | (b6 as u64) << 8u64 | (b7 as u64) == n,
{
}

/// A word written at `at` reads back as the value it was written from.
pub proof fn lemma_word_at(b: Seq<u8>, at: int, n: u64)
    requires
        0 <= at,
        at + 32 <= b.len(),
        b.subrange(at, at + 32) == word(n),
    ensures
        word_at(b, at) == Some(n),
{
    let w = word(n);
    assert forall|i: int| 0 <= i < 32 implies #[trigger] b[at + i] == w[i] by {
        assert(b.subrange(at, at + 32)[i] == b[at + i]);
    }
    assert forall|i: int| at <= i < at + 24 implies #[trigger] b[i] == 0u8 by {
        assert(b[at + (i - at)] == w[i - at]);
    }
    lemma_bytes_of_u64(n, w[24], w[25], w[26], w[27], w[28], w[29], w[30], w[31]);
}

/// Reads the word at `pos`, as `word_at` describes it.
pub fn read_word(data: &[u8], pos: usize) -> (r: Option<u64>)
    requires
        pos + 32 <= data@.len(),
    ensures
        r == word_at(data@, pos as int),
{
    let n: usize = data.len();
    let mut i: usize = 0;
    while i < 24
        invariant
            i <= 24,
            pos + 32 <= data@.len() == n,
            forall|j: int| pos <= j < pos + i ==> #[trigger] data@[j] == 0u8,
        decreases 24 - i,
    {
        if data[pos + i] != 0 {
            return None;
        }
        i = i + 1;
    }
    let at = pos + 24;
    Some(
        (data[at] as u64) << 56u64 | (data[at + 1] as u64) << 48u64 | (data[at + 2] as u64)
            << 40u64 | (data[at + 3] as u64) << 32u64 | (data[at + 4] as u64) << 24u64 | (
        data[at + 5] as u64) << 16u64 | (data[at + 6] as u64) << 8u64 | (data[at + 7] as u64),
    )
}

/// A value handed to the encoder: an unsigned integer or a dynamic string.
pub enum AbiToken {
    Uint(u64),
    Str(String),
}

/// `n` rounded up to a whole number of words.
pub open spec fn padded_len(n: nat) -> nat {
    ((n + 31) / 32 * 32) as nat
}

/// `n` zero bytes.
pub open spec fn zeros(n: nat) -> Seq<u8> {
    Seq::new(n, |_i: int| 0u8)
}

/// The out-of-line region of a string: a length word, the UTF-8 bytes, and
/// zero bytes up to the next word boundary.
pub open spec fn string_region(s: Seq<char>) -> Seq<u8> {
    let b = encode_utf8(s);
    word(b.len() as u64) + b + zeros((padded_len(b.len()) - b.len()) as nat)
}

pub open spec fn tail_of(t: AbiToken) -> Seq<u8> {
    match t {
        AbiToken::Uint(_) => Seq::empty(),
        AbiToken::Str(s) => string_region(s@),
    }
}

/// The regions of the dynamic tokens, in order.
pub open spec fn tails(ts: Seq<AbiToken>) -> Seq<u8>
    decreases ts.len(),
{
    if ts.len() == 0 {
        Seq::empty()
    } else {
        tails(ts.drop_last()) + tail_of(ts.last())
    }
}

pub open spec fn head_of(t: AbiToken, offset: nat) -> Seq<u8> {
    match t {
        AbiToken::Uint(v) => word(v),
        AbiToken::Str(_) => word(offset as u64),
    }
}

/// One word per token: an integer's value, or the byte offset of a string's
/// region, counted from the start of the message (`base` is the heads' size).
pub open spec fn heads(ts: Seq<AbiToken>, base: nat) -> Seq<u8>
    decreases ts.len(),
{
    if ts.len() == 0 {
        Seq::empty()
    } else {
        heads(ts.drop_last(), base) + head_of(ts.last(), base + tails(ts.drop_last()).len())
    }
}

/// The head/tail encoding of a token sequence.
pub open spec fn abi_encoding(ts: Seq<AbiToken>) -> Seq<u8> {
    heads(ts, 32 * ts.len()) + tails(ts)
}

/// Relies on ethabi::encode: heads then tails, strings as length-prefixed,
/// zero-padded regions. It counts sizes and offsets in `u32`.
#[verifier::external_body]
pub(crate) fn abi_encode(tokens: &Vec<AbiToken>) -> (r: Vec<u8>)
    requires
        abi_encoding(tokens@).len() <= u32::MAX,
    ensures
        r@ == abi_encoding(tokens@),
{
    let tokens: Vec<ethabi::Token> = tokens.iter().map(|t| match t {
        AbiToken::Uint(v) => ethabi::Token::Uint((*v).into()),
        AbiToken::Str(s) => ethabi::Token::String(s.clone()),
    }).collect();
    ethabi::encode(&tokens)
}

} // verus!
