//! Content fingerprints and block seals.
//!
//! A block's seal is the SHA-256 digest, as lowercase hex, of the block
//! message: the decimal index, the previous hash, the evidence id and the
//! decimal timestamp, concatenated in that order.
use vstd::prelude::*;
use vstd::utf8::encode_utf8;

verus! {

/// The lowercase hex SHA-256 digest of `data`.
pub uninterp spec fn sha256_hex(data: Seq<u8>) -> Seq<char>;

/// A character that lowercase hex uses: `0`-`9` or `a`-`f`.
pub open spec fn is_lower_hex_digit(c: char) -> bool {
    ('0' <= c && c <= '9') || ('a' <= c && c <= 'f')
}

/// Sixty-four lowercase hex digits: the shape of every digest.
pub open spec fn is_digest_shaped(s: Seq<char>) -> bool {
    s.len() == 64 && forall|i: int| 0 <= i < s.len() ==> is_lower_hex_digit(#[trigger] s[i])
}

/// Relies on sha2::Sha256::digest, rendered through generic-array's `LowerHex`:
/// the result is the hex digest of exactly the bytes handed in, two lowercase
/// hex digits for each of the digest's 32 bytes.
#[verifier::external_body]
fn sha256_hex_of(data: &[u8]) -> (r: String)
    ensures
        r@ == sha256_hex(data@),
        is_digest_shaped(r@),
{
    format!("{:x}", <sha2::Sha256 as sha2::Digest>::digest(data))
}

/// The ASCII decimal digits of `n`, most significant first, without leading zeros.
pub open spec fn decimal(n: nat) -> Seq<u8>
    decreases n,
{
    if n < 10 {
        seq![(48 + n) as u8]
    } else {
        decimal(n / 10).push((48 + n % 10) as u8)
    }
}

/// The bytes over which the seal of a block is computed.
pub open spec fn block_message(index: nat, previous_hash: Seq<char>, evidence_id: Seq<char>, timestamp: nat) -> Seq<u8> {
    decimal(index) + encode_utf8(previous_hash) + encode_utf8(evidence_id) + decimal(timestamp)
}

/// The seal a block with these fields must carry.
pub open spec fn block_digest(index: nat, previous_hash: Seq<char>, evidence_id: Seq<char>, timestamp: nat) -> Seq<char> {
    sha256_hex(block_message(index, previous_hash, evidence_id, timestamp))
}

/// The fingerprint of an evidence item's content.
pub open spec fn content_fingerprint(content: Seq<char>) -> Seq<char> {
    sha256_hex(encode_utf8(content))
}

/// The previous hash of the first block: sixty-four zero digits.
pub open spec fn genesis() -> Seq<char> {
    Seq::new(64, |i: int| '0')
}

fn push_decimal(out: &mut Vec<u8>, n: u64)
    ensures
        final(out)@ == old(out)@ + decimal(n as nat),
    decreases n,
{
    if n >= 10 {
        push_decimal(out, n / 10);
    }
    out.push((48 + n % 10) as u8);
    proof {
        if n >= 10 {
            assert(decimal(n as nat) == decimal((n / 10) as nat).push((48 + n % 10) as u8));
        }
        assert(final(out)@ =~= old(out)@ + decimal(n as nat));
    }
}

fn push_str_bytes(out: &mut Vec<u8>, s: &str)
    ensures
        final(out)@ == old(out)@ + encode_utf8(s@),
{
    let bytes = s.as_bytes();
    let mut i: usize = 0;
    while i < bytes.len()
        invariant
            i <= bytes@.len(),
            bytes@ == encode_utf8(s@),
            out@ == old(out)@ + bytes@.subrange(0, i as int),
        decreases bytes@.len() - i,
    {
        out.push(bytes[i]);
        i = i + 1;
        assert(bytes@.subrange(0, i as int) =~= bytes@.subrange(0, i - 1).push(bytes@[i - 1]));
    }
    assert(bytes@.subrange(0, i as int) =~= bytes@);
}

/// The fingerprint of `content`: the hex SHA-256 digest of its UTF-8 bytes.
pub fn content_digest(content: &str) -> (r: String)
    ensures
        r@ == content_fingerprint(content@),
        is_digest_shaped(r@),
{
    sha256_hex_of(content.as_bytes())
}

/// The seal of a block with the given fields.
pub fn compute_hash(index: usize, previous_hash: &str, evidence_id: &str, timestamp: u64) -> (r: String)
    ensures
        r@ == block_digest(index as nat, previous_hash@, evidence_id@, timestamp as nat),
        is_digest_shaped(r@),
{
    let mut message: Vec<u8> = Vec::new();
    push_decimal(&mut message, index as u64);
    push_str_bytes(&mut message, previous_hash);
    push_str_bytes(&mut message, evidence_id);
    push_decimal(&mut message, timestamp);
    assert(message@ =~= block_message(index as nat, previous_hash@, evidence_id@, timestamp as nat));
    sha256_hex_of(message.as_slice())
}

/// The genesis sentinel as a string.
pub fn genesis_hash() -> (r: String)
    ensures
        r@ == genesis(),
        is_digest_shaped(r@),
{
    let mut r = String::new();
    let mut i: usize = 0;
    while i < 64
        invariant
            i <= 64,
            r@ == Seq::new(i as nat, |k: int| '0'),
        decreases 64 - i,
    {
        r.append("0");
        proof {
            reveal_strlit("0");
        }
        i = i + 1;
        assert(r@ =~= Seq::new(i as nat, |k: int| '0'));
    }
    assert(r@ =~= genesis());
    r
}

} // verus!
