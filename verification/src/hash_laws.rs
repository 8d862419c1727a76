//! The letters of hashes, and which fields give a hash.
use crate::hash;
use vstd::prelude::*;
use vstd::string::*;

verus! {

/// The letter for six bits, by its place in the alphabet.
pub open spec fn letter(n: int) -> char {
    "ABCDEFGHIJKLMNOPQRSTUVWXYZabcdefghijklmnopqrstuvwxyz0123456789-_"@[n]
}

/// Every six bits are written as the letter at their place in the alphabet.
proof fn lemma_letter(n: int)
    requires
        0 <= n < 64,
    ensures
        hash::base64_char(n) == letter(n),
{
    reveal_strlit("ABCDEFGHIJKLMNOPQRSTUVWXYZabcdefghijklmnopqrstuvwxyz0123456789-_");
}

/// Three bytes are written as four letters: six bits of the first, the other two
/// of it with four of the second, the other four of it with two of the third,
/// and the other six of that. What is behind them is written behind them. Bits
/// that are missing at the end are zeros, and letters without any bits are left
/// out.
pub proof fn law_base64(a: u8, b: u8, c: u8, rest: Seq<u8>)
    ensures
        hash::base64_url(Seq::<u8>::empty()) == Seq::<char>::empty(),
        hash::base64_url(seq![a]) == seq![letter(a as int / 4), letter(a as int % 4 * 16)],
        hash::base64_url(seq![a, b]) == seq![
            letter(a as int / 4),
            letter(a as int % 4 * 16 + b as int / 16),
            letter(b as int % 16 * 4),
        ],
        hash::base64_url(seq![a, b, c] + rest) == seq![
            letter(a as int / 4),
            letter(a as int % 4 * 16 + b as int / 16),
            letter(b as int % 16 * 4 + c as int / 64),
            letter(c as int % 64),
        ] + hash::base64_url(rest),
{
    let (x, y, z) = (a as int, b as int, c as int);
    lemma_letter(x / 4);
    lemma_letter(x % 4 * 16);
    lemma_letter(x % 4 * 16 + y / 16);
    lemma_letter(y % 16 * 4);
    lemma_letter(y % 16 * 4 + z / 64);
    lemma_letter(z % 64);
    let one = x * 16;
    assert(one / 64 == x / 4 && one % 64 == x % 4 * 16);
    let two = (x * 256 + y) * 4;
    assert(two / 4096 == x / 4 && two / 64 % 64 == x % 4 * 16 + y / 16 && two % 64 == y % 16 * 4);
    let three = x * 65536 + y * 256 + z;
    assert(three / 262144 == x / 4);
    assert(three / 4096 == x * 16 + y / 16);
    assert(three / 4096 % 64 == x % 4 * 16 + y / 16);
    assert(three / 64 == x * 1024 + y * 4 + z / 64);
    assert(three / 64 % 64 == y % 16 * 4 + z / 64);
    assert(three % 64 == z % 64);
    assert((seq![a, b, c] + rest).skip(3) == rest);
}

/// A field gives a digest exactly if it is `sha256=` and the encoding of its 32
/// bytes, and it gives that one. Any other field gives none.
pub proof fn law_parse_record_hash(field: &str, digest: Option<[u8; 32]>, bytes: Seq<u8>)
    requires
        call_ensures(hash::parse_record_hash, (field,), digest),
    ensures
        bytes.len() == 32 && field@ == "sha256="@ + hash::base64_url(bytes) ==> (
        digest matches Some(d) && d@ == bytes),
        digest matches Some(d) ==> field@ == "sha256="@ + hash::base64_url(d@),
{
    if bytes.len() == 32 && field@ == "sha256="@ + hash::base64_url(bytes) {
        hash::law_record_hash(bytes);
    }
    if let Some(d) = digest {
        assert(hash::gives_digest(field@, hash::record_hash(field@)->Some_0));
    }
}

/// Decoded bytes are a digest exactly if there are 32 of them.
pub proof fn law_digest_of(data: Vec<u8>, digest: Option<[u8; 32]>)
    requires
        call_ensures(hash::digest_of, (data,), digest),
    ensures
        digest is Some <==> data@.len() == 32,
        digest matches Some(d) ==> d@ == data@,
{
}

} // verus!
