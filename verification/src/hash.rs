//! The hashes that a wheel's `RECORD` gives: `sha256=` and the digest in the
//! URL-safe base64 alphabet, without padding.
use base64::Engine;
use vstd::prelude::*;
use vstd::string::*;

verus! {

/// The letter of the URL-safe base64 alphabet that stands for six bits.
pub open spec fn base64_char(n: int) -> char {
    if n < 26 {
        ('A' as int + n) as char
    } else if n < 52 {
        ('a' as int + n - 26) as char
    } else if n < 62 {
        ('0' as int + n - 52) as char
    } else if n == 62 {
        '-'
    } else {
        '_'
    }
}

/// Bytes in URL-safe base64 without padding: every three bytes make four
/// letters, one left over makes two and two left over make three, with zeros
/// for the bits that are missing.
pub open spec fn base64_url(data: Seq<u8>) -> Seq<char>
    decreases data.len(),
{
    if data.len() == 0 {
        seq![]
    } else if data.len() == 1 {
        let bits = data[0] * 16;
        seq![base64_char(bits / 64), base64_char(bits % 64)]
    } else if data.len() == 2 {
        let bits = (data[0] * 256 + data[1]) * 4;
        seq![
            base64_char(bits / 4096),
            base64_char(bits / 64 % 64),
            base64_char(bits % 64),
        ]
    } else {
        let bits = data[0] * 65536 + data[1] * 256 + data[2];
        seq![
            base64_char(bits / 262144),
            base64_char(bits / 4096 % 64),
            base64_char(bits / 64 % 64),
            base64_char(bits % 64),
        ] + base64_url(data.skip(3))
    }
}

/// `base64`'s `Engine::decode` of the engine `URL_SAFE_NO_PAD`. It gives the
/// bytes of which the text is the encoding, and fails on a text that is the
/// encoding of no bytes: one with a letter outside the alphabet, with padding,
/// of an impossible length, or with bits set that no byte has.
#[verifier::external_body]
fn base64_decode(value: &str) -> (decoded: Option<Vec<u8>>)
    ensures
        match decoded {
            Some(data) => value@ == base64_url(data@),
            None => forall|data: Seq<u8>| value@ != #[trigger] base64_url(data),
        },
{
    base64::engine::general_purpose::URL_SAFE_NO_PAD.decode(value).ok()
}

/// The lower-case hexadecimal digit of a number below sixteen.
pub open spec fn hex_char(n: int) -> char {
    if n < 10 {
        ('0' as int + n) as char
    } else {
        ('a' as int + n - 10) as char
    }
}

/// Bytes in lower-case hexadecimal digits, two for each.
pub open spec fn hex_text(data: Seq<u8>) -> Seq<char> {
    Seq::new(
        data.len() * 2,
        |i: int|
            hex_char(
                if i % 2 == 0 {
                    data[i / 2] as int / 16
                } else {
                    data[i / 2] as int % 16
                },
            ),
    )
}

/// `hex::encode`: every byte becomes two lower-case hexadecimal digits.
#[verifier::external_body]
fn hex_encode(data: Vec<u8>) -> (text: String)
    ensures
        text@ == hex_text(data@),
{
    hex::encode(data)
}

/// A hexadecimal digit, in either case.
pub open spec fn is_hex_char(c: char) -> bool {
    '0' <= c <= '9' || 'a' <= c <= 'f' || 'A' <= c <= 'F'
}

/// The value of a hexadecimal digit.
pub open spec fn hex_value(c: char) -> int {
    if '0' <= c <= '9' {
        c as int - '0' as int
    } else if 'a' <= c <= 'f' {
        c as int - 'a' as int + 10
    } else {
        c as int - 'A' as int + 10
    }
}

/// `hex::decode_to_slice` with room for the 32 bytes of a SHA-256 digest: two
/// digits make a byte. It fails on a text of another length than twice 32, and
/// on one with anything but hexadecimal digits.
#[verifier::external_body]
fn hex_decode_digest(text: &str) -> (digest: Option<[u8; 32]>)
    ensures
        digest is Some <==> text@.len() == 64 && forall|i: int|
            0 <= i < 64 ==> is_hex_char(#[trigger] text@[i]),
        digest matches Some(d) ==> forall|i: int|
            0 <= i < 32 ==> #[trigger] d@[i] == hex_value(text@[2 * i]) * 16 + hex_value(
                text@[2 * i + 1],
            ),
{
    let mut digest = [0u8; 32];
    hex::decode_to_slice(text, &mut digest).ok().map(|()| digest)
}

/// A digest as `RECORD` gives it.
pub open spec fn hash_field(digest: Seq<u8>) -> Seq<char> {
    "sha256="@ + base64_url(digest)
}

/// A field that gives a SHA-256 digest.
pub open spec fn gives_digest(field: Seq<char>, digest: Seq<u8>) -> bool {
    digest.len() == 32 && field == hash_field(digest)
}

/// The SHA-256 digest that a field gives, if it gives one.
pub open spec fn record_hash(field: Seq<char>) -> Option<Seq<u8>> {
    if exists|digest: Seq<u8>| gives_digest(field, digest) {
        Some(choose|digest: Seq<u8>| gives_digest(field, digest))
    } else {
        None
    }
}

/// Different numbers below 64 have different letters.
proof fn lemma_base64_char(a: int, b: int)
    requires
        0 <= a < 64,
        0 <= b < 64,
        base64_char(a) == base64_char(b),
    ensures
        a == b,
{
}

/// Numbers of four groups of six bits are the same if the groups are.
proof fn lemma_groups(x: int, y: int)
    requires
        0 <= x < 0x1000000,
        0 <= y < 0x1000000,
        x / 262144 == y / 262144,
        x / 4096 % 64 == y / 4096 % 64,
        x / 64 % 64 == y / 64 % 64,
        x % 64 == y % 64,
    ensures
        x == y,
{
    assert(x / 4096 / 64 == x / 262144 && y / 4096 / 64 == y / 262144);
    assert(x / 64 / 64 == x / 4096 && y / 64 / 64 == y / 4096);
}

/// Numbers of three bytes are the same only if the bytes are.
proof fn lemma_bytes(a: Seq<u8>, b: Seq<u8>)
    requires
        a.len() >= 3,
        b.len() >= 3,
        a[0] * 65536 + a[1] * 256 + a[2] == b[0] * 65536 + b[1] * 256 + b[2],
    ensures
        a[0] == b[0],
        a[1] == b[1],
        a[2] == b[2],
{
}

/// Encodings of one or two bytes differ if the bytes do.
proof fn lemma_base64_short(a: Seq<u8>, b: Seq<u8>)
    requires
        1 <= a.len() <= 2,
        a.len() == b.len(),
        base64_url(a) == base64_url(b),
    ensures
        a == b,
{
    let ta = base64_url(a);
    let tb = base64_url(b);
    if a.len() == 2 {
        let x = (a[0] * 256 + a[1]) * 4;
        let y = (b[0] * 256 + b[1]) * 4;
        assert(ta[0] == tb[0] && ta[1] == tb[1] && ta[2] == tb[2]);
        lemma_base64_char(x / 4096, y / 4096);
        lemma_base64_char(x / 64 % 64, y / 64 % 64);
        lemma_base64_char(x % 64, y % 64);
        assert(x / 262144 == 0 && y / 262144 == 0);
        lemma_groups(x, y);
    } else {
        assert(ta[0] == tb[0] && ta[1] == tb[1]);
        lemma_base64_char(a[0] * 16 / 64, b[0] * 16 / 64);
        lemma_base64_char(a[0] * 16 % 64, b[0] * 16 % 64);
    }
}

/// How many letters an encoding has.
proof fn lemma_base64_len(data: Seq<u8>)
    ensures
        base64_url(data).len() == 0 <==> data.len() == 0,
        base64_url(data).len() == 2 <==> data.len() == 1,
        base64_url(data).len() == 3 <==> data.len() == 2,
        data.len() >= 3 ==> base64_url(data).len() >= 4,
{
}

/// Different bytes have different encodings.
pub proof fn law_base64_url_injective(a: Seq<u8>, b: Seq<u8>)
    requires
        base64_url(a) == base64_url(b),
    ensures
        a == b,
    decreases a.len(),
{
    lemma_base64_len(a);
    lemma_base64_len(b);
    if a.len() >= 3 {
        let ta = base64_url(a);
        let tb = base64_url(b);
        let x = a[0] * 65536 + a[1] * 256 + a[2];
        let y = b[0] * 65536 + b[1] * 256 + b[2];
        assert(ta[0] == base64_char(x / 262144) && tb[0] == base64_char(y / 262144));
        assert(ta[1] == base64_char(x / 4096 % 64) && tb[1] == base64_char(y / 4096 % 64));
        assert(ta[2] == base64_char(x / 64 % 64) && tb[2] == base64_char(y / 64 % 64));
        assert(ta[3] == base64_char(x % 64) && tb[3] == base64_char(y % 64));
        lemma_base64_char(x / 262144, y / 262144);
        lemma_base64_char(x / 4096 % 64, y / 4096 % 64);
        lemma_base64_char(x / 64 % 64, y / 64 % 64);
        lemma_base64_char(x % 64, y % 64);
        lemma_groups(x, y);
        lemma_bytes(a, b);
        assert(base64_url(a.skip(3)) == ta.skip(4));
        assert(base64_url(b.skip(3)) == tb.skip(4));
        law_base64_url_injective(a.skip(3), b.skip(3));
        assert(a == seq![a[0], a[1], a[2]] + a.skip(3));
        assert(b == seq![b[0], b[1], b[2]] + b.skip(3));
    } else if a.len() > 0 {
        lemma_base64_short(a, b);
    }
}

/// A digest is read back from the field that gives it.
pub proof fn law_record_hash(digest: Seq<u8>)
    requires
        digest.len() == 32,
    ensures
        record_hash(hash_field(digest)) == Some(digest),
{
    let field = hash_field(digest);
    assert(gives_digest(field, digest));
    let found = choose|d: Seq<u8>| gives_digest(field, d);
    let n = "sha256="@.len() as int;
    assert(field.skip(n) == base64_url(digest));
    assert(hash_field(found).skip(n) == base64_url(found));
    law_base64_url_injective(found, digest);
}

/// Reading what was written in hexadecimal digits gives back each byte.
proof fn lemma_hex(data: Seq<u8>, i: int)
    requires
        0 <= i < data.len(),
    ensures
        is_hex_char(hex_text(data)[2 * i]),
        is_hex_char(hex_text(data)[2 * i + 1]),
        hex_value(hex_text(data)[2 * i]) * 16 + hex_value(hex_text(data)[2 * i + 1]) == data[i],
{
}

/// The bytes of an optional digest.
pub open spec fn digest_view(digest: Option<[u8; 32]>) -> Option<Seq<u8>> {
    match digest {
        Some(d) => Some(d@),
        None => None,
    }
}

/// The digest of decoded bytes, if there are as many as a SHA-256 digest has.
pub fn digest_of(data: Vec<u8>) -> (digest: Option<[u8; 32]>)
    ensures
        digest_view(digest) == if data@.len() == 32 {
            Some(data@)
        } else {
            None
        },
{
    let ghost bytes = data@;
    let text = hex_encode(data);
    proof {
        assert forall|i: int| 0 <= i < text@.len() implies is_hex_char(#[trigger] text@[i]) by {
            lemma_hex(bytes, i / 2);
        }
    }
    let digest = hex_decode_digest(text.as_str());
    proof {
        if bytes.len() == 32 {
            assert forall|i: int| 0 <= i < 32 implies digest->0@[i] == bytes[i] by {
                lemma_hex(bytes, i);
            }
            assert(digest->0@ == bytes);
        }
    }
    digest
}

/// Reads the SHA-256 digest that a field of `RECORD` gives. A field with
/// another algorithm, or with a text that is no digest, gives none.
pub fn parse_record_hash(field: &str) -> (digest: Option<[u8; 32]>)
    ensures
        digest_view(digest) == record_hash(field@),
{
    let chars = crate::text::to_chars(field);
    let ghost n = "sha256="@.len() as int;
    proof {
        reveal_strlit("sha256=");
        assert forall|d: Seq<u8>| gives_digest(field@, d) implies "sha256="@.is_prefix_of(field@)
            && field@.skip(n) == base64_url(d) by {
            assert(hash_field(d).take(n) == "sha256="@);
            assert(hash_field(d).skip(n) == base64_url(d));
        }
    }
    if !crate::text::starts_with(chars.as_slice(), "sha256=") {
        return None;
    }
    let value = crate::text::to_text(&chars[7..chars.len()]);
    assert(value@ == field@.skip(n));
    assert(field@ == "sha256="@ + value@);
    match base64_decode(value.as_str()) {
        Some(data) => {
            let ghost bytes = data@;
            let digest = digest_of(data);
            proof {
                if bytes.len() == 32 {
                    law_record_hash(bytes);
                } else {
                    assert forall|d: Seq<u8>| !gives_digest(field@, d) by {
                        if gives_digest(field@, d) {
                            law_base64_url_injective(d, bytes);
                        }
                    }
                }
            }
            digest
        },
        None => None,
    }
}

} // verus!
