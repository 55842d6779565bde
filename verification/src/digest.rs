//! Text digests: SHA-256 in lower-case hexadecimal notation.
use vstd::prelude::*;
use vstd::utf8::encode_utf8;

verus! {

/// What `sha2::Sha256::digest` computes: the SHA-256 digest of `data`.
pub uninterp spec fn sha256(data: Seq<u8>) -> Seq<u8>;

/// The lower-case hexadecimal digit for `value`.
pub open spec fn hex_digit(value: nat) -> char
    recommends
        value < 16,
{
    if value < 10 {
        ('0' as nat + value) as char
    } else {
        ('a' as nat + value - 10) as char
    }
}

/// Two hexadecimal digits for each byte, the high one first.
pub open spec fn hex(bytes: Seq<u8>) -> Seq<char>
    decreases bytes.len(),
{
    if bytes.len() == 0 {
        Seq::empty()
    } else {
        seq![hex_digit(bytes[0] as nat / 16), hex_digit(bytes[0] as nat % 16)] + hex(bytes.skip(1))
    }
}

/// The digest of a text: SHA-256 of its UTF-8 bytes, in hexadecimal notation.
pub open spec fn text_digest(text: Seq<char>) -> Seq<char> {
    hex(sha256(encode_utf8(text)))
}

/// Whether `ch` is a lower-case hexadecimal digit.
pub open spec fn is_hex_digit(ch: char) -> bool {
    '0' <= ch <= '9' || 'a' <= ch <= 'f'
}

/// Calls `sha2::Sha256::digest`. Claimed of it: the digest depends on `data` alone and has 32
/// bytes.
#[verifier::external_body]
fn sha256_digest(data: &[u8]) -> (digest: Vec<u8>)
    ensures
        digest@ == sha256(data@),
        digest@.len() == 32,
{
    <sha2::Sha256 as sha2::Digest>::digest(data).to_vec()
}

/// The hexadecimal digit for `value`.
fn write_hex_digit(value: u8) -> (ch: char)
    requires
        value < 16,
    ensures
        ch == hex_digit(value as nat),
{
    if value < 10 {
        (48 + value) as char
    } else {
        (97 + (value - 10)) as char
    }
}

/// Bytes in lower-case hexadecimal notation.
pub fn write_hex(bytes: &[u8]) -> (text: String)
    ensures
        text@ == hex(bytes@),
{
    let mut text: String = String::new();
    let mut i: usize = 0;
    assert(bytes@.skip(0) =~= bytes@);
    while i < bytes.len()
        invariant
            i <= bytes.len(),
            text@ + hex(bytes@.skip(i as int)) == hex(bytes@),
        decreases bytes.len() - i,
    {
        let ghost rest = bytes@.skip(i as int);
        let ghost before = text@;
        text.push(write_hex_digit(bytes[i] / 16));
        text.push(write_hex_digit(bytes[i] % 16));
        assert(rest[0] == bytes@[i as int]);
        assert(rest.skip(1) =~= bytes@.skip(i + 1));
        assert(text@ + hex(rest.skip(1)) =~= before + hex(rest));
        i += 1;
    }
    assert(text@ + hex(bytes@.skip(i as int)) =~= text@);
    text
}

/// The digest of a text: 64 lower-case hexadecimal digits.
pub fn hex_sha256(text: &str) -> (digest: String)
    ensures
        digest@ == text_digest(text@),
        digest@.len() == 64,
        forall|i: int| 0 <= i < digest@.len() ==> is_hex_digit(#[trigger] digest@[i]),
{
    let digest: Vec<u8> = sha256_digest(text.as_bytes());
    proof {
        hex_notation(digest@);
    }
    write_hex(digest.as_slice())
}

/// Hexadecimal notation has two digits for each byte, and nothing but digits.
pub proof fn hex_notation(bytes: Seq<u8>)
    ensures
        hex(bytes).len() == 2 * bytes.len(),
        forall|i: int| 0 <= i < hex(bytes).len() ==> is_hex_digit(#[trigger] hex(bytes)[i]),
    decreases bytes.len(),
{
    if bytes.len() > 0 {
        let rest = hex(bytes.skip(1));
        hex_notation(bytes.skip(1));
        assert forall|i: int| 0 <= i < hex(bytes).len() implies is_hex_digit(
            #[trigger] hex(bytes)[i],
        ) by {
            if i >= 2 {
                assert(hex(bytes)[i] == rest[i - 2]);
            }
        }
    }
}

/// The place of a hexadecimal digit among the characters.
proof fn lemma_hex_digit(value: nat)
    requires
        value < 16,
    ensures
        hex_digit(value) as nat == if value < 10 {
            48 + value
        } else {
            87 + value
        },
{
}

/// Different bytes have different hexadecimal notations.
pub proof fn hex_is_injective(a: Seq<u8>, b: Seq<u8>)
    requires
        hex(a) == hex(b),
    ensures
        a == b,
    decreases a.len(),
{
    hex_notation(a);
    hex_notation(b);
    if a.len() > 0 {
        assert(b.len() > 0);
        assert(hex(a)[0] == hex_digit(a[0] as nat / 16));
        assert(hex(a)[1] == hex_digit(a[0] as nat % 16));
        assert(hex(b)[0] == hex_digit(b[0] as nat / 16));
        assert(hex(b)[1] == hex_digit(b[0] as nat % 16));
        lemma_hex_digit(a[0] as nat / 16);
        lemma_hex_digit(a[0] as nat % 16);
        lemma_hex_digit(b[0] as nat / 16);
        lemma_hex_digit(b[0] as nat % 16);
        assert(a[0] == b[0]);
        assert(hex(a).skip(2) =~= hex(a.skip(1)));
        assert(hex(b).skip(2) =~= hex(b.skip(1)));
        hex_is_injective(a.skip(1), b.skip(1));
        assert(a =~= seq![a[0]] + a.skip(1));
        assert(b =~= seq![b[0]] + b.skip(1));
    } else {
        assert(a =~= b);
    }
}

/// The number that a lower-case hexadecimal digit stands for.
pub open spec fn digit_number(ch: char) -> int {
    if '0' <= ch && ch <= '9' {
        ch as int - '0' as int
    } else {
        ch as int - 'a' as int + 10
    }
}

/// Each byte is spelled by its two digits, the high one first.
pub proof fn digits_spell_the_bytes(bytes: Seq<u8>, i: int)
    requires
        0 <= i < bytes.len(),
    ensures
        hex(bytes).len() == 2 * bytes.len(),
        digit_number(hex(bytes)[2 * i]) * 16 + digit_number(hex(bytes)[2 * i + 1]) == bytes[i],
    decreases bytes.len(),
{
    hex_notation(bytes);
    lemma_hex_digit(bytes[0] as nat / 16);
    lemma_hex_digit(bytes[0] as nat % 16);
    if i > 0 {
        digits_spell_the_bytes(bytes.skip(1), i - 1);
        hex_notation(bytes.skip(1));
        let rest = hex(bytes.skip(1));
        assert(hex(bytes)[2 * i] == rest[2 * (i - 1)]);
        assert(hex(bytes)[2 * i + 1] == rest[2 * (i - 1) + 1]);
        assert(bytes.skip(1)[i - 1] == bytes[i]);
    }
}

/// The digest of a text spells the bytes of the SHA-256 digest of its UTF-8 bytes, in lower-case
/// hexadecimal digits.
pub proof fn digest_spells_sha256(text: &str, digest: String, i: int)
    requires
        call_ensures(hex_sha256, (text,), digest),
        0 <= i < 32,
    ensures
        digest@.len() == 64,
        sha256(encode_utf8(text@)).len() == 32,
        '0' <= digest@[2 * i] <= '9' || 'a' <= digest@[2 * i] <= 'f',
        '0' <= digest@[2 * i + 1] <= '9' || 'a' <= digest@[2 * i + 1] <= 'f',
        digit_number(digest@[2 * i]) * 16 + digit_number(digest@[2 * i + 1]) == sha256(
            encode_utf8(text@),
        )[i],
{
    let bytes = sha256(encode_utf8(text@));
    hex_notation(bytes);
    digits_spell_the_bytes(bytes, i);
    assert(is_hex_digit(digest@[2 * i]));
    assert(is_hex_digit(digest@[2 * i + 1]));
}

} // verus!
