//! Delay IDs: random bytes, written in the URL-safe alphabet of base64.

use base64::Engine;
use vstd::prelude::*;

verus! {

/// How many random bytes make up a delay ID.
pub const RANDOM_BYTES: usize = 16;

/// How many characters a delay ID has.
pub const DELAY_ID_LENGTH: usize = 22;

/// The byte at the position, or zero behind the end.
pub open spec fn byte_at(bytes: Seq<u8>, i: int) -> int {
    if 0 <= i < bytes.len() {
        bytes[i] as int
    } else {
        0
    }
}

/// The group of six bits at the position, when the bits of the bytes, the
/// highest bit of each byte first, are taken six by six.
pub open spec fn sextet(bytes: Seq<u8>, i: int) -> int {
    let first = 3 * (i / 4);
    if i % 4 == 0 {
        byte_at(bytes, first) / 4
    } else if i % 4 == 1 {
        (byte_at(bytes, first) % 4) * 16 + byte_at(bytes, first + 1) / 16
    } else if i % 4 == 2 {
        (byte_at(bytes, first + 1) % 16) * 4 + byte_at(bytes, first + 2) / 64
    } else {
        byte_at(bytes, first + 2) % 64
    }
}

/// The character that stands for six bits.
pub open spec fn url_safe_char(value: int) -> char {
    if value < 26 {
        ('A' as u32 + value) as char
    } else if value < 52 {
        ('a' as u32 + (value - 26)) as char
    } else if value < 62 {
        ('0' as u32 + (value - 52)) as char
    } else if value == 62 {
        '-'
    } else {
        '_'
    }
}

/// The character stands for some six bits.
pub open spec fn in_url_safe_alphabet(c: char) -> bool {
    ('A' <= c && c <= 'Z') || ('a' <= c && c <= 'z') || ('0' <= c && c <= '9') || c == '-' || c
        == '_'
}

/// The bytes of a delay ID, written six bits by six bits, without padding.
pub open spec fn url_safe_text(bytes: Seq<u8>) -> Seq<char> {
    Seq::new(DELAY_ID_LENGTH as nat, |i: int| url_safe_char(sextet(bytes, i)))
}

/// Trusted: `rand::fill`. The bytes are drawn from the generator of the thread,
/// which is meant to be unpredictable; nothing is claimed of them.
#[verifier::external_body]
fn random_bytes() -> (bytes: [u8; 16]) {
    let mut bytes: [u8; 16] = [0; 16];
    rand::fill(&mut bytes);
    bytes
}

/// Trusted: the engine of `base64` for the URL-safe alphabet without padding.
/// It writes the bytes as [`url_safe_text`] does.
#[verifier::external_body]
fn encode(bytes: [u8; 16]) -> (text: String)
    ensures
        text@ == url_safe_text(bytes@),
{
    base64::engine::GeneralPurpose::new(
        &base64::alphabet::URL_SAFE,
        base64::engine::general_purpose::NO_PAD,
    ).encode(bytes)
}

/// The delay ID that is made of the bytes.
pub fn delay_id_of(bytes: [u8; 16]) -> (delay_id: String)
    ensures
        delay_id@ == url_safe_text(bytes@),
{
    encode(bytes)
}

/// A new delay ID, which nobody can predict.
pub fn generate_delay_id() -> (delay_id: String)
    ensures
        exists|bytes: Seq<u8>|
            bytes.len() == RANDOM_BYTES && delay_id@ == #[trigger] url_safe_text(bytes),
{
    let bytes = random_bytes();
    assert(bytes@.len() == RANDOM_BYTES);
    delay_id_of(bytes)
}

/// Six bits are a number below 64.
proof fn lemma_sextet_range(bytes: Seq<u8>, i: int)
    ensures
        0 <= sextet(bytes, i) < 64,
{
}

/// Different groups of six bits are written differently.
proof fn lemma_url_safe_char_injective(a: int, b: int)
    requires
        0 <= a < 64,
        0 <= b < 64,
        url_safe_char(a) == url_safe_char(b),
    ensures
        a == b,
{
}

/// The bytes, taken back from the groups of six bits.
proof fn lemma_byte_from_sextets(bytes: Seq<u8>, k: int)
    requires
        0 <= k,
    ensures
        byte_at(bytes, 3 * k) == sextet(bytes, 4 * k) * 4 + sextet(bytes, 4 * k + 1) / 16,
        byte_at(bytes, 3 * k + 1) == (sextet(bytes, 4 * k + 1) % 16) * 16 + sextet(
            bytes,
            4 * k + 2,
        ) / 4,
        byte_at(bytes, 3 * k + 2) == (sextet(bytes, 4 * k + 2) % 4) * 64 + sextet(
            bytes,
            4 * k + 3,
        ),
{
    assert((4 * k) / 4 == k && (4 * k) % 4 == 0);
    assert((4 * k + 1) / 4 == k && (4 * k + 1) % 4 == 1);
    assert((4 * k + 2) / 4 == k && (4 * k + 2) % 4 == 2);
    assert((4 * k + 3) / 4 == k && (4 * k + 3) % 4 == 3);
    let a = byte_at(bytes, 3 * k);
    let b = byte_at(bytes, 3 * k + 1);
    let c = byte_at(bytes, 3 * k + 2);
    assert(0 <= a < 256 && 0 <= b < 256 && 0 <= c < 256);
    assert(((a % 4) * 16 + b / 16) / 16 == a % 4);
    assert(((a % 4) * 16 + b / 16) % 16 == b / 16);
    assert(((b % 16) * 4 + c / 64) / 4 == b % 16);
    assert(((b % 16) * 4 + c / 64) % 4 == c / 64);
}

/// A delay ID has 22 characters, and each is safe in a URL.
pub proof fn law_delay_id_is_url_safe(bytes: Seq<u8>)
    ensures
        url_safe_text(bytes).len() == DELAY_ID_LENGTH,
        forall|i: int|
            0 <= i < DELAY_ID_LENGTH ==> #[trigger] in_url_safe_alphabet(url_safe_text(bytes)[i]),
{
    assert forall|i: int| 0 <= i < DELAY_ID_LENGTH implies #[trigger] in_url_safe_alphabet(
        url_safe_text(bytes)[i],
    ) by {
        lemma_sextet_range(bytes, i);
    }
}

/// Different random bytes make different delay IDs: no randomness is lost.
pub proof fn law_delay_ids_differ(a: Seq<u8>, b: Seq<u8>)
    requires
        a.len() == RANDOM_BYTES,
        b.len() == RANDOM_BYTES,
        url_safe_text(a) == url_safe_text(b),
    ensures
        a == b,
{
    assert forall|i: int| 0 <= i < DELAY_ID_LENGTH implies #[trigger] sextet(a, i) == sextet(
        b,
        i,
    ) by {
        assert(url_safe_text(a)[i] == url_safe_char(sextet(a, i)));
        assert(url_safe_text(b)[i] == url_safe_char(sextet(b, i)));
        lemma_sextet_range(a, i);
        lemma_sextet_range(b, i);
        lemma_url_safe_char_injective(sextet(a, i), sextet(b, i));
    }
    assert forall|j: int| 0 <= j < RANDOM_BYTES implies a[j] == b[j] by {
        let k = j / 3;
        lemma_byte_from_sextets(a, k);
        lemma_byte_from_sextets(b, k);
        assert(sextet(a, 4 * k) == sextet(b, 4 * k));
        assert(sextet(a, 4 * k + 1) == sextet(b, 4 * k + 1));
        if k < 5 {
            assert(sextet(a, 4 * k + 2) == sextet(b, 4 * k + 2));
            assert(sextet(a, 4 * k + 3) == sextet(b, 4 * k + 3));
        }
        assert(byte_at(a, j) == byte_at(b, j));
    }
    assert(a =~= b);
}

} // verus!
