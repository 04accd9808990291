//! Identifiers derived from content or time: the SHA-256 fingerprint of a
//! repo path sent to the backend, and the local IDs given to webhook posts.
use vstd::prelude::*;
use vstd::string::StringSliceAdditionalSpecFns;
use crate::text::{digit_char, hex_string, hex_text, join2};

verus! {

broadcast use vstd::string::group_string_axioms;

/// The SHA-256 digest of `data`.
pub uninterp spec fn sha256_digest(data: Seq<u8>) -> Seq<u8>;

/// Calls `sha2::Sha256::digest`. The digest type is 32 bytes long; what the
/// bytes are is SHA-256, which is not restated here.
#[verifier::external_body]
fn sha256(data: &[u8]) -> (r: Vec<u8>)
    ensures
        r@ == sha256_digest(data@),
        r@.len() == 32,
{
    <sha2::Sha256 as sha2::Digest>::digest(data).to_vec()
}

/// Whether `c` is a lower-case hexadecimal digit.
pub open spec fn lower_hex_digit(c: char) -> bool {
    ('0' <= c && c <= '9') || ('a' <= c && c <= 'f')
}

/// The text of a random (version 4) UUID: 36 characters, with hyphens at
/// positions 8, 13, 18 and 23 and lower-case hexadecimal digits elsewhere,
/// the version digit `4` at position 14 and the variant digit (8, 9, a or
/// b) at position 19.
pub open spec fn uuid_v4_text(s: Seq<char>) -> bool {
    &&& s.len() == 36
    &&& forall|i: int|
        0 <= i < 36 ==> if i == 8 || i == 13 || i == 18 || i == 23 {
            #[trigger] s[i] == '-'
        } else {
            lower_hex_digit(s[i])
        }
    &&& s[14] == '4'
    &&& (s[19] == '8' || s[19] == '9' || s[19] == 'a' || s[19] == 'b')
}

/// Calls `uuid::Uuid::new_v4` and writes it out with `to_string` (the
/// hyphenated lower-case form). Which of the random UUIDs comes out is
/// chance; only its form is promised.
#[verifier::external_body]
pub(crate) fn new_uuid_v4() -> (r: String)
    ensures
        uuid_v4_text(r@),
{
    uuid::Uuid::new_v4().to_string()
}

/// Two lower-case hexadecimal digits per byte, most significant first.
pub open spec fn bytes_hex_text(b: Seq<u8>) -> Seq<char>
    decreases b.len(),
{
    if b.len() == 0 {
        Seq::empty()
    } else {
        bytes_hex_text(b.drop_last()) + seq![
            digit_char((b.last() / 16) as nat),
            digit_char((b.last() % 16) as nat),
        ]
    }
}

proof fn lemma_bytes_hex_len(b: Seq<u8>)
    ensures
        bytes_hex_text(b).len() == 2 * b.len(),
    decreases b.len(),
{
    if b.len() > 0 {
        lemma_bytes_hex_len(b.drop_last());
    }
}

fn hex_digit(d: u8) -> (c: char)
    requires
        d < 16,
    ensures
        c == digit_char(d as nat),
{
    if d < 10 {
        (d + 48) as char
    } else {
        (d + 87) as char
    }
}

/// Lower-case hexadecimal of `bytes`, two digits per byte.
pub fn bytes_hex(bytes: &[u8]) -> (s: String)
    ensures
        s@ == bytes_hex_text(bytes@),
        s@.len() == 2 * bytes@.len(),
{
    let mut out: Vec<char> = Vec::new();
    let mut i: usize = 0;
    while i < bytes.len()
        invariant
            0 <= i <= bytes@.len(),
            out@ == bytes_hex_text(bytes@.take(i as int)),
        decreases bytes@.len() - i,
    {
        let b = bytes[i];
        proof {
            assert(bytes@.take(i + 1).drop_last() =~= bytes@.take(i as int));
        }
        out.push(hex_digit(b / 16));
        out.push(hex_digit(b % 16));
        proof {
            assert(out@ =~= bytes_hex_text(bytes@.take(i + 1)));
        }
        i += 1;
    }
    proof {
        assert(bytes@.take(bytes@.len() as int) =~= bytes@);
        lemma_bytes_hex_len(bytes@);
    }
    crate::text::string_of_chars(out.as_slice())
}

/// The hex-encoded SHA-256 digest of the UTF-8 bytes of `input`: 64
/// lower-case hexadecimal digits.
pub fn sha256_hex(input: &str) -> (r: String)
    ensures
        r@ == bytes_hex_text(sha256_digest(input.spec_bytes())),
        r@.len() == 64,
{
    let digest = sha256(input.as_bytes());
    bytes_hex(digest.as_slice())
}

/// Nanoseconds since the Unix epoch by the system clock; 0 if the clock reads
/// earlier than the epoch. Nothing is promised of the value: it is the time.
#[verifier::external_body]
fn unix_time_nanos() -> u128 {
    std::time::SystemTime::now().duration_since(std::time::UNIX_EPOCH).unwrap_or_default().as_nanos()
}

pub open spec fn webhook_post_id_text(nanos: u128) -> Seq<char> {
    "wh-"@ + hex_text(nanos as nat)
}

/// The local ID of a webhook post sent at `nanos` nanoseconds since the epoch:
/// `wh-` followed by the time in lower-case hexadecimal.
pub fn webhook_post_id_at(nanos: u128) -> (r: String)
    ensures
        r@ == webhook_post_id_text(nanos),
{
    let h = hex_string(nanos);
    join2("wh-", h.as_str())
}

/// A local ID for a webhook post, which the webhook tool does not give back:
/// `wh-` followed by the current time in nanoseconds, in hexadecimal.
pub fn local_post_id() -> (r: String)
    ensures
        exists|nanos: u128| r@ == webhook_post_id_text(nanos),
{
    let nanos = unix_time_nanos();
    webhook_post_id_at(nanos)
}

} // verus!
