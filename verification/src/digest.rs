//! The keyed transform applied to an upstream challenge token before it
//! reaches the client. Three interchangeable algorithms, chosen at
//! configuration time; each produces a lowercase hexadecimal digest.
//!
//! The upstream provider recomputes the same digest independently during the
//! later validate call, so the concatenation order (challenge before secret)
//! and, for the keyed-hash variant, the challenge-as-key assignment are part
//! of the wire protocol and must stay exactly as they are.

use vstd::prelude::*;
use vstd::utf8::encode_utf8;
use crate::codec::{hex_of, to_hex_lower, lemma_hex_of_injective};
use crate::models::DigestMod;

verus! {

/// The 16-byte MD5 digest of a byte string.
pub uninterp spec fn md5_of(data: Seq<u8>) -> Seq<u8>;

/// The 32-byte SHA-256 digest of a byte string.
pub uninterp spec fn sha256_of(data: Seq<u8>) -> Seq<u8>;

/// The 32-byte HMAC-SHA-256 of a message under a key.
pub uninterp spec fn hmac_sha256_of(key: Seq<u8>, msg: Seq<u8>) -> Seq<u8>;

/// Relies on `md5::compute`: the MD5 digest of the input, 16 bytes, a
/// function of the input alone.
#[verifier::external_body]
fn md5_digest(data: &[u8]) -> (r: Vec<u8>)
    ensures
        r@ == md5_of(data@),
        r@.len() == 16,
{
    md5::compute(data).0.to_vec()
}

/// Relies on `sha2::Sha256` through `digest::Digest::digest`: the SHA-256
/// digest of the input, 32 bytes, a function of the input alone.
#[verifier::external_body]
fn sha256_digest(data: &[u8]) -> (r: Vec<u8>)
    ensures
        r@ == sha256_of(data@),
        r@.len() == 32,
{
    <sha2::Sha256 as sha2::Digest>::digest(data).to_vec()
}

/// Relies on `hmac::Hmac<Sha256>` through `hmac::Mac`: the HMAC-SHA-256 of
/// the message under the key, 32 bytes, a function of the two inputs alone.
/// A key of any length is accepted, so `new_from_slice` cannot fail here.
#[verifier::external_body]
fn hmac_sha256_digest(key: &[u8], msg: &[u8]) -> (r: Vec<u8>)
    ensures
        r@ == hmac_sha256_of(key@, msg@),
        r@.len() == 32,
{
    let mut mac = <hmac::Hmac<sha2::Sha256> as hmac::Mac>::new_from_slice(key)
        .expect("any key length is accepted");
    hmac::Mac::update(&mut mac, msg);
    hmac::Mac::finalize(mac).into_bytes().to_vec()
}

/// The signature of an upstream challenge token under the server secret:
/// the lowercase hexadecimal digest of the token's bytes followed by the
/// secret's bytes, or, for the keyed-hash variant, of the secret keyed by
/// the token.
pub open spec fn spec_sign(alg: DigestMod, challenge: Seq<char>, secret: Seq<char>) -> Seq<char> {
    match alg {
        DigestMod::Md5 => hex_of(md5_of(encode_utf8(challenge) + encode_utf8(secret))),
        DigestMod::Sha256 => hex_of(sha256_of(encode_utf8(challenge) + encode_utf8(secret))),
        DigestMod::HmacSha256 => hex_of(
            hmac_sha256_of(encode_utf8(challenge), encode_utf8(secret)),
        ),
    }
}

/// Computes the signature of a challenge token under the secret.
pub fn sign(alg: DigestMod, challenge: &str, secret: &str) -> (r: String)
    ensures
        r@ == spec_sign(alg, challenge@, secret@),
{
    match alg {
        DigestMod::Md5 => {
            let mut data: Vec<u8> = Vec::new();
            data.extend_from_slice(challenge.as_bytes());
            data.extend_from_slice(secret.as_bytes());
            proof {
                assert(data@ =~= encode_utf8(challenge@) + encode_utf8(secret@));
            }
            let d = md5_digest(data.as_slice());
            to_hex_lower(d.as_slice())
        },
        DigestMod::Sha256 => {
            let mut data: Vec<u8> = Vec::new();
            data.extend_from_slice(challenge.as_bytes());
            data.extend_from_slice(secret.as_bytes());
            proof {
                assert(data@ =~= encode_utf8(challenge@) + encode_utf8(secret@));
            }
            let d = sha256_digest(data.as_slice());
            to_hex_lower(d.as_slice())
        },
        DigestMod::HmacSha256 => {
            let d = hmac_sha256_digest(challenge.as_bytes(), secret.as_bytes());
            to_hex_lower(d.as_slice())
        },
    }
}

/// The signer is a function of its inputs: equal algorithm, challenge and
/// secret always give equal signatures.
pub proof fn lemma_sign_deterministic(
    alg: DigestMod,
    c1: Seq<char>,
    s1: Seq<char>,
    c2: Seq<char>,
    s2: Seq<char>,
)
    requires
        c1 == c2,
        s1 == s2,
    ensures
        spec_sign(alg, c1, s1) == spec_sign(alg, c2, s2),
{
}

/// The signature is sensitive to the order of challenge and secret exactly as
/// far as the underlying digest is: swapping the two changes the signature if
/// and only if it changes the digest of the transformed input. (Whether the
/// digests themselves differ is a property of the hash function; for the
/// plain-hash variants the two concatenations can even coincide, as for the
/// pair "x" and "xx".)
pub proof fn lemma_sign_order_sensitive(alg: DigestMod, a: Seq<char>, b: Seq<char>)
    ensures
        spec_sign(alg, a, b) != spec_sign(alg, b, a) <==> match alg {
            DigestMod::Md5 => md5_of(encode_utf8(a) + encode_utf8(b)) != md5_of(
                encode_utf8(b) + encode_utf8(a),
            ),
            DigestMod::Sha256 => sha256_of(encode_utf8(a) + encode_utf8(b)) != sha256_of(
                encode_utf8(b) + encode_utf8(a),
            ),
            DigestMod::HmacSha256 => hmac_sha256_of(encode_utf8(a), encode_utf8(b))
                != hmac_sha256_of(encode_utf8(b), encode_utf8(a)),
        },
{
    match alg {
        DigestMod::Md5 => {
            let x = md5_of(encode_utf8(a) + encode_utf8(b));
            let y = md5_of(encode_utf8(b) + encode_utf8(a));
            if hex_of(x) == hex_of(y) {
                lemma_hex_of_injective(x, y);
            }
        },
        DigestMod::Sha256 => {
            let x = sha256_of(encode_utf8(a) + encode_utf8(b));
            let y = sha256_of(encode_utf8(b) + encode_utf8(a));
            if hex_of(x) == hex_of(y) {
                lemma_hex_of_injective(x, y);
            }
        },
        DigestMod::HmacSha256 => {
            let x = hmac_sha256_of(encode_utf8(a), encode_utf8(b));
            let y = hmac_sha256_of(encode_utf8(b), encode_utf8(a));
            if hex_of(x) == hex_of(y) {
                lemma_hex_of_injective(x, y);
            }
        },
    }
}

} // verus!
