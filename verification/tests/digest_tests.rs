use geetest::digest::sign;
use geetest::fallback::generate_challenge;
use geetest::models::DigestMod;

// sign(MD5, challenge, secret) is the MD5 of the concatenation, so splitting
// a string with a known digest across the two arguments pins the output.
#[test]
fn sign_md5_known_vector() {
    assert_eq!(
        sign(DigestMod::Md5, "a", "bc"),
        "900150983cd24fb0d6963f7d28e17f72"
    );
}

#[test]
fn sign_md5_empty_inputs() {
    assert_eq!(
        sign(DigestMod::Md5, "", ""),
        "d41d8cd98f00b204e9800998ecf8427e"
    );
}

#[test]
fn sign_sha256_known_vector() {
    assert_eq!(
        sign(DigestMod::Sha256, "ab", "c"),
        "ba7816bf8f01cfea414140de5dae2223b00361a396177a9cb410ff61f20015ad"
    );
}

// RFC 4231 test case 2 with the challenge as the HMAC key and the secret as
// the signed message: the vendor's inverted key/message assignment.
#[test]
fn sign_hmac_sha256_known_vector() {
    assert_eq!(
        sign(DigestMod::HmacSha256, "Jefe", "what do ya want for nothing?"),
        "5bdcc146bf60754e6a042426089575c75a003f089d2739839dec58b964ec3843"
    );
}

#[test]
fn sign_is_deterministic() {
    for alg in [DigestMod::Md5, DigestMod::Sha256, DigestMod::HmacSha256] {
        assert_eq!(
            sign(alg, "challenge-token", "server-secret"),
            sign(alg, "challenge-token", "server-secret")
        );
    }
}

#[test]
fn sign_is_order_sensitive() {
    for alg in [DigestMod::Md5, DigestMod::Sha256, DigestMod::HmacSha256] {
        assert_ne!(
            sign(alg, "a", "bc"),
            sign(alg, "bc", "a"),
            "swapping challenge and secret must change the signature here"
        );
    }
}

#[test]
fn fallback_challenge_shape() {
    let token = generate_challenge();
    assert_eq!(token.len(), 32);
    assert!(token
        .chars()
        .all(|c| c.is_ascii_lowercase() || c.is_ascii_digit()));
    // drawn without replacement: no character repeats
    let mut seen: Vec<char> = token.chars().collect();
    seen.sort_unstable();
    seen.dedup();
    assert_eq!(seen.len(), 32);
}
