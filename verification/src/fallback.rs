//! The fallback challenge generator: when the upstream provider is degraded
//! the relay issues an opaque 32-character token of its own, drawn without
//! replacement from the lowercase-alphanumeric alphabet. The token is never
//! checked against anything afterwards, so neither determinism nor
//! uniqueness across calls is claimed.

use vstd::prelude::*;
use rand::seq::SliceRandom;
use crate::text::push_char;

verus! {

/// A character the fallback token may hold: a lowercase letter or a digit.
pub open spec fn is_challenge_char(c: char) -> bool {
    ('a' <= c && c <= 'z') || ('0' <= c && c <= '9')
}

/// A byte whose character is a lowercase letter or a digit.
pub open spec fn is_challenge_byte(b: u8) -> bool {
    (0x61 <= b && b <= 0x7a) || (0x30 <= b && b <= 0x39)
}

/// Relies on rand's `SliceRandom::choose_multiple` with `thread_rng`: draws
/// `min(amount, len)` elements of the slice at pairwise-distinct positions,
/// in random order. Nothing is claimed about which elements come, only that
/// each is an element of the slice, and that they repeat no position.
#[verifier::external_body]
fn sample_of_slice(alphabet: &[u8], amount: usize) -> (r: Vec<u8>)
    ensures
        r@.len() == if amount <= alphabet@.len() {
            amount as int
        } else {
            alphabet@.len() as int
        },
        forall|i: int| 0 <= i < r@.len() ==> alphabet@.contains(#[trigger] r@[i]),
        (forall|i: int, j: int|
            0 <= i < j < alphabet@.len() ==> alphabet@[i] != alphabet@[j]) ==> (forall|
            i: int,
            j: int,
        |
            0 <= i < j < r@.len() ==> r@[i] != r@[j]),
{
    alphabet.choose_multiple(&mut rand::thread_rng(), amount).copied().collect()
}

/// Produces a fallback token: 32 characters, each a lowercase letter or a
/// digit, drawn without replacement, so no character repeats.
pub fn generate_challenge() -> (r: String)
    ensures
        r@.len() == 32,
        forall|i: int| 0 <= i < r@.len() ==> is_challenge_char(#[trigger] r@[i]),
        forall|i: int, j: int| 0 <= i < j < r@.len() ==> r@[i] != r@[j],
{
    let mut alphabet: Vec<u8> = Vec::new();
    let mut b: u8 = 0x61;
    while b <= 0x7a
        invariant
            0x61 <= b <= 0x7b,
            alphabet@.len() == b - 0x61,
            forall|i: int| 0 <= i < alphabet@.len() ==> alphabet@[i] == 0x61 + i,
        decreases 0x7b - b,
    {
        alphabet.push(b);
        b = b + 1;
    }
    let mut d: u8 = 0x30;
    while d <= 0x39
        invariant
            0x30 <= d <= 0x3a,
            alphabet@.len() == 26 + (d - 0x30),
            forall|i: int| 0 <= i < 26 ==> alphabet@[i] == 0x61 + i,
            forall|i: int| 26 <= i < alphabet@.len() ==> alphabet@[i] == 0x30 + (i - 26),
        decreases 0x3a - d,
    {
        alphabet.push(d);
        d = d + 1;
    }
    proof {
        assert(alphabet@.len() == 36);
        assert(forall|i: int| 0 <= i < 36 ==> is_challenge_byte(#[trigger] alphabet@[i]));
        assert(forall|i: int, j: int| 0 <= i < j < 36 ==> alphabet@[i] != alphabet@[j]);
    }
    let sample = sample_of_slice(alphabet.as_slice(), 32);
    let mut out = String::new();
    let n = sample.len();
    let mut i: usize = 0;
    while i < n
        invariant
            n == sample@.len(),
            i <= n,
            out@.len() == i,
            forall|k: int| 0 <= k < sample@.len() ==> is_challenge_byte(#[trigger] sample@[k]),
            forall|k1: int, k2: int| 0 <= k1 < k2 < sample@.len() ==> sample@[k1] != sample@[k2],
            forall|k: int| 0 <= k < i ==> is_challenge_char(#[trigger] out@[k]),
            forall|k: int| 0 <= k < i ==> out@[k] == sample@[k] as char,
        decreases n - i,
    {
        let c = sample[i] as char;
        proof {
            assert(is_challenge_char(c));
        }
        push_char(&mut out, c);
        i = i + 1;
    }
    out
}

} // verus!
