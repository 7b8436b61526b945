//! Generates the random alphanumeric token that names a stored file. The
//! token is drawn byte by byte from the process-wide thread-local generator;
//! uniqueness across files is probabilistic, never guaranteed.
use vstd::prelude::*;

use crate::bytes::is_alnum_byte;

verus! {

#[verifier::external_type_specification]
#[verifier::external_body]
pub struct ExThreadRng(rand::rngs::ThreadRng);

/// Relies on rand::thread_rng: returns a handle to the thread-local
/// generator, safe to use from concurrent requests.
#[verifier::external_body]
fn fresh_rng() -> rand::rngs::ThreadRng {
    rand::thread_rng()
}

/// Relies on rand's Alphanumeric distribution: every sampled byte is one of
/// the 62 ASCII alphanumerics (its charset holds exactly A-Z, a-z and 0-9).
#[verifier::external_body]
fn sample_alnum(rng: &mut rand::rngs::ThreadRng) -> (b: u8)
    ensures
        is_alnum_byte(b),
{
    rand::Rng::sample(rng, rand::distributions::Alphanumeric)
}

/// A well-formed file name token: exactly 30 bytes, all alphanumeric.
pub open spec fn is_token(s: Seq<u8>) -> bool {
    &&& s.len() == 30
    &&& forall|i: int| 0 <= i < s.len() ==> is_alnum_byte(s[i])
}

/// Draws a fresh 30-byte alphanumeric token. Which token comes back is up
/// to the random source; only its shape is promised.
pub fn generate_token() -> (t: Vec<u8>)
    ensures
        is_token(t@),
{
    let mut rng = fresh_rng();
    let mut t: Vec<u8> = Vec::new();
    let mut i: usize = 0;
    while i < 30
        invariant
            i == t@.len(),
            i <= 30,
            forall|k: int| 0 <= k < t@.len() ==> is_alnum_byte(t@[k]),
        decreases 30 - i,
    {
        let b = sample_alnum(&mut rng);
        t.push(b);
        i += 1;
    }
    t
}

} // verus!
