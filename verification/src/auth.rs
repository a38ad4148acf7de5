//! Token handling: hashing raw API tokens for storage and lookup, minting
//! new ones, and reading the bearer token out of an authorization header.

use vstd::prelude::*;
use vstd::utf8::encode_utf8;
use rand::Rng;
use sha2::Digest;
use crate::error::AppError;
use crate::json::{chars_vec, hex_lower, push_char};

verus! {

/// What SHA-256 makes of a byte sequence. Named, not spelled out: the
/// compression function is the crate's, and a test holds `hash_token`
/// against a reference digest.
pub uninterp spec fn sha256_of(bs: Seq<u8>) -> Seq<u8>;

/// Relies on sha2::Sha256::digest: 32 bytes, a function of the input
/// alone.
#[verifier::external_body]
fn sha256(bs: &[u8]) -> (r: Vec<u8>)
    ensures
        r@ == sha256_of(bs@),
        r@.len() == 32,
{
    sha2::Sha256::digest(bs).to_vec()
}

/// Lowercase hexadecimal text of a byte sequence, two digits per byte.
pub open spec fn hex_of(bs: Seq<u8>) -> Seq<char>
    decreases bs.len(),
{
    if bs.len() == 0 {
        Seq::empty()
    } else {
        hex_of(bs.drop_last()) + seq![
            hex_lower(bs.last() as int / 16),
            hex_lower(bs.last() as int % 16),
        ]
    }
}

/// The hexadecimal text is twice as long as the bytes.
pub proof fn lemma_hex_of_len(bs: Seq<u8>)
    ensures
        hex_of(bs).len() == 2 * bs.len(),
    decreases bs.len(),
{
    if bs.len() > 0 {
        lemma_hex_of_len(bs.drop_last());
    }
}

/// Relies on hex::encode: two lowercase hexadecimal digits per input byte,
/// in order.
#[verifier::external_body]
fn hex_encode(bs: &[u8]) -> (r: String)
    ensures
        r@ == hex_of(bs@),
{
    hex::encode(bs)
}

/// Relies on rand::rng and Rng::random: 32 bytes from the thread-local
/// generator. Nothing is promised of the values, only the count.
#[verifier::external_body]
fn random_bytes() -> (r: Vec<u8>)
    ensures
        r@.len() == 32,
{
    let bytes: [u8; 32] = rand::rng().random();
    bytes.to_vec()
}

/// Hashes a raw API token for storage and lookup: the lowercase
/// hexadecimal text of the SHA-256 digest of its UTF-8 bytes.
pub fn hash_token(token: &str) -> (r: String)
    ensures
        r@ == hex_of(sha256_of(encode_utf8(token@))),
        r@.len() == 64,
{
    let digest = sha256(token.as_bytes());
    let out = hex_encode(digest.as_slice());
    proof {
        lemma_hex_of_len(sha256_of(encode_utf8(token@)));
    }
    out
}

/// Generates a new random API token: the lowercase hexadecimal text of 32
/// random bytes, 64 characters long. Which bytes were drawn nobody can
/// promise, but the result is their hex text, so distinct draws give
/// distinct tokens.
pub fn generate_token() -> (r: String)
    ensures
        r@.len() == 64,
        exists|bs: Seq<u8>| bs.len() == 32 && r@ == hex_of(bs),
{
    let bytes = random_bytes();
    let out = hex_encode(bytes.as_slice());
    proof {
        lemma_hex_of_len(bytes@);
        assert(bytes@.len() == 32 && out@ == hex_of(bytes@));
    }
    out
}

/// Mints a token: the raw secret to hand out once, and the hash to store.
pub fn mint_token() -> (r: (String, String))
    ensures
        r.0@.len() == 64,
        r.1@ == hex_of(sha256_of(encode_utf8(r.0@))),
{
    let raw = generate_token();
    let hash = hash_token(raw.as_str());
    (raw, hash)
}

/// The bearer token of an authorization header: everything after the
/// literal "Bearer " prefix; anything else reads as unauthorized.
pub open spec fn spec_bearer_token(header: Option<Seq<char>>) -> Option<Seq<char>> {
    match header {
        Some(h) => if h.len() >= 7 && h.take(7) == "Bearer "@ {
            Some(h.skip(7))
        } else {
            None
        },
        None => None,
    }
}

/// Reads the bearer token out of an authorization header; a missing header
/// or one without the "Bearer " scheme is rejected.
#[verifier::loop_isolation(false)]
pub fn bearer_token(header: Option<&String>) -> (r: Result<String, AppError>)
    ensures
        (match spec_bearer_token(match header {
            Some(h) => Some(h@),
            None => None,
        }) {
            Some(t) => r matches Ok(tok) && tok@ == t,
            None => r matches Err(e) && e is Unauthorized,
        }),
{
    let h = match header {
        Some(h) => h,
        None => {
            return Err(AppError::Unauthorized);
        },
    };
    let cs = chars_vec(h.as_str());
    let prefix = chars_vec("Bearer ");
    proof {
        reveal_strlit("Bearer ");
    }
    if cs.len() < 7 {
        proof {
            assert("Bearer "@.len() == 7);
        }
        return Err(AppError::Unauthorized);
    }
    let mut i: usize = 0;
    while i < 7
        invariant
            i <= 7,
            forall|j: int| 0 <= j < i ==> cs@[j] == "Bearer "@[j],
        decreases 7 - i,
    {
        if cs[i] != prefix[i] {
            proof {
                assert(cs@.take(7)[i as int] != "Bearer "@[i as int]);
            }
            return Err(AppError::Unauthorized);
        }
        i = i + 1;
    }
    proof {
        assert(cs@.take(7) =~= "Bearer "@);
    }
    let mut out = String::new();
    let mut k: usize = 7;
    while k < cs.len()
        invariant
            7 <= k <= cs@.len(),
            out@ == cs@.subrange(7, k as int),
        decreases cs.len() - k,
    {
        push_char(&mut out, cs[k]);
        proof {
            assert(cs@.subrange(7, k + 1) =~= cs@.subrange(7, k as int).push(cs@[k as int]));
        }
        k = k + 1;
    }
    proof {
        assert(out@ =~= h@.skip(7));
    }
    Ok(out)
}

} // verus!
