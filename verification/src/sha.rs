//! The server hash: SHA-1 over server id, shared secret and public key,
//! rendered with the signed hexadecimal method.
//!
//! The SHA-1 computation itself is the `sha1` crate's, behind trusted
//! wrappers; everything done with the digest is verified.

use vstd::prelude::*;
use vstd::string::StringSliceAdditionalSpecFns;
use crate::hex::format_signed_hex;
use crate::hex::signed_hex;
use crate::hex::signed_val;

verus! {

#[verifier::external_type_specification]
#[verifier::external_body]
pub struct ExSha1(sha1::Sha1);

/// The contents of a hasher: the bytes fed to it so far.
pub uninterp spec fn sha1_fed(h: sha1::Sha1) -> Seq<u8>;

/// The SHA-1 digest of a byte string, as `sha1::Sha1::digest` computes it; a
/// function of the fed bytes alone.
pub uninterp spec fn sha1_of(data: Seq<u8>) -> Seq<u8>;

/// Relies on `sha1::Sha1::new`: a fresh hasher has been fed nothing.
#[verifier::external_body]
pub(crate) fn sha1_new() -> (h: sha1::Sha1)
    ensures
        sha1_fed(h) == Seq::<u8>::empty(),
{
    sha1::Sha1::new()
}

/// Relies on `sha1::Sha1::update`: feeding data appends it to the bytes fed.
#[verifier::external_body]
pub(crate) fn sha1_update(h: &mut sha1::Sha1, data: &[u8])
    ensures
        sha1_fed(*final(h)) == sha1_fed(*old(h)) + data@,
{
    h.update(data);
}

/// Relies on `sha1::Sha1::digest` and `sha1::Digest::bytes`: the 20-byte
/// SHA-1 digest of the bytes fed so far.
#[verifier::external_body]
pub(crate) fn sha1_digest(h: &sha1::Sha1) -> (r: [u8; 20])
    ensures
        r@ == sha1_of(sha1_fed(*h)),
        r@.len() == 20,
{
    h.digest().bytes()
}

/// Renders the digest of the bytes fed to `hasher` with the signed
/// hexadecimal method used by the Minecraft protocol.
pub fn hexdigest(hasher: &sha1::Sha1) -> (r: String)
    ensures
        r@ == signed_hex(signed_val(sha1_of(sha1_fed(*hasher)))),
{
    let digest = sha1_digest(hasher);
    format_signed_hex(&digest)
}

/// Computes the server hash: the signed hexadecimal rendering of the SHA-1
/// digest of the server id's bytes, the shared secret and the public key,
/// fed in that order.
pub fn server_hash(server_id: &str, shared_secret: [u8; 16], pub_key: &[u8]) -> (r: String)
    ensures
        r@ == signed_hex(signed_val(sha1_of(
            server_id.spec_bytes() + shared_secret@ + pub_key@,
        ))),
{
    let mut hasher = sha1_new();
    sha1_update(&mut hasher, server_id.as_bytes());
    sha1_update(&mut hasher, shared_secret.as_slice());
    sha1_update(&mut hasher, pub_key);
    proof {
        assert(sha1_fed(hasher) =~= server_id.spec_bytes() + shared_secret@ + pub_key@);
    }
    hexdigest(&hasher)
}

} // verus!
