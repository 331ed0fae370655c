//! Identity and key validation: what counts as a PEM-encoded RSA public key,
//! and the generation of fresh key pairs. The cryptographic work is openssl's;
//! every call into it stands behind a trusted item here.

use vstd::prelude::*;
use vstd::string::{StringExecFns, StringSliceAdditionalSpecFns};

use crate::error::Error;

verus! {

/// Whether `s` is the text of a syntactically valid PEM-encoded RSA public
/// key (a PEM `PUBLIC KEY` block holding a SubjectPublicKeyInfo RSA key).
/// Validity is decided by openssl's parser and depends on the text alone.
pub uninterp spec fn is_valid_rsa_pem(s: Seq<char>) -> bool;

/// Whether a key text is small enough to hand to openssl's parser: its
/// in-memory BIO takes buffers of at most `c_int::MAX` bytes and aborts on
/// anything larger, so every path into the parser keeps below that.
pub open spec fn fits_key_buffer(text: &str) -> bool {
    text.spec_bytes().len() <= 0x7fffffff
}

/// Relies on openssl's `Rsa::public_key_from_pem`: decodes a PEM-encoded
/// SubjectPublicKeyInfo structure containing an RSA key, from the given
/// bytes alone, and fails on anything else. The length bound keeps the
/// buffer within what the underlying memory BIO accepts without aborting.
#[verifier::external_body]
pub(crate) fn rsa_public_key_parses(text: &str) -> (r: bool)
    requires
        fits_key_buffer(text),
    ensures
        r == is_valid_rsa_pem(text@),
{
    openssl::rsa::Rsa::public_key_from_pem(text.as_bytes()).is_ok()
}

/// The openssl RSA key type, opaque to this crate; values of it are only
/// carried from generation to PEM serialization.
#[verifier::external_type_specification]
#[verifier::external_body]
#[verifier::reject_recursive_types(T)]
pub struct ExRsa<T>(openssl::rsa::Rsa<T>);

/// The openssl marker for private-key material, opaque to this crate.
#[verifier::external_type_specification]
#[verifier::external_body]
pub struct ExPrivate(openssl::pkey::Private);

/// Relies on openssl's `Rsa::generate`: a fresh 2048-bit RSA private key.
/// The result is random, so nothing is claimed of its value.
#[verifier::external_body]
fn rsa_generate() -> (r: Option<openssl::rsa::Rsa<openssl::pkey::Private>>) {
    openssl::rsa::Rsa::generate(2048).ok()
}

/// Relies on openssl's `public_key_to_pem`: serializes the public key to a
/// PEM-encoded SubjectPublicKeyInfo structure — exactly the structure that
/// `Rsa::public_key_from_pem` behind `is_valid_rsa_pem` decodes — handed
/// back as text.
#[verifier::external_body]
fn rsa_public_pem_text(rsa: &openssl::rsa::Rsa<openssl::pkey::Private>) -> (r: Option<String>)
    ensures
        r matches Some(s) ==> is_valid_rsa_pem(s@),
{
    rsa.public_key_to_pem().ok().and_then(|pem| String::from_utf8(pem).ok())
}

/// Relies on openssl's `private_key_to_pem`: serializes the private key to a
/// PEM-encoded PKCS#1 RSAPrivateKey structure, handed back as text. Nothing
/// is claimed of the value.
#[verifier::external_body]
fn rsa_private_pem_text(rsa: &openssl::rsa::Rsa<openssl::pkey::Private>) -> (r: Option<String>) {
    rsa.private_key_to_pem().ok().and_then(|pem| String::from_utf8(pem).ok())
}

/// Generates a fresh RSA key pair and returns `(public, private)` as PEM
/// text. The pair is random, but whatever comes back, a successful public
/// text is a valid PEM-encoded RSA public key — the identity it will serve
/// as everywhere else.
pub fn create_pub_priv_keys() -> (r: Result<(String, String), Error>)
    ensures
        r matches Ok(pair) ==> is_valid_rsa_pem(pair.0@),
        r is Err ==> r->Err_0 matches Error::Io(_),
{
    match rsa_generate() {
        None => Err(Error::Io(String::from_str("key generation failed"))),
        Some(rsa) => {
            let pub_pem = rsa_public_pem_text(&rsa);
            let priv_pem = rsa_private_pem_text(&rsa);
            match (pub_pem, priv_pem) {
                (Some(pb), Some(pv)) => Ok((pb, pv)),
                _ => Err(Error::Io(String::from_str("key generation failed"))),
            }
        },
    }
}

} // verus!
