//! `login`: the server's public key, the encrypted password sent with a
//! login request, and reading the server's refusal.
use vstd::prelude::*;
use crate::text::{byte_len, contains_str, has_infix, lemma_byte_len_is_utf8_len};

verus! {

#[verifier::external_type_specification]
#[verifier::external_body]
pub struct ExRsaPublicKey(rsa::RsaPublicKey);

#[verifier::external_type_specification]
#[verifier::external_body]
pub struct ExRsaError(rsa::Error);

#[verifier::external_type_specification]
#[verifier::external_body]
pub struct ExPkcs1Error(rsa::pkcs1::Error);

/// Why a login could not prepare its request.
pub enum LoginError {
    /// The server's public key is not a PKCS#1 PEM RSA key.
    PublicKey(rsa::pkcs1::Error),
    /// Encrypting the password failed.
    Encryption(rsa::Error),
}

/// The character of the standard base64 alphabet for the 6-bit value `v`.
pub open spec fn b64_digit(v: int) -> char {
    if v < 26 {
        (65 + v) as char
    } else if v < 52 {
        (97 + (v - 26)) as char
    } else if v < 62 {
        (48 + (v - 52)) as char
    } else if v == 62 {
        '+'
    } else {
        '/'
    }
}

/// Standard base64 (RFC 4648, with `=` padding): each group of three bytes
/// becomes four characters.
pub open spec fn base64_encode(b: Seq<u8>) -> Seq<char>
    decreases b.len(),
{
    if b.len() == 0 {
        Seq::empty()
    } else if b.len() == 1 {
        seq![b64_digit((b[0] / 4) as int), b64_digit((b[0] % 4) * 16), '=', '=']
    } else if b.len() == 2 {
        seq![
            b64_digit((b[0] / 4) as int),
            b64_digit((b[0] % 4) * 16 + b[1] / 16),
            b64_digit((b[1] % 16) * 4),
            '=',
        ]
    } else {
        seq![
            b64_digit((b[0] / 4) as int),
            b64_digit((b[0] % 4) * 16 + b[1] / 16),
            b64_digit((b[1] % 16) * 4 + b[2] / 64),
            b64_digit((b[2] % 64) as int),
        ] + base64_encode(b.skip(3))
    }
}

/// `base64::engine::general_purpose::STANDARD.encode(bytes)`: the contract
/// claims the crate's standard engine gives RFC 4648 base64 with padding.
#[verifier::external_body]
fn base64_standard(bytes: &[u8]) -> (s: String)
    ensures
        s@ == base64_encode(bytes@),
{
    base64::Engine::encode(&base64::engine::general_purpose::STANDARD, bytes)
}

/// Whether `rsa::RsaPublicKey::from_pkcs1_pem` accepts the text.
pub uninterp spec fn pkcs1_pem_accepted(pem: Seq<char>) -> bool;

/// `rsa::RsaPublicKey::from_pkcs1_pem(pem)`. The contract says only that
/// whether a key comes back depends on the text alone; which texts are
/// keys (PEM framing, DER, the RSA structure) is left to the crate.
#[verifier::external_body]
fn decode_pkcs1_pem(pem: &str) -> (r: Result<rsa::RsaPublicKey, rsa::pkcs1::Error>)
    ensures
        r is Ok <==> pkcs1_pem_accepted(pem@),
{
    <rsa::RsaPublicKey as rsa::pkcs1::DecodeRsaPublicKey>::from_pkcs1_pem(pem)
}

/// `key.encrypt(&mut rand::thread_rng(), rsa::Oaep::new::<sha2::Sha256>(), msg)`:
/// RSA-OAEP with SHA-256 and fresh randomness. The contract claims only that
/// a ciphertext is as long as the key's modulus in bytes, which the crate
/// refuses to be shorter than the message plus two SHA-256 digests plus two
/// (66 bytes). The bytes themselves rest on the random padding, and the
/// modulus size of the opaque key is not stated, nor which keys the crate
/// rejects.
#[verifier::external_body]
fn oaep_sha256_encrypt(key: &rsa::RsaPublicKey, msg: &[u8]) -> (r: Result<Vec<u8>, rsa::Error>)
    ensures
        r matches Ok(c) ==> c@.len() >= msg@.len() + 66,
{
    key.encrypt(&mut rand::thread_rng(), rsa::Oaep::new::<sha2::Sha256>(), msg)
}

/// The server's public key from the PEM text it sent.
pub fn public_key_from_pem(pem: &str) -> (r: Result<rsa::RsaPublicKey, LoginError>)
    ensures
        r is Ok <==> pkcs1_pem_accepted(pem@),
{
    match decode_pkcs1_pem(pem) {
        Ok(k) => Ok(k),
        Err(e) => Err(LoginError::PublicKey(e)),
    }
}

/// What is sent for an encrypted password: the ciphertext in standard
/// base64, or the encryption error.
pub fn encode_ciphertext(ciphertext: Result<Vec<u8>, rsa::Error>) -> (r: Result<String, LoginError>)
    ensures
        match ciphertext {
            Ok(c) => r matches Ok(s) && s@ == base64_encode(c@),
            Err(e) => r matches Err(LoginError::Encryption(f)) && f == e,
        },
{
    match ciphertext {
        Ok(c) => Ok(base64_standard(c.as_slice())),
        Err(e) => Err(LoginError::Encryption(e)),
    }
}

/// The password encrypted with the server's key, in base64: the text of a
/// ciphertext at least 66 bytes longer than the password in UTF-8.
pub fn encrypt_password(password: &str, public_key: &rsa::RsaPublicKey) -> (r: Result<
    String,
    LoginError,
>)
    ensures
        r matches Ok(s) ==> exists|c: Seq<u8>|
            c.len() >= byte_len(password@) + 66 && s@ == base64_encode(c),
        r matches Err(e) ==> e is Encryption,
{
    proof {
        lemma_byte_len_is_utf8_len(password@);
    }
    let bytes = password.as_bytes();
    assert(bytes@.len() == byte_len(password@));
    let ciphertext = oaep_sha256_encrypt(public_key, bytes);
    let ghost sent = ciphertext;
    let r = encode_ciphertext(ciphertext);
    proof {
        if let Ok(c) = sent {
            assert(r matches Ok(s) && s@ == base64_encode(c@));
            assert(c@.len() >= byte_len(password@) + 66);
        }
    }
    r
}

/// The server refused a login because it wants a second factor.
pub open spec fn asks_for_second_factor(body: Seq<char>) -> bool {
    has_infix(body, "2FA"@) || has_infix(body, "two-factor"@) || has_infix(body, "two_factor"@)
}

/// Whether a refused login's response body asks for a 2FA code.
pub fn needs_second_factor(body: &str) -> (r: bool)
    ensures
        r == asks_for_second_factor(body@),
{
    contains_str(body, "2FA") || contains_str(body, "two-factor") || contains_str(body, "two_factor")
}

} // verus!
