//! Key derivation and the record cipher: a password is sealed with AES-256-GCM
//! under a fresh 12-byte nonce and stored as Base64 of nonce ‖ ciphertext ‖ tag.

use aes_gcm::aead::{Aead, OsRng};
use aes_gcm::{AeadCore, Aes256Gcm, Key, KeyInit, Nonce};
use argon2::Argon2;
use base64::prelude::BASE64_STANDARD;
use base64::Engine;
use vstd::prelude::*;
use zeroize::Zeroize;
use vstd::string::StringSliceAdditionalSpecFns;
use vstd::utf8::{decode_utf8, encode_utf8, valid_utf8};

use crate::error::VaultError;
use crate::secret::SecretBuffer;

verus! {

pub const NONCE_LEN: usize = 12;

pub const KEY_LEN: usize = 32;

pub const TAG_LEN: usize = 16;

/// Largest plaintext, in bytes, that AES-GCM seals as one message.
pub const MAX_PLAINTEXT_LEN: u64 = 68719476736;

/// Longest password or salt, in bytes, that Argon2 takes.
pub const MAX_KDF_INPUT_LEN: u64 = 4294967295;

/// Shortest salt, in bytes, that Argon2 takes.
pub const MIN_KDF_SALT_LEN: u64 = 8;

/// The 32-byte key that Argon2id (version 19, default parameters) derives.
pub uninterp spec fn argon2_key(password: Seq<u8>, salt: Seq<u8>) -> Seq<u8>;

/// AES-256-GCM ciphertext followed by its tag, with empty associated data.
pub uninterp spec fn gcm_seal(key: Seq<u8>, nonce: Seq<u8>, plain: Seq<u8>) -> Seq<u8>;

/// The standard, padded Base64 encoding.
pub uninterp spec fn base64_of(bytes: Seq<u8>) -> Seq<char>;

#[verifier::external_type_specification]
#[verifier::external_body]
pub struct ExArgon2Error(argon2::Error);

#[verifier::external_type_specification]
#[verifier::external_body]
pub struct ExAeadError(aes_gcm::Error);

#[verifier::external_type_specification]
#[verifier::external_body]
pub struct ExDecodeError(base64::DecodeError);

/// Relies on `Argon2::hash_password_into` with `Argon2::default()`: it fills
/// the 32-byte output and fails only on a password or salt whose length is
/// outside Argon2's bounds.
#[verifier::external_body]
fn argon2_derive(password: &[u8], salt: &[u8]) -> (r: Result<Vec<u8>, argon2::Error>)
    ensures
        r is Ok <==> kdf_accepts(password@, salt@),
        r is Ok ==> r->Ok_0@ == argon2_key(password@, salt@),
        r is Ok ==> r->Ok_0@.len() == KEY_LEN,
{
    let mut out = [0u8; 32];
    Argon2::default().hash_password_into(password, salt, &mut out)?;
    Ok(out.to_vec())
}

/// Relies on `AeadCore::generate_nonce` with the operating system's RNG:
/// twelve random bytes.
#[verifier::external_body]
fn random_nonce() -> (r: Vec<u8>)
    ensures
        r@.len() == NONCE_LEN,
{
    Aes256Gcm::generate_nonce(&mut OsRng).to_vec()
}

/// Relies on `Aead::encrypt` of `Aes256Gcm`: it appends a 16-byte tag to the
/// ciphertext and refuses only a plaintext longer than 2^36 bytes.
#[verifier::external_body]
fn gcm_encrypt(key: &[u8], nonce: &[u8], plain: &[u8]) -> (r: Result<Vec<u8>, aes_gcm::Error>)
    requires
        key@.len() == KEY_LEN,
        nonce@.len() == NONCE_LEN,
    ensures
        r is Ok <==> plain@.len() <= MAX_PLAINTEXT_LEN,
        r is Ok ==> r->Ok_0@ == gcm_seal(key@, nonce@, plain@),
        r is Ok ==> r->Ok_0@.len() == plain@.len() + TAG_LEN,
{
    let cipher = Aes256Gcm::new(Key::<Aes256Gcm>::from_slice(key));
    cipher.encrypt(Nonce::from_slice(nonce), plain)
}

/// Relies on `Aead::decrypt` of `Aes256Gcm`: it returns the plaintext exactly
/// when the tag verifies, that is when the input is what `encrypt` produced,
/// after removing the 16-byte tag.
#[verifier::external_body]
fn gcm_decrypt(key: &[u8], nonce: &[u8], sealed: &[u8]) -> (r: Result<Vec<u8>, aes_gcm::Error>)
    requires
        key@.len() == KEY_LEN,
        nonce@.len() == NONCE_LEN,
    ensures
        r is Ok ==> gcm_seal(key@, nonce@, r->Ok_0@) == sealed@,
        r is Ok ==> sealed@.len() == r->Ok_0@.len() + TAG_LEN,
        forall|p: Seq<u8>|
            p.len() <= MAX_PLAINTEXT_LEN && #[trigger] gcm_seal(key@, nonce@, p) == sealed@ ==> (
            r is Ok && r->Ok_0@ == p),
{
    let cipher = Aes256Gcm::new(Key::<Aes256Gcm>::from_slice(key));
    cipher.decrypt(Nonce::from_slice(nonce), sealed)
}

/// Relies on `Engine::encode` of `BASE64_STANDARD`: padded output, four
/// characters for each started group of three bytes.
#[verifier::external_body]
fn base64_encode(bytes: &[u8]) -> (r: String)
    ensures
        r@ == base64_of(bytes@),
        r@.len() == 4 * ((bytes@.len() + 2) / 3),
{
    BASE64_STANDARD.encode(bytes)
}

/// Relies on `Engine::decode` of `BASE64_STANDARD`, which demands canonical
/// padding and no trailing bits, so that it inverts `encode` exactly.
#[verifier::external_body]
fn base64_decode(text: &str) -> (r: Result<Vec<u8>, base64::DecodeError>)
    ensures
        r is Ok ==> base64_of(r->Ok_0@) == text@,
        forall|b: Seq<u8>| #[trigger] base64_of(b) == text@ ==> (r is Ok && r->Ok_0@ == b),
{
    BASE64_STANDARD.decode(text)
}

/// Relies on `String::from_utf8`: it accepts exactly the valid UTF-8 byte strings.
#[verifier::external_body]
fn utf8_string(bytes: Vec<u8>) -> (r: Option<String>)
    ensures
        r is Some <==> valid_utf8(bytes@),
        r is Some ==> r->Some_0@ == decode_utf8(bytes@),
{
    String::from_utf8(bytes).ok()
}

/// Relies on `Zeroize::zeroize` for `Vec<u8>`: it overwrites the bytes and
/// leaves the vector empty.
#[verifier::external_body]
pub(crate) fn wipe_key(key: &mut Vec<u8>)
    ensures
        final(key)@.len() == 0,
{
    key.zeroize();
}

/// Argon2 takes these lengths of password and salt.
pub open spec fn kdf_accepts(password: Seq<u8>, salt: Seq<u8>) -> bool {
    &&& password.len() <= MAX_KDF_INPUT_LEN
    &&& MIN_KDF_SALT_LEN <= salt.len() <= MAX_KDF_INPUT_LEN
}

/// The key derived from a master password and a key salt, both as text.
pub open spec fn derived_key(password: Seq<char>, salt: Seq<char>) -> Seq<u8> {
    argon2_key(encode_utf8(password), encode_utf8(salt))
}

pub open spec fn kdf_accepts_text(password: Seq<char>, salt: Seq<char>) -> bool {
    kdf_accepts(encode_utf8(password), encode_utf8(salt))
}

/// The token that sealing `plain` under `key` with `nonce` gives.
pub open spec fn sealed_token(key: Seq<u8>, nonce: Seq<u8>, plain: Seq<char>) -> Seq<char> {
    base64_of(nonce + gcm_seal(key, nonce, encode_utf8(plain)))
}

/// `token` is what encrypting `plain` under `key` can give.
pub open spec fn is_token_for(key: Seq<u8>, token: Seq<char>, plain: Seq<char>) -> bool {
    &&& encode_utf8(plain).len() <= MAX_PLAINTEXT_LEN
    &&& exists|nonce: Seq<u8>|
        nonce.len() == NONCE_LEN && #[trigger] sealed_token(key, nonce, plain) == token
            && gcm_seal(key, nonce, encode_utf8(plain)).len() == encode_utf8(plain).len() + TAG_LEN
}

proof fn lemma_token_parts(key: Seq<u8>, token: Seq<char>, plain: Seq<char>) -> (nonce: Seq<u8>)
    requires
        is_token_for(key, token, plain),
    ensures
        nonce.len() == NONCE_LEN,
        token == base64_of(nonce + gcm_seal(key, nonce, encode_utf8(plain))),
        gcm_seal(key, nonce, encode_utf8(plain)).len() == encode_utf8(plain).len() + TAG_LEN,
        (nonce + gcm_seal(key, nonce, encode_utf8(plain))).take(NONCE_LEN as int) == nonce,
        (nonce + gcm_seal(key, nonce, encode_utf8(plain))).skip(NONCE_LEN as int) == gcm_seal(
            key,
            nonce,
            encode_utf8(plain),
        ),
        valid_utf8(encode_utf8(plain)),
        decode_utf8(encode_utf8(plain)) == plain,
{
    let nonce = choose|nonce: Seq<u8>|
        nonce.len() == NONCE_LEN && #[trigger] sealed_token(key, nonce, plain) == token
            && gcm_seal(key, nonce, encode_utf8(plain)).len() == encode_utf8(plain).len() + TAG_LEN;
    let c = nonce + gcm_seal(key, nonce, encode_utf8(plain));
    assert(c.take(NONCE_LEN as int) =~= nonce);
    assert(c.skip(NONCE_LEN as int) =~= gcm_seal(key, nonce, encode_utf8(plain)));
    vstd::utf8::encode_utf8_valid_utf8(plain);
    vstd::utf8::encode_utf8_decode_utf8(plain);
    nonce
}

/// `token` is Base64 of more bytes than a nonce.
pub open spec fn token_well_formed(token: Seq<char>) -> bool {
    exists|b: Seq<u8>| #[trigger] base64_of(b) == token && b.len() > NONCE_LEN
}

/// Longest token, in decoded bytes: a nonce, the longest plaintext and a tag.
pub open spec fn max_token_bytes() -> int {
    NONCE_LEN + MAX_PLAINTEXT_LEN + TAG_LEN
}

/// `token` carries a nonce and a ciphertext whose tag verifies under `key`.
pub open spec fn token_authentic(key: Seq<u8>, token: Seq<char>) -> bool {
    exists|b: Seq<u8>, p: Seq<u8>|
        base64_of(b) == token && NONCE_LEN < b.len() <= max_token_bytes() && p.len()
            <= MAX_PLAINTEXT_LEN && #[trigger] gcm_seal(key, b.take(NONCE_LEN as int), p) == b.skip(
            NONCE_LEN as int,
        )
}

/// Some text is sealed in `token` under `key`.
pub open spec fn token_readable(key: Seq<u8>, token: Seq<char>) -> bool {
    exists|p: Seq<char>| #[trigger] is_token_for(key, token, p)
}

proof fn lemma_readable_authentic(key: Seq<u8>, token: Seq<char>, plain: Seq<char>)
    requires
        is_token_for(key, token, plain),
    ensures
        token_well_formed(token),
        token_authentic(key, token),
{
    let n = lemma_token_parts(key, token, plain);
    let b = n + gcm_seal(key, n, encode_utf8(plain));
    assert(base64_of(b) == token);
    assert(gcm_seal(key, b.take(NONCE_LEN as int), encode_utf8(plain)) == b.skip(NONCE_LEN as int));
}

fn concat_bytes(a: &[u8], b: &[u8]) -> (r: Vec<u8>)
    ensures
        r@ == a@ + b@,
{
    let mut out: Vec<u8> = Vec::new();
    let mut i: usize = 0;
    while i < a.len()
        invariant
            i <= a@.len(),
            out@ == a@.take(i as int),
        decreases a@.len() - i,
    {
        out.push(a[i]);
        i = i + 1;
        proof {
            assert(out@ =~= a@.take(i as int));
        }
    }
    let mut j: usize = 0;
    while j < b.len()
        invariant
            j <= b@.len(),
            out@ == a@ + b@.take(j as int),
        decreases b@.len() - j,
    {
        out.push(b[j]);
        j = j + 1;
        proof {
            assert(out@ =~= a@ + b@.take(j as int));
        }
    }
    proof {
        assert(a@.take(a@.len() as int) =~= a@);
        assert(b@.take(b@.len() as int) =~= b@);
    }
    out
}

/// Derives the cipher key from a master password and a key salt.
pub fn derive_key(password: &str, salt: &str) -> (r: Result<Vec<u8>, VaultError>)
    ensures
        r is Ok <==> kdf_accepts_text(password@, salt@),
        r is Ok ==> r->Ok_0@ == derived_key(password@, salt@),
        r is Ok ==> r->Ok_0@.len() == KEY_LEN,
        r is Err ==> r->Err_0 is KdfError,
{
    match argon2_derive(password.as_bytes(), salt.as_bytes()) {
        Ok(k) => Ok(k),
        Err(_) => Err(VaultError::KdfError),
    }
}

/// Seals `plain` under `key` with the given nonce.
pub fn seal_with_nonce(plain: &str, key: &Vec<u8>, nonce: &Vec<u8>) -> (r: Result<String, VaultError>)
    requires
        key@.len() == KEY_LEN,
        nonce@.len() == NONCE_LEN,
    ensures
        r is Ok <==> encode_utf8(plain@).len() <= MAX_PLAINTEXT_LEN,
        r is Ok ==> r->Ok_0@ == sealed_token(key@, nonce@, plain@),
        r is Ok ==> gcm_seal(key@, nonce@, encode_utf8(plain@)).len() == encode_utf8(plain@).len()
            + TAG_LEN,
        r is Ok ==> is_token_for(key@, r->Ok_0@, plain@),
        r is Err ==> r->Err_0 is PlaintextTooLong,
{
    let bytes = plain.as_bytes();
    match gcm_encrypt(key.as_slice(), nonce.as_slice(), bytes) {
        Ok(sealed) => {
            let combined = concat_bytes(nonce.as_slice(), sealed.as_slice());
            Ok(base64_encode(combined.as_slice()))
        },
        Err(_) => Err(VaultError::PlaintextTooLong),
    }
}

/// Encrypts `plain` under `key` with a fresh random nonce.
pub fn encrypt_token(plain: &str, key: &Vec<u8>) -> (r: Result<String, VaultError>)
    requires
        key@.len() == KEY_LEN,
    ensures
        r is Ok <==> encode_utf8(plain@).len() <= MAX_PLAINTEXT_LEN,
        r is Ok ==> is_token_for(key@, r->Ok_0@, plain@),
        r is Err ==> r->Err_0 is PlaintextTooLong,
{
    let nonce = random_nonce();
    seal_with_nonce(plain, key, &nonce)
}

/// Opens a token under `key`: Base64-decodes it, splits off the nonce,
/// verifies and decrypts the rest, and reads the plaintext as UTF-8.
pub fn decrypt_token(token: &str, key: &Vec<u8>) -> (r: Result<SecretBuffer, VaultError>)
    requires
        key@.len() == KEY_LEN,
    ensures
        (r is Err && r->Err_0 is MalformedToken) <==> !token_well_formed(token@),
        (r is Err && r->Err_0 is AuthFailed) <==> token_well_formed(token@) && !token_authentic(
            key@,
            token@,
        ),
        (r is Err && r->Err_0 is MalformedPlaintext) <==> token_authentic(key@, token@)
            && !token_readable(key@, token@),
        r is Ok <==> token_readable(key@, token@),
        r is Err ==> (r->Err_0 is MalformedToken || r->Err_0 is AuthFailed
            || r->Err_0 is MalformedPlaintext),
        r is Ok ==> is_token_for(key@, token@, r->Ok_0@),
        forall|p: Seq<char>| #[trigger]
            is_token_for(key@, token@, p) ==> (r is Ok && r->Ok_0@ == p),
{
    let combined = match base64_decode(token) {
        Ok(c) => c,
        Err(_) => {
            proof {
                assert forall|b: Seq<u8>| !(#[trigger] base64_of(b) == token@ && b.len() > NONCE_LEN) by {}
                assert forall|p: Seq<char>| !is_token_for(key@, token@, p) by {
                    if is_token_for(key@, token@, p) {
                        lemma_readable_authentic(key@, token@, p);
                    }
                }
            }
            return Err(VaultError::MalformedToken);
        },
    };
    if combined.len() <= NONCE_LEN {
        proof {
            assert forall|b: Seq<u8>| !(#[trigger] base64_of(b) == token@ && b.len() > NONCE_LEN) by {}
            assert forall|p: Seq<char>| !is_token_for(key@, token@, p) by {
                if is_token_for(key@, token@, p) {
                    lemma_readable_authentic(key@, token@, p);
                }
            }
        }
        return Err(VaultError::MalformedToken);
    }
    assert(token_well_formed(token@));
    let (nonce, sealed) = combined.as_slice().split_at(NONCE_LEN);
    assert(nonce@ == combined@.take(NONCE_LEN as int));
    assert(sealed@ == combined@.skip(NONCE_LEN as int));
    if sealed.len() as u128 > MAX_PLAINTEXT_LEN as u128 + TAG_LEN as u128 {
        proof {
            assert(!token_authentic(key@, token@));
            assert forall|p: Seq<char>| !is_token_for(key@, token@, p) by {
                if is_token_for(key@, token@, p) {
                    lemma_readable_authentic(key@, token@, p);
                }
            }
        }
        return Err(VaultError::AuthFailed);
    }
    let plain = match gcm_decrypt(key.as_slice(), nonce, sealed) {
        Ok(p) => p,
        Err(_) => {
            proof {
                assert(!token_authentic(key@, token@));
                assert forall|p: Seq<char>| !is_token_for(key@, token@, p) by {
                    if is_token_for(key@, token@, p) {
                        lemma_readable_authentic(key@, token@, p);
                    }
                }
            }
            return Err(VaultError::AuthFailed);
        },
    };
    let ghost pb = plain@;
    proof {
        assert(gcm_seal(key@, combined@.take(NONCE_LEN as int), pb) == combined@.skip(NONCE_LEN as int));
        assert(token_authentic(key@, token@));
    }
    match utf8_string(plain) {
        Some(s) => {
            proof {
                vstd::utf8::decode_utf8_encode_utf8(pb);
                assert(combined@ =~= nonce@ + sealed@);
                assert(sealed_token(key@, nonce@, s@) == token@);
                assert(is_token_for(key@, token@, s@));
                assert forall|p: Seq<char>| #[trigger]
                    is_token_for(key@, token@, p) implies s@ == p by {
                    let n = lemma_token_parts(key@, token@, p);
                    assert(combined@ == n + gcm_seal(key@, n, encode_utf8(p)));
                    assert(gcm_seal(key@, nonce@, encode_utf8(p)) == sealed@);
                }
            }
            Ok(SecretBuffer::new(s))
        },
        None => {
            proof {
                assert forall|p: Seq<char>| !is_token_for(key@, token@, p) by {
                    if is_token_for(key@, token@, p) {
                        let n = lemma_token_parts(key@, token@, p);
                        assert(combined@ == n + gcm_seal(key@, n, encode_utf8(p)));
                        assert(gcm_seal(key@, nonce@, encode_utf8(p)) == sealed@);
                    }
                }
            }
            Err(VaultError::MalformedPlaintext)
        },
    }
}

} // verus!
