//! Key derivation and authenticated encryption, through libsodium.
use vstd::prelude::*;
use crate::frame::{SALT_LEN, NONCE_LEN};
use sodiumoxide::crypto::pwhash;
use sodiumoxide::crypto::secretbox;

verus! {

/// Width of the symmetric key.
pub const KEY_LEN: usize = 32;

/// Width of the authentication tag that sealing adds.
pub const TAG_LEN: usize = 16;

/// The key that scrypt, at the interactive cost, derives from a passphrase
/// and a salt.
pub uninterp spec fn derived_key(passphrase: Seq<char>, salt: Seq<u8>) -> Seq<u8>;

/// The ciphertext (tag included) that XSalsa20-Poly1305 makes of a message
/// under a nonce and a key.
pub uninterp spec fn sealed(message: Seq<u8>, nonce: Seq<u8>, key: Seq<u8>) -> Seq<u8>;

/// What XSalsa20-Poly1305 opens a ciphertext to under a nonce and a key:
/// `None` where the tag does not verify.
pub uninterp spec fn opened(ciphertext: Seq<u8>, nonce: Seq<u8>, key: Seq<u8>) -> Option<Seq<u8>>;

/// Relies on pwhash::gen_salt: fresh random bytes, as wide as a salt.
#[verifier::external_body]
pub(crate) fn random_salt() -> (r: Vec<u8>)
    ensures
        r@.len() == SALT_LEN,
{
    pwhash::gen_salt().0.to_vec()
}

/// Relies on secretbox::gen_nonce: fresh random bytes, as wide as a nonce.
#[verifier::external_body]
pub(crate) fn random_nonce() -> (r: Vec<u8>)
    ensures
        r@.len() == NONCE_LEN,
{
    secretbox::gen_nonce().0.to_vec()
}

/// Relies on pwhash::derive_key at the interactive limits: a key of
/// `KEY_LEN` bytes that depends on the passphrase and the salt alone, or
/// `None` where the computation did not complete.
#[verifier::external_body]
pub(crate) fn derive_key(passphrase: &str, salt: &[u8]) -> (r: Option<Vec<u8>>)
    requires
        salt@.len() == SALT_LEN,
    ensures
        r is Some ==> r->0@ == derived_key(passphrase@, salt@) && r->0@.len() == KEY_LEN,
{
    let salt = pwhash::Salt::from_slice(salt).unwrap();
    let mut key = [0u8; secretbox::KEYBYTES];
    match pwhash::derive_key(&mut key, passphrase.as_bytes(), &salt,
        pwhash::OPSLIMIT_INTERACTIVE, pwhash::MEMLIMIT_INTERACTIVE) {
        Ok(k) => Some(k.to_vec()),
        Err(()) => None,
    }
}

/// Relies on secretbox::seal: the ciphertext is the message's length plus
/// the tag, and secretbox::open with the same nonce and key gives the
/// message back.
#[verifier::external_body]
pub(crate) fn seal(message: &[u8], nonce: &[u8], key: &[u8]) -> (r: Vec<u8>)
    requires
        nonce@.len() == NONCE_LEN,
        key@.len() == KEY_LEN,
    ensures
        r@ == sealed(message@, nonce@, key@),
        r@.len() == message@.len() + TAG_LEN,
        opened(r@, nonce@, key@) == Some(message@),
{
    let nonce = secretbox::Nonce::from_slice(nonce).unwrap();
    let key = secretbox::Key::from_slice(key).unwrap();
    secretbox::seal(message, &nonce, &key)
}

/// Relies on secretbox::open: the plaintext where the tag verifies,
/// `None` otherwise.
#[verifier::external_body]
pub(crate) fn open(ciphertext: &[u8], nonce: &[u8], key: &[u8]) -> (r: Option<Vec<u8>>)
    requires
        nonce@.len() == NONCE_LEN,
        key@.len() == KEY_LEN,
    ensures
        match r {
            Some(m) => opened(ciphertext@, nonce@, key@) == Some(m@),
            None => opened(ciphertext@, nonce@, key@) is None,
        },
{
    let nonce = secretbox::Nonce::from_slice(nonce).unwrap();
    let key = secretbox::Key::from_slice(key).unwrap();
    secretbox::open(ciphertext, &nonce, &key).ok()
}

} // verus!
