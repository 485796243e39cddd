//! Encoding a file into a frame and decoding a frame back into a file.
use vstd::prelude::*;
use crate::name::{base_of, ext_of, joined, split_name, join_name, lemma_rename_round_trip};
use crate::frame::{
    Frame, SALT_LEN, NONCE_LEN, HEADER_LEN, frame_bytes, salt_of, nonce_of, ciphertext_of,
    encode_frame, decode_frame, lemma_frame_round_trip,
};
use crate::sealing::{KEY_LEN, derived_key, sealed, opened, random_salt, random_nonce, derive_key, seal, open};
use crate::envelope::{
    UnpackedView, lemma_scan_errors, packed_of, unpacked_of, envelope_from_bytes, envelope_of, envelope_pairs, text_fits,
    pack_envelope, unpack_envelope,
};

verus! {

/// Why an encode or a decode did not complete.
#[derive(Debug, Clone, Copy, PartialEq, Eq, Structural)]
pub enum GibberishError {
    /// The input is too short to hold salt and nonce.
    MalformedFrame,
    /// The extension or the content is too long for the envelope's 32-bit lengths.
    TooLarge,
    /// The password hash could not be computed (e.g. out of memory).
    KeyDerivationFailure,
    /// Wrong passphrase, or a corrupted or tampered frame.
    AuthenticationFailure,
    /// The decrypted bytes are not a MessagePack value.
    InvalidEnvelope,
    /// The top-level value is not a map.
    NotAMap,
    /// A map key is not a string.
    KeyNotText,
    /// The `extension` entry is not a string.
    ExtensionNotText,
    /// The `file` entry is not a byte string.
    FileNotBinary,
    /// The map has no `extension` entry.
    ExtensionMissing,
    /// The map has no `file` entry.
    FileMissing,
}

/// An encoded file: the name to write it under and its frame.
pub struct Encoded {
    pub filename: String,
    pub frame: Vec<u8>,
}

/// A decoded file: the name to write it under and its content.
pub struct Decoded {
    pub filename: String,
    pub content: Vec<u8>,
}

pub open spec fn pass_view(p: Option<&str>) -> Option<Seq<char>> {
    match p {
        Some(s) => Some(s@),
        None => None,
    }
}

/// The passphrase an encode uses: the one given, else the target extension.
pub open spec fn encode_passphrase(target: Seq<char>, pass: Option<Seq<char>>) -> Seq<char> {
    match pass {
        Some(p) => p,
        None => target,
    }
}

/// The passphrase a decode uses: the one given, else the extension of the
/// file being decoded.
pub open spec fn decode_passphrase(path: Seq<char>, pass: Option<Seq<char>>) -> Seq<char> {
    match pass {
        Some(p) => p,
        None => ext_of(path),
    }
}

/// Sizes that the envelope format can carry.
pub open spec fn fits(path: Seq<char>, content: Seq<u8>) -> bool {
    text_fits(ext_of(path)) && content.len() <= u32::MAX
}

/// The frame that encoding a file gives under a salt, a nonce and a key.
pub open spec fn encoded_frame(path: Seq<char>, content: Seq<u8>, salt: Seq<u8>, nonce: Seq<u8>, key: Seq<u8>) -> Seq<u8> {
    frame_bytes(salt, nonce, sealed(packed_of(envelope_pairs(ext_of(path), content)), nonce, key))
}

/// Decoding the nonce and ciphertext of a frame under a key, for a file at `path`.
pub open spec fn decoded_parts(path: Seq<char>, nonce: Seq<u8>, ciphertext: Seq<u8>, key: Seq<u8>)
    -> Result<(Seq<char>, Seq<u8>), GibberishError> {
    match opened(ciphertext, nonce, key) {
        None => Err(GibberishError::AuthenticationFailure),
        Some(m) => match envelope_from_bytes(m) {
            Err(e) => Err(e),
            Ok((x, c)) => Ok((joined(base_of(path), x), c)),
        },
    }
}

/// Decoding frame bytes at `path` with a passphrase source, where the key
/// derivation completes.
pub open spec fn decoded(path: Seq<char>, bytes: Seq<u8>, pass: Option<Seq<char>>)
    -> Result<(Seq<char>, Seq<u8>), GibberishError> {
    if bytes.len() < HEADER_LEN {
        Err(GibberishError::MalformedFrame)
    } else {
        decoded_parts(path, nonce_of(bytes), ciphertext_of(bytes),
            derived_key(decode_passphrase(path, pass), salt_of(bytes)))
    }
}

pub open spec fn decoded_view(r: Result<Decoded, GibberishError>) -> Result<(Seq<char>, Seq<u8>), GibberishError> {
    match r {
        Ok(d) => Ok((d.filename@, d.content@)),
        Err(e) => Err(e),
    }
}

/// Encodes a file under a given salt, nonce and key. Any file name whose
/// frame this is decodes under the same key to the original extension and
/// content.
pub fn encode_with_key(path: &str, content: Vec<u8>, target_ext: &str, salt: &[u8], nonce: &[u8], key: &[u8]) -> (r: Encoded)
    requires
        salt@.len() == SALT_LEN,
        nonce@.len() == NONCE_LEN,
        key@.len() == KEY_LEN,
    ensures
        r.filename@ == joined(base_of(path@), target_ext@),
        r.frame@ == encoded_frame(path@, content@, salt@, nonce@, key@),
        r.frame@.len() >= HEADER_LEN,
        salt_of(r.frame@) == salt@,
        fits(path@, content@) ==> forall|n: Seq<char>|
            #[trigger] decoded_parts(n, nonce_of(r.frame@), ciphertext_of(r.frame@), key@)
                == Ok::<(Seq<char>, Seq<u8>), GibberishError>((joined(base_of(n), ext_of(path@)), content@)),
{
    let ghost c = content@;
    let (base, orig_ext) = split_name(path);
    let packed = pack_envelope(orig_ext.as_str(), content);
    let ciphertext = seal(&packed, nonce, key);
    let frame = encode_frame(salt, nonce, &ciphertext);
    proof {
        lemma_frame_round_trip(salt@, nonce@, ciphertext@);
    }
    Encoded { filename: join_name(base.as_str(), target_ext), frame }
}

/// Encodes a file under a given salt and nonce, with the passphrase given or,
/// without one, the target extension. Where it succeeds, decoding the frame
/// under any file name whose passphrase source yields that same passphrase
/// gives back the original extension and content.
pub fn encode_with(path: &str, content: Vec<u8>, target_ext: &str, passphrase: Option<&str>, salt: &[u8], nonce: &[u8])
    -> (r: Result<Encoded, GibberishError>)
    requires
        salt@.len() == SALT_LEN,
        nonce@.len() == NONCE_LEN,
    ensures
        !fits(path@, content@) <==> r matches Err(GibberishError::TooLarge),
        match r {
            Err(e) => e == GibberishError::TooLarge || e == GibberishError::KeyDerivationFailure,
            Ok(e) => {
                &&& e.filename@ == joined(base_of(path@), target_ext@)
                &&& e.frame@ == encoded_frame(path@, content@, salt@, nonce@,
                    derived_key(encode_passphrase(target_ext@, pass_view(passphrase)), salt@))
                &&& forall|n: Seq<char>|
                    decode_passphrase(n, pass_view(passphrase)) == encode_passphrase(target_ext@, pass_view(passphrase))
                    ==> #[trigger] decoded(n, e.frame@, pass_view(passphrase))
                        == Ok::<(Seq<char>, Seq<u8>), GibberishError>((joined(base_of(n), ext_of(path@)), content@))
                &&& path@.contains('.') && !target_ext@.contains('.')
                    ==> decoded(e.filename@, e.frame@, pass_view(passphrase))
                        == Ok::<(Seq<char>, Seq<u8>), GibberishError>((path@, content@))
            },
        },
{
    if content.len() > 0xffff_ffff {
        return Err(GibberishError::TooLarge);
    }
    let (_, orig_ext) = split_name(path);
    if orig_ext.as_str().unicode_len() > 0x3fff_ffff {
        return Err(GibberishError::TooLarge);
    }
    let pass: &str = match passphrase {
        Some(p) => p,
        None => target_ext,
    };
    let key = match derive_key(pass, salt) {
        Some(k) => k,
        None => {
            return Err(GibberishError::KeyDerivationFailure);
        },
    };
    let e = encode_with_key(path, content, target_ext, salt, nonce, &key);
    proof {
        assert forall|n: Seq<char>|
            decode_passphrase(n, pass_view(passphrase)) == encode_passphrase(target_ext@, pass_view(passphrase))
            && fits(path@, content@)
            implies #[trigger] decoded(n, e.frame@, pass_view(passphrase))
                == Ok::<(Seq<char>, Seq<u8>), GibberishError>((joined(base_of(n), ext_of(path@)), content@)) by {
            assert(decoded_parts(n, nonce_of(e.frame@), ciphertext_of(e.frame@), key@)
                == Ok::<(Seq<char>, Seq<u8>), GibberishError>((joined(base_of(n), ext_of(path@)), content@)));
        }
        if fits(path@, content@) && path@.contains('.') && !target_ext@.contains('.') {
            lemma_rename_round_trip(path@, target_ext@);
            let n = e.filename@;
            assert(decoded_parts(n, nonce_of(e.frame@), ciphertext_of(e.frame@), key@)
                == Ok::<(Seq<char>, Seq<u8>), GibberishError>((joined(base_of(n), ext_of(path@)), content@)));
        }
    }
    Ok(e)
}

/// Encodes a file under a fresh random salt and nonce. `passphrase` is the
/// one to use; without one the target extension is the passphrase.
pub fn encode(path: &str, content: Vec<u8>, target_ext: &str, passphrase: Option<&str>)
    -> (r: Result<Encoded, GibberishError>)
    ensures
        !fits(path@, content@) <==> r matches Err(GibberishError::TooLarge),
        match r {
            Err(e) => e == GibberishError::TooLarge || e == GibberishError::KeyDerivationFailure,
            Ok(e) => {
                &&& e.filename@ == joined(base_of(path@), target_ext@)
                &&& e.frame@ == encoded_frame(path@, content@, salt_of(e.frame@), nonce_of(e.frame@),
                    derived_key(encode_passphrase(target_ext@, pass_view(passphrase)), salt_of(e.frame@)))
                &&& forall|n: Seq<char>|
                    decode_passphrase(n, pass_view(passphrase)) == encode_passphrase(target_ext@, pass_view(passphrase))
                    ==> #[trigger] decoded(n, e.frame@, pass_view(passphrase))
                        == Ok::<(Seq<char>, Seq<u8>), GibberishError>((joined(base_of(n), ext_of(path@)), content@))
                &&& path@.contains('.') && !target_ext@.contains('.')
                    ==> decoded(e.filename@, e.frame@, pass_view(passphrase))
                        == Ok::<(Seq<char>, Seq<u8>), GibberishError>((path@, content@))
            },
        },
{
    let salt = random_salt();
    let nonce = random_nonce();
    let r = encode_with(path, content, target_ext, passphrase, &salt, &nonce);
    proof {
        if r is Ok {
            lemma_frame_round_trip(salt@, nonce@,
                sealed(packed_of(envelope_pairs(ext_of(path@), content@)), nonce@,
                    derived_key(encode_passphrase(target_ext@, pass_view(passphrase)), salt@)));
        }
    }
    r
}

/// Decodes a well-formed frame under a key, for a file at `path`: the
/// restored name is the path's base with the stored extension.
pub fn open_frame(path: &str, frame: &Frame, key: &[u8]) -> (r: Result<Decoded, GibberishError>)
    requires
        frame.wf(),
        key@.len() == KEY_LEN,
    ensures
        decoded_view(r) == decoded_parts(path@, frame.nonce@, frame.ciphertext@, key@),
        !(r matches Err(GibberishError::MalformedFrame)),
        !(r matches Err(GibberishError::KeyDerivationFailure)),
{
    let plain = match open(&frame.ciphertext, &frame.nonce, key) {
        Some(m) => m,
        None => {
            return Err(GibberishError::AuthenticationFailure);
        },
    };
    proof {
        if let UnpackedView::Entries(es) = unpacked_of(plain@) {
            lemma_scan_errors(es, 0, None, None);
        }
    }
    let env = match unpack_envelope(&plain) {
        Ok(env) => env,
        Err(e) => {
            return Err(e);
        },
    };
    let (base, _) = split_name(path);
    Ok(Decoded { filename: join_name(base.as_str(), env.extension.as_str()), content: env.content })
}

/// Decodes frame bytes read from `path`. `passphrase` is the one to use;
/// without one the path's own extension is the passphrase.
pub fn decode(path: &str, bytes: &[u8], passphrase: Option<&str>) -> (r: Result<Decoded, GibberishError>)
    ensures
        bytes@.len() < HEADER_LEN <==> r matches Err(GibberishError::MalformedFrame),
        match r {
            Err(GibberishError::KeyDerivationFailure) => bytes@.len() >= HEADER_LEN,
            _ => decoded_view(r) == decoded(path@, bytes@, pass_view(passphrase)),
        },
{
    let frame = match decode_frame(bytes) {
        Ok(f) => f,
        Err(e) => {
            return Err(e);
        },
    };
    let (_, ext) = split_name(path);
    let pass: &str = match passphrase {
        Some(p) => p,
        None => ext.as_str(),
    };
    let key = match derive_key(pass, &frame.salt) {
        Some(k) => k,
        None => {
            return Err(GibberishError::KeyDerivationFailure);
        },
    };
    open_frame(path, &frame, &key)
}

} // verus!
