//! The on-disk layout `salt || nonce || ciphertext`.
use vstd::prelude::*;
use crate::pipeline::GibberishError;

verus! {

/// Width of the key-derivation salt at the start of a frame.
pub const SALT_LEN: usize = 32;

/// Width of the cipher nonce that follows the salt.
pub const NONCE_LEN: usize = 24;

/// Width of salt and nonce together: the shortest well-formed frame.
pub const HEADER_LEN: usize = 56;

/// A frame split into its three parts.
pub struct Frame {
    pub salt: Vec<u8>,
    pub nonce: Vec<u8>,
    pub ciphertext: Vec<u8>,
}

impl Frame {
    pub open spec fn wf(&self) -> bool {
        self.salt@.len() == SALT_LEN && self.nonce@.len() == NONCE_LEN
    }
}

/// The bytes of a frame, laid out as salt, nonce, ciphertext.
pub open spec fn frame_bytes(salt: Seq<u8>, nonce: Seq<u8>, ciphertext: Seq<u8>) -> Seq<u8> {
    salt + nonce + ciphertext
}

/// Salt part of well-formed frame bytes.
pub open spec fn salt_of(b: Seq<u8>) -> Seq<u8> {
    b.subrange(0, SALT_LEN as int)
}

/// Nonce part of well-formed frame bytes.
pub open spec fn nonce_of(b: Seq<u8>) -> Seq<u8> {
    b.subrange(SALT_LEN as int, HEADER_LEN as int)
}

/// Ciphertext part of well-formed frame bytes.
pub open spec fn ciphertext_of(b: Seq<u8>) -> Seq<u8> {
    b.subrange(HEADER_LEN as int, b.len() as int)
}

fn copy_range(b: &[u8], lo: usize, hi: usize) -> (r: Vec<u8>)
    requires
        lo <= hi <= b@.len(),
    ensures
        r@ == b@.subrange(lo as int, hi as int),
{
    let mut r: Vec<u8> = Vec::with_capacity(hi - lo);
    let mut i: usize = lo;
    while i < hi
        invariant
            lo <= i <= hi <= b@.len(),
            r@ == b@.subrange(lo as int, i as int),
        decreases hi - i,
    {
        r.push(b[i]);
        i = i + 1;
        assert(r@ =~= b@.subrange(lo as int, i as int));
    }
    r
}

fn append_all(dst: &mut Vec<u8>, src: &[u8])
    ensures
        final(dst)@ == old(dst)@ + src@,
{
    let mut i: usize = 0;
    while i < src.len()
        invariant
            i <= src@.len(),
            dst@ == old(dst)@ + src@.subrange(0, i as int),
        decreases src@.len() - i,
    {
        dst.push(src[i]);
        i = i + 1;
        assert(dst@ =~= old(dst)@ + src@.subrange(0, i as int));
    }
    assert(src@.subrange(0, src@.len() as int) =~= src@);
}

/// Lays out salt, nonce and ciphertext one after the other.
pub fn encode_frame(salt: &[u8], nonce: &[u8], ciphertext: &[u8]) -> (r: Vec<u8>)
    requires
        salt@.len() == SALT_LEN,
        nonce@.len() == NONCE_LEN,
    ensures
        r@ == frame_bytes(salt@, nonce@, ciphertext@),
{
    let mut r: Vec<u8> = Vec::new();
    append_all(&mut r, salt);
    append_all(&mut r, nonce);
    append_all(&mut r, ciphertext);
    assert(r@ =~= frame_bytes(salt@, nonce@, ciphertext@));
    r
}

/// Splits frame bytes into salt, nonce and ciphertext; input shorter than
/// salt and nonce together is malformed.
pub fn decode_frame(bytes: &[u8]) -> (r: Result<Frame, GibberishError>)
    ensures
        bytes@.len() < HEADER_LEN <==> r == Err::<Frame, GibberishError>(GibberishError::MalformedFrame),
        match r {
            Ok(f) => f.wf() && f.salt@ == salt_of(bytes@) && f.nonce@ == nonce_of(bytes@)
                && f.ciphertext@ == ciphertext_of(bytes@),
            Err(e) => e == GibberishError::MalformedFrame,
        },
{
    if bytes.len() < HEADER_LEN {
        return Err(GibberishError::MalformedFrame);
    }
    let salt = copy_range(bytes, 0, SALT_LEN);
    let nonce = copy_range(bytes, SALT_LEN, HEADER_LEN);
    let ciphertext = copy_range(bytes, HEADER_LEN, bytes.len());
    Ok(Frame { salt, nonce, ciphertext })
}

/// Splitting laid-out bytes gives back the parts they were laid out from.
pub proof fn lemma_frame_round_trip(salt: Seq<u8>, nonce: Seq<u8>, ciphertext: Seq<u8>)
    requires
        salt.len() == SALT_LEN,
        nonce.len() == NONCE_LEN,
    ensures
        frame_bytes(salt, nonce, ciphertext).len() >= HEADER_LEN,
        salt_of(frame_bytes(salt, nonce, ciphertext)) == salt,
        nonce_of(frame_bytes(salt, nonce, ciphertext)) == nonce,
        ciphertext_of(frame_bytes(salt, nonce, ciphertext)) == ciphertext,
{
    let b = frame_bytes(salt, nonce, ciphertext);
    assert(salt_of(b) =~= salt);
    assert(nonce_of(b) =~= nonce);
    assert(ciphertext_of(b) =~= ciphertext);
}

} // verus!
