//! Turns a file into an authenticated, passphrase-sealed blob and back.
//!
//! A blob is a frame `salt || nonce || ciphertext`; the ciphertext seals a
//! MessagePack map that carries the original extension and content.
pub mod name;
pub mod frame;
pub mod sealing;
pub mod envelope;
pub mod pipeline;
