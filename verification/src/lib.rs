//! Verified core of a file-encryption tool: authenticated encryption of byte
//! buffers in a whole-file ("memory") mode and a chunked ("stream") mode, the
//! on-disk container layout, key derivation and secret handling, multi-pass
//! erase planning, and the decisions behind packing a directory tree into an
//! encrypted archive.
//!
//! Everything here works on plain values (bytes, strings, flags); reading and
//! writing files, prompting, and argument handling live outside the library.

pub mod archive;
pub mod cipher;
pub mod codec;
pub mod erase;
pub mod error;
pub mod global;
pub mod hash;
pub mod kdf;
pub mod key;
pub mod memory;
pub mod pipeline;
pub mod rng;
pub mod secret;
pub mod stream;
pub mod util;
