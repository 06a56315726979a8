//! The on-disk container layout shared by both pipelines: a 16-byte salt,
//! then the nonce whose length the cipher dictates, then the body. There is
//! no magic number and no cipher tag; the caller must supply the matching
//! cipher at decrypt time.

use vstd::prelude::*;
use crate::error::CoreError;
use crate::global::{CipherType, SALT_LEN, spec_nonce_len, spec_header_len, nonce_len};
use crate::util::{append_bytes, copy_range};

verus! {

/// The header and body split out of a container.
#[derive(Debug)]
pub struct Container {
    pub salt: Vec<u8>,
    pub nonce: Vec<u8>,
    pub body: Vec<u8>,
}

/// A container is well formed for `cipher` when its parts have the sizes the
/// format fixes.
pub open spec fn container_wf(c: Container, cipher: CipherType) -> bool {
    c.salt@.len() == SALT_LEN && c.nonce@.len() == spec_nonce_len(cipher)
}

/// The bytes a container is written as: salt, nonce, body, nothing else.
pub open spec fn spec_container_bytes(salt: Seq<u8>, nonce: Seq<u8>, body: Seq<u8>) -> Seq<u8> {
    salt + nonce + body
}

/// Serialize a container: emit the salt, then the nonce, then the body.
pub fn encode_container(salt: &[u8], nonce: &[u8], body: &[u8]) -> (r: Vec<u8>)
    ensures
        r@ == spec_container_bytes(salt@, nonce@, body@),
{
    let mut out: Vec<u8> = Vec::new();
    append_bytes(&mut out, salt);
    append_bytes(&mut out, nonce);
    append_bytes(&mut out, body);
    out
}

/// Split a container into salt, nonce and body. Data shorter than the header
/// for `cipher` is rejected as malformed; anything else splits exactly, the
/// whole remainder being the body.
pub fn parse_container(data: &[u8], cipher: CipherType) -> (r: Result<Container, CoreError>)
    ensures
        r is Ok <==> data@.len() >= spec_header_len(cipher),
        r matches Ok(c) ==> {
            &&& container_wf(c, cipher)
            &&& c.salt@ == data@.subrange(0, SALT_LEN as int)
            &&& c.nonce@ == data@.subrange(SALT_LEN as int, spec_header_len(cipher) as int)
            &&& c.body@ == data@.subrange(spec_header_len(cipher) as int, data@.len() as int)
            &&& data@ == spec_container_bytes(c.salt@, c.nonce@, c.body@)
        },
        r matches Err(e) ==> e == CoreError::MalformedContainer,
{
    let nlen = nonce_len(cipher);
    let header = SALT_LEN + nlen;
    if data.len() < header {
        return Err(CoreError::MalformedContainer);
    }
    let salt = copy_range(data, 0, SALT_LEN);
    let nonce = copy_range(data, SALT_LEN, header);
    let body = copy_range(data, header, data.len());
    proof {
        assert(data@ =~= salt@ + nonce@ + body@);
    }
    Ok(Container { salt, nonce, body })
}

} // verus!
