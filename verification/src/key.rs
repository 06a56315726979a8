//! Key acquisition rules. The host does the prompting and file reading; the
//! decisions — non-empty input, matching confirmation — are made here, and
//! what comes out is always a Secret.

use vstd::prelude::*;
use crate::error::CoreError;
use crate::secret::Secret;
use crate::util::bytes_eq;

verus! {

/// Accept a password typed twice at encryption time: it must be non-empty
/// and both entries must agree, byte for byte.
pub fn key_from_password_pair(first: Vec<u8>, second: &[u8]) -> (r: Result<Secret, CoreError>)
    ensures
        r is Ok <==> first@.len() > 0 && first@ == second@,
        r matches Ok(s) ==> s@ == first@,
        r matches Err(e) ==> if first@.len() == 0 {
            e == CoreError::EmptyPassword
        } else {
            e == CoreError::KeyMismatch
        },
{
    if first.len() == 0 {
        Err(CoreError::EmptyPassword)
    } else if !bytes_eq(first.as_slice(), second) {
        Err(CoreError::KeyMismatch)
    } else {
        Ok(Secret::new(first))
    }
}

/// Accept a password typed once at decryption time: it must be non-empty.
pub fn key_from_password(password: Vec<u8>) -> (r: Result<Secret, CoreError>)
    ensures
        r is Ok <==> password@.len() > 0,
        r matches Ok(s) ==> s@ == password@,
        r matches Err(e) ==> e == CoreError::EmptyPassword,
{
    if password.len() == 0 {
        Err(CoreError::EmptyPassword)
    } else {
        Ok(Secret::new(password))
    }
}

/// Accept the bytes read from a keyfile: they must be non-empty.
pub fn key_from_keyfile(bytes: Vec<u8>) -> (r: Result<Secret, CoreError>)
    ensures
        r is Ok <==> bytes@.len() > 0,
        r matches Ok(s) ==> s@ == bytes@,
        r matches Err(e) ==> e == CoreError::EmptyKeyfile,
{
    if bytes.len() == 0 {
        Err(CoreError::EmptyKeyfile)
    } else {
        Ok(Secret::new(bytes))
    }
}

} // verus!
