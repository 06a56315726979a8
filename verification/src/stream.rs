//! The stream-mode pipeline. Plaintext is cut into fixed-size blocks; chunk
//! `i` is sealed under a nonce whose last four bytes are a big-endian counter
//! advanced by `i` from the random base nonce in the header, with a one-byte
//! associated-data marker telling intermediate chunks (0) from the final one
//! (1). The final chunk is always strictly shorter than a full encrypted
//! chunk, so truncation at a chunk boundary is detectable.

use vstd::prelude::*;
use vstd::arithmetic::div_mod::{
    lemma_add_mod_noop_right, lemma_fundamental_div_mod, lemma_mod_bound,
};
use vstd::slice::slice_subrange;
use crate::cipher::{open_of, seal_of, spec_seal_accepts, encrypt_chunk, decrypt_chunk};
use crate::codec::{spec_container_bytes, encode_container, parse_container};
use crate::error::CoreError;
use crate::global::{CipherType, BLOCK_SIZE, SALT_LEN, TAG_LEN, spec_nonce_len, spec_header_len};
use crate::kdf::{derived_key_of, derive_key};
use crate::secret::Secret;

verus! {

/// Associated data of every chunk but the last.
pub open spec fn aad_middle() -> Seq<u8> {
    seq![0u8]
}

/// Associated data of the final chunk.
pub open spec fn aad_final() -> Seq<u8> {
    seq![1u8]
}

/// The big-endian value of a nonce's last four bytes: the chunk counter.
pub open spec fn spec_counter(nonce: Seq<u8>) -> nat
    recommends
        nonce.len() >= 4,
{
    let n = nonce.len() as int;
    (nonce[n - 4] as nat) * 0x1000000 + (nonce[n - 3] as nat) * 0x10000 + (nonce[n - 2] as nat)
        * 0x100 + (nonce[n - 1] as nat)
}

/// The four big-endian bytes of a counter value below 2^32.
pub open spec fn spec_be32(c: nat) -> Seq<u8>
    recommends
        c < 0x100000000,
{
    seq![
        (c / 0x1000000 % 0x100) as u8,
        (c / 0x10000 % 0x100) as u8,
        (c / 0x100 % 0x100) as u8,
        (c % 0x100) as u8,
    ]
}

/// The nonce of chunk `i`: the base nonce with its counter advanced by `i`,
/// modulo 2^32.
pub open spec fn spec_chunk_nonce(base: Seq<u8>, i: nat) -> Seq<u8>
    recommends
        base.len() >= 4,
{
    base.take(base.len() - 4) + spec_be32((spec_counter(base) + i) % 0x100000000)
}

/// Compute the nonce of chunk `i` from the base nonce.
pub fn chunk_nonce(base: &[u8], i: u32) -> (r: Vec<u8>)
    requires
        base@.len() >= 4,
    ensures
        r@ == spec_chunk_nonce(base@, i as nat),
        r@.len() == base@.len(),
{
    let n = base.len();
    let b0 = *vstd::slice::slice_index_get(base, n - 4);
    let b1 = *vstd::slice::slice_index_get(base, n - 3);
    let b2 = *vstd::slice::slice_index_get(base, n - 2);
    let b3 = *vstd::slice::slice_index_get(base, n - 1);
    let c: u64 = (b0 as u64) * 0x1000000 + (b1 as u64) * 0x10000 + (b2 as u64) * 0x100 + (
    b3 as u64);
    let c2: u64 = (c + i as u64) % 0x100000000;
    let mut out = crate::util::copy_range(base, 0, n - 4);
    proof {
        vstd::arithmetic::div_mod::lemma_mod_bound((c + i as u64) as int, 0x100000000int);
        assert((c2 as int) / 0x1000000int < 0x100) by (nonlinear_arith)
            requires
                (c2 as int) < 0x100000000int,
        ;
    }
    out.push((c2 / 0x1000000) as u8);
    out.push(((c2 / 0x10000) % 0x100) as u8);
    out.push(((c2 / 0x100) % 0x100) as u8);
    out.push((c2 % 0x100) as u8);
    proof {
        assert(c2 as nat == (spec_counter(base@) + i as nat) % 0x100000000);
        assert((c2 / 0x1000000) as u8 == (c2 as nat / 0x1000000 % 0x100) as u8);
        assert(out@ =~= spec_chunk_nonce(base@, i as nat));
    }
    out
}

/// The encrypted body that stream mode produces for a plaintext, starting at
/// chunk index `i`: full blocks sealed with the intermediate marker, then one
/// final, strictly shorter chunk sealed with the final marker.
pub open spec fn spec_seal_chunks(cipher: CipherType, key: Seq<u8>, base: Seq<u8>, pt: Seq<u8>, i: nat) -> Seq<u8>
    decreases pt.len(),
{
    if pt.len() < BLOCK_SIZE {
        seal_of(cipher, key, spec_chunk_nonce(base, i), aad_final(), pt)
    } else {
        seal_of(cipher, key, spec_chunk_nonce(base, i), aad_middle(), pt.take(BLOCK_SIZE as int))
            + spec_seal_chunks(cipher, key, base, pt.skip(BLOCK_SIZE as int), i + 1)
    }
}

/// What opening an encrypted stream body from chunk index `i` yields: the
/// concatenated plaintext when the structure is sound and every tag
/// verifies, nothing otherwise. A remainder shorter than a tag, or of exactly
/// one full encrypted chunk, is structurally invalid.
#[verifier::opaque]
pub open spec fn spec_open_chunks(cipher: CipherType, key: Seq<u8>, base: Seq<u8>, ct: Seq<u8>, i: nat) -> Option<Seq<u8>>
    decreases ct.len(),
{
    if ct.len() < TAG_LEN {
        None
    } else if ct.len() < BLOCK_SIZE + TAG_LEN {
        open_of(cipher, key, spec_chunk_nonce(base, i), aad_final(), ct)
    } else if ct.len() == BLOCK_SIZE + TAG_LEN {
        None
    } else {
        match open_of(
            cipher,
            key,
            spec_chunk_nonce(base, i),
            aad_middle(),
            ct.take((BLOCK_SIZE + TAG_LEN) as int),
        ) {
            Some(p) => match spec_open_chunks(
                cipher,
                key,
                base,
                ct.skip((BLOCK_SIZE + TAG_LEN) as int),
                i + 1,
            ) {
                Some(rest) => Some(p + rest),
                None => None,
            },
            None => None,
        }
    }
}

/// Whether a stream body's length alone is structurally sound: full encrypted
/// chunks, then a final chunk of at least a tag and strictly less than a full
/// encrypted chunk.
#[verifier::opaque]
pub open spec fn spec_stream_structure_ok(n: nat) -> bool
    decreases n,
{
    if n < TAG_LEN {
        false
    } else if n < BLOCK_SIZE + TAG_LEN {
        true
    } else if n == BLOCK_SIZE + TAG_LEN {
        false
    } else {
        spec_stream_structure_ok((n - (BLOCK_SIZE + TAG_LEN)) as nat)
    }
}

/// A remainder strictly longer than one full encrypted chunk keeps its
/// soundness when that chunk is peeled off.
proof fn lemma_structure_peel(n: nat)
    requires
        n > BLOCK_SIZE + TAG_LEN,
    ensures
        spec_stream_structure_ok(n) == spec_stream_structure_ok((n - (BLOCK_SIZE + TAG_LEN)) as nat),
{
    reveal_with_fuel(spec_stream_structure_ok, 1);
}

/// A remainder shorter than a tag, or of exactly one full encrypted chunk,
/// is structurally unsound; one strictly between is sound.
proof fn lemma_structure_last(n: nat)
    requires
        n <= BLOCK_SIZE + TAG_LEN,
    ensures
        spec_stream_structure_ok(n) == (TAG_LEN <= n && n < BLOCK_SIZE + TAG_LEN),
{
    reveal_with_fuel(spec_stream_structure_ok, 1);
}

/// A remainder shorter than a full encrypted chunk opens as the single final
/// chunk; one shorter than a tag, or of exactly a full chunk, opens to
/// nothing.
proof fn lemma_open_chunks_last(cipher: CipherType, key: Seq<u8>, base: Seq<u8>, ct: Seq<u8>, i: nat)
    requires
        ct.len() <= BLOCK_SIZE + TAG_LEN,
    ensures
        ct.len() < TAG_LEN || ct.len() == BLOCK_SIZE + TAG_LEN ==> spec_open_chunks(
            cipher,
            key,
            base,
            ct,
            i,
        ) is None,
        TAG_LEN <= ct.len() < BLOCK_SIZE + TAG_LEN ==> spec_open_chunks(cipher, key, base, ct, i)
            == open_of(cipher, key, spec_chunk_nonce(base, i), aad_final(), ct),
{
    reveal_with_fuel(spec_open_chunks, 1);
}

/// When the next full encrypted chunk does not open, the whole remainder
/// opens to nothing.
proof fn lemma_open_chunks_middle_fail(cipher: CipherType, key: Seq<u8>, base: Seq<u8>, rem: Seq<u8>, i: nat)
    requires
        rem.len() > BLOCK_SIZE + TAG_LEN,
        open_of(
            cipher,
            key,
            spec_chunk_nonce(base, i),
            aad_middle(),
            rem.take((BLOCK_SIZE + TAG_LEN) as int),
        ) is None,
    ensures
        spec_open_chunks(cipher, key, base, rem, i) is None,
{
    reveal_with_fuel(spec_open_chunks, 1);
}

/// More chunks than the 32-bit nonce counter may count.
pub open spec fn spec_stream_too_long(n: nat) -> bool {
    n / (BLOCK_SIZE as nat) >= 0xffffffff
}

/// What stream-mode decryption recovers from container bytes and a raw key.
pub open spec fn spec_decrypt_stream(data: Seq<u8>, raw: Seq<u8>, cipher: CipherType) -> Option<Seq<u8>> {
    if data.len() < spec_header_len(cipher) {
        None
    } else {
        let salt = data.subrange(0, SALT_LEN as int);
        let nonce = data.subrange(SALT_LEN as int, spec_header_len(cipher) as int);
        let body = data.subrange(spec_header_len(cipher) as int, data.len() as int);
        spec_open_chunks(cipher, derived_key_of(raw, salt), nonce, body, 0)
    }
}

/// The container that stream mode writes for a given plaintext, raw key,
/// salt and base nonce.
pub open spec fn spec_encrypt_stream(pt: Seq<u8>, raw: Seq<u8>, salt: Seq<u8>, nonce: Seq<u8>, cipher: CipherType) -> Seq<u8> {
    spec_container_bytes(salt, nonce, spec_seal_chunks(cipher, derived_key_of(raw, salt), nonce, pt, 0))
}

/// The encrypted body's length for a plaintext of `n` bytes: one full
/// encrypted chunk per full block, then the remainder plus its tag.
pub open spec fn spec_stream_body_len(n: nat) -> nat {
    (n / (BLOCK_SIZE as nat)) * ((BLOCK_SIZE + TAG_LEN) as nat) + (n % (BLOCK_SIZE as nat))
        + (TAG_LEN as nat)
}

proof fn lemma_concat_take_skip(a: Seq<u8>, b: Seq<u8>)
    ensures
        (a + b).take(a.len() as int) == a,
        (a + b).skip(a.len() as int) == b,
{
    assert((a + b).take(a.len() as int) =~= a);
    assert((a + b).skip(a.len() as int) =~= b);
}

/// Chunks `ct`, opened from index `i`, yield exactly `pt`.
pub open spec fn opens_from(cipher: CipherType, key: Seq<u8>, base: Seq<u8>, ct: Seq<u8>, i: nat, pt: Seq<u8>) -> bool {
    spec_open_chunks(cipher, key, base, ct, i) == Some(pt)
}

/// One step of the encryption loop: sealing the next full block extends the
/// built body by that chunk's ciphertext and carries the round-trip
/// continuation one chunk forward.
proof fn lemma_encrypt_step(cipher: CipherType, key: Seq<u8>, base: Seq<u8>, pt: Seq<u8>, body_old: Seq<u8>, off_old: int, i_old: nat, ct0: Seq<u8>, chunkv: Seq<u8>)
    requires
        0 <= off_old,
        off_old + BLOCK_SIZE <= pt.len(),
        chunkv == pt.subrange(off_old, off_old + BLOCK_SIZE),
        ct0 == seal_of(cipher, key, spec_chunk_nonce(base, i_old), aad_middle(), chunkv),
        ct0.len() == chunkv.len() + TAG_LEN,
        open_of(cipher, key, spec_chunk_nonce(base, i_old), aad_middle(), ct0) == Some(chunkv),
        spec_seal_chunks(cipher, key, base, pt, 0) == body_old + spec_seal_chunks(
            cipher,
            key,
            base,
            pt.skip(off_old),
            i_old,
        ),
        forall|rest: Seq<u8>, tail: Seq<u8>|
            #[trigger] opens_from(cipher, key, base, rest, i_old, tail) ==> spec_open_chunks(
                cipher,
                key,
                base,
                body_old + rest,
                0,
            ) == Some(pt.take(off_old) + tail),
    ensures
        spec_seal_chunks(cipher, key, base, pt, 0) == (body_old + ct0) + spec_seal_chunks(
            cipher,
            key,
            base,
            pt.skip(off_old + BLOCK_SIZE),
            i_old + 1,
        ),
        forall|rest: Seq<u8>, tail: Seq<u8>|
            #[trigger] opens_from(cipher, key, base, rest, i_old + 1, tail) ==> spec_open_chunks(
                cipher,
                key,
                base,
                (body_old + ct0) + rest,
                0,
            ) == Some(pt.take(off_old + BLOCK_SIZE) + tail),
{
    reveal_with_fuel(spec_open_chunks, 1);
    let rem_old = pt.skip(off_old);
    let rem_new = pt.skip(off_old + BLOCK_SIZE);
    assert(rem_old.take(BLOCK_SIZE as int) =~= chunkv);
    assert(rem_old.skip(BLOCK_SIZE as int) =~= rem_new);
    assert(spec_seal_chunks(cipher, key, base, rem_old, i_old) == ct0 + spec_seal_chunks(
        cipher,
        key,
        base,
        rem_new,
        i_old + 1,
    ));
    assert(body_old + (ct0 + spec_seal_chunks(cipher, key, base, rem_new, i_old + 1)) =~= (body_old
        + ct0) + spec_seal_chunks(cipher, key, base, rem_new, i_old + 1));
    assert forall|rest: Seq<u8>, tail: Seq<u8>|
        #[trigger] opens_from(cipher, key, base, rest, i_old + 1, tail) implies spec_open_chunks(
        cipher,
        key,
        base,
        (body_old + ct0) + rest,
        0,
    ) == Some(pt.take(off_old + BLOCK_SIZE) + tail) by {
        reveal_with_fuel(spec_open_chunks, 1);
        let rest2 = ct0 + rest;
        assert(rest.len() >= TAG_LEN);
        assert(rest2.len() > BLOCK_SIZE + TAG_LEN);
        lemma_concat_take_skip(ct0, rest);
        assert(spec_open_chunks(cipher, key, base, rest2, i_old) == Some(chunkv + tail));
        assert(opens_from(cipher, key, base, rest2, i_old, chunkv + tail));
        assert(spec_open_chunks(cipher, key, base, body_old + rest2, 0) == Some(
            pt.take(off_old) + (chunkv + tail),
        ));
        assert(body_old + rest2 =~= (body_old + ct0) + rest);
        assert(pt.take(off_old) + (chunkv + tail) =~= pt.take(off_old + BLOCK_SIZE) + tail);
    }
}

/// Encrypt a buffer in stream mode with the salt and base nonce given by the
/// caller. Deterministic for fixed entropy; the random-entropy entry point
/// below is the ordinary door.
///
/// The operation succeeds exactly when the plaintext does not need more
/// chunks than the counter can count: every chunk is far below the cipher's
/// own size bounds. The result is the container `salt ‖ base nonce ‖
/// chunks`, and decrypting it in stream mode with the same raw key and
/// cipher gives the plaintext back. The raw key is zeroized either way.
#[verifier::rlimit(100)]
pub fn encrypt_stream_with_entropy(pt: &[u8], raw_key: &mut Secret, salt: &[u8], nonce: &[u8], cipher: CipherType) -> (r: Result<Vec<u8>, CoreError>)
    requires
        salt@.len() == SALT_LEN,
        nonce@.len() == spec_nonce_len(cipher),
    ensures
        final(raw_key).is_zeroized(),
        r matches Ok(out) ==> out@ == spec_container_bytes(
            salt@,
            nonce@,
            spec_seal_chunks(cipher, derived_key_of(old(raw_key)@, salt@), nonce@, pt@, 0),
        ),
        r matches Ok(out) ==> spec_decrypt_stream(out@, old(raw_key)@, cipher) == Some(pt@),
        r matches Ok(out) ==> out@.len() == spec_header_len(cipher) + spec_stream_body_len(
            pt@.len(),
        ),
        r is Ok <==> !spec_stream_too_long(pt@.len()),
        spec_stream_too_long(pt@.len()) <==> r == Err::<Vec<u8>, CoreError>(
            CoreError::StreamTooLong,
        ),
        r matches Err(e) ==> e == CoreError::StreamTooLong,
{
    if pt.len() / BLOCK_SIZE >= 0xffffffff {
        raw_key.zeroize();
        return Err(CoreError::StreamTooLong);
    }
    proof {
        lemma_fundamental_div_mod(pt@.len() as int, BLOCK_SIZE as int);
        assert(pt@.len() < 0xffffffff * (BLOCK_SIZE as int));
    }
    let mut dk = derive_key(raw_key, salt);
    raw_key.zeroize();
    let ghost dkv = dk@;
    let mut aad_mid: Vec<u8> = Vec::new();
    aad_mid.push(0u8);
    let mut aad_fin: Vec<u8> = Vec::new();
    aad_fin.push(1u8);
    proof {
        assert(aad_mid@ =~= aad_middle());
        assert(aad_fin@ =~= aad_final());
        assert(spec_nonce_len(cipher) >= 4);
    }
    let mut body: Vec<u8> = Vec::new();
    let mut off: usize = 0;
    let mut i: u32 = 0;
    proof {
        assert(pt@.skip(0) =~= pt@);
        assert(Seq::<u8>::empty() + spec_seal_chunks(cipher, dkv, nonce@, pt@, 0)
            =~= spec_seal_chunks(cipher, dkv, nonce@, pt@, 0));
        assert forall|rest: Seq<u8>, tail: Seq<u8>|
            #[trigger] opens_from(cipher, dkv, nonce@, rest, 0nat, tail) implies
            spec_open_chunks(cipher, dkv, nonce@, body@ + rest, 0) == Some(
                pt@.take(0int) + tail,
            ) by {
            assert(body@ + rest =~= rest);
            assert(pt@.take(0int) + tail =~= tail);
        }
    }
    while pt.len() - off >= BLOCK_SIZE
        invariant
            raw_key.is_zeroized(),
            !spec_stream_too_long(pt@.len()),
            off <= pt@.len(),
            i as int * (BLOCK_SIZE as int) == off as int,
            body@.len() == i as int * ((BLOCK_SIZE + TAG_LEN) as int),
            pt@.len() < 0xffffffff * (BLOCK_SIZE as int),
            dk@ == dkv,
            dkv.len() == 32,
            nonce@.len() == spec_nonce_len(cipher),
            aad_mid@ == aad_middle(),
            aad_fin@ == aad_final(),
            spec_seal_chunks(cipher, dkv, nonce@, pt@, 0) == body@ + spec_seal_chunks(
                cipher,
                dkv,
                nonce@,
                pt@.skip(off as int),
                i as nat,
            ),
            forall|rest: Seq<u8>, tail: Seq<u8>|
                #[trigger] opens_from(cipher, dkv, nonce@, rest, i as nat, tail)
                    ==> spec_open_chunks(cipher, dkv, nonce@, body@ + rest, 0) == Some(
                    pt@.take(off as int) + tail,
                ),
        decreases pt@.len() - off,
    {
        let chunk = slice_subrange(pt, off, off + BLOCK_SIZE);
        let cn = chunk_nonce(nonce, i);
        let sealed = encrypt_chunk(cipher, dk.expose().as_slice(), cn.as_slice(), aad_mid.as_slice(), chunk);
        match sealed {
            Err(e) => {
                proof {
                    assert(chunk@.len() / 64 < 0xFFFFFFFF) by (nonlinear_arith)
                        requires
                            chunk@.len() == 1048576,
                    ;
                    assert(spec_seal_accepts(cipher, chunk@.len(), aad_mid@.len()));
                }
                dk.zeroize();
                return Err(e);
            },
            Ok(mut ct) => {
                let ghost ct0 = ct@;
                let ghost body_old = body@;
                let ghost off_old = off as int;
                let ghost i_old = i as nat;
                proof {
                    assert(chunk@ =~= pt@.subrange(off_old, off_old + BLOCK_SIZE));
                    lemma_encrypt_step(cipher, dkv, nonce@, pt@, body_old, off_old, i_old, ct0, chunk@);
                    assert((i as int + 1) * ((BLOCK_SIZE + TAG_LEN) as int) == i as int * ((
                    BLOCK_SIZE + TAG_LEN) as int) + ((BLOCK_SIZE + TAG_LEN) as int))
                        by (nonlinear_arith);
                    assert((i as int + 1) * (BLOCK_SIZE as int) == i as int * (BLOCK_SIZE as int)
                        + (BLOCK_SIZE as int)) by (nonlinear_arith);
                }
                body.append(&mut ct);
                off = off + BLOCK_SIZE;
                i = i + 1;
                proof {
                    assert(body@ =~= body_old + ct0);
                }
            },
        }
    }
    let chunk = slice_subrange(pt, off, pt.len());
    let cn = chunk_nonce(nonce, i);
    let sealed = encrypt_chunk(cipher, dk.expose().as_slice(), cn.as_slice(), aad_fin.as_slice(), chunk);
    dk.zeroize();
    match sealed {
        Err(e) => {
            proof {
                assert(chunk@.len() / 64 < 0xFFFFFFFF) by (nonlinear_arith)
                    requires
                        chunk@.len() < 1048576,
                ;
                assert(spec_seal_accepts(cipher, chunk@.len(), aad_fin@.len()));
            }
            Err(e)
        },
        Ok(mut lc) => {
            let ghost lc0 = lc@;
            let ghost body_old = body@;
            body.append(&mut lc);
            let out = encode_container(salt, nonce, body.as_slice());
            proof {
                let rem = pt@.skip(off as int);
                assert(rem =~= chunk@);
                assert(spec_seal_chunks(cipher, dkv, nonce@, rem, i as nat) == lc0);
                assert(body@ =~= body_old + lc0);
                assert(spec_seal_chunks(cipher, dkv, nonce@, pt@, 0) =~= body@);
                // the sealed final chunk opens back to the final plaintext piece
                assert(lc0.len() >= TAG_LEN && lc0.len() < BLOCK_SIZE + TAG_LEN);
                lemma_open_chunks_last(cipher, dkv, nonce@, lc0, i as nat);
                assert(spec_open_chunks(cipher, dkv, nonce@, lc0, i as nat) == Some(chunk@));
                assert(opens_from(cipher, dkv, nonce@, lc0, i as nat, chunk@));
                assert(spec_open_chunks(cipher, dkv, nonce@, body_old + lc0, 0) == Some(
                    pt@.take(off as int) + chunk@,
                ));
                assert(pt@.take(off as int) + chunk@ =~= pt@);
                vstd::arithmetic::div_mod::lemma_fundamental_div_mod_converse(
                    pt@.len() as int,
                    BLOCK_SIZE as int,
                    i as int,
                    pt@.len() - off,
                );
                // the emitted bytes parse back into salt, nonce and body
                let whole = out@;
                assert(whole.subrange(0, SALT_LEN as int) =~= salt@);
                assert(whole.subrange(SALT_LEN as int, spec_header_len(cipher) as int) =~= nonce@);
                assert(whole.subrange(spec_header_len(cipher) as int, whole.len() as int)
                    =~= body@);
            }
            Ok(out)
        },
    }
}


/// Peeling one full encrypted chunk off the front of the remaining body:
/// when that chunk opens, the whole remainder opens exactly when the rest
/// does, and its plaintext is the chunk's plaintext followed by the rest's.
proof fn lemma_decrypt_step(cipher: CipherType, key: Seq<u8>, base: Seq<u8>, body0: Seq<u8>, off_old: int, i_old: nat, p: Seq<u8>)
    requires
        0 <= off_old <= body0.len(),
        body0.len() - off_old > BLOCK_SIZE + TAG_LEN,
        open_of(
            cipher,
            key,
            spec_chunk_nonce(base, i_old),
            aad_middle(),
            body0.subrange(off_old, off_old + BLOCK_SIZE + TAG_LEN),
        ) == Some(p),
    ensures
        spec_open_chunks(cipher, key, base, body0.skip(off_old), i_old) is Some
            <==> spec_open_chunks(
            cipher,
            key,
            base,
            body0.skip(off_old + BLOCK_SIZE + TAG_LEN),
            i_old + 1,
        ) is Some,
        spec_open_chunks(cipher, key, base, body0.skip(off_old + BLOCK_SIZE + TAG_LEN), i_old + 1)
            matches Some(t) ==> spec_open_chunks(cipher, key, base, body0.skip(off_old), i_old)
            == Some(p + t),
{
    reveal_with_fuel(spec_open_chunks, 1);
    let rem_old = body0.skip(off_old);
    let rem_new = body0.skip(off_old + BLOCK_SIZE + TAG_LEN);
    assert(rem_old.len() > BLOCK_SIZE + TAG_LEN);
    assert(rem_old.take((BLOCK_SIZE + TAG_LEN) as int) =~= body0.subrange(
        off_old,
        off_old + BLOCK_SIZE + TAG_LEN,
    ));
    assert(rem_old.skip((BLOCK_SIZE + TAG_LEN) as int) =~= rem_new);
}

/// Open the encrypted piece that stands at chunk index `i`, with the final
/// or intermediate marker as associated data.
fn open_piece(cipher: CipherType, dk: &Secret, base: &[u8], piece: &[u8], i: u64, fin: bool) -> (r: Result<Vec<u8>, CoreError>)
    requires
        dk@.len() == 32,
        base@.len() == spec_nonce_len(cipher),
    ensures
        r is Ok <==> open_of(
            cipher,
            dk@,
            spec_chunk_nonce(base@, i as nat),
            if fin {
                aad_final()
            } else {
                aad_middle()
            },
            piece@,
        ) is Some,
        r matches Ok(p) ==> open_of(
            cipher,
            dk@,
            spec_chunk_nonce(base@, i as nat),
            if fin {
                aad_final()
            } else {
                aad_middle()
            },
            piece@,
        ) == Some(p@),
        r matches Err(e) ==> e == CoreError::AuthenticationFailed,
{
    let mut aad: Vec<u8> = Vec::new();
    if fin {
        aad.push(1u8);
        proof {
            assert(aad@ =~= aad_final());
        }
    } else {
        aad.push(0u8);
        proof {
            assert(aad@ =~= aad_middle());
        }
    }
    let iw: u32 = (i % 0x100000000) as u32;
    proof {
        assert(spec_nonce_len(cipher) >= 4);
        lemma_mod_bound(i as int, 0x100000000int);
        lemma_add_mod_noop_right(spec_counter(base@) as int, i as int, 0x100000000int);
        assert(spec_chunk_nonce(base@, iw as nat) =~= spec_chunk_nonce(base@, i as nat));
    }
    let cn = chunk_nonce(base, iw);
    decrypt_chunk(cipher, dk.expose().as_slice(), cn.as_slice(), aad.as_slice(), piece)
}

/// Decrypt a stream-mode container. The header is split off (too little data
/// is `MalformedContainer`); then encrypted chunks are opened in order with
/// the matching counter nonce and marker. A remainder shorter than a tag or
/// of exactly one full encrypted chunk is `MalformedStream`; a tag that does
/// not verify is `AuthenticationFailed` and aborts at once. On success the
/// result is the concatenated plaintext of all chunks. The raw key is
/// zeroized either way.
#[verifier::rlimit(100)]
pub fn decrypt_bytes_stream_mode(data: &[u8], raw_key: &mut Secret, cipher: CipherType) -> (r: Result<Vec<u8>, CoreError>)
    ensures
        final(raw_key).is_zeroized(),
        r is Ok <==> spec_decrypt_stream(data@, old(raw_key)@, cipher) is Some,
        r matches Ok(p) ==> spec_decrypt_stream(data@, old(raw_key)@, cipher) == Some(p@),
        r matches Err(e) ==> if data@.len() < spec_header_len(cipher) {
            e == CoreError::MalformedContainer
        } else if spec_stream_structure_ok((data@.len() - spec_header_len(cipher)) as nat) {
            e == CoreError::AuthenticationFailed
        } else {
            e == CoreError::MalformedStream || e == CoreError::AuthenticationFailed
        },
{
    let ghost raw0 = raw_key@;
    let parsed = parse_container(data, cipher);
    match parsed {
        Err(e) => {
            raw_key.zeroize();
            Err(e)
        },
        Ok(c) => {
            let mut dk = derive_key(raw_key, c.salt.as_slice());
            raw_key.zeroize();
            let ghost dkv = dk@;
            let base = c.nonce;
            let body = c.body;
            let ghost body0 = body@;
            proof {
                assert(body0.skip(0) =~= body0);
            }
            let mut out: Vec<u8> = Vec::new();
            let mut off: usize = 0;
            let mut i: u64 = 0;
            while body.len() - off > BLOCK_SIZE + TAG_LEN
                invariant
                    raw_key.is_zeroized(),
                    raw0 == old(raw_key)@,
                    off <= body0.len(),
                    body@ == body0,
                    base@.len() == spec_nonce_len(cipher),
                    data@.len() >= spec_header_len(cipher),
                    base@ == data@.subrange(SALT_LEN as int, spec_header_len(cipher) as int),
                    body0 == data@.subrange(spec_header_len(cipher) as int, data@.len() as int),
                    dkv == derived_key_of(raw0, data@.subrange(0, SALT_LEN as int)),
                    i as int * ((BLOCK_SIZE + TAG_LEN) as int) == off as int,
                    dk@ == dkv,
                    dkv.len() == 32,
                    spec_open_chunks(cipher, dkv, base@, body0, 0) is Some <==> spec_open_chunks(
                        cipher,
                        dkv,
                        base@,
                        body0.skip(off as int),
                        i as nat,
                    ) is Some,
                    spec_open_chunks(cipher, dkv, base@, body0.skip(off as int), i as nat)
                        matches Some(t) ==> spec_open_chunks(cipher, dkv, base@, body0, 0) == Some(
                        out@ + t,
                    ),
                    spec_stream_structure_ok((body0.len() - off) as nat)
                        == spec_stream_structure_ok(body0.len() as nat),
                decreases body0.len() - off,
            {
                let ct = slice_subrange(body.as_slice(), off, off + (BLOCK_SIZE + TAG_LEN));
                proof {
                    assert(ct@ =~= body0.subrange(off as int, off as int + BLOCK_SIZE + TAG_LEN));
                }
                let opened = open_piece(cipher, &dk, base.as_slice(), ct, i, false);
                match opened {
                    Err(e) => {
                        dk.zeroize();
                        proof {
                            let rem = body0.skip(off as int);
                            assert(rem.take((BLOCK_SIZE + TAG_LEN) as int) =~= ct@);
                            lemma_open_chunks_middle_fail(cipher, dkv, base@, rem, i as nat);
                        }
                        return Err(e);
                    },
                    Ok(mut p) => {
                        let ghost off_old = off as int;
                        let ghost i_old = i as nat;
                        proof {
                            lemma_decrypt_step(cipher, dkv, base@, body0, off_old, i_old, p@);
                            lemma_structure_peel((body0.len() - off_old) as nat);
                            let c: int = (BLOCK_SIZE + TAG_LEN) as int;
                            assert((i as int + 1) * c == i as int * c + c) by (nonlinear_arith);
                            assert(i as int + 1 < 0xffffffffffffffffint) by (nonlinear_arith)
                                requires
                                    i as int * c == off as int,
                                    c == 1048592int,
                                    0 <= off as int <= 0xffffffffffffffffint,
                            ;
                        }
                        out.append(&mut p);
                        off = off + (BLOCK_SIZE + TAG_LEN);
                        i = i + 1;
                    },
                }
            }
            let remaining = body.len() - off;
            proof {
                lemma_open_chunks_last(cipher, dkv, base@, body0.skip(off as int), i as nat);
                lemma_structure_last((body0.len() - off) as nat);
            }
            if remaining < TAG_LEN || remaining == BLOCK_SIZE + TAG_LEN {
                dk.zeroize();
                return Err(CoreError::MalformedStream);
            }
            let ct = slice_subrange(body.as_slice(), off, body.len());
            proof {
                assert(ct@ =~= body0.skip(off as int));
            }
            let opened = open_piece(cipher, &dk, base.as_slice(), ct, i, true);
            dk.zeroize();
            match opened {
                Ok(mut p) => {
                    let mut res = out;
                    res.append(&mut p);
                    Ok(res)
                },
                Err(e) => Err(e),
            }
        },
    }
}

/// Encrypt a buffer in stream mode: draw a fresh 16-byte salt and a fresh
/// base nonce of the cipher's length, then run the chunk pipeline. Succeeds
/// exactly when the plaintext does not need more chunks than the counter can
/// count; the result is the complete container `salt ‖ base nonce ‖ chunks`,
/// ready to be written as one piece. The raw key is zeroized either way.
pub fn encrypt_bytes_stream_mode(pt: &[u8], raw_key: &mut Secret, cipher: CipherType) -> (r: Result<Vec<u8>, CoreError>)
    ensures
        final(raw_key).is_zeroized(),
        r matches Ok(out) ==> out@ == spec_encrypt_stream(
            pt@,
            old(raw_key)@,
            out@.subrange(0, SALT_LEN as int),
            out@.subrange(SALT_LEN as int, spec_header_len(cipher) as int),
            cipher,
        ),
        r matches Ok(out) ==> spec_decrypt_stream(out@, old(raw_key)@, cipher) == Some(pt@),
        r matches Ok(out) ==> out@.len() == spec_header_len(cipher) + spec_stream_body_len(
            pt@.len(),
        ),
        r is Ok <==> !spec_stream_too_long(pt@.len()),
        spec_stream_too_long(pt@.len()) <==> r == Err::<Vec<u8>, CoreError>(
            CoreError::StreamTooLong,
        ),
        r matches Err(e) ==> e == CoreError::StreamTooLong,
{
    let salt = crate::rng::random_bytes(SALT_LEN);
    let nonce = crate::rng::random_bytes(crate::global::nonce_len(cipher));
    let out = encrypt_stream_with_entropy(pt, raw_key, salt.as_slice(), nonce.as_slice(), cipher);
    match out {
        Ok(whole) => {
            proof {
                assert(whole@.subrange(0, SALT_LEN as int) =~= salt@);
                assert(whole@.subrange(SALT_LEN as int, spec_header_len(cipher) as int)
                    =~= nonce@);
            }
            Ok(whole)
        },
        Err(e) => Err(e),
    }
}

} // verus!
