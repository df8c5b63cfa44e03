//! AES-256-GCM encryption of payloads under a session key.
//!
//! The wire form of an encrypted payload is the 12-byte nonce followed by
//! the ciphertext (which ends with the 16-byte tag). Decrypting what was
//! encrypted under the same key gives the plaintext back.

use vstd::prelude::*;
use aes_gcm::aead::{Aead, AeadCore, KeyInit, OsRng};
use aes_gcm::{Aes256Gcm, Key, Nonce};
use crate::error::PolygoneError;
use crate::text::owned;

verus! {

/// The longest plaintext AES-GCM accepts, in bytes (2^36).
pub const MAX_PLAINTEXT: u64 = 68_719_476_736;

/// What AES-256-GCM makes of a plaintext under a key and a nonce, with no
/// associated data: the ciphertext followed by the tag.
pub uninterp spec fn aes256gcm_sealed(key: Seq<u8>, nonce: Seq<u8>, plaintext: Seq<u8>) -> Seq<u8>;

/// What AES-256-GCM opening gives for a ciphertext (with its tag) under a
/// key and a nonce: the plaintext, or `None` when the tag does not match.
pub uninterp spec fn aes256gcm_opened(key: Seq<u8>, nonce: Seq<u8>, ciphertext: Seq<u8>) -> Option<Seq<u8>>;

/// `Aead::encrypt` of `aes_gcm::Aes256Gcm`. Trusted, from the crate's
/// source: it fails exactly when the plaintext is longer than 2^36 bytes;
/// otherwise the ciphertext is a function of key, nonce and plaintext, 16
/// bytes longer than the plaintext, and opening it under the same key and
/// nonce gives the plaintext back. The error text is left unstated.
#[verifier::external_body]
fn aes_seal(key: &[u8; 32], nonce: &[u8; 12], plaintext: &[u8]) -> (res: Result<Vec<u8>, String>)
    ensures
        res is Err <==> plaintext@.len() > MAX_PLAINTEXT,
        res matches Ok(c) ==> {
            &&& c@ == aes256gcm_sealed(key@, nonce@, plaintext@)
            &&& c@.len() == plaintext@.len() + 16
            &&& aes256gcm_opened(key@, nonce@, c@) == Some(plaintext@)
        },
{
    let cipher = Aes256Gcm::new(Key::<Aes256Gcm>::from_slice(key));
    cipher.encrypt(Nonce::from_slice(nonce), plaintext).map_err(|e| e.to_string())
}

/// `Aead::decrypt` of `aes_gcm::Aes256Gcm`. Trusted: the result is a
/// function of key, nonce and ciphertext, and a ciphertext shorter than the
/// 16-byte tag is refused.
#[verifier::external_body]
fn aes_open(key: &[u8; 32], nonce: &[u8; 12], ciphertext: &[u8]) -> (res: Option<Vec<u8>>)
    ensures
        res matches Some(p) ==> aes256gcm_opened(key@, nonce@, ciphertext@) == Some(p@),
        res is None ==> aes256gcm_opened(key@, nonce@, ciphertext@) is None,
        ciphertext@.len() < 16 ==> res is None,
{
    let cipher = Aes256Gcm::new(Key::<Aes256Gcm>::from_slice(key));
    cipher.decrypt(Nonce::from_slice(nonce), ciphertext).ok()
}

/// `AeadCore::generate_nonce` with `OsRng`: 12 random bytes. Nothing is
/// stated of them.
#[verifier::external_body]
fn fresh_nonce() -> (res: [u8; 12]) {
    Aes256Gcm::generate_nonce(&mut OsRng).into()
}

/// The result of encrypting a payload: ciphertext and nonce.
#[derive(Debug, Clone)]
pub struct EncryptedPayload {
    /// AES-256-GCM ciphertext (ends with the 16-byte tag).
    pub ciphertext: Vec<u8>,
    /// 96-bit random nonce, never reused with the same key.
    pub nonce: [u8; 12],
}

/// A 256-bit AES-GCM session key.
pub struct SessionKey([u8; 32]);

/// What decrypting the wire form `data` under `key` gives: the plaintext,
/// or `None` when the data is shorter than a nonce or does not open.
pub open spec fn decryption(data: Seq<u8>, key: Seq<u8>) -> Option<Seq<u8>> {
    if data.len() < 12 {
        None
    } else {
        aes256gcm_opened(key, data.take(12), data.skip(12))
    }
}

impl SessionKey {
    /// The key bytes.
    pub closed spec fn bytes(&self) -> Seq<u8> {
        self.0@
    }

    /// Wraps raw bytes into a session key.
    pub fn from_bytes(bytes: [u8; 32]) -> (res: SessionKey)
        ensures
            res.bytes() == bytes@,
    {
        SessionKey(bytes)
    }

    /// Encrypts under a fresh random nonce.
    pub fn encrypt(&self, plaintext: &[u8]) -> (res: Result<EncryptedPayload, PolygoneError>)
        ensures
            res is Err <==> plaintext@.len() > MAX_PLAINTEXT,
            res matches Err(e) ==> e is AeadError,
            res matches Ok(p) ==> {
                &&& p.ciphertext@ == aes256gcm_sealed(self.bytes(), p.nonce@, plaintext@)
                &&& p.ciphertext@.len() == plaintext@.len() + 16
                &&& aes256gcm_opened(self.bytes(), p.nonce@, p.ciphertext@) == Some(plaintext@)
            },
    {
        let nonce = fresh_nonce();
        match aes_seal(&self.0, &nonce, plaintext) {
            Ok(ciphertext) => Ok(EncryptedPayload { ciphertext, nonce }),
            Err(e) => Err(PolygoneError::AeadError(e)),
        }
    }

    /// Opens a payload; a tag mismatch is an `AeadError`.
    pub fn decrypt(&self, payload: &EncryptedPayload) -> (res: Result<Vec<u8>, PolygoneError>)
        ensures
            res matches Ok(p) ==> aes256gcm_opened(self.bytes(), payload.nonce@, payload.ciphertext@)
                == Some(p@),
            res is Err ==> aes256gcm_opened(self.bytes(), payload.nonce@, payload.ciphertext@) is None,
            res matches Err(e) ==> (e matches PolygoneError::AeadError(m) && m@
                == "decryption failed — tag mismatch"@),
    {
        match aes_open(&self.0, &payload.nonce, payload.ciphertext.as_slice()) {
            Some(p) => Ok(p),
            None => Err(PolygoneError::AeadError(owned("decryption failed — tag mismatch"))),
        }
    }
}

/// Encrypts `plaintext` and returns the wire form: nonce, then ciphertext.
/// Decrypting it under the same key gives `plaintext` back.
pub fn encrypt(plaintext: &[u8], key: &SessionKey) -> (res: Result<Vec<u8>, PolygoneError>)
    ensures
        res is Err <==> plaintext@.len() > MAX_PLAINTEXT,
        res matches Err(e) ==> e is AeadError,
        res matches Ok(out) ==> {
            &&& out@.len() == plaintext@.len() + 28
            &&& aes256gcm_sealed(key.bytes(), out@.take(12), plaintext@) == out@.skip(12)
            &&& decryption(out@, key.bytes()) == Some(plaintext@)
        },
{
    let payload = match key.encrypt(plaintext) {
        Ok(p) => p,
        Err(e) => return Err(e),
    };
    let mut out: Vec<u8> = Vec::new();
    let mut i: usize = 0;
    while i < 12
        invariant
            0 <= i <= 12,
            payload.nonce@.len() == 12,
            out@ == payload.nonce@.take(i as int),
        decreases 12 - i,
    {
        out.push(payload.nonce[i]);
        i = i + 1;
        proof {
            assert(out@ =~= payload.nonce@.take(i as int));
        }
    }
    let ghost head = out@;
    let mut j: usize = 0;
    while j < payload.ciphertext.len()
        invariant
            0 <= j <= payload.ciphertext@.len(),
            head == payload.nonce@.take(12),
            out@ == head + payload.ciphertext@.take(j as int),
        decreases payload.ciphertext@.len() - j,
    {
        out.push(payload.ciphertext[j]);
        j = j + 1;
        proof {
            assert(out@ =~= head + payload.ciphertext@.take(j as int));
        }
    }
    proof {
        assert(payload.nonce@.take(12) =~= payload.nonce@);
        assert(payload.ciphertext@.take(j as int) =~= payload.ciphertext@);
        assert(out@.take(12) =~= payload.nonce@);
        assert(out@.skip(12) =~= payload.ciphertext@);
    }
    Ok(out)
}

/// Decrypts the wire form (nonce, then ciphertext).
pub fn decrypt(data: &[u8], key: &SessionKey) -> (res: Result<Vec<u8>, PolygoneError>)
    ensures
        res matches Ok(p) ==> decryption(data@, key.bytes()) == Some(p@),
        res is Err ==> decryption(data@, key.bytes()) is None,
        res matches Err(e) ==> if data@.len() < 12 {
            (e matches PolygoneError::Decrypt(m) && m@ == "data too short"@)
        } else {
            (e matches PolygoneError::AeadError(m) && m@ == "decryption failed — tag mismatch"@)
        },
{
    if data.len() < 12 {
        return Err(PolygoneError::Decrypt(owned("data too short")));
    }
    let mut nonce = [0u8; 12];
    let mut i: usize = 0;
    while i < 12
        invariant
            0 <= i <= 12,
            data@.len() >= 12,
            nonce@.len() == 12,
            forall|k: int| 0 <= k < i ==> nonce@[k] == data@[k],
        decreases 12 - i,
    {
        nonce[i] = data[i];
        i = i + 1;
    }
    let mut ciphertext: Vec<u8> = Vec::new();
    let mut j: usize = 12;
    while j < data.len()
        invariant
            12 <= j <= data@.len(),
            ciphertext@ == data@.subrange(12, j as int),
        decreases data@.len() - j,
    {
        ciphertext.push(data[j]);
        j = j + 1;
        proof {
            assert(ciphertext@ =~= data@.subrange(12, j as int));
        }
    }
    proof {
        assert(nonce@ =~= data@.take(12));
        assert(ciphertext@ =~= data@.skip(12));
    }
    let payload = EncryptedPayload { ciphertext, nonce };
    key.decrypt(&payload)
}

} // verus!
