//! ML-DSA-87 signatures (FIPS 204). Keys and signatures are held as bytes;
//! the lattice arithmetic is the `pqcrypto-mldsa` crate's.

use vstd::prelude::*;
use crate::error::PolygoneError;
use crate::text::{hex_decode, hex_encode, hex_decoded, hex_of, owned, push_str, seq_starts_with, trim, trimmed};
use pqcrypto_traits::sign::{PublicKey, SecretKey, SignedMessage};

verus! {

/// Bytes of an ML-DSA-87 public key.
pub const PUBLIC_KEY_BYTES: usize = 2592;

/// Bytes of an ML-DSA-87 secret key.
pub const SECRET_KEY_BYTES: usize = 4896;

/// Bytes of an ML-DSA-87 signature.
pub const SIGNATURE_BYTES: usize = 4627;

/// Whether `mldsa87::open` accepts the signed message `sm` (a signature
/// followed by the message) under the public key `pk`. Verification is a
/// function of these bytes alone.
pub uninterp spec fn mldsa87_opens(sm: Seq<u8>, pk: Seq<u8>) -> bool;

/// The public key that `mldsa87::keypair` hands out together with the
/// secret key `sk`, when `sk` is such a key; `None` for other bytes. In
/// ML-DSA the public key (`rho`, `t1`) is computed from what the secret key
/// holds (`rho`, `s1`, `s2`), so it is a function of those bytes alone.
pub uninterp spec fn mldsa87_public_of(sk: Seq<u8>) -> Option<Seq<u8>>;

/// `mldsa87::PublicKey::from_bytes`, then `as_bytes`. Trusted: the crate
/// accepts exactly the byte strings of the key length, and the key holds
/// them as they are.
#[verifier::external_body]
fn mldsa87_public_key(b: &[u8]) -> (res: Option<Vec<u8>>)
    ensures
        res is Some <==> b@.len() == 2592,
        res matches Some(v) ==> v@ == b@,
{
    match pqcrypto_mldsa::mldsa87::PublicKey::from_bytes(b) {
        Ok(pk) => Some(pk.as_bytes().to_vec()),
        Err(_) => None,
    }
}

/// `mldsa87::SecretKey::from_bytes`, then `as_bytes`. Trusted: the crate
/// accepts exactly the byte strings of the key length, and the key holds
/// them as they are.
#[verifier::external_body]
fn mldsa87_secret_key(b: &[u8]) -> (res: Option<Vec<u8>>)
    ensures
        res is Some <==> b@.len() == 4896,
        res matches Some(v) ==> v@ == b@,
{
    match pqcrypto_mldsa::mldsa87::SecretKey::from_bytes(b) {
        Ok(sk) => Some(sk.as_bytes().to_vec()),
        Err(_) => None,
    }
}

/// `mldsa87::keypair()`, as bytes. Trusted: the keys have their fixed
/// lengths and the public key is the one that belongs to the secret key.
/// They are drawn at random; nothing else is stated of their bytes.
#[verifier::external_body]
fn mldsa87_keypair() -> (res: (Vec<u8>, Vec<u8>))
    ensures
        res.0@.len() == 2592,
        res.1@.len() == 4896,
        mldsa87_public_of(res.1@) == Some(res.0@),
{
    let (pk, sk) = pqcrypto_mldsa::mldsa87::keypair();
    (pk.as_bytes().to_vec(), sk.as_bytes().to_vec())
}

/// `mldsa87::sign(msg, sk)`, as bytes. Trusted: the signed message is a
/// signature of the fixed length followed by the message itself, and when
/// `sk` belongs to a key pair, `mldsa87::open` accepts it under that pair's
/// public key (ML-DSA signing retries until the signature meets the bounds
/// that verification checks). The signature is hedged with fresh
/// randomness; nothing else is stated of its bytes.
#[verifier::external_body]
fn mldsa87_sign(msg: &[u8], sk: &[u8]) -> (res: Vec<u8>)
    requires
        sk@.len() == 4896,
        msg@.len() + 4627 <= usize::MAX,
    ensures
        res@.len() == 4627 + msg@.len(),
        res@.skip(4627) == msg@,
        mldsa87_public_of(sk@) matches Some(pk) ==> mldsa87_opens(res@, pk),
{
    let key = pqcrypto_mldsa::mldsa87::SecretKey::from_bytes(sk).unwrap();
    pqcrypto_mldsa::mldsa87::sign(msg, &key).as_bytes().to_vec()
}

/// `mldsa87::open(sm, pk)`. Trusted: it succeeds exactly when
/// [`mldsa87_opens`] holds, never on fewer bytes than a signature, and then
/// gives the bytes after the signature.
#[verifier::external_body]
fn mldsa87_open(sm: &[u8], pk: &[u8]) -> (res: Option<Vec<u8>>)
    requires
        pk@.len() == 2592,
    ensures
        res is Some <==> mldsa87_opens(sm@, pk@),
        sm@.len() < 4627 ==> res is None,
        res matches Some(m) ==> m@ == sm@.skip(4627),
{
    let key = pqcrypto_mldsa::mldsa87::PublicKey::from_bytes(pk).unwrap();
    let signed = pqcrypto_mldsa::mldsa87::SignedMessage::from_bytes(sm).unwrap();
    pqcrypto_mldsa::mldsa87::open(&signed, &key).ok()
}

/// The key a text form stands for: the bytes of its trimmed hex.
pub open spec fn key_hex_bytes(s: Seq<char>) -> Option<Seq<u8>> {
    hex_decoded(trimmed(s))
}

/// An ML-DSA-87 public key.
#[derive(Clone, Debug)]
pub struct SignPublicKey {
    bytes: Vec<u8>,
}

/// An ML-DSA-87 secret key.
pub struct SignSecretKey {
    bytes: Vec<u8>,
}

impl SignPublicKey {
    /// The key's bytes.
    pub closed spec fn key_bytes(&self) -> Seq<u8> {
        self.bytes@
    }

    /// A key holds as many bytes as the scheme's public keys.
    pub closed spec fn wf(&self) -> bool {
        self.bytes@.len() == 2592
    }

    /// The key's bytes.
    pub fn as_bytes(&self) -> (res: &[u8])
        ensures
            res@ == self.key_bytes(),
    {
        self.bytes.as_slice()
    }

    /// The key with the given bytes; `Serialization` unless they are as
    /// many as a public key has.
    pub fn from_bytes(b: &[u8]) -> (res: Result<SignPublicKey, PolygoneError>)
        ensures
            b@.len() == 2592 ==> (res matches Ok(k) && k.wf() && k.key_bytes() == b@),
            b@.len() != 2592 ==> (res matches Err(PolygoneError::Serialization(m)) && m@ == "Invalid Sign PK"@),
    {
        match mldsa87_public_key(b) {
            Some(v) => Ok(SignPublicKey { bytes: v }),
            None => Err(PolygoneError::Serialization(owned("Invalid Sign PK"))),
        }
    }

    /// The key's bytes in lowercase hex.
    pub fn to_hex(&self) -> (res: String)
        ensures
            res@ == hex_of(self.key_bytes()),
    {
        hex_encode(self.bytes.as_slice())
    }

    /// Reads a key from hex (white space around it is ignored): `KeyFile`
    /// when the text is not hex, `Serialization` when the bytes are not a
    /// key.
    pub fn from_hex(s: &str) -> (res: Result<SignPublicKey, PolygoneError>)
        ensures
            match key_hex_bytes(s@) {
                Some(b) => if b.len() == 2592 {
                    res matches Ok(k) && k.wf() && k.key_bytes() == b
                } else {
                    res matches Err(PolygoneError::Serialization(_))
                },
                None => res matches Err(PolygoneError::KeyFile(m)) && seq_starts_with(m@, "hex decode: "@),
            },
    {
        let bytes = match decode_key_text(s) {
            Ok(b) => b,
            Err(e) => return Err(e),
        };
        SignPublicKey::from_bytes(bytes.as_slice())
    }
}

/// The bytes of a key's hex text, or the `KeyFile` error.
fn decode_key_text(s: &str) -> (res: Result<Vec<u8>, PolygoneError>)
    ensures
        match key_hex_bytes(s@) {
            Some(b) => res matches Ok(v) && v@ == b,
            None => res matches Err(PolygoneError::KeyFile(m)) && seq_starts_with(m@, "hex decode: "@),
        },
{
    let t = trim(s);
    match hex_decode(t.as_str()) {
        Ok(v) => Ok(v),
        Err(e) => {
            let mut m = owned("hex decode: ");
            push_str(&mut m, e.as_str());
            assert(m@.take("hex decode: "@.len() as int) =~= "hex decode: "@);
            Err(PolygoneError::KeyFile(m))
        },
    }
}

impl SignSecretKey {
    /// The key's bytes.
    pub closed spec fn key_bytes(&self) -> Seq<u8> {
        self.bytes@
    }

    /// A key holds as many bytes as the scheme's secret keys.
    pub closed spec fn wf(&self) -> bool {
        self.bytes@.len() == 4896
    }

    /// The key's bytes.
    pub fn as_bytes(&self) -> (res: &[u8])
        ensures
            res@ == self.key_bytes(),
    {
        self.bytes.as_slice()
    }

    /// The key with the given bytes; `Serialization` unless they are as
    /// many as a secret key has.
    pub fn from_bytes(b: &[u8]) -> (res: Result<SignSecretKey, PolygoneError>)
        ensures
            b@.len() == 4896 ==> (res matches Ok(k) && k.wf() && k.key_bytes() == b@),
            b@.len() != 4896 ==> (res matches Err(PolygoneError::Serialization(m)) && m@ == "Invalid Sign SK"@),
    {
        match mldsa87_secret_key(b) {
            Some(v) => Ok(SignSecretKey { bytes: v }),
            None => Err(PolygoneError::Serialization(owned("Invalid Sign SK"))),
        }
    }

    /// The key's bytes in lowercase hex.
    pub fn to_hex(&self) -> (res: String)
        ensures
            res@ == hex_of(self.key_bytes()),
    {
        hex_encode(self.bytes.as_slice())
    }

    /// Reads a key from hex (white space around it is ignored): `KeyFile`
    /// when the text is not hex, `Serialization` when the bytes are not a
    /// key.
    pub fn from_hex(s: &str) -> (res: Result<SignSecretKey, PolygoneError>)
        ensures
            match key_hex_bytes(s@) {
                Some(b) => if b.len() == 4896 {
                    res matches Ok(k) && k.wf() && k.key_bytes() == b
                } else {
                    res matches Err(PolygoneError::Serialization(_))
                },
                None => res matches Err(PolygoneError::KeyFile(m)) && seq_starts_with(m@, "hex decode: "@),
            },
    {
        let bytes = match decode_key_text(s) {
            Ok(b) => b,
            Err(e) => return Err(e),
        };
        SignSecretKey::from_bytes(bytes.as_slice())
    }
}

/// A detached signature.
#[derive(Clone, Debug)]
pub struct Signature(pub Vec<u8>);

impl Signature {
    /// The signature's bytes.
    pub fn as_bytes(&self) -> (res: &[u8])
        ensures
            res@ == self.0@,
    {
        self.0.as_slice()
    }
}

/// A fresh key pair (never fails): the public key is the one that belongs
/// to the secret key.
pub fn generate_keypair() -> (res: Result<(SignPublicKey, SignSecretKey), PolygoneError>)
    ensures
        res matches Ok((pk, sk)) && pk.wf() && sk.wf() && mldsa87_public_of(sk.key_bytes()) == Some(
            pk.key_bytes(),
        ),
{
    let (pk, sk) = mldsa87_keypair();
    Ok((SignPublicKey { bytes: pk }, SignSecretKey { bytes: sk }))
}

/// Signs `message`: the signature detached from the signed message the
/// scheme produces (which carries the message after the signature). When
/// `sk` belongs to a key pair, the signature followed by the message opens
/// under that pair's public key, so [`verify`] accepts it there.
pub fn sign(sk: &SignSecretKey, message: &[u8]) -> (res: Signature)
    requires
        sk.wf(),
        message@.len() + 4627 <= usize::MAX,
    ensures
        res.0@.len() == SIGNATURE_BYTES,
        mldsa87_public_of(sk.key_bytes()) matches Some(pk) ==> mldsa87_opens(res.0@ + message@, pk),
{
    let signed = mldsa87_sign(message, sk.bytes.as_slice());
    let n = signed.len() - message.len();
    let mut sig: Vec<u8> = Vec::new();
    let mut i: usize = 0;
    while i < n
        invariant
            0 <= i <= n,
            n == 4627,
            n <= signed@.len(),
            sig@ == signed@.take(i as int),
        decreases n - i,
    {
        sig.push(signed[i]);
        proof {
            assert(signed@.take(i + 1) =~= signed@.take(i as int).push(signed@[i as int]));
        }
        i = i + 1;
    }
    assert(signed@ =~= sig@ + message@);
    Signature(sig)
}

/// Checks a detached signature of `message` under `pk`: accepted exactly
/// when the scheme opens the signature followed by the message; otherwise
/// `SignatureInvalid`.
pub fn verify(pk: &SignPublicKey, message: &[u8], sig: &Signature) -> (res: Result<(), PolygoneError>)
    requires
        pk.wf(),
        sig.0@.len() + message@.len() <= usize::MAX,
    ensures
        res is Ok <==> mldsa87_opens(sig.0@ + message@, pk.key_bytes()),
        res matches Err(e) ==> e is SignatureInvalid,
        sig.0@.len() + message@.len() < SIGNATURE_BYTES ==> res is Err,
{
    let mut combined = sig.0.clone();
    let ghost c0 = combined@;
    assert(c0 =~= sig.0@);
    let mut i: usize = 0;
    while i < message.len()
        invariant
            0 <= i <= message@.len(),
            combined@ == sig.0@ + message@.take(i as int),
            sig.0@.len() + message@.len() <= usize::MAX,
        decreases message@.len() - i,
    {
        combined.push(message[i]);
        proof {
            assert(message@.take(i + 1) =~= message@.take(i as int).push(message@[i as int]));
            assert(combined@ =~= sig.0@ + message@.take(i + 1));
        }
        i = i + 1;
    }
    assert(message@.take(message@.len() as int) =~= message@);
    match mldsa87_open(combined.as_slice(), pk.bytes.as_slice()) {
        Some(_) => Ok(()),
        None => Err(PolygoneError::SignatureInvalid),
    }
}

} // verus!
