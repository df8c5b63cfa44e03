//! The library's error type: the messaging pipeline and the answers of
//! inference servers.

use vstd::prelude::*;

verus! {

/// What can go wrong while encrypting, splitting, parsing or checking.
#[derive(Clone, Debug, PartialEq, Eq)]
pub enum PolygoneError {
    /// The AEAD cipher refused to encrypt or to open.
    AeadError(String),
    /// Encrypted data could not be decrypted before the cipher was reached.
    Decrypt(String),
    /// A key could not be read from its text form.
    KeyFile(String),
    /// The message itself is not what was expected.
    Message(String),
    /// A required field is missing from a parsed document.
    MissingField(String),
    /// A fragment line could not be parsed.
    ParseFragment,
    /// Bytes could not be turned into a key.
    Serialization(String),
    /// Secret shares could not be recombined.
    ShamirReconstruct(String),
    /// A secret could not be split.
    ShamirSplit(String),
    /// A signature did not verify.
    SignatureInvalid,
    /// An inference server answered with something that is not JSON.
    Response(String),
}

} // verus!
