//! Bytes that are wiped from memory when they are dropped.
use vstd::prelude::*;
use zeroize::Zeroizing;

verus! {

/// Secret bytes, held in a `Zeroizing<Vec<u8>>` of the `zeroize` crate, which overwrites
/// them when the value is dropped.
#[verifier::external_body]
pub struct SecretBytes {
    bytes: Zeroizing<Vec<u8>>,
}

/// The bytes that `secret` holds.
pub uninterp spec fn secret_content(secret: SecretBytes) -> Seq<u8>;

impl View for SecretBytes {
    type V = Seq<u8>;

    open spec fn view(&self) -> Seq<u8> {
        secret_content(*self)
    }
}

/// `Zeroizing::new` of the `zeroize` crate takes the bytes over as they are.
#[verifier::external_body]
fn zeroizing(bytes: Vec<u8>) -> (secret: SecretBytes)
    ensures
        secret_content(secret) == bytes@,
{
    SecretBytes { bytes: Zeroizing::new(bytes) }
}

/// `Zeroizing` of the `zeroize` crate dereferences to the bytes that it holds.
#[verifier::external_body]
fn zeroizing_bytes(secret: &SecretBytes) -> (bytes: &[u8])
    ensures
        bytes@ == secret_content(*secret),
{
    secret.bytes.as_slice()
}

impl SecretBytes {
    /// Takes the bytes over.
    pub fn new(bytes: Vec<u8>) -> (secret: SecretBytes)
        ensures
            secret@ == bytes@,
    {
        zeroizing(bytes)
    }

    /// The bytes.
    pub fn as_slice(&self) -> (bytes: &[u8])
        ensures
            bytes@ == self@,
    {
        zeroizing_bytes(self)
    }
}

} // verus!
