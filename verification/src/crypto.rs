//! The cryptographic primitives, each one a call into the crate that implements it.
//!
//! What an algorithm computes is given a name here; beside the name stand only the facts
//! that make it usable: a signature verifies under its own key, a sealed text opens under
//! its own key, a password matches its own hash.
use aes_gcm::aead::Aead;
use aes_gcm::{Aes256Gcm, KeyInit, Nonce};
use argon2::password_hash::SaltString;
use argon2::{Argon2, PasswordHash, PasswordHasher, PasswordVerifier};
use ed25519_dalek::{Signature, Signer, SigningKey, Verifier, VerifyingKey};
use rand_core::{OsRng, RngCore};
use sha2::{Digest, Sha256};
use uuid::Uuid;
use vstd::prelude::*;
use vstd::string::*;

use crate::encoding::base64_digits;
use crate::text::{
    chars_of, digits_value, is_number, lemma_split_append, lemma_split_single, number_exceeds, split,
    split_on, strip_prefix, texts,
};

verus! {

/// The bytes inside an optional vector.
pub open spec fn opt_bytes(bytes: Option<Vec<u8>>) -> Option<Seq<u8>> {
    match bytes {
        Some(b) => Some(b@),
        None => None,
    }
}

/// `RngCore::fill_bytes` on `OsRng` of the `rand_core` crate fills the whole buffer from
/// the operating system's random source; nothing can be said of the bytes themselves.
#[verifier::external_body]
pub(crate) fn random_bytes(count: usize) -> (bytes: Vec<u8>)
    ensures
        bytes@.len() == count,
{
    let mut bytes = vec![0_u8; count];
    OsRng.fill_bytes(&mut bytes);
    bytes
}

/// A lower-case hexadecimal digit.
pub open spec fn is_hex_digit(c: char) -> bool {
    '0' <= c <= '9' || 'a' <= c <= 'f'
}

/// The text form of a random (version 4) UUID: 36 characters, hyphens at four places,
/// lower-case hexadecimal digits elsewhere, among them the version and variant digits.
pub open spec fn is_uuid_v4(s: Seq<char>) -> bool {
    &&& s.len() == 36
    &&& forall|i: int|
        0 <= i < 36 ==> (if i == 8 || i == 13 || i == 18 || i == 23 {
            #[trigger] s[i] == '-'
        } else {
            is_hex_digit(s[i])
        })
    &&& s[14] == '4'
    &&& s[19] == '8' || s[19] == '9' || s[19] == 'a' || s[19] == 'b'
}

/// `Uuid::new_v4` of the `uuid` crate, in its hyphenated text form. Which UUID comes is
/// left to chance.
#[verifier::external_body]
pub(crate) fn random_uuid() -> (text: String)
    ensures
        is_uuid_v4(text@),
{
    Uuid::new_v4().to_string()
}

/// The Ed25519 public key that belongs to a 32-byte secret seed.
pub uninterp spec fn ed25519_public_key(seed: Seq<u8>) -> Seq<u8>;

/// The Ed25519 signature of a message under a 32-byte secret seed.
pub uninterp spec fn ed25519_signature(seed: Seq<u8>, message: Seq<u8>) -> Seq<u8>;

/// Whether an Ed25519 public key accepts a signature for a message.
pub uninterp spec fn ed25519_accepts(
    public_key: Seq<u8>,
    message: Seq<u8>,
    signature: Seq<u8>,
) -> bool;

/// `SigningKey::generate` of the `ed25519-dalek` crate draws a fresh 32-byte seed from the
/// operating system's random source.
#[verifier::external_body]
pub(crate) fn generate_signing_seed() -> (seed: Vec<u8>)
    ensures
        seed@.len() == 32,
{
    SigningKey::generate(&mut OsRng).to_bytes().to_vec()
}

/// `SigningKey::verifying_key` of the `ed25519-dalek` crate: the 32 bytes of the public
/// key, a function of the seed.
#[verifier::external_body]
pub(crate) fn signing_public_key(seed: &[u8]) -> (public_key: Vec<u8>)
    requires
        seed@.len() == 32,
    ensures
        public_key@ == ed25519_public_key(seed@),
        public_key@.len() == 32,
{
    let seed: &[u8; 32] = seed.try_into().expect("seed length");
    SigningKey::from_bytes(seed).verifying_key().as_bytes().to_vec()
}

/// `Signer::sign` of the `ed25519-dalek` crate: 64 bytes that depend on the seed and the
/// message alone, and that the seed's public key accepts for that message.
#[verifier::external_body]
pub(crate) fn sign(seed: &[u8], message: &[u8]) -> (signature: Vec<u8>)
    requires
        seed@.len() == 32,
    ensures
        signature@ == ed25519_signature(seed@, message@),
        signature@.len() == 64,
        ed25519_accepts(ed25519_public_key(seed@), message@, signature@),
{
    let seed: &[u8; 32] = seed.try_into().expect("seed length");
    SigningKey::from_bytes(seed).sign(message).to_bytes().to_vec()
}

/// `Signature::from_slice` and `Verifier::verify` of the `ed25519-dalek` crate: a
/// signature that is not 64 bytes long, or that does not verify, is not accepted.
#[verifier::external_body]
pub(crate) fn signature_is_valid(public_key: &[u8], message: &[u8], signature: &[u8]) -> (r: bool)
    requires
        public_key@.len() == 32,
    ensures
        r == ed25519_accepts(public_key@, message@, signature@),
        r ==> signature@.len() == 64,
{
    let key: &[u8; 32] = public_key.try_into().expect("key length");
    match (VerifyingKey::from_bytes(key), Signature::from_slice(signature)) {
        (Ok(key), Ok(signature)) => key.verify(message, &signature).is_ok(),
        _ => false,
    }
}

/// The AES-256-GCM ciphertext and tag of a plaintext, where the plaintext is short enough.
pub uninterp spec fn aes256gcm_sealed(key: Seq<u8>, nonce: Seq<u8>, plaintext: Seq<u8>) -> Option<
    Seq<u8>,
>;

/// The plaintext of an AES-256-GCM ciphertext and tag, where the tag is right.
pub uninterp spec fn aes256gcm_opened(key: Seq<u8>, nonce: Seq<u8>, ciphertext: Seq<u8>) -> Option<
    Seq<u8>,
>;

/// `Aead::encrypt` of `Aes256Gcm` in the `aes-gcm` crate: ciphertext and 16-byte tag, a
/// function of key, nonce and plaintext, refused only past 2^36 bytes; opening it under
/// the same key and nonce gives the plaintext back.
#[verifier::external_body]
pub(crate) fn aes_gcm_encrypt(key: &[u8], nonce: &[u8], plaintext: &[u8]) -> (r: Option<Vec<u8>>)
    requires
        key@.len() == 32,
        nonce@.len() == 12,
    ensures
        opt_bytes(r) == aes256gcm_sealed(key@, nonce@, plaintext@),
        r is Some <==> plaintext@.len() <= 0x10_0000_0000,
        r matches Some(c) ==> c@.len() == plaintext@.len() + 16,
        r matches Some(c) ==> aes256gcm_opened(key@, nonce@, c@) == Some(plaintext@),
{
    let cipher = Aes256Gcm::new_from_slice(key).expect("key length");
    cipher.encrypt(Nonce::from_slice(nonce), plaintext).ok()
}

/// `Aead::decrypt` of `Aes256Gcm` in the `aes-gcm` crate: the plaintext, or a refusal, a
/// function of key, nonce and ciphertext.
#[verifier::external_body]
pub(crate) fn aes_gcm_decrypt(key: &[u8], nonce: &[u8], ciphertext: &[u8]) -> (r: Option<Vec<u8>>)
    requires
        key@.len() == 32,
        nonce@.len() == 12,
    ensures
        opt_bytes(r) == aes256gcm_opened(key@, nonce@, ciphertext@),
        r is Some ==> ciphertext@.len() >= 16,
{
    let cipher = Aes256Gcm::new_from_slice(key).expect("key length");
    cipher.decrypt(Nonce::from_slice(nonce), ciphertext).ok()
}

/// The text form of a 16-byte salt: standard base64 without padding.
pub open spec fn is_salt(salt: Seq<char>) -> bool {
    exists|bytes: Seq<u8>| bytes.len() == 16 && salt == base64_digits(bytes, false)
}

/// The Argon2id hash of a password under a salt, in the PHC string format.
pub uninterp spec fn argon2id_phc(password: Seq<u8>, salt: Seq<char>) -> Seq<char>;

/// Whether a text is a password hash in the PHC string format.
pub uninterp spec fn phc_parses(hash: Seq<char>) -> bool;

/// Whether the Argon2 hash written in `hash` is one of `password`.
pub uninterp spec fn argon2_matches(hash: Seq<char>, password: Seq<u8>) -> bool;

/// The parts of a PHC string: what stands between its dollar signs and commas.
pub open spec fn phc_pieces(hash: Seq<char>) -> Seq<Seq<char>> {
    split(
        Seq::new(
            hash.len(),
            |i: int|
                if hash[i] == '$' {
                    ','
                } else {
                    hash[i]
                },
        ),
        ',',
    )
}

/// The value of the last of the pieces that are parameters called `p`, the degree of
/// parallelism. Of several the last counts.
pub open spec fn last_parallelism(pieces: Seq<Seq<char>>) -> Option<Seq<char>>
    decreases pieces.len(),
{
    if pieces.len() == 0 {
        None
    } else if "p="@.is_prefix_of(pieces.last()) {
        Some(pieces.last().skip(2))
    } else {
        last_parallelism(pieces.drop_last())
    }
}

/// The largest degree of parallelism that Argon2 has.
pub const MAX_PARALLELISM: u32 = 0xff_ffff;

/// Whether the degree of parallelism in a PHC string, if it is a number, is one that
/// Argon2 has.
pub open spec fn parallelism_is_bounded(hash: Seq<char>) -> bool {
    match last_parallelism(phc_pieces(hash)) {
        Some(value) => is_number(value) ==> digits_value(value) <= MAX_PARALLELISM,
        None => true,
    }
}

/// Whether the degree of parallelism in a PHC string, if it is a number, is one that
/// Argon2 has.
pub fn has_bounded_parallelism(hash: &str) -> (r: bool)
    ensures
        r == parallelism_is_bounded(hash@),
{
    let chars = chars_of(hash);
    let mut commas = String::new();
    let mut i: usize = 0;
    let ghost replaced = Seq::new(
        hash@.len(),
        |i: int|
            if hash@[i] == '$' {
                ','
            } else {
                hash@[i]
            },
    );
    assert(commas@ =~= replaced.take(0));
    while i < chars.len()
        invariant
            i <= chars@.len(),
            chars@ == hash@,
            replaced == Seq::new(
                hash@.len(),
                |i: int|
                    if hash@[i] == '$' {
                        ','
                    } else {
                        hash@[i]
                    },
            ),
            commas@ == replaced.take(i as int),
        decreases chars@.len() - i,
    {
        if chars[i] == '$' {
            commas.push(',');
        } else {
            commas.push(chars[i]);
        }
        assert(commas@ =~= replaced.take(i + 1));
        i += 1;
    }
    assert(replaced.take(replaced.len() as int) =~= replaced);
    let pieces = split_on(commas.as_str(), ',');
    let ghost views = texts(pieces@);
    let mut n: usize = pieces.len();
    assert(views.take(n as int) =~= views);
    while n > 0
        invariant
            n <= pieces@.len(),
            views == texts(pieces@),
            views == phc_pieces(hash@),
            last_parallelism(views.take(n as int)) == last_parallelism(views),
        decreases n,
    {
        n -= 1;
        proof {
            reveal_strlit("p=");
            assert(views.take(n + 1).last() == pieces@[n as int]@);
            assert(views.take(n + 1).drop_last() =~= views.take(n as int));
        }
        if let Some(value) = strip_prefix(pieces[n].as_str(), "p=") {
            assert("p="@.is_prefix_of(pieces@[n as int]@));
            assert(pieces@[n as int]@.skip(2) =~= value@);
            return !number_exceeds(value.as_str(), MAX_PARALLELISM);
        }
    }
    true
}

/// `SaltString::generate` of the `password-hash` crate encodes 16 bytes from the operating
/// system's random source; which bytes they are is left to chance.
#[verifier::external_body]
pub(crate) fn random_salt() -> (salt: String)
    ensures
        is_salt(salt@),
{
    SaltString::generate(&mut OsRng).as_str().to_owned()
}

/// `PasswordHasher::hash_password` of `Argon2::default()` in the `argon2` crate. On a
/// 16-byte salt it refuses only a password longer than 2^32 - 1 bytes; what it returns
/// depends on password and salt alone, is an Argon2id hash in the PHC string format with a
/// parallelism of one, and that text parses again and matches the password. The text of the
/// refusal is left unsaid.
#[verifier::external_body]
pub(crate) fn argon2_hash(password: &[u8], salt: &str) -> (r: Result<String, String>)
    requires
        is_salt(salt@),
    ensures
        r is Ok <==> password@.len() <= 0xffff_ffff,
        r matches Ok(hash) ==> hash@ == argon2id_phc(password@, salt@),
        r matches Ok(hash) ==> "$argon2id$"@.is_prefix_of(hash@),
        r matches Ok(hash) ==> last_parallelism(phc_pieces(hash@)) == Some("1"@),
        r matches Ok(hash) ==> phc_parses(hash@) && argon2_matches(hash@, password@),
{
    let salt = SaltString::from_b64(salt).map_err(|error| error.to_string())?;
    match Argon2::default().hash_password(password, &salt) {
        Ok(hash) => Ok(hash.to_string()),
        Err(error) => Err(error.to_string()),
    }
}

/// `PasswordHash::new` of the `password-hash` crate: whether a text parses as a hash.
#[verifier::external_body]
pub(crate) fn phc_is_valid(hash: &str) -> (r: bool)
    ensures
        r == phc_parses(hash@),
{
    PasswordHash::new(hash).is_ok()
}

/// `PasswordVerifier::verify_password` of `Argon2::default()` in the `argon2` crate, on a
/// hash that parses: whether the password is the one that was hashed. A parallelism far out
/// of bounds, which can make the crate's arithmetic overflow, is left out.
#[verifier::external_body]
pub(crate) fn argon2_verify(hash: &str, password: &[u8]) -> (r: bool)
    requires
        phc_parses(hash@),
        parallelism_is_bounded(hash@),
    ensures
        r == argon2_matches(hash@, password@),
{
    let hash = PasswordHash::new(hash).expect("hash format");
    Argon2::default().verify_password(password, &hash).is_ok()
}

/// The SHA-256 digest of some bytes.
pub uninterp spec fn sha256(bytes: Seq<u8>) -> Seq<u8>;

/// `Sha256::digest` of the `sha2` crate: the 32 bytes of the digest.
#[verifier::external_body]
pub(crate) fn sha256_digest(bytes: &[u8]) -> (digest: Vec<u8>)
    ensures
        digest@ == sha256(bytes@),
        digest@.len() == 32,
{
    Sha256::digest(bytes).to_vec()
}

proof fn lemma_phc_pieces_grow(front: Seq<char>, mark: char, piece: Seq<char>)
    requires
        mark == '$' || mark == ',',
        !piece.contains('$'),
        !piece.contains(','),
    ensures
        phc_pieces(front.push(mark) + piece) == phc_pieces(front).push(piece),
        phc_pieces(piece) == seq![piece],
{
    let hash = front.push(mark) + piece;
    let commas = |s: Seq<char>|
        Seq::new(
            s.len(),
            |i: int|
                if s[i] == '$' {
                    ','
                } else {
                    s[i]
                },
        );
    assert(commas(piece) =~= piece) by {
        assert forall|i: int| 0 <= i < piece.len() implies commas(piece)[i] == piece[i] by {
            assert(piece.contains(piece[i]));
        }
    }
    assert(commas(hash) =~= commas(front).push(',') + piece) by {
        assert forall|i: int| 0 <= i < hash.len() implies #[trigger] commas(hash)[i] == (commas(front).push(
            ',',
        ) + piece)[i] by {
            if i > front.len() {
                assert(hash[i] == piece[i - front.len() - 1]);
                assert(piece.contains(piece[i - front.len() - 1]));
            }
        }
    }
    lemma_split_append(commas(front), ',', piece);
    lemma_split_single(piece, ',');
    assert(phc_pieces(hash) == split(commas(hash), ','));
    assert(phc_pieces(front) == split(commas(front), ','));
    assert(phc_pieces(piece) == split(commas(piece), ','));
}

/// The degree of parallelism is what stands behind the last `p=` that begins a piece of the
/// hash, where dollar signs and commas part the pieces. It is refused if and only if it is a
/// number above 2^24 - 1; a hash without one is not refused for it.
pub proof fn law_parallelism_is_judged(front: Seq<char>, mark: char, piece: Seq<char>)
    requires
        mark == '$' || mark == ',',
        !piece.contains('$'),
        !piece.contains(','),
    ensures
        "p="@.is_prefix_of(piece) ==> (parallelism_is_bounded(front.push(mark) + piece) <==> !(
        is_number(piece.skip(2)) && digits_value(piece.skip(2)) > 0xff_ffff)),
        "p="@.is_prefix_of(piece) ==> (parallelism_is_bounded(piece) <==> !(is_number(piece.skip(2))
            && digits_value(piece.skip(2)) > 0xff_ffff)),
        !"p="@.is_prefix_of(piece) ==> (parallelism_is_bounded(front.push(mark) + piece)
            <==> parallelism_is_bounded(front)),
        !"p="@.is_prefix_of(piece) ==> parallelism_is_bounded(piece),
{
    lemma_phc_pieces_grow(front, mark, piece);
    let before = phc_pieces(front);
    let pieces = before.push(piece);
    assert(pieces.drop_last() =~= before);
    assert(pieces.last() == piece);
    let alone = seq![piece];
    assert(alone.last() == piece);
    assert(alone.drop_last().len() == 0);
    reveal_with_fuel(last_parallelism, 2);
}

} // verus!
