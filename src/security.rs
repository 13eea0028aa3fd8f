//! Session encryption (AES-256-GCM with a random 96-bit nonce, framed as
//! nonce followed by ciphertext and tag) and the session key's checks.
use vstd::prelude::*;
use aes_gcm::aead::{Aead, KeyInit};
use rand::RngCore;

verus! {

/// Nonce length in bytes.
pub const NONCE_SIZE: usize = 12;
/// Authentication tag length in bytes.
pub const TAG_SIZE: usize = 16;
/// Key length in bytes.
pub const KEY_SIZE: usize = 32;

#[derive(Clone, Copy, Debug, PartialEq, Eq, Structural)]
pub enum CryptoError {
    /// The cipher refused the key.
    InvalidKey,
    EncryptionFailed,
    /// Wrong key or corrupted data.
    DecryptionFailed,
    /// Shorter than a nonce and a tag.
    DataTooShort,
}

/// Failures of the key vault.
#[derive(Clone, Debug, PartialEq, Eq)]
pub enum KeychainError {
    /// The platform's secret store reported an error.
    Framework(String),
    /// A stored key of the wrong length.
    InvalidKeyLength(usize),
}

/// Failures of saving or loading the encrypted session.
#[derive(Clone, Debug, PartialEq, Eq)]
pub enum SessionError {
    Io(String),
    Crypto(CryptoError),
    Keychain(KeychainError),
}

/// What AES-256-GCM encryption makes of a plaintext under a key and nonce
/// (ciphertext followed by the tag).
pub uninterp spec fn sealed_of(key: Seq<u8>, nonce: Seq<u8>, plaintext: Seq<u8>) -> Seq<u8>;

/// What AES-256-GCM decryption gives for a ciphertext-and-tag under a key
/// and nonce: the plaintext, or nothing when authentication fails.
pub uninterp spec fn opened_of(key: Seq<u8>, nonce: Seq<u8>, data: Seq<u8>) -> Option<Seq<u8>>;

/// Relies on aes_gcm's `Aes256Gcm::encrypt` (via `Aead`): the ciphertext
/// (as long as the plaintext) with the 16-byte tag appended, which
/// `decrypt` under the same key and nonce opens to the plaintext; or an
/// error.
#[verifier::external_body]
fn aead_seal(key: &[u8; 32], nonce: &[u8; 12], plaintext: &[u8]) -> (r: Result<Vec<u8>, ()>)
    ensures
        r matches Ok(v) ==> v@ == sealed_of(key@, nonce@, plaintext@) && v@.len() == plaintext@.len() + TAG_SIZE
            && opened_of(key@, nonce@, v@) == Some(plaintext@),
{
    let cipher = aes_gcm::Aes256Gcm::new_from_slice(key).map_err(|_| ())?;
    cipher.encrypt(aes_gcm::Nonce::from_slice(nonce), plaintext).map_err(|_| ())
}

/// Relies on aes_gcm's `Aes256Gcm::decrypt` (via `Aead`): the plaintext when
/// the tag authenticates, an error otherwise. `Nonce::from_slice` needs
/// exactly twelve bytes.
#[verifier::external_body]
fn aead_open(key: &[u8; 32], nonce: &[u8], data: &[u8]) -> (r: Result<Vec<u8>, ()>)
    requires
        nonce@.len() == NONCE_SIZE,
    ensures
        r is Ok <==> opened_of(key@, nonce@, data@) is Some,
        r matches Ok(v) ==> opened_of(key@, nonce@, data@) == Some(v@),
{
    let cipher = aes_gcm::Aes256Gcm::new_from_slice(key).map_err(|_| ())?;
    cipher.decrypt(aes_gcm::Nonce::from_slice(nonce), data).map_err(|_| ())
}

/// Relies on rand's `thread_rng().fill_bytes`: twelve random bytes.
#[verifier::external_body]
fn random_nonce() -> (r: [u8; 12]) {
    let mut n = [0u8; 12];
    rand::thread_rng().fill_bytes(&mut n);
    n
}

/// Relies on rand's `thread_rng().fill_bytes`: thirty-two random bytes.
#[verifier::external_body]
pub fn generate_key() -> (r: [u8; 32]) {
    let mut k = [0u8; 32];
    rand::thread_rng().fill_bytes(&mut k);
    k
}

/// What decrypting `data` gives: too short for a nonce and a tag is
/// `DataTooShort`; otherwise the leading nonce and the rest are opened, and
/// a tag that does not authenticate is `DecryptionFailed`.
pub open spec fn decrypt_spec(key: Seq<u8>, data: Seq<u8>) -> Result<Seq<u8>, CryptoError> {
    if data.len() < NONCE_SIZE + TAG_SIZE {
        Err(CryptoError::DataTooShort)
    } else {
        match opened_of(key, data.subrange(0, NONCE_SIZE as int), data.subrange(NONCE_SIZE as int, data.len() as int)) {
            Some(p) => Ok(p),
            None => Err(CryptoError::DecryptionFailed),
        }
    }
}

pub open spec fn result_view(r: Result<Vec<u8>, CryptoError>) -> Result<Seq<u8>, CryptoError> {
    match r {
        Ok(v) => Ok(v@),
        Err(e) => Err(e),
    }
}

/// Encrypts under the given nonce; the output is the nonce followed by the
/// ciphertext and tag.
pub fn seal_with_nonce(key: &[u8; 32], nonce: &[u8; 12], plaintext: &[u8]) -> (r: Result<Vec<u8>, CryptoError>)
    ensures
        r matches Ok(v) ==> v@ == nonce@ + sealed_of(key@, nonce@, plaintext@)
            && v@.len() == NONCE_SIZE + plaintext@.len() + TAG_SIZE && decrypt_spec(key@, v@) == Ok::<Seq<u8>, CryptoError>(plaintext@),
        r matches Err(e) ==> e == CryptoError::EncryptionFailed,
{
    let mut sealed = match aead_seal(key, nonce, plaintext) {
        Ok(v) => v,
        Err(()) => return Err(CryptoError::EncryptionFailed),
    };
    let mut out: Vec<u8> = Vec::new();
    let mut i: usize = 0;
    while i < NONCE_SIZE
        invariant
            i <= NONCE_SIZE,
            nonce@.len() == NONCE_SIZE,
            out@ == nonce@.subrange(0, i as int),
        decreases NONCE_SIZE - i,
    {
        out.push(nonce[i]);
        assert(out@ =~= nonce@.subrange(0, i as int + 1));
        i = i + 1;
    }
    assert(nonce@.subrange(0, NONCE_SIZE as int) =~= nonce@);
    let ghost sv = sealed@;
    out.append(&mut sealed);
    proof {
        lemma_round_trip(key@, nonce@, plaintext@, sv);
    }
    Ok(out)
}

/// Encrypts with a fresh random nonce: `[12-byte nonce][ciphertext + tag]`.
pub fn encrypt(key: &[u8; 32], plaintext: &[u8]) -> (r: Result<Vec<u8>, CryptoError>)
    ensures
        r matches Ok(v) ==> v@.len() == NONCE_SIZE + plaintext@.len() + TAG_SIZE && v@.subrange(NONCE_SIZE as int, v@.len() as int)
            == sealed_of(key@, v@.subrange(0, NONCE_SIZE as int), plaintext@),
        r matches Ok(v) ==> decrypt_spec(key@, v@) == Ok::<Seq<u8>, CryptoError>(plaintext@),
        r matches Err(e) ==> e == CryptoError::EncryptionFailed,
{
    let nonce = random_nonce();
    let r = seal_with_nonce(key, &nonce, plaintext);
    proof {
        if r is Ok {
            let v = r->Ok_0;
            assert(v@.subrange(0, NONCE_SIZE as int) =~= nonce@);
            assert(v@.subrange(NONCE_SIZE as int, v@.len() as int) =~= sealed_of(key@, nonce@, plaintext@));
        }
    }
    r
}

/// Decrypts data produced by [`encrypt`]: too short for a nonce and a tag
/// is `DataTooShort`; a tag that does not authenticate is
/// `DecryptionFailed`.
pub fn decrypt(key: &[u8; 32], data: &[u8]) -> (r: Result<Vec<u8>, CryptoError>)
    ensures
        result_view(r) == decrypt_spec(key@, data@),
        data@.len() < NONCE_SIZE + TAG_SIZE ==> r == Err::<Vec<u8>, CryptoError>(CryptoError::DataTooShort),
        data@.len() >= NONCE_SIZE + TAG_SIZE ==> {
            let opened = opened_of(key@, data@.subrange(0, NONCE_SIZE as int), data@.subrange(NONCE_SIZE as int, data@.len() as int));
            &&& (r is Ok <==> opened is Some)
            &&& (r matches Ok(v) ==> opened == Some(v@))
            &&& (r matches Err(e) ==> e == CryptoError::DecryptionFailed)
        },
{
    if data.len() < NONCE_SIZE + TAG_SIZE {
        return Err(CryptoError::DataTooShort);
    }
    let (nonce, ciphertext) = data.split_at(NONCE_SIZE);
    match aead_open(key, nonce, ciphertext) {
        Ok(v) => Ok(v),
        Err(()) => Err(CryptoError::DecryptionFailed),
    }
}

/// The framing round-trips: decryption hands the cipher exactly the nonce
/// and the ciphertext that encryption framed, so encrypting and then
/// decrypting under one key opens what was sealed. And since the nonce
/// leads the output, two encryptions under different nonces never give the
/// same bytes.
pub proof fn lemma_frame_round_trip(key: Seq<u8>, n1: Seq<u8>, n2: Seq<u8>, p1: Seq<u8>, p2: Seq<u8>)
    requires
        n1.len() == NONCE_SIZE,
        n2.len() == NONCE_SIZE,
    ensures
        ({
            let v = n1 + sealed_of(key, n1, p1);
            v.subrange(0, NONCE_SIZE as int) == n1 && v.subrange(NONCE_SIZE as int, v.len() as int) == sealed_of(key, n1, p1)
        }),
        n1 != n2 ==> n1 + sealed_of(key, n1, p1) != n2 + sealed_of(key, n2, p2),
{
    let v = n1 + sealed_of(key, n1, p1);
    assert(v.subrange(0, NONCE_SIZE as int) =~= n1);
    assert(v.subrange(NONCE_SIZE as int, v.len() as int) =~= sealed_of(key, n1, p1));
    let w = n2 + sealed_of(key, n2, p2);
    if n1 != n2 {
        assert(w.subrange(0, NONCE_SIZE as int) =~= n2);
        if v == w {
            assert(n1 =~= n2);
        }
    }
}

/// Decrypting what was sealed under a key and nonce, framed behind that
/// nonce, gives the plaintext back, whenever the sealed bytes open to it.
pub proof fn lemma_round_trip(key: Seq<u8>, nonce: Seq<u8>, plaintext: Seq<u8>, sealed: Seq<u8>)
    requires
        nonce.len() == NONCE_SIZE,
        sealed.len() == plaintext.len() + TAG_SIZE,
        opened_of(key, nonce, sealed) == Some(plaintext),
    ensures
        decrypt_spec(key, nonce + sealed) == Ok::<Seq<u8>, CryptoError>(plaintext),
{
    let v = nonce + sealed;
    assert(v.subrange(0, NONCE_SIZE as int) =~= nonce);
    assert(v.subrange(NONCE_SIZE as int, v.len() as int) =~= sealed);
}

/// A key read back from the vault: exactly thirty-two bytes, or the length
/// that was found.
pub fn key_from_bytes(data: &Vec<u8>) -> (r: Result<[u8; 32], KeychainError>)
    ensures
        data@.len() != KEY_SIZE ==> r == Err::<[u8; 32], KeychainError>(KeychainError::InvalidKeyLength(data@.len() as usize)),
        data@.len() == KEY_SIZE ==> (r matches Ok(k) && k@ == data@),
{
    if data.len() != KEY_SIZE {
        return Err(KeychainError::InvalidKeyLength(data.len()));
    }
    let mut key = [0u8; 32];
    let mut i: usize = 0;
    while i < KEY_SIZE
        invariant
            i <= KEY_SIZE,
            data@.len() == KEY_SIZE,
            key@.len() == KEY_SIZE,
            forall|j: int| 0 <= j < i ==> key@[j] == data@[j],
        decreases KEY_SIZE - i,
    {
        key[i] = data[i];
        i = i + 1;
    }
    assert(key@ =~= data@);
    Ok(key)
}

} // verus!
