//! Naming rules of the encrypted agent keystore.
//!
//! An identity is stored under a label in a keystore directory, in the
//! file `<dir>/<label>.json`. Labels are non-empty and made of ASCII
//! letters, digits, `-` and `_` only, so a label can never name a file
//! outside the keystore directory.
use vstd::prelude::*;

use base64::Engine;
use chacha20poly1305::aead::{Aead, KeyInit};

use crate::paths::{
    chars_of, hex_decode, hex_decoded, hex_encode, hex_lower, join_path, lemma_hex_roundtrip,
    path_join, push_all, string_from_chars,
};
use crate::types::Did;

verus! {

/// Why a keystore operation failed.
#[derive(Clone, Debug, PartialEq, Eq)]
pub enum KeyStoreError {
    /// Reading or writing the keystore failed.
    Io(String),
    /// The key file is not valid JSON of the expected shape.
    Serde(String),
    /// Key derivation (or encryption) failed.
    Kdf(String),
    /// Wrong passphrase, or a corrupted or tampered file.
    DecryptionFailed,
    /// An identity already exists under the label (label, path).
    AlreadyExists(String, String),
    /// No identity under the label (label, path).
    NotFound(String, String),
    /// The label is empty or holds a character other than ASCII letters,
    /// digits, `-` and `_`.
    InvalidLabel(String),
}

/// A character allowed in a label.
pub open spec fn label_char(c: char) -> bool {
    ||| ('a' <= c && c <= 'z')
    ||| ('A' <= c && c <= 'Z')
    ||| ('0' <= c && c <= '9')
    ||| c == '-'
    ||| c == '_'
}

/// A valid label: non-empty, every character allowed.
pub open spec fn valid_label(label: Seq<char>) -> bool {
    label.len() > 0 && forall|i: int| 0 <= i < label.len() ==> #[trigger] label_char(label[i])
}

/// The file name of the identity stored under `label`.
pub open spec fn key_file_name(label: Seq<char>) -> Seq<char> {
    label + seq!['.', 'j', 's', 'o', 'n']
}

fn is_label_char(c: char) -> (r: bool)
    ensures
        r == label_char(c),
{
    ('a' <= c && c <= 'z') || ('A' <= c && c <= 'Z') || ('0' <= c && c <= '9') || c == '-' || c
        == '_'
}

/// Accepts a label that is non-empty and made of ASCII letters, digits,
/// `-` and `_`; anything else is `InvalidLabel`, carrying the label.
pub fn validate_label(label: &str) -> (r: Result<(), KeyStoreError>)
    ensures
        r is Ok <==> valid_label(label@),
        match r {
            Err(KeyStoreError::InvalidLabel(s)) => s@ == label@,
            Err(_) => false,
            Ok(_) => true,
        },
{
    let cs = chars_of(label);
    let mut ok = cs.len() > 0;
    let mut i: usize = 0;
    while i < cs.len()
        invariant
            cs@ == label@,
            0 <= i <= cs@.len(),
            ok <==> (cs@.len() > 0 && forall|j: int| 0 <= j < i ==> #[trigger] label_char(cs@[j])),
        decreases cs@.len() - i,
    {
        if !is_label_char(cs[i]) {
            ok = false;
        }
        i = i + 1;
    }
    if ok {
        Ok(())
    } else {
        Err(KeyStoreError::InvalidLabel(label.to_owned()))
    }
}

/// The path of the key file for `label` in `dir`: `dir` joined with
/// `<label>.json`, after the label is validated.
pub fn key_file_path(dir: &str, label: &str) -> (r: Result<String, KeyStoreError>)
    ensures
        r is Ok <==> valid_label(label@),
        match r {
            Ok(p) => p@ == path_join(dir@, key_file_name(label@)),
            Err(KeyStoreError::InvalidLabel(s)) => s@ == label@,
            Err(_) => false,
        },
{
    validate_label(label)?;
    let mut name = chars_of(label);
    let ext: Vec<char> = vec!['.', 'j', 's', 'o', 'n'];
    push_all(&mut name, &ext);
    assert(ext@ =~= seq!['.', 'j', 's', 'o', 'n']);
    let d = chars_of(dir);
    let p = join_path(&d, &name);
    Ok(string_from_chars(p))
}

/// `std::path::Path::exists`: whether something is on disk at the path.
/// What is on disk is outside this library, so nothing is claimed of the
/// answer.
#[verifier::external_body]
fn path_exists(path: &String) -> bool {
    std::path::Path::new(path.as_str()).exists()
}

/// Whether an identity file exists for `label` in `dir`; the file is
/// neither read nor decrypted. An invalid label has no file. For a valid
/// label the answer is what the disk says about the path that
/// `key_file_path` builds; what is on disk lies outside this library, so
/// the contract states only the invalid-label case.
pub fn identity_exists(dir: &str, label: &str) -> (r: bool)
    ensures
        !valid_label(label@) ==> !r,
{
    match key_file_path(dir, label) {
        Ok(p) => path_exists(&p),
        Err(_) => false,
    }
}


/// Bytes of salt drawn for each key file.
pub const SALT_LEN: usize = 16;

/// Bytes of the ChaCha20Poly1305 nonce.
pub const NONCE_LEN: usize = 12;

/// Argon2id memory cost in KiB (64 MiB): heavier than the crate's
/// low-memory default, since a key file guards an on-chain identity and
/// its deposit, and loading one happens once per process.
pub const ARGON2_MEM_COST_KIB: u32 = 65536;

/// Argon2id passes.
pub const ARGON2_TIME_COST: u32 = 3;

/// Argon2id lanes.
pub const ARGON2_PARALLELISM: u32 = 4;

/// The on-disk form of an identity: the DID in hex, and the signing key
/// encrypted under a passphrase-derived key, salt and nonce in base64.
#[derive(Clone, Debug, PartialEq, Eq)]
pub struct KeyFile {
    pub version: u8,
    pub did_hex: String,
    pub salt_b64: String,
    pub nonce_b64: String,
    pub ciphertext_b64: String,
}

/// A decrypted identity.
#[derive(Clone, Debug, PartialEq, Eq)]
pub struct StoredIdentity {
    pub did: Did,
    pub signing_key_bytes: Vec<u8>,
}

/// Name for the 32-byte key that Argon2id (version 0x13) derives from the
/// passphrase and salt with memory cost `m_cost` KiB, `t_cost` passes and
/// `p_cost` lanes, `None` where it refuses the parameters or the inputs.
pub uninterp spec fn argon2id_key_of(
    passphrase: Seq<char>,
    salt: Seq<u8>,
    m_cost: u32,
    t_cost: u32,
    p_cost: u32,
) -> Option<[u8; 32]>;

/// Name for ChaCha20Poly1305 encryption of `plaintext` (no associated
/// data), `None` where it refuses it.
pub uninterp spec fn aead_sealed_of(key: [u8; 32], nonce: [u8; 12], plaintext: Seq<u8>) -> Option<
    Seq<u8>,
>;

/// Name for ChaCha20Poly1305 decryption of `ciphertext`, `None` where the
/// tag does not verify.
pub uninterp spec fn aead_opened_of(key: [u8; 32], nonce: [u8; 12], ciphertext: Seq<u8>) -> Option<
    Seq<u8>,
>;

/// Name for the standard (RFC 4648, padded) base64 text of `bytes`.
pub uninterp spec fn base64_of(bytes: Seq<u8>) -> Seq<char>;

/// Name for the bytes that standard base64 text decodes to, `None` where
/// the text is not valid base64.
pub uninterp spec fn base64_decoded_of(text: Seq<char>) -> Option<Seq<u8>>;

/// `Argon2::new(Argon2id, V0x13, Params::new(m_cost, t_cost, p_cost,
/// Some(32)))` then `hash_password_into(passphrase, salt, out)` into a
/// 32-byte buffer: the derived key, or the error's message where Argon2
/// refuses the parameters or the inputs (a salt shorter than 8 bytes, for
/// one).
#[verifier::external_body]
fn derive_key(passphrase: &str, salt: &[u8], m_cost: u32, t_cost: u32, p_cost: u32) -> (r: Result<
    [u8; 32],
    String,
>)
    ensures
        match r {
            Ok(k) => argon2id_key_of(passphrase@, salt@, m_cost, t_cost, p_cost) == Some(k),
            Err(_) => argon2id_key_of(passphrase@, salt@, m_cost, t_cost, p_cost) is None,
        },
{
    let mut out = zeroize::Zeroizing::new([0u8; 32]);
    let params = argon2::Params::new(m_cost, t_cost, p_cost, Some(out.len())).map_err(|e| e.to_string())?;
    let argon2 = argon2::Argon2::new(argon2::Algorithm::Argon2id, argon2::Version::V0x13, params);
    argon2.hash_password_into(passphrase.as_bytes(), salt, out.as_mut_slice()).map_err(|e| e.to_string())?;
    Ok(*out)
}

/// `ChaCha20Poly1305::new(key).encrypt(nonce, plaintext)`.
#[verifier::external_body]
fn aead_encrypt(key: &[u8; 32], nonce: &[u8; 12], plaintext: &[u8]) -> (r: Option<Vec<u8>>)
    ensures
        match r {
            Some(c) => aead_sealed_of(*key, *nonce, plaintext@) == Some(c@),
            None => aead_sealed_of(*key, *nonce, plaintext@) is None,
        },
{
    let cipher = chacha20poly1305::ChaCha20Poly1305::new(&chacha20poly1305::Key::from(*key));
    cipher.encrypt(&chacha20poly1305::Nonce::from(*nonce), plaintext).ok()
}

/// `ChaCha20Poly1305::new(key).decrypt(nonce, ciphertext)`. As the
/// crate documents, decrypting what `encrypt` produced under the same key
/// and nonce gives back the plaintext.
#[verifier::external_body]
fn aead_decrypt(key: &[u8; 32], nonce: &[u8; 12], ciphertext: &[u8]) -> (r: Option<Vec<u8>>)
    ensures
        match r {
            Some(p) => aead_opened_of(*key, *nonce, ciphertext@) == Some(p@),
            None => aead_opened_of(*key, *nonce, ciphertext@) is None,
        },
        forall|p: Seq<u8>| #[trigger]
            aead_sealed_of(*key, *nonce, p) == Some(ciphertext@) ==> r is Some && r->Some_0@ == p,
{
    let cipher = chacha20poly1305::ChaCha20Poly1305::new(&chacha20poly1305::Key::from(*key));
    cipher.decrypt(&chacha20poly1305::Nonce::from(*nonce), ciphertext).ok()
}

/// `base64::engine::general_purpose::STANDARD.encode(bytes)`.
#[verifier::external_body]
fn base64_encode(bytes: &[u8]) -> (r: String)
    ensures
        r@ == base64_of(bytes@),
{
    base64::engine::general_purpose::STANDARD.encode(bytes)
}

/// `base64::engine::general_purpose::STANDARD.decode(text)`. Decoding
/// standard base64 gives back the bytes it was encoded from (RFC 4648).
#[verifier::external_body]
fn base64_decode(text: &str) -> (r: Option<Vec<u8>>)
    ensures
        match r {
            Some(v) => base64_decoded_of(text@) == Some(v@),
            None => base64_decoded_of(text@) is None,
        },
        forall|b: Seq<u8>| #[trigger] base64_of(b) == text@ ==> r is Some && r->Some_0@ == b,
{
    base64::engine::general_purpose::STANDARD.decode(text).ok()
}

/// `getrandom::fill` on a fresh buffer of `len` bytes: bytes from the
/// operating system's random source, or the error's message. Nothing is
/// claimed of the bytes.
#[verifier::external_body]
fn random_bytes(len: usize) -> (r: Result<Vec<u8>, String>)
    ensures
        r matches Ok(v) ==> v@.len() == len,
{
    let mut buf = vec![0u8; len];
    getrandom::fill(&mut buf).map_err(|e| e.to_string())?;
    Ok(buf)
}

fn to_array16(v: &Vec<u8>) -> (r: [u8; 16])
    requires
        v@.len() == 16,
    ensures
        r@ == v@,
{
    let mut out = [0u8; 16];
    let mut i: usize = 0;
    while i < 16
        invariant
            v@.len() == 16,
            0 <= i <= 16,
            forall|j: int| 0 <= j < i ==> out[j] == v@[j],
        decreases 16 - i,
    {
        out[i] = v[i];
        i = i + 1;
    }
    assert(out@ =~= v@);
    out
}

fn to_array12(v: &Vec<u8>) -> (r: [u8; 12])
    requires
        v@.len() == 12,
    ensures
        r@ == v@,
{
    let mut out = [0u8; 12];
    let mut i: usize = 0;
    while i < 12
        invariant
            v@.len() == 12,
            0 <= i <= 12,
            forall|j: int| 0 <= j < i ==> out[j] == v@[j],
        decreases 12 - i,
    {
        out[i] = v[i];
        i = i + 1;
    }
    assert(out@ =~= v@);
    out
}

fn to_array32(v: &Vec<u8>) -> (r: [u8; 32])
    requires
        v@.len() == 32,
    ensures
        r@ == v@,
{
    let mut out = [0u8; 32];
    let mut i: usize = 0;
    while i < 32
        invariant
            v@.len() == 32,
            0 <= i <= 32,
            forall|j: int| 0 <= j < i ==> out[j] == v@[j],
        decreases 32 - i,
    {
        out[i] = v[i];
        i = i + 1;
    }
    assert(out@ =~= v@);
    out
}

/// `kf` is the key file of `did` and `signing_key` sealed under
/// `passphrase` with this salt and nonce.
pub open spec fn seals(
    kf: KeyFile,
    did: Did,
    signing_key: Seq<u8>,
    passphrase: Seq<char>,
    salt: [u8; 16],
    nonce: [u8; 12],
) -> bool {
    let key = argon2id_key_of(
        passphrase,
        salt@,
        ARGON2_MEM_COST_KIB,
        ARGON2_TIME_COST,
        ARGON2_PARALLELISM,
    );
    &&& key is Some
    &&& aead_sealed_of(key->Some_0, nonce, signing_key) is Some
    &&& kf.version == 1
    &&& kf.did_hex@ == hex_lower(did@)
    &&& kf.salt_b64@ == base64_of(salt@)
    &&& kf.nonce_b64@ == base64_of(nonce@)
    &&& kf.ciphertext_b64@ == base64_of(
        aead_sealed_of(key->Some_0, nonce, signing_key)->Some_0,
    )
}

/// Encrypts `signing_key` under a key derived from `passphrase` and
/// `salt` and returns the key file. Key derivation failing, or the cipher
/// refusing the plaintext, is `Kdf`.
pub fn seal_identity(
    did: Did,
    signing_key: &[u8],
    passphrase: &str,
    salt: [u8; 16],
    nonce: [u8; 12],
) -> (r: Result<KeyFile, KeyStoreError>)
    ensures
        r is Ok <==> ({
            let key = argon2id_key_of(
                passphrase@,
                salt@,
                ARGON2_MEM_COST_KIB,
                ARGON2_TIME_COST,
                ARGON2_PARALLELISM,
            );
            key is Some && aead_sealed_of(key->Some_0, nonce, signing_key@) is Some
        }),
        r is Err ==> r->Err_0 is Kdf,
        r matches Ok(kf) ==> seals(kf, did, signing_key@, passphrase@, salt, nonce),
{
    let key = match derive_key(
        passphrase,
        &salt,
        ARGON2_MEM_COST_KIB,
        ARGON2_TIME_COST,
        ARGON2_PARALLELISM,
    ) {
        Ok(k) => k,
        Err(msg) => {
            return Err(KeyStoreError::Kdf(msg));
        },
    };
    let ciphertext = match aead_encrypt(&key, &nonce, signing_key) {
        Some(c) => c,
        None => {
            return Err(KeyStoreError::Kdf("AEAD encryption failed".to_owned()));
        },
    };
    Ok(
        KeyFile {
            version: 1,
            did_hex: hex_encode(&did),
            salt_b64: base64_encode(&salt),
            nonce_b64: base64_encode(&nonce),
            ciphertext_b64: base64_encode(ciphertext.as_slice()),
        },
    )
}

/// Seals an identity under a fresh random salt and nonce. A failing
/// random source is `Kdf`.
pub fn seal_new_identity(did: Did, signing_key: &[u8], passphrase: &str) -> (r: Result<
    KeyFile,
    KeyStoreError,
>)
    ensures
        r is Err ==> r->Err_0 is Kdf,
        r matches Ok(kf) ==> exists|salt: [u8; 16], nonce: [u8; 12]|
            seals(kf, did, signing_key@, passphrase@, salt, nonce),
{
    let salt_v = match random_bytes(SALT_LEN) {
        Ok(v) => v,
        Err(msg) => {
            return Err(KeyStoreError::Kdf(msg));
        },
    };
    let nonce_v = match random_bytes(NONCE_LEN) {
        Ok(v) => v,
        Err(msg) => {
            return Err(KeyStoreError::Kdf(msg));
        },
    };
    let salt = to_array16(&salt_v);
    let nonce = to_array12(&nonce_v);
    seal_identity(did, signing_key, passphrase, salt, nonce)
}

/// What opening a key file gives, in the order the steps run.
pub enum OpenOutcome {
    /// The DID's bytes and the signing key.
    Opened(Seq<u8>, Seq<u8>),
    /// Key derivation refused the passphrase and salt.
    KdfRefused,
    /// A field does not decode, the nonce is not 12 bytes, the
    /// ciphertext does not verify, or the DID is not 32 bytes of hex.
    Undecryptable,
}

/// The outcome of opening `kf` with `passphrase`: base64 of salt, nonce
/// and ciphertext; Argon2id over passphrase and salt; ChaCha20Poly1305
/// with the 12-byte nonce; then the DID from hex.
pub open spec fn open_outcome(kf: KeyFile, passphrase: Seq<char>) -> OpenOutcome {
    let salt = base64_decoded_of(kf.salt_b64@);
    let nonce = base64_decoded_of(kf.nonce_b64@);
    let ct = base64_decoded_of(kf.ciphertext_b64@);
    if salt is None || nonce is None || ct is None {
        OpenOutcome::Undecryptable
    } else if argon2id_key_of(passphrase, salt->Some_0, ARGON2_MEM_COST_KIB, ARGON2_TIME_COST, ARGON2_PARALLELISM) is None {
        OpenOutcome::KdfRefused
    } else if nonce->Some_0.len() != 12 {
        OpenOutcome::Undecryptable
    } else {
        let key = argon2id_key_of(passphrase, salt->Some_0, ARGON2_MEM_COST_KIB, ARGON2_TIME_COST, ARGON2_PARALLELISM)->Some_0;
        let n = choose|n: [u8; 12]| n@ == nonce->Some_0;
        match (aead_opened_of(key, n, ct->Some_0), hex_decoded(kf.did_hex@)) {
            (Some(plain), Some(did)) => if did.len() == 32 {
                OpenOutcome::Opened(did, plain)
            } else {
                OpenOutcome::Undecryptable
            },
            _ => OpenOutcome::Undecryptable,
        }
    }
}

/// Decrypts a key file with `passphrase`. Text that does not decode,
/// a nonce that is not 12 bytes, a wrong passphrase or a tampered
/// ciphertext, and a DID that is not 32 bytes of hex are all
/// `DecryptionFailed`; key derivation refusing the salt is `Kdf`. A file
/// sealed by `seal_identity` opens, with the same passphrase, to exactly
/// the DID and signing key that were sealed.
pub fn open_identity(key_file: &KeyFile, passphrase: &str) -> (r: Result<
    StoredIdentity,
    KeyStoreError,
>)
    ensures
        match open_outcome(*key_file, passphrase@) {
            OpenOutcome::Opened(did, sk) => r matches Ok(id) && id.did@ == did
                && id.signing_key_bytes@ == sk,
            OpenOutcome::KdfRefused => r matches Err(KeyStoreError::Kdf(_)),
            OpenOutcome::Undecryptable => r matches Err(KeyStoreError::DecryptionFailed),
        },
        forall|did: Did, sk: Seq<u8>, salt: [u8; 16], nonce: [u8; 12]|
            #[trigger] seals(*key_file, did, sk, passphrase@, salt, nonce) ==> (r matches Ok(id)
                && id.did == did && id.signing_key_bytes@ == sk),
{
    let salt = match base64_decode(key_file.salt_b64.as_str()) {
        Some(v) => v,
        None => {
            return Err(KeyStoreError::DecryptionFailed);
        },
    };
    let nonce_v = match base64_decode(key_file.nonce_b64.as_str()) {
        Some(v) => v,
        None => {
            return Err(KeyStoreError::DecryptionFailed);
        },
    };
    let ciphertext = match base64_decode(key_file.ciphertext_b64.as_str()) {
        Some(v) => v,
        None => {
            return Err(KeyStoreError::DecryptionFailed);
        },
    };
    let key = match derive_key(
        passphrase,
        salt.as_slice(),
        ARGON2_MEM_COST_KIB,
        ARGON2_TIME_COST,
        ARGON2_PARALLELISM,
    ) {
        Ok(k) => k,
        Err(msg) => {
            return Err(KeyStoreError::Kdf(msg));
        },
    };
    proof {
        assert forall|d: Did, sk: Seq<u8>, s16: [u8; 16], n12: [u8; 12]|
            #[trigger] seals(*key_file, d, sk, passphrase@, s16, n12) implies {
            &&& salt@ == s16@
            &&& nonce_v@ == n12@
            &&& Some(key) == argon2id_key_of(passphrase@, s16@, ARGON2_MEM_COST_KIB, ARGON2_TIME_COST, ARGON2_PARALLELISM)
            &&& Some(ciphertext@) == aead_sealed_of(key, n12, sk)
        } by {
            assert(salt@ == s16@);
            assert(nonce_v@ == n12@);
        }
    }
    if nonce_v.len() != NONCE_LEN {
        return Err(KeyStoreError::DecryptionFailed);
    }
    let nonce = to_array12(&nonce_v);
    proof {
        let n = choose|n: [u8; 12]| n@ == nonce_v@;
        assert(nonce@ == nonce_v@);
        assert(n =~= nonce);
    }
    proof {
        assert forall|d: Did, sk: Seq<u8>, s16: [u8; 16], n12: [u8; 12]|
            #[trigger] seals(*key_file, d, sk, passphrase@, s16, n12) implies nonce == n12 by {
            assert(nonce =~= n12);
        }
    }
    let plaintext = match aead_decrypt(&key, &nonce, ciphertext.as_slice()) {
        Some(p) => p,
        None => {
            return Err(KeyStoreError::DecryptionFailed);
        },
    };
    proof {
        assert forall|d: Did, sk: Seq<u8>, s16: [u8; 16], n12: [u8; 12]|
            #[trigger] seals(*key_file, d, sk, passphrase@, s16, n12) implies hex_decoded(
            key_file.did_hex@,
        ) == Some(d@) && plaintext@ == sk by {
            lemma_hex_roundtrip(d@);
        }
    }
    let did_v = match hex_decode(key_file.did_hex.as_str()) {
        Some(v) => v,
        None => {
            return Err(KeyStoreError::DecryptionFailed);
        },
    };
    if did_v.len() != 32 {
        return Err(KeyStoreError::DecryptionFailed);
    }
    let did = to_array32(&did_v);
    proof {
        assert forall|d: Did, sk: Seq<u8>, s16: [u8; 16], n12: [u8; 12]|
            #[trigger] seals(*key_file, d, sk, passphrase@, s16, n12) implies did == d
            && plaintext@ == sk by {
            lemma_hex_roundtrip(d@);
            assert(did@ == d@);
            assert(did =~= d);
        }
    }
    Ok(StoredIdentity { did, signing_key_bytes: plaintext })
}

} // verus!
