//! The Ed25519 identity with which Desktop signs its requests to the
//! privileged service.
//!
//! An identity is its 32-byte secret seed.  It is stored in the platform
//! keyring as `ed25519-v1:` followed by the base64 of its PKCS#8 DER
//! document; its public part is published as the base64 of the DER
//! SubjectPublicKeyInfo, and its key ID is the lower-case hexadecimal
//! SHA-256 of that document.  The keyring and the Linux fallback file are
//! read and written by the caller: [`open_service_identity`] and
//! [`delete_service_identity`] take what was read and say what to write.
use vstd::prelude::*;
use crate::TargetOs;
use crate::error::{NativeError, fails_with};
use crate::paths::{chars_equal, is_absolute, is_absolute_exec};
use crate::text::{
    chars_of, contains_char, hex, push_hex, push_str, starts_with, starts_with_exec,
    string_of, sub_chars, trim, trim_exec, vec_views, words_exec, words_of, append_chars,
};
use crate::windows_paths::{win_is_absolute, win_is_absolute_exec};

verus! {

broadcast use vstd::string::group_string_axioms;

// ---------------------------------------------------------------------------
// Base64 (standard alphabet, padded)
// ---------------------------------------------------------------------------
/// The character of the base64 digit `d` in the standard alphabet.
pub open spec fn b64_digit(d: nat) -> char {
    if d < 26 {
        ('A' as u32 + d) as char
    } else if d < 52 {
        ('a' as u32 + (d - 26)) as char
    } else if d < 62 {
        ('0' as u32 + (d - 52)) as char
    } else if d == 62 {
        '+'
    } else {
        '/'
    }
}

/// Standard padded base64: each group of three bytes becomes four digits;
/// a final group of one or two bytes is padded with `=`.
pub open spec fn b64_encode(b: Seq<u8>) -> Seq<char>
    decreases b.len(),
{
    if b.len() == 0 {
        seq![]
    } else if b.len() == 1 {
        seq![b64_digit((b[0] / 4) as nat), b64_digit(((b[0] % 4) * 16) as nat), '=', '=']
    } else if b.len() == 2 {
        seq![
            b64_digit((b[0] / 4) as nat),
            b64_digit(((b[0] % 4) * 16 + b[1] / 16) as nat),
            b64_digit(((b[1] % 16) * 4) as nat),
            '=',
        ]
    } else {
        seq![
            b64_digit((b[0] / 4) as nat),
            b64_digit(((b[0] % 4) * 16 + b[1] / 16) as nat),
            b64_digit(((b[1] % 16) * 4 + b[2] / 64) as nat),
            b64_digit((b[2] % 64) as nat),
        ] + b64_encode(b.subrange(3, b.len() as int))
    }
}

/// What `STANDARD.decode` gives back for a text: the bytes whose standard
/// encoding the text is, and nothing for any other text.
pub open spec fn base64_decoded(text: Seq<char>) -> Option<Seq<u8>> {
    if exists|b: Seq<u8>| #[trigger] b64_encode(b) == text {
        Some(choose|b: Seq<u8>| #[trigger] b64_encode(b) == text)
    } else {
        None
    }
}

/// The bytes of an optional vector.
pub open spec fn opt_bytes(value: Option<Vec<u8>>) -> Option<Seq<u8>> {
    match value {
        Some(b) => Some(b@),
        None => None,
    }
}

/// `base64::engine::general_purpose::STANDARD.encode`: the standard
/// alphabet with `=` padding, which is `b64_encode`.
#[verifier::external_body]
fn base64_encode(bytes: &[u8]) -> (text: String)
    ensures
        text@ == b64_encode(bytes@),
{
    base64::Engine::encode(&base64::engine::general_purpose::STANDARD, bytes)
}

/// `base64::engine::general_purpose::STANDARD.decode`, `None` where it
/// reports an error.  The engine requires canonical padding, rejects
/// trailing bits and any byte outside the alphabet, so it accepts exactly
/// the encodings of byte strings and gives back those bytes.
#[verifier::external_body]
fn base64_decode(text: &str) -> (bytes: Option<Vec<u8>>)
    ensures
        opt_bytes(bytes) == base64_decoded(text@),
        forall|b: Seq<u8>| #[trigger] b64_encode(b) == text@ ==> opt_bytes(bytes) == Some(b),
        bytes matches Some(b) ==> b64_encode(b@) == text@,
{
    base64::Engine::decode(&base64::engine::general_purpose::STANDARD, text).ok()
}

// ---------------------------------------------------------------------------
// SHA-256 and Ed25519
// ---------------------------------------------------------------------------
/// SHA-256 of `data`.
pub uninterp spec fn sha256_digest(data: Seq<u8>) -> Seq<u8>;

/// `sha2::Sha256::digest`: the 32-byte digest of `data`.
#[verifier::external_body]
fn sha256(data: &[u8]) -> (digest: Vec<u8>)
    ensures
        digest@ == sha256_digest(data@),
        digest@.len() == 32,
{
    <sha2::Sha256 as sha2::Digest>::digest(data).to_vec()
}

/// The 32-byte Ed25519 public key of a secret seed.
pub uninterp spec fn ed25519_public_key(seed: Seq<u8>) -> Seq<u8>;

/// `SigningKey::from_bytes(seed).verifying_key().to_bytes()`: the public
/// key that belongs to `seed`.
#[verifier::external_body]
fn verifying_key_bytes(seed: &Vec<u8>) -> (public: Vec<u8>)
    requires
        seed@.len() == 32,
    ensures
        public@ == ed25519_public_key(seed@),
        public@.len() == 32,
{
    let secret: [u8; 32] = seed.as_slice().try_into().unwrap();
    ed25519_dalek::SigningKey::from_bytes(&secret).verifying_key().to_bytes().to_vec()
}

/// The DER SubjectPublicKeyInfo of the public key of `seed`: the Ed25519
/// algorithm identifier (OID 1.3.101.112, no parameters) and the key as a
/// bit string, that is the fixed 12-byte header `30 2a 30 05 06 03 2b 65 70
/// 03 21 00` followed by the 32-byte public key.
pub open spec fn spki_document(seed: Seq<u8>) -> Option<Seq<u8>> {
    Some(
        seq![0x30u8, 0x2au8, 0x30u8, 0x05u8, 0x06u8, 0x03u8, 0x2bu8, 0x65u8, 0x70u8, 0x03u8, 0x21u8, 0x00u8]
            + ed25519_public_key(seed),
    )
}

/// `EncodePublicKey::to_public_key_der` on the verifying key of `seed`.
/// Encoding a 32-byte key into its fixed-size SubjectPublicKeyInfo cannot
/// fail: the DER encoder reports only length overflows and encoders that
/// disagree with their own length, neither of which this fixed structure
/// meets.
#[verifier::external_body]
fn public_key_der(seed: &Vec<u8>) -> (der: Option<Vec<u8>>)
    requires
        seed@.len() == 32,
    ensures
        opt_bytes(der) == spki_document(seed@),
        der is Some,
{
    let secret: [u8; 32] = seed.as_slice().try_into().unwrap();
    let key = ed25519_dalek::SigningKey::from_bytes(&secret).verifying_key();
    match ed25519_dalek::pkcs8::EncodePublicKey::to_public_key_der(&key) {
        Ok(document) => Some(document.as_bytes().to_vec()),
        Err(_) => None,
    }
}

/// The public key a DER SubjectPublicKeyInfo holds, when it is a valid
/// Ed25519 key.
pub uninterp spec fn spki_public_key(der: Seq<u8>) -> Option<Seq<u8>>;

/// `DecodePublicKey::from_public_key_der` for a `VerifyingKey`, giving its
/// 32 bytes.
#[verifier::external_body]
fn public_key_from_der(der: &[u8]) -> (public: Option<Vec<u8>>)
    ensures
        opt_bytes(public) == spki_public_key(der@),
{
    match <ed25519_dalek::VerifyingKey as ed25519_dalek::pkcs8::DecodePublicKey>::from_public_key_der(
        der,
    ) {
        Ok(key) => Some(key.to_bytes().to_vec()),
        Err(_) => None,
    }
}

/// The 64-byte Ed25519 signature of `data` under `seed` (Ed25519 signing is
/// deterministic).
pub uninterp spec fn ed25519_signature(seed: Seq<u8>, data: Seq<u8>) -> Seq<u8>;

/// `Signer::sign` of a `SigningKey`, as the signature's 64 bytes.
#[verifier::external_body]
fn sign_bytes(seed: &Vec<u8>, data: &[u8]) -> (signature: Vec<u8>)
    requires
        seed@.len() == 32,
    ensures
        signature@ == ed25519_signature(seed@, data@),
        signature@.len() == 64,
{
    let secret: [u8; 32] = seed.as_slice().try_into().unwrap();
    let key = ed25519_dalek::SigningKey::from_bytes(&secret);
    ed25519_dalek::Signer::sign(&key, data).to_bytes().to_vec()
}

/// The PKCS#8 DER document of the key pair of `seed`, when encoding
/// succeeds.
pub uninterp spec fn pkcs8_document(seed: Seq<u8>) -> Option<Seq<u8>>;

/// `EncodePrivateKey::to_pkcs8_der` of a `SigningKey`.  Encoding the
/// fixed-size key pair of a 32-byte seed cannot fail: the DER encoder
/// reports only length overflows and encoders that disagree with their own
/// length, neither of which this fixed structure meets.
#[verifier::external_body]
fn pkcs8_der(seed: &Vec<u8>) -> (document: Option<Vec<u8>>)
    requires
        seed@.len() == 32,
    ensures
        opt_bytes(document) == pkcs8_document(seed@),
        document is Some,
{
    let secret: [u8; 32] = seed.as_slice().try_into().unwrap();
    let key = ed25519_dalek::SigningKey::from_bytes(&secret);
    match ed25519_dalek::pkcs8::EncodePrivateKey::to_pkcs8_der(&key) {
        Ok(document) => Some(document.as_bytes().to_vec()),
        Err(_) => None,
    }
}

/// The seed a PKCS#8 DER document holds, when it is a valid Ed25519 key.
pub uninterp spec fn pkcs8_seed(document: Seq<u8>) -> Option<Seq<u8>>;

/// `DecodePrivateKey::from_pkcs8_der` for a `SigningKey`, giving its seed.
/// The document that `to_pkcs8_der` writes holds the seed and its public
/// key, and decoding checks that they agree, so it reads back as that seed.
#[verifier::external_body]
fn seed_from_pkcs8_der(document: &[u8]) -> (seed: Option<Vec<u8>>)
    ensures
        opt_bytes(seed) == pkcs8_seed(document@),
        seed matches Some(s) ==> s@.len() == 32,
        forall|s: Seq<u8>|
            s.len() == 32 && #[trigger] pkcs8_document(s) == Some(document@) ==> opt_bytes(seed)
                == Some(s),
{
    match <ed25519_dalek::SigningKey as ed25519_dalek::pkcs8::DecodePrivateKey>::from_pkcs8_der(
        document,
    ) {
        Ok(key) => Some(key.to_bytes().to_vec()),
        Err(_) => None,
    }
}

/// The seed a PKCS#8 PEM text holds, when it is a valid Ed25519 key.
pub uninterp spec fn pkcs8_pem_seed(text: Seq<char>) -> Option<Seq<u8>>;

/// `DecodePrivateKey::from_pkcs8_pem` for a `SigningKey`, giving its seed.
#[verifier::external_body]
fn seed_from_pkcs8_pem(text: &str) -> (seed: Option<Vec<u8>>)
    ensures
        opt_bytes(seed) == pkcs8_pem_seed(text@),
        seed matches Some(s) ==> s@.len() == 32,
{
    match <ed25519_dalek::SigningKey as ed25519_dalek::pkcs8::DecodePrivateKey>::from_pkcs8_pem(
        text,
    ) {
        Ok(key) => Some(key.to_bytes().to_vec()),
        Err(_) => None,
    }
}

/// `getrandom::fill` on a 32-byte buffer: fresh random bytes from the
/// operating system, or its error's text.  Nothing is stated of the bytes
/// but their number.
#[verifier::external_body]
fn random_seed() -> (seed: Result<Vec<u8>, String>)
    ensures
        seed matches Ok(s) ==> s@.len() == 32,
{
    let mut bytes = [0u8; 32];
    match getrandom::fill(&mut bytes) {
        Ok(()) => Ok(bytes.to_vec()),
        Err(error) => Err(error.to_string()),
    }
}


// ---------------------------------------------------------------------------
// Options and identity records
// ---------------------------------------------------------------------------
/// Where an identity is kept: the keyring service and account names, and on
/// Linux the file used when the Secret Service is unavailable.
#[derive(Debug, Clone)]
pub struct ServiceIdentityOptions {
    pub service: String,
    pub account: String,
    pub linux_fallback_path: Option<String>,
}

/// An identity kept by an earlier Desktop release, to be migrated: a PKCS#8
/// PEM private key, the base64 DER public key, and optionally its key ID.
#[derive(Debug, Clone)]
pub struct LegacyServiceIdentity {
    pub key_id: Option<String>,
    pub public_key: String,
    pub private_key: String,
}

/// The public description of an identity and the store it came from.
#[derive(Debug, Clone)]
pub struct ServiceIdentityInfo {
    pub key_id: String,
    pub public_key: String,
    pub backend: String,
}

/// The key ID, public key and backend of an info record.
pub open spec fn info_view(info: ServiceIdentityInfo) -> (Seq<char>, Seq<char>, Seq<char>) {
    (info.key_id@, info.public_key@, info.backend@)
}

/// Whether `path` is absolute on `os`.
pub open spec fn absolute_on(os: TargetOs, path: Seq<char>) -> bool {
    if os == TargetOs::Windows {
        win_is_absolute(path)
    } else {
        is_absolute(path)
    }
}

/// Why options are refused, if they are.
pub open spec fn options_error(options: ServiceIdentityOptions, os: TargetOs) -> Option<Seq<char>> {
    if trim(options.service@).len() == 0 || trim(options.account@).len() == 0 {
        Some("Service identity namespace is empty"@)
    } else if options.service@.contains('\0') || options.account@.contains('\0') {
        Some("Service identity namespace contains NUL characters"@)
    } else if (options.linux_fallback_path matches Some(path) && !absolute_on(os, path@)) {
        Some("Service identity fallback path must be absolute"@)
    } else {
        None
    }
}

/// Checks the keyring names and the fallback path.
pub fn validate_options(options: &ServiceIdentityOptions, os: TargetOs) -> (result: Result<
    (),
    NativeError,
>)
    ensures
        match options_error(*options, os) {
            None => result is Ok,
            Some(message) => fails_with(result, message),
        },
{
    let service = chars_of(options.service.as_str());
    let account = chars_of(options.account.as_str());
    if trim_exec(&service).len() == 0 || trim_exec(&account).len() == 0 {
        return Err(NativeError::new("Service identity namespace is empty"));
    }
    if contains_char(&service, '\0') || contains_char(&account, '\0') {
        return Err(NativeError::new("Service identity namespace contains NUL characters"));
    }
    if let Some(path) = &options.linux_fallback_path {
        let absolute = if os == TargetOs::Windows {
            win_is_absolute_exec(path.as_str())
        } else {
            is_absolute_exec(path.as_str())
        };
        if !absolute {
            return Err(NativeError::new("Service identity fallback path must be absolute"));
        }
    }
    Ok(())
}

/// The keyring entry of valid options: the trimmed service and account.
pub fn keyring_entry(options: &ServiceIdentityOptions, os: TargetOs) -> (result: Result<
    (String, String),
    NativeError,
>)
    ensures
        match options_error(*options, os) {
            None => result matches Ok((service, account)) && service@ == trim(options.service@)
                && account@ == trim(options.account@),
            Some(message) => fails_with(result, message),
        },
{
    validate_options(options, os)?;
    let service = trim_exec(&chars_of(options.service.as_str()));
    let account = trim_exec(&chars_of(options.account.as_str()));
    Ok((string_of(&service), string_of(&account)))
}

// ---------------------------------------------------------------------------
// Public description
// ---------------------------------------------------------------------------
/// The public description of `seed`: the lower-case hexadecimal SHA-256 of
/// its DER public key as key ID and the base64 of that DER as public key.
pub open spec fn public_info(seed: Seq<u8>, backend: Seq<char>) -> Result<
    (Seq<char>, Seq<char>, Seq<char>),
    Seq<char>,
> {
    match spki_document(seed) {
        Some(der) => Ok((hex(sha256_digest(der)), b64_encode(der), backend)),
        None => Err("Unable to encode service identity public key"@),
    }
}

/// An info result as values.
pub open spec fn info_result(result: Result<ServiceIdentityInfo, NativeError>) -> Result<
    (Seq<char>, Seq<char>, Seq<char>),
    Seq<char>,
> {
    match result {
        Ok(info) => Ok(info_view(info)),
        Err(error) => Err(error.message@),
    }
}

/// A key ID: 64 lower-case hexadecimal digits (the SHA-256 of the public key
/// document).
pub open spec fn is_key_id(id: Seq<char>) -> bool {
    id.len() == 64 && forall|i: int| 0 <= i < id.len() ==> crate::text::is_lower_hex_char(#[trigger] id[i])
}

/// Describes the identity of `seed` for the store `backend`.
pub fn public_identity(seed: &Vec<u8>, backend: &str) -> (result: Result<
    ServiceIdentityInfo,
    NativeError,
>)
    requires
        seed@.len() == 32,
    ensures
        info_result(result) == public_info(seed@, backend@),
        result matches Ok(info) && is_key_id(info.key_id@),
{
    let der = match public_key_der(seed) {
        Some(der) => der,
        None => {
            return Err(NativeError::new("Unable to encode service identity public key"));
        },
    };
    let digest = sha256(der.as_slice());
    proof {
        crate::text::lemma_hex_len(digest@);
        crate::text::lemma_hex_chars(digest@);
    }
    let mut key_id: Vec<char> = Vec::new();
    push_hex(&mut key_id, &digest);
    Ok(ServiceIdentityInfo {
        key_id: string_of(&key_id),
        public_key: base64_encode(der.as_slice()),
        backend: backend.to_string(),
    })
}

// ---------------------------------------------------------------------------
// Stored credential
// ---------------------------------------------------------------------------
/// The credential that stores `seed`: `ed25519-v1:` and the base64 of its
/// PKCS#8 DER document.
pub open spec fn credential_text(seed: Seq<u8>) -> Result<Seq<char>, Seq<char>> {
    match pkcs8_document(seed) {
        Some(document) => Ok("ed25519-v1:"@ + b64_encode(document)),
        None => Err("Unable to encode service identity"@),
    }
}

/// The seed a stored credential holds.
pub open spec fn credential_seed(text: Seq<char>) -> Result<Seq<u8>, Seq<char>> {
    let prefix = "ed25519-v1:"@;
    if !starts_with(text, prefix) {
        Err("Unsupported service identity credential version"@)
    } else {
        match base64_decoded(text.subrange(prefix.len() as int, text.len() as int)) {
            None => Err("Invalid service identity credential"@),
            Some(document) => match pkcs8_seed(document) {
                None => Err("Invalid service identity credential"@),
                Some(seed) => Ok(seed),
            },
        }
    }
}

/// A text result as values.
pub open spec fn text_result(result: Result<String, NativeError>) -> Result<Seq<char>, Seq<char>> {
    match result {
        Ok(text) => Ok(text@),
        Err(error) => Err(error.message@),
    }
}

/// A seed result as values.
pub open spec fn seed_result(result: Result<Vec<u8>, NativeError>) -> Result<Seq<u8>, Seq<char>> {
    match result {
        Ok(seed) => Ok(seed@),
        Err(error) => Err(error.message@),
    }
}

/// The credential to store for `seed`.
pub fn encode_credential(seed: &Vec<u8>) -> (result: Result<String, NativeError>)
    requires
        seed@.len() == 32,
    ensures
        text_result(result) == credential_text(seed@),
        result is Ok,
{
    let document = match pkcs8_der(seed) {
        Some(document) => document,
        None => {
            return Err(NativeError::new("Unable to encode service identity"));
        },
    };
    let mut out: Vec<char> = Vec::new();
    push_str(&mut out, "ed25519-v1:");
    push_str(&mut out, base64_encode(document.as_slice()).as_str());
    Ok(string_of(&out))
}

/// Reads a stored credential back.  What [`encode_credential`] wrote for a
/// seed reads back as that seed.
pub fn decode_credential(value: &str) -> (result: Result<Vec<u8>, NativeError>)
    ensures
        seed_result(result) == credential_seed(value@),
        result matches Ok(seed) ==> seed@.len() == 32,
        forall|seed: Seq<u8>|
            seed.len() == 32 && #[trigger] credential_text(seed) == Ok::<Seq<char>, Seq<char>>(
                value@,
            ) ==> seed_result(result) == Ok::<Seq<u8>, Seq<char>>(seed),
{
    let text = chars_of(value);
    let prefix = chars_of("ed25519-v1:");
    if !starts_with_exec(&text, &prefix) {
        proof {
            assert forall|seed: Seq<u8>|
                seed.len() == 32 && #[trigger] credential_text(seed) == Ok::<Seq<char>, Seq<char>>(
                    value@,
                ) implies false by {
                let document = pkcs8_document(seed)->Some_0;
                assert(value@.subrange(0, prefix@.len() as int) =~= prefix@);
            }
        }
        return Err(NativeError::new("Unsupported service identity credential version"));
    }
    let encoded = string_of(&sub_chars(&text, prefix.len(), text.len()));
    let decoded = base64_decode(encoded.as_str());
    proof {
        assert forall|seed: Seq<u8>|
            seed.len() == 32 && #[trigger] credential_text(seed) == Ok::<Seq<char>, Seq<char>>(
                value@,
            ) implies opt_bytes(decoded) == pkcs8_document(seed) by {
            let document = pkcs8_document(seed)->Some_0;
            assert(encoded@ =~= b64_encode(document));
        }
    }
    let document = match decoded {
        Some(document) => document,
        None => {
            return Err(NativeError::new("Invalid service identity credential"));
        },
    };
    match seed_from_pkcs8_der(document.as_slice()) {
        Some(seed) => Ok(seed),
        None => Err(NativeError::new("Invalid service identity credential")),
    }
}

// ---------------------------------------------------------------------------
// Migration of an earlier identity
// ---------------------------------------------------------------------------
/// The pieces of `parts` one after another.
pub open spec fn concat(parts: Seq<Seq<char>>) -> Seq<char>
    decreases parts.len(),
{
    if parts.len() == 0 {
        seq![]
    } else {
        concat(parts.drop_last()) + parts.last()
    }
}

/// The seed of an earlier identity, after checking that its private key,
/// public key and key ID agree.  White space anywhere in the public key and
/// around the private key and key ID is ignored.
pub open spec fn legacy_seed(legacy: LegacyServiceIdentity) -> Result<Seq<u8>, Seq<char>> {
    match pkcs8_pem_seed(trim(legacy.private_key@)) {
        None => Err("Invalid legacy service identity private key"@),
        Some(seed) => match base64_decoded(concat(words_of(legacy.public_key@))) {
            None => Err("Invalid legacy service identity public key"@),
            Some(der) => match spki_public_key(der) {
                None => Err("Invalid legacy service identity public key"@),
                Some(public) => if ed25519_public_key(seed) != public {
                    Err("Legacy service identity key pair does not match"@)
                } else {
                    match public_info(seed, "migration"@) {
                        Err(message) => Err(message),
                        Ok(info) => if (legacy.key_id matches Some(key_id) && trim(key_id@)
                            != info.0) {
                            Err("Legacy service identity key ID does not match"@)
                        } else {
                            Ok(seed)
                        },
                    }
                },
            },
        },
    }
}

/// Whether two byte vectors are equal.
fn bytes_equal(a: &Vec<u8>, b: &Vec<u8>) -> (equal: bool)
    ensures
        equal == (a@ == b@),
{
    if a.len() != b.len() {
        return false;
    }
    let mut i: usize = 0;
    while i < a.len()
        invariant
            i <= a.len(),
            a.len() == b.len(),
            forall|j: int| 0 <= j < i ==> a@[j] == b@[j],
        decreases a.len() - i,
    {
        if a[i] != b[i] {
            return false;
        }
        i = i + 1;
    }
    assert(a@ =~= b@);
    true
}

/// Reads and checks an earlier identity.
pub fn decode_legacy(legacy: &LegacyServiceIdentity) -> (result: Result<Vec<u8>, NativeError>)
    ensures
        seed_result(result) == legacy_seed(*legacy),
        result matches Ok(seed) ==> seed@.len() == 32,
{
    let private_key = string_of(&trim_exec(&chars_of(legacy.private_key.as_str())));
    let seed = match seed_from_pkcs8_pem(private_key.as_str()) {
        Some(seed) => seed,
        None => {
            return Err(NativeError::new("Invalid legacy service identity private key"));
        },
    };
    let words = words_exec(&chars_of(legacy.public_key.as_str()));
    let ghost parts = vec_views(words@);
    let mut joined: Vec<char> = Vec::new();
    let mut i: usize = 0;
    while i < words.len()
        invariant
            i <= words.len(),
            parts == vec_views(words@),
            joined@ == concat(parts.take(i as int)),
        decreases words.len() - i,
    {
        append_chars(&mut joined, &words[i]);
        assert(parts.take(i + 1).drop_last() =~= parts.take(i as int));
        i = i + 1;
    }
    assert(parts.take(words.len() as int) =~= parts);
    let der = match base64_decode(string_of(&joined).as_str()) {
        Some(der) => der,
        None => {
            return Err(NativeError::new("Invalid legacy service identity public key"));
        },
    };
    let public = match public_key_from_der(der.as_slice()) {
        Some(public) => public,
        None => {
            return Err(NativeError::new("Invalid legacy service identity public key"));
        },
    };
    if !bytes_equal(&verifying_key_bytes(&seed), &public) {
        return Err(NativeError::new("Legacy service identity key pair does not match"));
    }
    let info = public_identity(&seed, "migration")?;
    if let Some(key_id) = &legacy.key_id {
        let given = trim_exec(&chars_of(key_id.as_str()));
        if !chars_equal(&given, &chars_of(info.key_id.as_str())) {
            return Err(NativeError::new("Legacy service identity key ID does not match"));
        }
    }
    Ok(seed)
}

// ---------------------------------------------------------------------------
// The identity
// ---------------------------------------------------------------------------
/// An open identity: its secret seed and its public description.
pub struct ServiceIdentity {
    seed: Vec<u8>,
    info: ServiceIdentityInfo,
}

impl ServiceIdentity {
    #[verifier::type_invariant]
    spec fn well_formed(self) -> bool {
        self.seed@.len() == 32 && is_key_id(self.info.key_id@)
    }

    /// The secret seed.
    pub closed spec fn seed(self) -> Seq<u8> {
        self.seed@
    }

    /// The public description.
    pub closed spec fn description(self) -> (Seq<char>, Seq<char>, Seq<char>) {
        info_view(self.info)
    }

    /// The identity of `seed` as kept by `backend`.
    pub fn new(seed: Vec<u8>, backend: &str) -> (result: Result<ServiceIdentity, NativeError>)
        requires
            seed@.len() == 32,
        ensures
            match public_info(seed@, backend@) {
                Ok(info) => result matches Ok(identity) && identity.seed() == seed@
                    && identity.description() == info,
                Err(message) => fails_with(result, message),
            },
            result matches Ok(identity) && is_key_id(identity.description().0),
    {
        let info = public_identity(&seed, backend)?;
        Ok(ServiceIdentity { seed, info })
    }

    /// The public description.
    pub fn info(&self) -> (info: ServiceIdentityInfo)
        ensures
            info_view(info) == self.description(),
            is_key_id(info.key_id@),
    {
        proof {
            use_type_invariant(self);
        }
        ServiceIdentityInfo {
            key_id: self.info.key_id.clone(),
            public_key: self.info.public_key.clone(),
            backend: self.info.backend.clone(),
        }
    }

    /// The base64 of the Ed25519 signature of `data`.
    pub fn sign(&self, data: &[u8]) -> (signature: String)
        ensures
            signature@ == b64_encode(ed25519_signature(self.seed(), data@)),
            ed25519_signature(self.seed(), data@).len() == 64,
    {
        proof {
            use_type_invariant(self);
        }
        let bytes = sign_bytes(&self.seed, data);
        base64_encode(bytes.as_slice())
    }
}

// ---------------------------------------------------------------------------
// Opening and deleting
// ---------------------------------------------------------------------------
/// What reading the keyring entry gave.
#[derive(Debug, Clone)]
pub enum KeyringRead {
    /// The stored credential.
    Found(String),
    /// The entry does not exist.
    NoEntry,
    /// The keyring failed, with its error's text.
    Failed(String),
}

/// What reading the Linux fallback file gave.
#[derive(Debug, Clone)]
pub enum FallbackRead {
    /// No fallback path was configured or the file does not exist.
    Missing,
    /// The file's contents.
    Found(String),
    /// Reading failed, with the error's text.
    Failed(String),
}

/// What the caller must write after opening, and the identity it then
/// returns.
pub struct OpenPlan {
    /// A credential to store in the keyring entry.
    pub keyring_write: Option<String>,
    /// A credential to write to the fallback file (owner-only permissions).
    pub fallback_write: Option<String>,
    /// Whether to remove the fallback file, if it exists, after the writes.
    pub remove_fallback: bool,
    /// The identity, or why describing it failed once the writes were done.
    pub identity: Result<ServiceIdentity, NativeError>,
}

/// The store that the keyring stands for on `os`.
pub open spec fn keyring_backend_name(os: TargetOs) -> Seq<char> {
    if os == TargetOs::Windows {
        "windows-credential-manager"@
    } else if os == TargetOs::Macos {
        "macos-keychain"@
    } else {
        "linux-secret-service"@
    }
}

/// The name of the keyring store on `os`.
pub fn keyring_backend(os: TargetOs) -> (name: &'static str)
    ensures
        name@ == keyring_backend_name(os),
{
    if os == TargetOs::Windows {
        "windows-credential-manager"
    } else if os == TargetOs::Macos {
        "macos-keychain"
    } else {
        "linux-secret-service"
    }
}

/// A seed of a random result, as values.
pub open spec fn random_result(result: Result<Vec<u8>, String>) -> Result<Seq<u8>, Seq<char>> {
    match result {
        Ok(seed) => Ok(seed@),
        Err(message) => Err(message@),
    }
}

/// The seed for a new entry: the migrated one, or else the generated one
/// (`generated` is what the random source gave).
pub open spec fn new_seed(
    legacy: Option<LegacyServiceIdentity>,
    generated: Result<Seq<u8>, Seq<char>>,
) -> Result<Seq<u8>, Seq<char>> {
    match legacy {
        Some(legacy) => legacy_seed(legacy),
        None => match generated {
            Ok(seed) => Ok(seed),
            Err(message) => Err("Unable to generate service identity: "@ + message),
        },
    }
}

/// The seed chosen when opening, the store it is reported as, and whether
/// to write it to the keyring, write it to the fallback file and remove the
/// fallback file.
pub open spec fn chosen_key(
    options: ServiceIdentityOptions,
    os: TargetOs,
    legacy: Option<LegacyServiceIdentity>,
    keyring: KeyringRead,
    fallback: FallbackRead,
    generated: Result<Seq<u8>, Seq<char>>,
) -> Result<(Seq<u8>, Seq<char>, bool, bool, bool), Seq<char>> {
    let backend = keyring_backend_name(os);
    match keyring {
        KeyringRead::Found(value) => match credential_seed(value@) {
            Err(message) => Err(message),
            Ok(stored) => match legacy {
                None => Ok((stored, backend, false, false, false)),
                Some(legacy) => match legacy_seed(legacy) {
                    Err(message) => Err(message),
                    Ok(imported) => if ed25519_public_key(imported) != ed25519_public_key(stored) {
                        Ok((imported, backend, true, false, false))
                    } else {
                        Ok((stored, backend, false, false, false))
                    },
                },
            },
        },
        KeyringRead::NoEntry => if os == TargetOs::Linux {
            match fallback {
                FallbackRead::Failed(message) => Err(message@),
                FallbackRead::Found(value) => match credential_seed(trim(value@)) {
                    Err(message) => Err(message),
                    Ok(seed) => Ok((seed, backend, true, false, true)),
                },
                FallbackRead::Missing => match new_seed(legacy, generated) {
                    Err(message) => Err(message),
                    Ok(seed) => Ok((seed, backend, true, false, true)),
                },
            }
        } else {
            match new_seed(legacy, generated) {
                Err(message) => Err(message),
                Ok(seed) => Ok((seed, backend, true, false, false)),
            }
        },
        KeyringRead::Failed(error) => if os == TargetOs::Linux {
            match fallback {
                FallbackRead::Failed(message) => Err(message@),
                FallbackRead::Found(value) => match credential_seed(trim(value@)) {
                    Err(message) => Err(message),
                    Ok(seed) => Ok((seed, "linux-protected-file"@, false, false, false)),
                },
                FallbackRead::Missing => match new_seed(legacy, generated) {
                    Err(message) => Err(message),
                    Ok(seed) => if options.linux_fallback_path is None {
                        Err("Linux Secret Service is unavailable and no fallback path was supplied"@)
                    } else {
                        Ok((seed, "linux-protected-file"@, false, true, false))
                    },
                },
            }
        } else {
            Err(error@)
        },
    }
}

/// An opening plan as values: the keyring write, the fallback write, the
/// removal of the fallback file, and the identity's seed and description.
pub open spec fn plan_view(plan: OpenPlan) -> (
    Option<Seq<char>>,
    Option<Seq<char>>,
    bool,
    Result<(Seq<u8>, (Seq<char>, Seq<char>, Seq<char>)), Seq<char>>,
) {
    (
        match plan.keyring_write {
            Some(text) => Some(text@),
            None => None,
        },
        match plan.fallback_write {
            Some(text) => Some(text@),
            None => None,
        },
        plan.remove_fallback,
        match plan.identity {
            Ok(identity) => Ok((identity.seed(), identity.description())),
            Err(error) => Err(error.message@),
        },
    )
}

/// What opening gives for the inputs read: the error, or the plan.
pub open spec fn open_outcome(
    options: ServiceIdentityOptions,
    os: TargetOs,
    legacy: Option<LegacyServiceIdentity>,
    keyring: KeyringRead,
    fallback: FallbackRead,
    generated: Result<Seq<u8>, Seq<char>>,
) -> Result<
    (
        Option<Seq<char>>,
        Option<Seq<char>>,
        bool,
        Result<(Seq<u8>, (Seq<char>, Seq<char>, Seq<char>)), Seq<char>>,
    ),
    Seq<char>,
> {
    match options_error(options, os) {
        Some(message) => Err(message),
        None => match chosen_key(options, os, legacy, keyring, fallback, generated) {
            Err(message) => Err(message),
            Ok((seed, backend, to_keyring, to_fallback, remove)) => if (to_keyring || to_fallback)
                && credential_text(seed) is Err {
                Err(credential_text(seed)->Err_0)
            } else {
                Ok(
                    (
                        if to_keyring {
                            Some(credential_text(seed)->Ok_0)
                        } else {
                            None
                        },
                        if to_fallback {
                            Some(credential_text(seed)->Ok_0)
                        } else {
                            None
                        },
                        remove,
                        match public_info(seed, backend) {
                            Ok(info) => Ok((seed, info)),
                            Err(message) => Err(message),
                        },
                    ),
                )
            },
        },
    }
}

/// An opening result as values.
pub open spec fn open_result(result: Result<OpenPlan, NativeError>) -> Result<
    (
        Option<Seq<char>>,
        Option<Seq<char>>,
        bool,
        Result<(Seq<u8>, (Seq<char>, Seq<char>, Seq<char>)), Seq<char>>,
    ),
    Seq<char>,
> {
    match result {
        Ok(plan) => Ok(plan_view(plan)),
        Err(error) => Err(error.message@),
    }
}

/// An opening outcome that reopens `seed`: nothing is written, and the
/// identity, when it can be described, is that seed.
pub open spec fn reopened(
    outcome: Result<
        (
            Option<Seq<char>>,
            Option<Seq<char>>,
            bool,
            Result<(Seq<u8>, (Seq<char>, Seq<char>, Seq<char>)), Seq<char>>,
        ),
        Seq<char>,
    >,
    seed: Seq<u8>,
) -> bool {
    match outcome {
        Ok((keyring_write, fallback_write, remove, identity)) => keyring_write is None
            && fallback_write is None && !remove && (identity matches Ok((s, _)) ==> s == seed),
        Err(_) => false,
    }
}

/// A random result that can stand for what `getrandom` gives.
pub open spec fn random_outcome(generated: Result<Seq<u8>, Seq<char>>) -> bool {
    generated matches Ok(seed) ==> seed.len() == 32
}

/// A fresh random seed.  It is random, so what is stated is what holds of
/// every outcome of the random source.
pub fn generate_signing_key() -> (result: Result<Vec<u8>, NativeError>)
    ensures
        exists|generated: Result<Seq<u8>, Seq<char>>|
            random_outcome(generated) && seed_result(result) == #[trigger] new_seed(
                None,
                generated,
            ),
        result matches Ok(seed) ==> seed@.len() == 32,
{
    let generated = random_seed();
    let ghost outcome = random_result(generated);
    let result = match generated {
        Ok(seed) => Ok(seed),
        Err(message) => {
            let mut text: Vec<char> = Vec::new();
            push_str(&mut text, "Unable to generate service identity: ");
            push_str(&mut text, message.as_str());
            Err(NativeError { message: string_of(&text) })
        },
    };
    assert(seed_result(result) == new_seed(None, outcome));
    result
}

/// The seed for a new entry: the migrated one, or else a generated one;
/// the second part is what the random source gave, when it was asked.
fn new_key(legacy: &Option<LegacyServiceIdentity>) -> (result: (
    Result<Vec<u8>, NativeError>,
    Ghost<Result<Seq<u8>, Seq<char>>>,
))
    ensures
        random_outcome(result.1@),
        seed_result(result.0) == new_seed(*legacy, result.1@),
        result.0 matches Ok(seed) ==> seed@.len() == 32,
{
    match legacy {
        Some(legacy) => (decode_legacy(legacy), Ghost(Ok(Seq::new(32, |i: int| 0u8)))),
        None => {
            let seed = generate_signing_key();
            let ghost generated = choose|generated: Result<Seq<u8>, Seq<char>>|
                random_outcome(generated) && seed_result(seed) == #[trigger] new_seed(None, generated);
            (seed, Ghost(generated))
        },
    }
}

/// Decides how to open an identity from what was read: the keyring entry
/// and, on Linux, the fallback file.  A stored credential is kept unless an
/// earlier identity with another key is migrated over it; a missing entry is
/// filled from the fallback file, the earlier identity or a new random key;
/// on Linux an unusable keyring falls back to the protected file.  A new key
/// is random, so the outcome is stated for whatever the random source gave.
/// Reopening what was stored gives back the same identity and writes
/// nothing.
pub fn open_service_identity(
    options: &ServiceIdentityOptions,
    os: TargetOs,
    legacy: Option<LegacyServiceIdentity>,
    keyring: KeyringRead,
    fallback: FallbackRead,
) -> (result: Result<OpenPlan, NativeError>)
    ensures
        exists|generated: Result<Seq<u8>, Seq<char>>|
            random_outcome(generated) && open_result(result) == #[trigger] open_outcome(
                *options,
                os,
                legacy,
                keyring,
                fallback,
                generated,
            ),
        forall|seed: Seq<u8>|
            seed.len() == 32 && options_error(*options, os) is None && legacy is None && (
            keyring matches KeyringRead::Found(text) && #[trigger] credential_text(seed)
                == Ok::<Seq<char>, Seq<char>>(text@)) ==> reopened(open_result(result), seed),
        forall|seed: Seq<u8>|
            seed.len() == 32 && options_error(*options, os) is None && legacy is None && os
                == TargetOs::Linux && keyring is Failed && (fallback matches FallbackRead::Found(
                text) && #[trigger] credential_text(seed) == Ok::<Seq<char>, Seq<char>>(
                trim(text@),
            )) ==> reopened(open_result(result), seed),
        result matches Ok(plan) ==> plan.identity matches Ok(identity) && is_key_id(
            identity.description().0,
        ) && (identity.description().2 == keyring_backend_name(os)
            || identity.description().2 == "linux-protected-file"@),
        result matches Ok(plan) && plan.fallback_write is Some ==> os == TargetOs::Linux
            && options.linux_fallback_path is Some,
{
    let ghost generated: Result<Seq<u8>, Seq<char>> = Ok(Seq::new(32, |i: int| 0u8));
    let ghost outcome = open_outcome(*options, os, legacy, keyring, fallback, generated);
    proof {
        assert(random_outcome(generated));
    }
    validate_options(options, os)?;
    let backend = keyring_backend(os);
    let (seed, backend, to_keyring, to_fallback, remove): (Vec<u8>, &str, bool, bool, bool) =
        match &keyring {
        KeyringRead::Found(value) => {
            let stored = decode_credential(value.as_str())?;
            assert(forall|seed: Seq<u8>|
                seed.len() == 32 && #[trigger] credential_text(seed) == Ok::<Seq<char>, Seq<char>>(
                    value@,
                ) ==> credential_seed(value@) == Ok::<Seq<u8>, Seq<char>>(seed));
            match &legacy {
                None => (stored, backend, false, false, false),
                Some(old) => {
                    let imported = decode_legacy(old)?;
                    if !bytes_equal(&verifying_key_bytes(&imported), &verifying_key_bytes(&stored)) {
                        (imported, backend, true, false, false)
                    } else {
                        (stored, backend, false, false, false)
                    }
                },
            }
        },
        KeyringRead::NoEntry => {
            let from_file = if os == TargetOs::Linux {
                match &fallback {
                    FallbackRead::Failed(message) => {
                        return Err(NativeError { message: message.clone() });
                    },
                    FallbackRead::Found(value) => {
                        let text = string_of(&trim_exec(&chars_of(value.as_str())));
                        Some(decode_credential(text.as_str())?)
                    },
                    FallbackRead::Missing => None,
                }
            } else {
                None
            };
            match from_file {
                Some(seed) => (seed, backend, true, false, true),
                None => {
                    let (fresh, random) = new_key(&legacy);
                    proof {
                        generated = random@;
                        let _ = open_outcome(*options, os, legacy, keyring, fallback, generated);
                    }
                    let seed = fresh?;
                    (seed, backend, true, false, os == TargetOs::Linux)
                },
            }
        },
        KeyringRead::Failed(error) => {
            if os != TargetOs::Linux {
                return Err(NativeError { message: error.clone() });
            }
            match &fallback {
                FallbackRead::Failed(message) => {
                    return Err(NativeError { message: message.clone() });
                },
                FallbackRead::Found(value) => {
                    let text = string_of(&trim_exec(&chars_of(value.as_str())));
                    let seed = decode_credential(text.as_str())?;
                    assert(forall|s: Seq<u8>|
                        s.len() == 32 && #[trigger] credential_text(s) == Ok::<Seq<char>, Seq<char>>(
                            trim(value@),
                        ) ==> credential_seed(text@) == Ok::<Seq<u8>, Seq<char>>(s));
                    (seed, "linux-protected-file", false, false, false)
                },
                FallbackRead::Missing => {
                    let (fresh, random) = new_key(&legacy);
                    proof {
                        generated = random@;
                        let _ = open_outcome(*options, os, legacy, keyring, fallback, generated);
                    }
                    let seed = fresh?;
                    if options.linux_fallback_path.is_none() {
                        return Err(
                            NativeError::new(
                                "Linux Secret Service is unavailable and no fallback path was supplied",
                            ),
                        );
                    }
                    (seed, "linux-protected-file", false, true, false)
                },
            }
        },
    };
    proof {
        let _ = open_outcome(*options, os, legacy, keyring, fallback, generated);
    }
    let credential = if to_keyring || to_fallback {
        Some(encode_credential(&seed)?)
    } else {
        None
    };
    let keyring_write = if to_keyring {
        credential.clone()
    } else {
        None
    };
    let fallback_write = if to_fallback {
        credential
    } else {
        None
    };
    proof {
        reveal_strlit("linux-protected-file");
    }
    assert(backend@ == keyring_backend_name(os) || backend@ == "linux-protected-file"@);
    let identity = ServiceIdentity::new(seed, backend);
    Ok(OpenPlan { keyring_write, fallback_write, remove_fallback: remove, identity })
}

/// What deleting the keyring entry gave.
#[derive(Debug, Clone)]
pub enum KeyringDelete {
    /// The entry was deleted.
    Deleted,
    /// There was no entry.
    NoEntry,
    /// The keyring failed, with its error's text.
    Failed(String),
}

/// Whether deleting must also remove the fallback file, or why it fails.
pub open spec fn delete_outcome(
    options: ServiceIdentityOptions,
    os: TargetOs,
    deleted: KeyringDelete,
) -> Result<bool, Seq<char>> {
    match options_error(options, os) {
        Some(message) => Err(message),
        None => match deleted {
            KeyringDelete::Failed(error) => if os != TargetOs::Linux {
                Err(error@)
            } else if options.linux_fallback_path is None {
                Err("Linux Secret Service is unavailable and no fallback path was supplied"@)
            } else {
                Ok(true)
            },
            _ => Ok(os == TargetOs::Linux && options.linux_fallback_path is Some),
        },
    }
}

/// Decides how deleting an identity ends, given what deleting the keyring
/// entry gave: `Ok(true)` when the fallback file at `linux_fallback_path`
/// must also be removed (if it exists).  A missing entry is no error; on
/// Linux a failing keyring leaves only the fallback file to remove.
pub fn delete_service_identity(
    options: &ServiceIdentityOptions,
    os: TargetOs,
    deleted: KeyringDelete,
) -> (result: Result<bool, NativeError>)
    ensures
        match delete_outcome(*options, os, deleted) {
            Ok(remove) => result == Ok::<bool, NativeError>(remove),
            Err(message) => fails_with(result, message),
        },
{
    validate_options(options, os)?;
    match deleted {
        KeyringDelete::Failed(error) => {
            if os != TargetOs::Linux {
                Err(NativeError { message: error })
            } else if options.linux_fallback_path.is_none() {
                Err(
                    NativeError::new(
                        "Linux Secret Service is unavailable and no fallback path was supplied",
                    ),
                )
            } else {
                Ok(true)
            }
        },
        _ => Ok(os == TargetOs::Linux && options.linux_fallback_path.is_some()),
    }
}

} // verus!
