//! The share-payload protocol: a symmetric encode/decode pipeline that turns
//! a JSON document into a compact, URL-safe, time-limited token.
//!
//! Encoding frames the plaintext under a 1-byte version tag and an 8-byte
//! big-endian timestamp, DEFLATE-compresses the frame, encrypts it with
//! AES-256-GCM under either a random 32-byte key or a key derived from a
//! passphrase by PBKDF2-HMAC-SHA256, and base64url-encodes the result.
//! Decoding reverses each step with strict validation and a closed error
//! taxonomy.

use aes_gcm::aead::{Aead, KeyInit};
use vstd::prelude::*;

verus! {

use crate::base64url::{
    b64len, b64url_decode, b64url_decode_spec, b64url_encode, b64url_encode_spec,
    lemma_b64_encode_len, lemma_b64_roundtrip,
};
use vstd::slice::{slice_subrange, slice_to_vec};
use vstd::string::{StrSliceExecFns, StringExecFns};
use vstd::utf8::{decode_utf8, encode_utf8, encode_utf8_decode_utf8, encode_utf8_valid_utf8,
    valid_utf8};

/// Version tag for payloads encrypted under a freshly drawn random key.
pub const VERSION_RANDOM_KEY: u8 = 0x01;

/// Version tag for payloads encrypted under a passphrase-derived key.
pub const VERSION_PASSPHRASE: u8 = 0x02;

/// Rounds of PBKDF2-HMAC-SHA256 used to derive a key from a passphrase.
pub const PBKDF2_ITERATIONS: u32 = 100000;

/// Length in bytes of the salt prepended to passphrase-mode payloads.
pub const SALT_LENGTH: usize = 16;

/// Length in bytes of the AES-GCM nonce prepended to the ciphertext.
pub const NONCE_LENGTH: usize = 12;

/// Length in bytes of the plaintext frame header: 1 version + 8 timestamp.
pub const HEADER_LENGTH: usize = 9;

/// Seconds a payload stays redeemable; an age beyond this is expired.
pub const EXPIRATION_SECS: u64 = 300;

/// Maximum length in characters of the encoded payload string.
pub const MAX_PAYLOAD_CHARS: usize = 6000;

/// Cap on the decompressed frame size, against decompression bombs.
pub const MAX_DECOMPRESSED_SIZE: usize = 10485760;

/// A freshly encoded share token: the payload string and, in random-key
/// mode, the base64url key the recipient needs to redeem it.
#[derive(Debug, Clone)]
pub struct SharePayload {
    pub data: String,
    pub key: Option<String>,
}

/// A successfully decoded payload: the original JSON, its creation time,
/// and the sharing mode it was encoded under.
#[derive(Debug, Clone)]
pub struct DecodeResult {
    pub json: String,
    pub created_at: u64,
    pub mode: String,
}

/// The closed error taxonomy of the protocol. Every failure of encode or
/// decode is one of these; no variant carries user-controlled text.
#[derive(Debug, Clone, PartialEq, Eq, Structural)]
pub enum ShareError {
    CompressionFailed,
    EncryptionFailed,
    PayloadTooLarge,
    EmptyInput,
    KeyDerivationFailed,
    Expired,
    InvalidPayload,
    DecryptionFailed,
    InvalidBase64,
}

impl ShareError {
    /// The stable machine-readable code of this error, for UI branching.
    pub fn error_code(&self) -> (r: &'static str)
        ensures
            r@ == match self {
                ShareError::Expired => "expired"@,
                ShareError::InvalidPayload => "invalid_payload"@,
                ShareError::DecryptionFailed => "decryption_failed"@,
                ShareError::InvalidBase64 => "invalid_base64"@,
                ShareError::CompressionFailed => "invalid_payload"@,
                ShareError::EncryptionFailed => "decryption_failed"@,
                ShareError::PayloadTooLarge => "invalid_payload"@,
                ShareError::EmptyInput => "invalid_payload"@,
                ShareError::KeyDerivationFailed => "decryption_failed"@,
            },
    {
        match self {
            ShareError::Expired => "expired",
            ShareError::InvalidPayload => "invalid_payload",
            ShareError::DecryptionFailed => "decryption_failed",
            ShareError::InvalidBase64 => "invalid_base64",
            ShareError::CompressionFailed => "invalid_payload",
            ShareError::EncryptionFailed => "decryption_failed",
            ShareError::PayloadTooLarge => "invalid_payload",
            ShareError::EmptyInput => "invalid_payload",
            ShareError::KeyDerivationFailed => "decryption_failed",
        }
    }

    /// The fixed human-readable message of this error.
    pub fn message(&self) -> (r: String)
        ensures
            r@ == match self {
                ShareError::CompressionFailed => "Compression failed"@,
                ShareError::EncryptionFailed => "Encryption failed"@,
                ShareError::PayloadTooLarge => "Payload too large (max 6000 chars encoded)"@,
                ShareError::EmptyInput => "Input is empty"@,
                ShareError::KeyDerivationFailed => "Key derivation failed"@,
                ShareError::Expired => "This shared link has expired (links are valid for 5 minutes)"@,
                ShareError::InvalidPayload => "Invalid share link format"@,
                ShareError::DecryptionFailed => "Unable to decrypt - the link may be corrupted"@,
                ShareError::InvalidBase64 => "Invalid share link encoding"@,
            },
    {
        match self {
            ShareError::CompressionFailed => String::from_str("Compression failed"),
            ShareError::EncryptionFailed => String::from_str("Encryption failed"),
            ShareError::PayloadTooLarge => {
                String::from_str("Payload too large (max 6000 chars encoded)")
            },
            ShareError::EmptyInput => String::from_str("Input is empty"),
            ShareError::KeyDerivationFailed => String::from_str("Key derivation failed"),
            ShareError::Expired => {
                String::from_str("This shared link has expired (links are valid for 5 minutes)")
            },
            ShareError::InvalidPayload => String::from_str("Invalid share link format"),
            ShareError::DecryptionFailed => {
                String::from_str("Unable to decrypt - the link may be corrupted")
            },
            ShareError::InvalidBase64 => String::from_str("Invalid share link encoding"),
        }
    }
}

/// The eight bytes of a timestamp in big-endian order.
pub open spec fn ts_be_bytes(ts: u64) -> Seq<u8> {
    seq![
        (ts >> 56) as u8,
        (ts >> 48) as u8,
        (ts >> 40) as u8,
        (ts >> 32) as u8,
        (ts >> 24) as u8,
        (ts >> 16) as u8,
        (ts >> 8) as u8,
        ts as u8,
    ]
}

/// The timestamp read back from eight big-endian bytes.
pub open spec fn be64_val(bs: Seq<u8>) -> u64
    recommends
        bs.len() == 8,
{
    ((bs[0] as u64) << 56) | ((bs[1] as u64) << 48) | ((bs[2] as u64) << 40) | ((bs[3] as u64)
        << 32) | ((bs[4] as u64) << 24) | ((bs[5] as u64) << 16) | ((bs[6] as u64) << 8) | (
    bs[7] as u64)
}

/// Reading back the big-endian bytes of a timestamp gives the timestamp.
pub proof fn lemma_be64_roundtrip(ts: u64)
    ensures
        be64_val(ts_be_bytes(ts)) == ts,
{
    assert((((ts >> 56) as u8) as u64) << 56 | (((ts >> 48) as u8) as u64) << 48 | (((ts
        >> 40) as u8) as u64) << 40 | (((ts >> 32) as u8) as u64) << 32 | (((ts
        >> 24) as u8) as u64) << 24 | (((ts >> 16) as u8) as u64) << 16 | (((ts
        >> 8) as u8) as u64) << 8 | ((ts as u8) as u64) == ts) by (bit_vector);
}

/// The plaintext frame: one version byte, eight timestamp bytes, then the
/// UTF-8 bytes of the JSON document.
pub open spec fn frame_bytes(version: u8, ts: u64, json_bytes: Seq<u8>) -> Seq<u8> {
    seq![version] + ts_be_bytes(ts) + json_bytes
}

/// The age of a payload created at `created_at` when the clock reads
/// `now`, saturating at zero for timestamps in the future.
pub open spec fn payload_age(now: u64, created_at: u64) -> u64 {
    if now >= created_at {
        (now - created_at) as u64
    } else {
        0
    }
}

/// The AES-256-GCM ciphertext (with its 16-byte tag) of a plaintext under
/// a 32-byte key and 12-byte nonce; a deterministic function of the three.
pub uninterp spec fn aes_gcm_ct(key: Seq<u8>, nonce: Seq<u8>, plaintext: Seq<u8>) -> Seq<u8>;

/// The 32-byte PBKDF2-HMAC-SHA256 key derived from a passphrase and salt
/// at the protocol's fixed iteration count.
pub uninterp spec fn pbkdf2_key(passphrase: Seq<char>, salt: Seq<u8>) -> Seq<u8>;

/// The DEFLATE compression of a byte sequence.
pub uninterp spec fn deflate_of(data: Seq<u8>) -> Seq<u8>;

/// The DEFLATE decompression of a byte sequence, or `None` when the bytes
/// are not a valid DEFLATE stream.
pub uninterp spec fn inflate_of(data: Seq<u8>) -> Option<Seq<u8>>;

/// Relies on getrandom's `getrandom`: fills a buffer of the requested
/// length from the system CSPRNG. Nothing is assumed of the drawn values.
#[verifier::external_body]
fn random_bytes(len: usize) -> (r: Result<Vec<u8>, ()>)
    ensures
        r matches Ok(v) ==> v@.len() == len,
{
    let mut buf = vec![0u8; len];
    match getrandom::getrandom(&mut buf) {
        Ok(()) => Ok(buf),
        Err(_) => Err(()),
    }
}

/// Relies on pbkdf2's `pbkdf2_hmac` with sha2's `Sha256`: fills the output
/// with the PBKDF2-HMAC-SHA256 key, a deterministic function of passphrase,
/// salt, and the fixed iteration count; the call itself cannot fail.
#[verifier::external_body]
pub fn derive_key_from_passphrase(passphrase: &str, salt: &[u8]) -> (r: Result<Vec<u8>, ShareError>)
    ensures
        r is Ok,
        r matches Ok(k) ==> k@ == pbkdf2_key(passphrase@, salt@) && k@.len() == 32,
{
    let mut key = vec![0u8; 32];
    pbkdf2::pbkdf2_hmac::<sha2::Sha256>(passphrase.as_bytes(), salt, PBKDF2_ITERATIONS, &mut key);
    Ok(key)
}

/// Relies on aes_gcm's `Aes256Gcm` (`aead::Aead::encrypt`): the returned
/// ciphertext with appended tag is a deterministic function of key, nonce,
/// and plaintext, 16 bytes longer than the plaintext, and no other
/// plaintext yields the same ciphertext under the same key and nonce.
#[verifier::external_body]
fn aes256gcm_encrypt(key: &[u8], nonce: &[u8], plaintext: &[u8]) -> (r: Result<Vec<u8>, ()>)
    requires
        key@.len() == 32,
        nonce@.len() == 12,
    ensures
        r matches Ok(ct) ==> {
            &&& ct@ == aes_gcm_ct(key@, nonce@, plaintext@)
            &&& ct@.len() == plaintext@.len() + 16
            &&& forall|q: Seq<u8>| aes_gcm_ct(key@, nonce@, q) == ct@ ==> q == plaintext@
        },
{
    let cipher = aes_gcm::Aes256Gcm::new(aes_gcm::Key::<aes_gcm::Aes256Gcm>::from_slice(key));
    match cipher.encrypt(aes_gcm::Nonce::from_slice(nonce), plaintext) {
        Ok(ct) => Ok(ct),
        Err(_) => Err(()),
    }
}

/// Relies on aes_gcm's `Aes256Gcm` (`aead::Aead::decrypt`): it returns a
/// plaintext exactly when the input is the authentic ciphertext of that
/// plaintext under this key and nonce (the tag is recomputed over the
/// received ciphertext and compared), and fails on everything else.
#[verifier::external_body]
fn aes256gcm_decrypt(key: &[u8], nonce: &[u8], ciphertext: &[u8]) -> (r: Result<Vec<u8>, ()>)
    requires
        key@.len() == 32,
        nonce@.len() == 12,
    ensures
        match r {
            Ok(pt) => ciphertext@ == aes_gcm_ct(key@, nonce@, pt@) && (forall|q: Seq<u8>|
                aes_gcm_ct(key@, nonce@, q) == ciphertext@ ==> q == pt@),
            Err(_) => !(exists|q: Seq<u8>| aes_gcm_ct(key@, nonce@, q) == ciphertext@),
        },
{
    let cipher = aes_gcm::Aes256Gcm::new(aes_gcm::Key::<aes_gcm::Aes256Gcm>::from_slice(key));
    match cipher.decrypt(aes_gcm::Nonce::from_slice(nonce), ciphertext) {
        Ok(pt) => Ok(pt),
        Err(_) => Err(()),
    }
}

/// Relies on flate2's `DeflateEncoder`: lossless DEFLATE compression, a
/// deterministic function of the input; inflating the result gives the
/// input back. The call cannot fail: the sink is a plain vector and
/// DEFLATE compression accepts every input.
#[verifier::external_body]
fn deflate_compress(data: &[u8]) -> (r: Result<Vec<u8>, ()>)
    ensures
        r is Ok,
        r matches Ok(v) ==> v@ == deflate_of(data@) && inflate_of(v@) == Some(data@),
{
    let mut enc = flate2::write::DeflateEncoder::new(Vec::new(), flate2::Compression::default());
    if std::io::Write::write_all(&mut enc, data).is_err() {
        return Err(());
    }
    match enc.finish() {
        Ok(v) => Ok(v),
        Err(_) => Err(()),
    }
}

/// Streaming DEFLATE decompression state over a fixed compressed input;
/// reads hand the inflated bytes out in bounded chunks. The decoder comes
/// from flate2 and is held opaquely.
#[verifier::external_body]
pub struct Inflater {
    decoder: flate2::read::DeflateDecoder<std::io::Cursor<Vec<u8>>>,
}

/// The compressed bytes an inflater was created over.
pub uninterp spec fn inflater_source(inf: Inflater) -> Seq<u8>;

/// The inflated bytes an inflater has handed out so far.
pub uninterp spec fn inflater_emitted(inf: Inflater) -> Seq<u8>;

/// Relies on flate2's `DeflateDecoder::new`.
#[verifier::external_body]
fn inflater_new(compressed: &[u8]) -> (r: Inflater)
    ensures
        inflater_source(r) == compressed@,
        inflater_emitted(r) == Seq::<u8>::empty(),
{
    Inflater {
        decoder: flate2::read::DeflateDecoder::new(std::io::Cursor::new(compressed.to_vec())),
    }
}

/// Relies on flate2's `DeflateDecoder` (`std::io::Read::read`): each read
/// hands out the next chunk of the inflated stream, at most 8192 bytes; an
/// empty chunk means the stream is complete; an error comes only from
/// input that is not a valid DEFLATE stream.
#[verifier::external_body]
fn inflater_read(inf: &mut Inflater) -> (r: Result<Vec<u8>, ()>)
    ensures
        inflater_source(*final(inf)) == inflater_source(*old(inf)),
        match r {
            Ok(chunk) => {
                &&& chunk@.len() <= 8192
                &&& inflater_emitted(*final(inf)) == inflater_emitted(*old(inf)) + chunk@
                &&& (chunk@.len() == 0 ==> inflate_of(inflater_source(*old(inf))) == Some(
                    inflater_emitted(*old(inf)),
                ))
                &&& (inflate_of(inflater_source(*old(inf))) matches Some(full) ==> {
                    &&& inflater_emitted(*final(inf)).len() <= full.len()
                    &&& inflater_emitted(*final(inf)) == full.take(
                        inflater_emitted(*final(inf)).len() as int,
                    )
                })
            },
            Err(_) => inflate_of(inflater_source(*old(inf))) is None && inflater_emitted(
                *final(inf),
            ) == inflater_emitted(*old(inf)),
        },
{
    let mut buf = [0u8; 8192];
    match std::io::Read::read(&mut inf.decoder, &mut buf) {
        Ok(n) => Ok(buf[..n].to_vec()),
        Err(_) => Err(()),
    }
}

/// Relies on std's `String::from_utf8`: succeeds exactly on valid UTF-8
/// and returns its decoding.
#[verifier::external_body]
fn string_from_utf8(bytes: Vec<u8>) -> (r: Result<String, ()>)
    ensures
        match r {
            Ok(s) => valid_utf8(bytes@) && s@ == decode_utf8(bytes@),
            Err(_) => !valid_utf8(bytes@),
        },
{
    match String::from_utf8(bytes) {
        Ok(s) => Ok(s),
        Err(_) => Err(()),
    }
}

/// Encode bytes as unpadded URL-safe base64.
pub fn encode_base64url(data: &[u8]) -> (r: String)
    ensures
        r@ == b64url_encode_spec(data@),
{
    b64url_encode(data)
}

/// Decode an unpadded URL-safe base64 string, rejecting anything that is
/// not a canonical encoding.
pub fn decode_base64url(input: &str) -> (r: Result<Vec<u8>, ShareError>)
    ensures
        match r {
            Ok(v) => b64url_decode_spec(input@) == Some(v@),
            Err(e) => e == ShareError::InvalidBase64 && b64url_decode_spec(input@) is None,
        },
{
    match b64url_decode(input) {
        Ok(v) => Ok(v),
        Err(_) => Err(ShareError::InvalidBase64),
    }
}

/// Draw a fresh 32-byte key from the system CSPRNG.
pub fn generate_random_key() -> (r: Result<Vec<u8>, ShareError>)
    ensures
        r matches Ok(k) ==> k@.len() == 32,
        r matches Err(e) ==> e == ShareError::EncryptionFailed,
{
    match random_bytes(32) {
        Ok(k) => Ok(k),
        Err(_) => Err(ShareError::EncryptionFailed),
    }
}

/// Encrypt with a fresh random nonce: the result is the 12-byte nonce
/// followed by the AES-256-GCM ciphertext and tag.
pub fn encrypt_payload(data: &[u8], key_bytes: &[u8]) -> (r: Result<Vec<u8>, ShareError>)
    requires
        key_bytes@.len() == 32,
    ensures
        match r {
            Ok(v) => {
                &&& v@.len() == data@.len() + 28
                &&& v@.skip(12) == aes_gcm_ct(key_bytes@, v@.take(12), data@)
                &&& forall|q: Seq<u8>|
                    aes_gcm_ct(key_bytes@, v@.take(12), q) == v@.skip(12) ==> q == data@
            },
            Err(e) => e == ShareError::EncryptionFailed,
        },
{
    let nonce = match random_bytes(NONCE_LENGTH) {
        Ok(n) => n,
        Err(_) => {
            return Err(ShareError::EncryptionFailed);
        },
    };
    let mut ct = match aes256gcm_encrypt(key_bytes, nonce.as_slice(), data) {
        Ok(c) => c,
        Err(_) => {
            return Err(ShareError::EncryptionFailed);
        },
    };
    let ghost nonce_seq = nonce@;
    let mut result = nonce;
    result.append(&mut ct);
    proof {
        assert(result@.take(12) =~= nonce_seq);
        assert(result@.skip(12) =~= aes_gcm_ct(key_bytes@, nonce_seq, data@));
    }
    Ok(result)
}

/// Split off the 12-byte nonce and decrypt the rest; fails with
/// `InvalidPayload` on a malformed key or a too-short input and with
/// `DecryptionFailed` when the tag check rejects the ciphertext.
pub fn decrypt_payload(ciphertext: &[u8], key_bytes: &[u8]) -> (r: Result<Vec<u8>, ShareError>)
    ensures
        match r {
            Ok(pt) => {
                &&& key_bytes@.len() == 32
                &&& ciphertext@.len() >= 13
                &&& ciphertext@.skip(12) == aes_gcm_ct(key_bytes@, ciphertext@.take(12), pt@)
                &&& forall|q: Seq<u8>|
                    aes_gcm_ct(key_bytes@, ciphertext@.take(12), q) == ciphertext@.skip(12) ==> q
                        == pt@
            },
            Err(e) => {
                if key_bytes@.len() != 32 || ciphertext@.len() < 13 {
                    e == ShareError::InvalidPayload
                } else {
                    e == ShareError::DecryptionFailed && !(exists|q: Seq<u8>|
                        aes_gcm_ct(key_bytes@, ciphertext@.take(12), q) == ciphertext@.skip(12))
                }
            },
        },
{
    if key_bytes.len() != 32 {
        return Err(ShareError::InvalidPayload);
    }
    if ciphertext.len() < NONCE_LENGTH + 1 {
        return Err(ShareError::InvalidPayload);
    }
    let nonce = slice_subrange(ciphertext, 0, NONCE_LENGTH);
    let encrypted = slice_subrange(ciphertext, NONCE_LENGTH, ciphertext.len());
    match aes256gcm_decrypt(key_bytes, nonce, encrypted) {
        Ok(pt) => Ok(pt),
        Err(_) => Err(ShareError::DecryptionFailed),
    }
}

/// Read the frame header: the version byte, the big-endian timestamp, and
/// the remaining JSON bytes.
pub fn extract_header(data: &[u8]) -> (r: Result<(u8, u64, &[u8]), ShareError>)
    ensures
        r is Ok <==> data@.len() >= 9,
        r matches Ok(t) ==> t.0 == data@[0] && t.1 == be64_val(data@.subrange(1, 9)) && t.2@
            == data@.skip(9),
        r matches Err(e) ==> e == ShareError::InvalidPayload,
{
    if data.len() < HEADER_LENGTH {
        return Err(ShareError::InvalidPayload);
    }
    let version = data[0];
    let timestamp: u64 = ((data[1] as u64) << 56) | ((data[2] as u64) << 48) | ((data[3] as u64)
        << 40) | ((data[4] as u64) << 32) | ((data[5] as u64) << 24) | ((data[6] as u64) << 16) | ((
    data[7] as u64) << 8) | (data[8] as u64);
    let rest = slice_subrange(data, HEADER_LENGTH, data.len());
    proof {
        assert(data@.subrange(1, 9)[0] == data@[1]);
        assert(data@.subrange(1, 9)[1] == data@[2]);
        assert(data@.subrange(1, 9)[2] == data@[3]);
        assert(data@.subrange(1, 9)[3] == data@[4]);
        assert(data@.subrange(1, 9)[4] == data@[5]);
        assert(data@.subrange(1, 9)[5] == data@[6]);
        assert(data@.subrange(1, 9)[6] == data@[7]);
        assert(data@.subrange(1, 9)[7] == data@[8]);
    }
    Ok((version, timestamp, rest))
}

/// Accept a creation timestamp whose age is at most the expiration window;
/// the age saturates at zero for timestamps in the future.
pub fn validate_timestamp(created_at: u64, now: u64) -> (r: Result<(), ShareError>)
    ensures
        r is Ok <==> payload_age(now, created_at) <= EXPIRATION_SECS,
        r matches Err(e) ==> e == ShareError::Expired,
{
    let age = if now >= created_at {
        now - created_at
    } else {
        0
    };
    if age > EXPIRATION_SECS {
        Err(ShareError::Expired)
    } else {
        Ok(())
    }
}

/// Decompress a DEFLATE stream in bounded chunks, rejecting streams that
/// are invalid or whose output exceeds the decompression cap.
pub fn decompress_raw(compressed: &[u8]) -> (r: Result<Vec<u8>, ShareError>)
    ensures
        match r {
            Ok(v) => inflate_of(compressed@) == Some(v@) && v@.len() <= MAX_DECOMPRESSED_SIZE,
            Err(e) => e == ShareError::InvalidPayload && !(inflate_of(compressed@) matches Some(
                full,
            ) && full.len() <= MAX_DECOMPRESSED_SIZE),
        },
{
    let mut inf = inflater_new(compressed);
    let mut out: Vec<u8> = Vec::new();
    loop
        invariant
            inflater_source(inf) == compressed@,
            out@ == inflater_emitted(inf),
            out@.len() <= MAX_DECOMPRESSED_SIZE,
            inflate_of(compressed@) matches Some(full) ==> out@.len() <= full.len() && out@
                == full.take(out@.len() as int),
        decreases MAX_DECOMPRESSED_SIZE + 1 - out@.len(),
    {
        let chunk = match inflater_read(&mut inf) {
            Ok(c) => c,
            Err(_) => {
                return Err(ShareError::InvalidPayload);
            },
        };
        if chunk.len() == 0 {
            return Ok(out);
        }
        out.extend_from_slice(chunk.as_slice());
        proof {
            assert(out@ =~= inflater_emitted(inf));
        }
        if out.len() > MAX_DECOMPRESSED_SIZE {
            return Err(ShareError::InvalidPayload);
        }
    }
}

/// Decompress a DEFLATE stream and decode the result as UTF-8.
pub fn decompress_json(compressed: &[u8]) -> (r: Result<String, ShareError>)
    ensures
        match r {
            Ok(s) => inflate_of(compressed@) matches Some(full) && full.len()
                <= MAX_DECOMPRESSED_SIZE && valid_utf8(full) && s@ == decode_utf8(full),
            Err(e) => e == ShareError::InvalidPayload && !(inflate_of(compressed@) matches Some(
                full,
            ) && full.len() <= MAX_DECOMPRESSED_SIZE && valid_utf8(full)),
        },
{
    let decompressed = decompress_raw(compressed)?;
    match string_from_utf8(decompressed) {
        Ok(s) => Ok(s),
        Err(_) => Err(ShareError::InvalidPayload),
    }
}

/// Whether a nonce-prefixed blob can be opened at all under a key: some
/// plaintext has this blob's ciphertext under the blob's nonce.
pub open spec fn gcm_openable(key: Seq<u8>, blob: Seq<u8>) -> bool {
    exists|pt: Seq<u8>| aes_gcm_ct(key, blob.take(12), pt) == blob.skip(12)
}

/// The plaintext a nonce-prefixed blob opens to under a key.
pub open spec fn gcm_opened(key: Seq<u8>, blob: Seq<u8>) -> Seq<u8> {
    choose|pt: Seq<u8>| aes_gcm_ct(key, blob.take(12), pt) == blob.skip(12)
}

/// The outcome of the decode stages shared by both modes, applied to the
/// decrypted bytes: decompress under the cap, parse the frame header,
/// check the version and the expiration window, and decode the JSON as
/// UTF-8. Returns the creation time and the JSON document, or the exact
/// error of the first stage that rejects.
pub open spec fn frame_outcome(pt: Seq<u8>, expected_version: u8, now: u64) -> Result<
    (u64, Seq<char>),
    ShareError,
> {
    match inflate_of(pt) {
        Option::None => Result::Err(ShareError::InvalidPayload),
        Option::Some(framed) => {
            if framed.len() > MAX_DECOMPRESSED_SIZE {
                Result::Err(ShareError::InvalidPayload)
            } else if framed.len() < 9 {
                Result::Err(ShareError::InvalidPayload)
            } else {
                let version = framed[0];
                let ts = be64_val(framed.subrange(1, 9));
                let jb = framed.skip(9);
                if !valid_utf8(jb) {
                    Result::Err(ShareError::InvalidPayload)
                } else if version != expected_version {
                    Result::Err(ShareError::InvalidPayload)
                } else if payload_age(now, ts) > EXPIRATION_SECS {
                    Result::Err(ShareError::Expired)
                } else {
                    Result::Ok((ts, decode_utf8(jb)))
                }
            }
        },
    }
}

/// The exact outcome of decoding a payload string with a credential, a
/// mode flag, and the current time: either the creation time and JSON of
/// the payload, or the error of the first stage that rejects. Decoding is
/// a function of these four values alone.
pub open spec fn decode_outcome(
    data: Seq<char>,
    cred: Seq<char>,
    is_passphrase: bool,
    now: u64,
) -> Result<(u64, Seq<char>), ShareError> {
    match b64url_decode_spec(data) {
        Option::None => Result::Err(ShareError::InvalidBase64),
        Option::Some(raw) => {
            if is_passphrase {
                if raw.len() < 29 {
                    Result::Err(ShareError::InvalidPayload)
                } else {
                    let key = pbkdf2_key(cred, raw.take(16));
                    let blob = raw.skip(16);
                    if !gcm_openable(key, blob) {
                        Result::Err(ShareError::DecryptionFailed)
                    } else {
                        frame_outcome(gcm_opened(key, blob), VERSION_PASSPHRASE, now)
                    }
                }
            } else {
                match b64url_decode_spec(cred) {
                    Option::None => Result::Err(ShareError::InvalidBase64),
                    Option::Some(key) => {
                        if key.len() != 32 {
                            Result::Err(ShareError::InvalidPayload)
                        } else if raw.len() < 13 {
                            Result::Err(ShareError::InvalidPayload)
                        } else if !gcm_openable(key, raw) {
                            Result::Err(ShareError::DecryptionFailed)
                        } else {
                            frame_outcome(gcm_opened(key, raw), VERSION_RANDOM_KEY, now)
                        }
                    },
                }
            }
        },
    }
}

/// Decode a share payload: base64url-decode it, split off the salt in
/// passphrase mode, decrypt, decompress, and validate the frame. The
/// result is exactly `decode_outcome` of the inputs.
pub fn decode_share_payload(
    data: &str,
    key_or_passphrase: &str,
    is_passphrase: bool,
    now: u64,
) -> (r: Result<DecodeResult, ShareError>)
    ensures
        match r {
            Ok(res) => {
                &&& decode_outcome(data@, key_or_passphrase@, is_passphrase, now) matches Ok(p)
                    && p.0 == res.created_at && p.1 == res.json@
                &&& res.mode@ == if is_passphrase {
                    "protected"@
                } else {
                    "quick"@
                }
            },
            Err(e) => decode_outcome(data@, key_or_passphrase@, is_passphrase, now) == Result::<
                (u64, Seq<char>),
                ShareError,
            >::Err(e),
        },
{
    let raw = match decode_base64url(data) {
        Ok(v) => v,
        Err(e) => {
            return Err(e);
        },
    };
    let ghost raw_seq = raw@;
    let (decrypted, expected_version) = if is_passphrase {
        if raw.len() < SALT_LENGTH + NONCE_LENGTH + 1 {
            return Err(ShareError::InvalidPayload);
        }
        let salt = slice_subrange(raw.as_slice(), 0, SALT_LENGTH);
        let ciphertext = slice_subrange(raw.as_slice(), SALT_LENGTH, raw.len());
        let key = match derive_key_from_passphrase(key_or_passphrase, salt) {
            Ok(k) => k,
            Err(e) => {
                return Err(e);
            },
        };
        let decrypted = match decrypt_payload(ciphertext, key.as_slice()) {
            Ok(d) => d,
            Err(e) => {
                proof {
                    assert(ciphertext@ == raw_seq.skip(16));
                    assert(raw_seq.take(16) =~= salt@);
                }
                return Err(e);
            },
        };
        proof {
            assert(ciphertext@ == raw_seq.skip(16));
            assert(raw_seq.take(16) =~= salt@);
            let blob = raw_seq.skip(16);
            assert(aes_gcm_ct(key@, blob.take(12), decrypted@) == blob.skip(12));
            assert(gcm_openable(key@, blob));
            let q = gcm_opened(key@, blob);
            assert(aes_gcm_ct(key@, blob.take(12), q) == blob.skip(12));
            assert(q == decrypted@);
        }
        (decrypted, VERSION_PASSPHRASE)
    } else {
        let key_bytes = match decode_base64url(key_or_passphrase) {
            Ok(k) => k,
            Err(e) => {
                return Err(e);
            },
        };
        if key_bytes.len() != 32 {
            return Err(ShareError::InvalidPayload);
        }
        let decrypted = match decrypt_payload(raw.as_slice(), key_bytes.as_slice()) {
            Ok(d) => d,
            Err(e) => {
                return Err(e);
            },
        };
        proof {
            assert(aes_gcm_ct(key_bytes@, raw_seq.take(12), decrypted@) == raw_seq.skip(12));
            assert(gcm_openable(key_bytes@, raw_seq));
            let q = gcm_opened(key_bytes@, raw_seq);
            assert(aes_gcm_ct(key_bytes@, raw_seq.take(12), q) == raw_seq.skip(12));
            assert(q == decrypted@);
        }
        (decrypted, VERSION_RANDOM_KEY)
    };
    let decompressed = match decompress_raw(decrypted.as_slice()) {
        Ok(d) => d,
        Err(e) => {
            return Err(e);
        },
    };
    let (version, timestamp, json_bytes) = match extract_header(decompressed.as_slice()) {
        Ok(t) => t,
        Err(e) => {
            return Err(e);
        },
    };
    let json = match string_from_utf8(slice_to_vec(json_bytes)) {
        Ok(s) => s,
        Err(_) => {
            return Err(ShareError::InvalidPayload);
        },
    };
    if version != expected_version {
        return Err(ShareError::InvalidPayload);
    }
    match validate_timestamp(timestamp, now) {
        Ok(_) => (),
        Err(e) => {
            return Err(e);
        },
    };
    let mode = if version == VERSION_RANDOM_KEY {
        String::from_str("quick")
    } else {
        String::from_str("protected")
    };
    Ok(DecodeResult { json, created_at: timestamp, mode })
}

/// The wire bytes of a random-key payload before transport encoding: the
/// nonce, then the ciphertext of the compressed frame.
pub open spec fn wire_random(key: Seq<u8>, nonce: Seq<u8>, ts: u64, json: Seq<char>) -> Seq<u8> {
    nonce + aes_gcm_ct(key, nonce, deflate_of(frame_bytes(VERSION_RANDOM_KEY, ts, encode_utf8(json))))
}

/// The wire bytes of a passphrase payload before transport encoding: the
/// salt, the nonce, then the ciphertext of the compressed frame under the
/// key derived from the passphrase and that salt.
pub open spec fn wire_passphrase(
    pass: Seq<char>,
    salt: Seq<u8>,
    nonce: Seq<u8>,
    ts: u64,
    json: Seq<char>,
) -> Seq<u8> {
    salt + nonce + aes_gcm_ct(
        pbkdf2_key(pass, salt),
        nonce,
        deflate_of(frame_bytes(VERSION_PASSPHRASE, ts, encode_utf8(json))),
    )
}

/// Whether an encode call with this passphrase argument runs in
/// passphrase mode: a passphrase is present and non-empty.
pub open spec fn passphrase_mode(passphrase: Option<&str>) -> bool {
    passphrase matches Some(p) && p@.len() > 0
}

/// The characters of the passphrase argument, empty when absent.
pub open spec fn passphrase_chars(passphrase: Option<&str>) -> Seq<char> {
    match passphrase {
        Some(p) => p@,
        None => Seq::empty(),
    }
}

/// The decode guarantee of a well-formed payload: at any clock reading
/// within the expiration window, decoding it with the matching credential
/// recovers the original JSON and the creation time exactly; at any clock
/// reading beyond the window it fails with `Expired`.
pub open spec fn decodes_exactly(
    data: Seq<char>,
    cred: Seq<char>,
    is_passphrase: bool,
    created: u64,
    json: Seq<char>,
) -> bool {
    forall|now2: u64|
        decode_outcome(data, cred, is_passphrase, now2) == (if payload_age(now2, created)
            <= EXPIRATION_SECS {
            Result::<(u64, Seq<char>), ShareError>::Ok((created, json))
        } else {
            Result::<(u64, Seq<char>), ShareError>::Err(ShareError::Expired)
        })
}

/// What a successful random-key encode guarantees: the payload is the
/// encoding of a proper wire blob under a fresh 32-byte key whose base64
/// form is handed back, and it decodes exactly: the original JSON within
/// the expiration window, `Expired` beyond it (for documents small enough
/// to clear the decoder's decompression cap).
pub open spec fn encode_ok_random(p: SharePayload, json: Seq<char>, now: u64) -> bool {
    &&& p.data@.len() <= MAX_PAYLOAD_CHARS
    &&& p.key matches Some(ks) && (exists|key: Seq<u8>, nonce: Seq<u8>|
        {
            &&& key.len() == 32
            &&& nonce.len() == 12
            &&& ks@ == b64url_encode_spec(key)
            &&& p.data@ == b64url_encode_spec(wire_random(key, nonce, now, json))
        }) && (encode_utf8(json).len() + 9 <= MAX_DECOMPRESSED_SIZE ==> decodes_exactly(
        p.data@,
        ks@,
        false,
        now,
        json,
    ))
}

/// What a successful passphrase encode guarantees: no key is handed back,
/// the payload is the encoding of a proper salted wire blob, and under
/// the passphrase it decodes exactly: the original JSON within the
/// expiration window, `Expired` beyond it (for documents small enough to
/// clear the decoder's decompression cap).
pub open spec fn encode_ok_passphrase(
    p: SharePayload,
    pass: Seq<char>,
    json: Seq<char>,
    now: u64,
) -> bool {
    &&& p.data@.len() <= MAX_PAYLOAD_CHARS
    &&& p.key is None
    &&& exists|salt: Seq<u8>, nonce: Seq<u8>|
        {
            &&& salt.len() == 16
            &&& nonce.len() == 12
            &&& p.data@ == b64url_encode_spec(wire_passphrase(pass, salt, nonce, now, json))
        }
    &&& (encode_utf8(json).len() + 9 <= MAX_DECOMPRESSED_SIZE ==> decodes_exactly(
        p.data@,
        pass,
        true,
        now,
        json,
    ))
}

/// Build and compress the plaintext frame: the version byte, the
/// big-endian timestamp, then the JSON bytes, DEFLATE-compressed. It
/// always succeeds: compression cannot fail.
pub fn compress_with_header(json: &str, version: u8, now: u64) -> (r: Result<Vec<u8>, ShareError>)
    ensures
        r is Ok,
        r matches Ok(v) ==> v@ == deflate_of(frame_bytes(version, now, encode_utf8(json@)))
            && inflate_of(v@) == Some(frame_bytes(version, now, encode_utf8(json@))),
{
    let json_bytes = json.as_bytes();
    let mut header: Vec<u8> = Vec::new();
    header.push(version);
    header.push((now >> 56) as u8);
    header.push((now >> 48) as u8);
    header.push((now >> 40) as u8);
    header.push((now >> 32) as u8);
    header.push((now >> 24) as u8);
    header.push((now >> 16) as u8);
    header.push((now >> 8) as u8);
    header.push(now as u8);
    header.extend_from_slice(json_bytes);
    proof {
        assert(header@ =~= frame_bytes(version, now, encode_utf8(json@)));
    }
    match deflate_compress(header.as_slice()) {
        Ok(v) => Ok(v),
        Err(_) => Err(ShareError::CompressionFailed),
    }
}

/// Encode a JSON document as a share payload. A non-empty passphrase
/// selects passphrase mode; otherwise a fresh random key is drawn and
/// handed back beside the payload. Fails with `EmptyInput` exactly on the
/// empty document and with `PayloadTooLarge` when the encoded payload
/// exceeds the transport limit.
pub fn create_share_payload(json: &str, passphrase: Option<&str>, now: u64) -> (r: Result<
    SharePayload,
    ShareError,
>)
    ensures
        json@.len() == 0 <==> r == Result::<SharePayload, ShareError>::Err(ShareError::EmptyInput),
        r matches Err(e) ==> (e == ShareError::EmptyInput || e == ShareError::EncryptionFailed
            || e == ShareError::PayloadTooLarge),
        r == Result::<SharePayload, ShareError>::Err(ShareError::PayloadTooLarge) ==> (if passphrase_mode(passphrase) {
            b64len(deflate_of(frame_bytes(VERSION_PASSPHRASE, now, encode_utf8(json@))).len() as int + 44)
                > MAX_PAYLOAD_CHARS
        } else {
            b64len(deflate_of(frame_bytes(VERSION_RANDOM_KEY, now, encode_utf8(json@))).len() as int + 28)
                > MAX_PAYLOAD_CHARS
        }),
        r matches Ok(p) ==> (if passphrase_mode(passphrase) {
            encode_ok_passphrase(p, passphrase_chars(passphrase), json@, now)
        } else {
            encode_ok_random(p, json@, now)
        }),
{
    if json.is_empty() {
        return Err(ShareError::EmptyInput);
    }
    let is_pass = match passphrase {
        Some(p) => !p.is_empty(),
        None => false,
    };
    let version = if is_pass {
        VERSION_PASSPHRASE
    } else {
        VERSION_RANDOM_KEY
    };
    let compressed = match compress_with_header(json, version, now) {
        Ok(c) => c,
        Err(e) => {
            return Err(e);
        },
    };
    if is_pass {
        let pass = match passphrase {
            Some(p) => p,
            None => {
                return Err(ShareError::EncryptionFailed);
            },
        };
        let salt = match random_bytes(SALT_LENGTH) {
            Ok(s) => s,
            Err(_) => {
                return Err(ShareError::EncryptionFailed);
            },
        };
        let key = match derive_key_from_passphrase(pass, salt.as_slice()) {
            Ok(k) => k,
            Err(_) => {
                return Err(ShareError::EncryptionFailed);
            },
        };
        let encrypted = match encrypt_payload(compressed.as_slice(), key.as_slice()) {
            Ok(x) => x,
            Err(e) => {
                return Err(e);
            },
        };
        let ghost salt_seq = salt@;
        let ghost enc_seq = encrypted@;
        let mut payload = salt;
        let mut enc = encrypted;
        payload.append(&mut enc);
        let data = encode_base64url(payload.as_slice());
        if data.as_str().unicode_len() > MAX_PAYLOAD_CHARS {
            proof {
                lemma_b64_encode_len(payload@);
            }
            return Err(ShareError::PayloadTooLarge);
        }
        proof {
            lemma_create_roundtrip_passphrase(
                pass@,
                salt_seq,
                enc_seq,
                compressed@,
                key@,
                payload@,
                data@,
                json@,
                now,
            );
        }
        Ok(SharePayload { data, key: None })
    } else {
        let key_bytes = match generate_random_key() {
            Ok(k) => k,
            Err(e) => {
                return Err(e);
            },
        };
        let encrypted = match encrypt_payload(compressed.as_slice(), key_bytes.as_slice()) {
            Ok(x) => x,
            Err(e) => {
                return Err(e);
            },
        };
        let data = encode_base64url(encrypted.as_slice());
        if data.as_str().unicode_len() > MAX_PAYLOAD_CHARS {
            proof {
                lemma_b64_encode_len(encrypted@);
            }
            return Err(ShareError::PayloadTooLarge);
        }
        let key_str = encode_base64url(key_bytes.as_slice());
        proof {
            lemma_create_roundtrip_random(
                key_bytes@,
                encrypted@,
                compressed@,
                data@,
                key_str@,
                json@,
                now,
            );
        }
        Ok(SharePayload { data, key: Some(key_str) })
    }
}

/// Chains the guarantees of the encode stages into the round-trip claim
/// for random-key mode.
proof fn lemma_create_roundtrip_random(
    key: Seq<u8>,
    encrypted: Seq<u8>,
    compressed: Seq<u8>,
    data: Seq<char>,
    key_str: Seq<char>,
    json: Seq<char>,
    now: u64,
)
    requires
        key.len() == 32,
        compressed == deflate_of(frame_bytes(VERSION_RANDOM_KEY, now, encode_utf8(json))),
        inflate_of(compressed) == Some(frame_bytes(VERSION_RANDOM_KEY, now, encode_utf8(json))),
        encrypted.len() == compressed.len() + 28,
        encrypted.skip(12) == aes_gcm_ct(key, encrypted.take(12), compressed),
        forall|q: Seq<u8>|
            aes_gcm_ct(key, encrypted.take(12), q) == encrypted.skip(12) ==> q == compressed,
        data == b64url_encode_spec(encrypted),
        key_str == b64url_encode_spec(key),
    ensures
        exists|k: Seq<u8>, nonce: Seq<u8>|
            {
                &&& k.len() == 32
                &&& nonce.len() == 12
                &&& key_str == b64url_encode_spec(k)
                &&& data == b64url_encode_spec(wire_random(k, nonce, now, json))
            },
        encode_utf8(json).len() + 9 <= MAX_DECOMPRESSED_SIZE ==> decodes_exactly(
            data,
            key_str,
            false,
            now,
            json,
        ),
{
    let nonce = encrypted.take(12);
    let frame = frame_bytes(VERSION_RANDOM_KEY, now, encode_utf8(json));
    assert(encrypted =~= nonce + encrypted.skip(12));
    assert(wire_random(key, nonce, now, json) == encrypted);
    assert(key.len() == 32 && nonce.len() == 12 && key_str == b64url_encode_spec(key) && data
        == b64url_encode_spec(wire_random(key, nonce, now, json)));
    if encode_utf8(json).len() + 9 <= MAX_DECOMPRESSED_SIZE {
        assert forall|now2: u64|
            decode_outcome(data, key_str, false, now2) == (if payload_age(now2, now)
                <= EXPIRATION_SECS {
                Result::<(u64, Seq<char>), ShareError>::Ok((now, json))
            } else {
                Result::<(u64, Seq<char>), ShareError>::Err(ShareError::Expired)
            }) by {
            lemma_b64_roundtrip(encrypted);
            lemma_b64_roundtrip(key);
            assert(gcm_openable(key, encrypted));
            let q = gcm_opened(key, encrypted);
            assert(aes_gcm_ct(key, encrypted.take(12), q) == encrypted.skip(12));
            assert(q == compressed);
            lemma_frame_outcome(compressed, frame, VERSION_RANDOM_KEY, now, now2, json);
        }
    }
}

/// Chains the guarantees of the encode stages into the round-trip claim
/// for passphrase mode.
proof fn lemma_create_roundtrip_passphrase(
    pass: Seq<char>,
    salt: Seq<u8>,
    encrypted: Seq<u8>,
    compressed: Seq<u8>,
    key: Seq<u8>,
    payload: Seq<u8>,
    data: Seq<char>,
    json: Seq<char>,
    now: u64,
)
    requires
        salt.len() == 16,
        key == pbkdf2_key(pass, salt),
        key.len() == 32,
        compressed == deflate_of(frame_bytes(VERSION_PASSPHRASE, now, encode_utf8(json))),
        inflate_of(compressed) == Some(frame_bytes(VERSION_PASSPHRASE, now, encode_utf8(json))),
        encrypted.len() == compressed.len() + 28,
        encrypted.skip(12) == aes_gcm_ct(key, encrypted.take(12), compressed),
        forall|q: Seq<u8>|
            aes_gcm_ct(key, encrypted.take(12), q) == encrypted.skip(12) ==> q == compressed,
        payload == salt + encrypted,
        data == b64url_encode_spec(payload),
    ensures
        exists|s: Seq<u8>, nonce: Seq<u8>|
            {
                &&& s.len() == 16
                &&& nonce.len() == 12
                &&& data == b64url_encode_spec(wire_passphrase(pass, s, nonce, now, json))
            },
        encode_utf8(json).len() + 9 <= MAX_DECOMPRESSED_SIZE ==> decodes_exactly(
            data,
            pass,
            true,
            now,
            json,
        ),
{
    let nonce = encrypted.take(12);
    let frame = frame_bytes(VERSION_PASSPHRASE, now, encode_utf8(json));
    assert(encrypted =~= nonce + encrypted.skip(12));
    assert(wire_passphrase(pass, salt, nonce, now, json) =~= payload);
    assert(salt.len() == 16 && nonce.len() == 12 && data == b64url_encode_spec(
        wire_passphrase(pass, salt, nonce, now, json),
    ));
    if encode_utf8(json).len() + 9 <= MAX_DECOMPRESSED_SIZE {
        assert forall|now2: u64|
            decode_outcome(data, pass, true, now2) == (if payload_age(now2, now)
                <= EXPIRATION_SECS {
                Result::<(u64, Seq<char>), ShareError>::Ok((now, json))
            } else {
                Result::<(u64, Seq<char>), ShareError>::Err(ShareError::Expired)
            }) by {
            lemma_b64_roundtrip(payload);
            assert(payload.len() == encrypted.len() + 16);
            assert(payload.len() >= 29);
            let blob = payload.skip(16);
            assert(payload.take(16) =~= salt);
            assert(blob =~= encrypted);
            assert(gcm_openable(key, blob));
            let q = gcm_opened(key, blob);
            assert(aes_gcm_ct(key, blob.take(12), q) == blob.skip(12));
            assert(q == compressed);
            lemma_frame_outcome(compressed, frame, VERSION_PASSPHRASE, now, now2, json);
        }
    }
}

/// A well-formed compressed frame passes every decode stage after
/// decryption up to the expiration check: it inflates to the frame,
/// whose version, timestamp, and JSON bytes are read back exactly, and
/// only the payload's age decides between success and `Expired`.
proof fn lemma_frame_outcome(
    compressed: Seq<u8>,
    frame: Seq<u8>,
    version: u8,
    created: u64,
    now2: u64,
    json: Seq<char>,
)
    requires
        frame == frame_bytes(version, created, encode_utf8(json)),
        inflate_of(compressed) == Some(frame),
        frame.len() <= MAX_DECOMPRESSED_SIZE,
    ensures
        frame_outcome(compressed, version, now2) == (if payload_age(now2, created)
            <= EXPIRATION_SECS {
            Result::<(u64, Seq<char>), ShareError>::Ok((created, json))
        } else {
            Result::<(u64, Seq<char>), ShareError>::Err(ShareError::Expired)
        }),
{
    let jb = encode_utf8(json);
    assert(frame.len() == 9 + jb.len());
    assert(frame[0] == version);
    assert(frame.subrange(1, 9) =~= ts_be_bytes(created));
    assert(frame.skip(9) =~= jb);
    lemma_be64_roundtrip(created);
    encode_utf8_valid_utf8(json);
    encode_utf8_decode_utf8(json);
}

/// Round trip and expiration for random-key payloads: a payload from a
/// successful random-key encode decodes, under the returned key, to
/// exactly the original JSON and creation time at any clock within the
/// expiration window, and fails with `Expired` at any clock beyond it
/// (for documents small enough to clear the decoder's decompression cap).
pub proof fn lemma_encode_decode_random(p: SharePayload, json: Seq<char>, created: u64, now2: u64)
    requires
        encode_ok_random(p, json, created),
        encode_utf8(json).len() + 9 <= MAX_DECOMPRESSED_SIZE,
    ensures
        p.key matches Some(ks) && decode_outcome(p.data@, ks@, false, now2) == (if payload_age(
            now2,
            created,
        ) <= EXPIRATION_SECS {
            Result::<(u64, Seq<char>), ShareError>::Ok((created, json))
        } else {
            Result::<(u64, Seq<char>), ShareError>::Err(ShareError::Expired)
        }),
{
}

/// Round trip and expiration for passphrase payloads: a payload from a
/// successful passphrase encode decodes, under the passphrase, to exactly
/// the original JSON and creation time at any clock within the expiration
/// window, and fails with `Expired` at any clock beyond it (for documents
/// small enough to clear the decoder's decompression cap).
pub proof fn lemma_encode_decode_passphrase(
    p: SharePayload,
    pass: Seq<char>,
    json: Seq<char>,
    created: u64,
    now2: u64,
)
    requires
        encode_ok_passphrase(p, pass, json, created),
        encode_utf8(json).len() + 9 <= MAX_DECOMPRESSED_SIZE,
    ensures
        decode_outcome(p.data@, pass, true, now2) == (if payload_age(now2, created)
            <= EXPIRATION_SECS {
            Result::<(u64, Seq<char>), ShareError>::Ok((created, json))
        } else {
            Result::<(u64, Seq<char>), ShareError>::Err(ShareError::Expired)
        }),
{
}

/// Mode confusion at the frame level: a decrypted frame whose version
/// byte differs from the version the decode mode expects is rejected,
/// never returned as a success.
pub proof fn lemma_version_mismatch_rejected(
    pt: Seq<u8>,
    framed: Seq<u8>,
    expected: u8,
    now: u64,
)
    requires
        inflate_of(pt) == Some(framed),
        framed.len() >= 9,
        framed[0] != expected,
    ensures
        frame_outcome(pt, expected, now) is Err,
{
}

} // verus!
