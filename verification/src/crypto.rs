//! Symmetric authenticated encryption of chat messages:
//! AES-256-GCM with a random 12-byte nonce prepended to the
//! ciphertext, the whole hex-encoded for transport.

use vstd::prelude::*;
use vstd::utf8::{decode_utf8, decode_utf8_encode_utf8, valid_utf8};
use aes_gcm::aead::{Aead, KeyInit};

verus! {

/// The lowercase hex digit for a value below 16.
pub open spec fn hex_digit_char(v: int) -> char {
    if v == 0 {
        '0'
    } else if v == 1 {
        '1'
    } else if v == 2 {
        '2'
    } else if v == 3 {
        '3'
    } else if v == 4 {
        '4'
    } else if v == 5 {
        '5'
    } else if v == 6 {
        '6'
    } else if v == 7 {
        '7'
    } else if v == 8 {
        '8'
    } else if v == 9 {
        '9'
    } else if v == 10 {
        'a'
    } else if v == 11 {
        'b'
    } else if v == 12 {
        'c'
    } else if v == 13 {
        'd'
    } else if v == 14 {
        'e'
    } else {
        'f'
    }
}

/// The lowercase hex encoding: two digits per byte, high digit first.
pub open spec fn hex_of(bytes: Seq<u8>) -> Seq<char> {
    Seq::new(
        bytes.len() * 2,
        |i: int|
            if i % 2 == 0 {
                hex_digit_char(bytes[i / 2] as int / 16)
            } else {
                hex_digit_char(bytes[i / 2] as int % 16)
            },
    )
}

/// The value of a hex digit, upper or lower case; -1 for any other
/// character.
pub open spec fn hex_val(c: char) -> int {
    let v = c as int;
    if 48 <= v <= 57 {
        v - 48
    } else if 97 <= v <= 102 {
        v - 87
    } else if 65 <= v <= 70 {
        v - 55
    } else {
        -1
    }
}

/// Whether a string is a well-formed hex encoding: even length, hex
/// digits only.
pub open spec fn is_hex_str(s: Seq<char>) -> bool {
    (s.len() as int) % 2 == 0 && (forall|i: int| 0 <= i < s.len() ==> hex_val(s[i]) >= 0)
}

/// The bytes a well-formed hex string encodes.
pub open spec fn hex_decoded(s: Seq<char>) -> Seq<u8> {
    Seq::new((s.len() / 2) as nat, |i: int| (hex_val(s[2 * i]) * 16 + hex_val(s[2 * i + 1])) as u8)
}

/// What AES-256-GCM produces for this key, nonce and plaintext: the
/// ciphertext with the 16-byte authentication tag appended. A function
/// of its three arguments alone.
pub uninterp spec fn aes256_gcm_ciphertext(key: Seq<u8>, nonce: Seq<u8>, plaintext: Seq<u8>) -> Seq<
    u8,
>;

/// Relies on hex::encode: the lowercase hex encoding of the bytes.
#[verifier::external_body]
fn hex_encode(bytes: &Vec<u8>) -> (r: String)
    ensures
        r@ == hex_of(bytes@),
{
    hex::encode(bytes.as_slice())
}

/// Relies on hex::decode: succeeds exactly on even-length strings of
/// hex digits (either case) and returns the encoded bytes; the error
/// payload is the hex library's message.
#[verifier::external_body]
fn hex_decode(s: &str) -> (r: Result<Vec<u8>, String>)
    ensures
        r is Ok <==> is_hex_str(s@),
        (r matches Ok(v) ==> v@ == hex_decoded(s@)),
{
    match hex::decode(s) {
        Ok(v) => Ok(v),
        Err(e) => Err(e.to_string()),
    }
}

/// Relies on rand's thread-local generator (fill_bytes): a buffer of
/// exactly `n` bytes; nothing can be promised of their values.
#[verifier::external_body]
fn random_bytes(n: usize) -> (r: Vec<u8>)
    ensures
        r@.len() == n,
{
    let mut buf = vec![0u8; n];
    rand::Rng::fill_bytes(&mut rand::rng(), &mut buf);
    buf
}

/// Relies on Aes256Gcm's encrypt (the aead::Aead trait): AES-256-GCM
/// is deterministic in key, nonce and plaintext, and the result is the
/// ciphertext with the 16-byte tag appended.
#[verifier::external_body]
fn aes_encrypt(key: &Vec<u8>, nonce: &Vec<u8>, plaintext: &Vec<u8>) -> (r: Result<Vec<u8>, String>)
    requires
        key@.len() == 32,
        nonce@.len() == 12,
    ensures
        (r matches Ok(c) ==> c@ == aes256_gcm_ciphertext(key@, nonce@, plaintext@) && c@.len()
            == plaintext@.len() + 16),
{
    let cipher = match aes_gcm::Aes256Gcm::new_from_slice(key.as_slice()) {
        Ok(c) => c,
        Err(e) => return Err(e.to_string()),
    };
    let nonce = match aes_gcm::Nonce::try_from(nonce.as_slice()) {
        Ok(n) => n,
        Err(e) => return Err(e.to_string()),
    };
    match cipher.encrypt(&nonce, plaintext.as_slice()) {
        Ok(c) => Ok(c),
        Err(e) => Err(e.to_string()),
    }
}

/// Relies on Aes256Gcm's decrypt (the aead::Aead trait): decryption
/// succeeds exactly when the tagged ciphertext is what encryption
/// under this key and nonce produces, and then returns the plaintext
/// it was produced from — decryption inverts encryption, so at most
/// one plaintext encrypts to a given ciphertext under a fixed key and
/// nonce.
#[verifier::external_body]
fn aes_decrypt(key: &Vec<u8>, nonce: &Vec<u8>, ct: &Vec<u8>) -> (r: Result<Vec<u8>, String>)
    requires
        key@.len() == 32,
        nonce@.len() == 12,
    ensures
        r is Ok <==> (exists|p: Seq<u8>| ct@ == aes256_gcm_ciphertext(key@, nonce@, p)),
        (r matches Ok(p) ==> ct@ == aes256_gcm_ciphertext(key@, nonce@, p@)),
        (r matches Ok(p) ==> (forall|q: Seq<u8>|
            ct@ == aes256_gcm_ciphertext(key@, nonce@, q) ==> q == p@)),
{
    let cipher = match aes_gcm::Aes256Gcm::new_from_slice(key.as_slice()) {
        Ok(c) => c,
        Err(e) => return Err(e.to_string()),
    };
    let nonce = match aes_gcm::Nonce::try_from(nonce.as_slice()) {
        Ok(n) => n,
        Err(e) => return Err(e.to_string()),
    };
    match cipher.decrypt(&nonce, ct.as_slice()) {
        Ok(p) => Ok(p),
        Err(e) => Err(e.to_string()),
    }
}

/// Relies on String::from_utf8: succeeds exactly on valid UTF-8 and
/// decodes it.
#[verifier::external_body]
fn utf8_to_string(bytes: Vec<u8>) -> (r: Result<String, String>)
    ensures
        r is Ok <==> valid_utf8(bytes@),
        (r matches Ok(s) ==> s@ == decode_utf8(bytes@)),
{
    match String::from_utf8(bytes) {
        Ok(s) => Ok(s),
        Err(e) => Err(e.to_string()),
    }
}

/// Append every byte of `src` to `dst`.
fn extend_bytes(dst: &mut Vec<u8>, src: &Vec<u8>)
    ensures
        final(dst)@ == old(dst)@ + src@,
{
    let n = src.len();
    let mut i: usize = 0;
    while i < n
        invariant
            n == src@.len(),
            i <= n,
            dst@ == old(dst)@ + src@.take(i as int),
        decreases n - i,
    {
        dst.push(src[i]);
        proof {
            assert(dst@ =~= old(dst)@ + src@.take(i + 1 as int));
        }
        i = i + 1;
    }
    proof {
        assert(dst@ =~= old(dst)@ + src@);
    }
}

/// The bytes of `src` from `from` (inclusive) to `to` (exclusive).
fn bytes_subrange(src: &Vec<u8>, from: usize, to: usize) -> (r: Vec<u8>)
    requires
        from <= to <= src@.len(),
    ensures
        r@ == src@.subrange(from as int, to as int),
{
    let mut r: Vec<u8> = Vec::new();
    let mut i: usize = from;
    while i < to
        invariant
            from <= i <= to <= src@.len(),
            r@ == src@.subrange(from as int, i as int),
        decreases to - i,
    {
        r.push(src[i]);
        proof {
            assert(r@ =~= src@.subrange(from as int, i + 1 as int));
        }
        i = i + 1;
    }
    r
}

/// A 32-byte key for AES-256-GCM.
pub struct AesKey {
    bytes: Vec<u8>,
}

impl View for AesKey {
    type V = Seq<u8>;

    closed spec fn view(&self) -> Seq<u8> {
        self.bytes@
    }
}

impl AesKey {
    pub open spec fn wf(self) -> bool {
        self@.len() == 32
    }

    /// A key from exactly 32 bytes.
    pub fn from_bytes(bytes: Vec<u8>) -> (r: Option<AesKey>)
        ensures
            r is Some <==> bytes@.len() == 32,
            (r matches Some(k) ==> k@ == bytes@ && k.wf()),
    {
        if bytes.len() == 32 {
            Some(AesKey { bytes })
        } else {
            None
        }
    }

    /// The raw key bytes (to show or store them hex-encoded).
    pub fn to_hex(&self) -> (r: String)
        ensures
            r@ == hex_of(self@),
    {
        hex_encode(&self.bytes)
    }
}

/// A new random 32-byte key.
pub fn generate_key() -> (r: AesKey)
    ensures
        r.wf(),
{
    AesKey { bytes: random_bytes(32) }
}

/// Decode a hex-encoded key: `Some` exactly when the string is
/// well-formed hex for 32 bytes.
pub fn key_from_hex(hex_key: &str) -> (r: Option<AesKey>)
    ensures
        r is Some <==> (is_hex_str(hex_key@) && hex_decoded(hex_key@).len() == 32),
        (r matches Some(k) ==> k@ == hex_decoded(hex_key@) && k.wf()),
{
    let bytes = match hex_decode(hex_key) {
        Ok(v) => v,
        Err(_) => {
            return None;
        },
    };
    AesKey::from_bytes(bytes)
}

/// Encrypt a message: a random 12-byte nonce is drawn, the plaintext
/// is sealed under the key and nonce, the nonce is prepended (it is
/// needed to decrypt), and the whole is hex-encoded.
pub fn encrypt(key: &AesKey, plaintext: &Vec<u8>) -> (r: Result<String, String>)
    requires
        key.wf(),
    ensures
        (r matches Ok(s) ==> exists|nonce: Seq<u8>|
            nonce.len() == 12 && s@ == hex_of(
                nonce + aes256_gcm_ciphertext(key@, nonce, plaintext@),
            )),
{
    let nonce = random_bytes(12);
    let ct = match aes_encrypt(&key.bytes, &nonce, plaintext) {
        Ok(c) => c,
        Err(e) => {
            return Err(e);
        },
    };
    let mut combined = nonce;
    let ghost nonce_view = combined@;
    extend_bytes(&mut combined, &ct);
    let s = hex_encode(&combined);
    proof {
        assert(s@ == hex_of(nonce_view + aes256_gcm_ciphertext(key@, nonce_view, plaintext@)));
    }
    Ok(s)
}

/// Decrypt a hex-encoded message produced by `encrypt`: decode the
/// hex, split the 12-byte nonce off the front, open the remainder
/// under the key and nonce, and decode the plaintext as UTF-8.
/// Succeeds exactly when the input is well-formed hex of a nonce plus
/// a ciphertext that encryption under this key produced from valid
/// UTF-8.
pub fn decrypt(key: &AesKey, hex_ciphertext: &str) -> (r: Result<String, String>)
    requires
        key.wf(),
    ensures
        r is Ok <==> (is_hex_str(hex_ciphertext@) && hex_decoded(hex_ciphertext@).len() >= 12 && (
        exists|p: Seq<u8>|
            valid_utf8(p) && hex_decoded(hex_ciphertext@).skip(12) == aes256_gcm_ciphertext(
                key@,
                hex_decoded(hex_ciphertext@).take(12),
                p,
            ))),
        (r matches Ok(s) ==> hex_decoded(hex_ciphertext@).skip(12) == aes256_gcm_ciphertext(
            key@,
            hex_decoded(hex_ciphertext@).take(12),
            vstd::utf8::encode_utf8(s@),
        )),
        !is_hex_str(hex_ciphertext@) ==> (r matches Err(m) && m@.subrange(0, 18)
            == "Hex decode error: "@),
        (is_hex_str(hex_ciphertext@) && hex_decoded(hex_ciphertext@).len() < 12) ==> (r matches Err(
            m,
        ) && m@ == "Ciphertext is too short to contain a nonce"@),
{
    let combined = match hex_decode(hex_ciphertext) {
        Ok(v) => v,
        Err(e) => {
            let m = vstd::string::StringExecFns::concat("Hex decode error: ".to_owned(), e.as_str());
            proof {
                reveal_strlit("Hex decode error: ");
                broadcast use vstd::string::group_string_axioms;

                assert("Hex decode error: "@.len() == 18);
                assert(m@.subrange(0, 18) =~= "Hex decode error: "@);
            }
            return Err(m);
        },
    };
    if combined.len() < 12 {
        return Err("Ciphertext is too short to contain a nonce".to_owned());
    }
    let nonce = bytes_subrange(&combined, 0, 12);
    let ct = bytes_subrange(&combined, 12, combined.len());
    proof {
        assert(nonce@ == hex_decoded(hex_ciphertext@).take(12));
        assert(ct@ == hex_decoded(hex_ciphertext@).skip(12));
    }
    let pt = match aes_decrypt(&key.bytes, &nonce, &ct) {
        Ok(p) => p,
        Err(e) => {
            return Err(
                vstd::string::StringExecFns::concat("Decryption error: ".to_owned(), e.as_str()),
            );
        },
    };
    let ghost ptv = pt@;
    match utf8_to_string(pt) {
        Ok(s) => {
            proof {
                decode_utf8_encode_utf8(ptv);
                assert(vstd::utf8::encode_utf8(s@) == ptv);
            }
            Ok(s)
        },
        Err(e) => Err(
            vstd::string::StringExecFns::concat("UTF-8 conversion error: ".to_owned(), e.as_str()),
        ),
    }
}

} // verus!
