//! The cryptographic and encoding primitives the secret store rests on:
//! SHA-256 and AES-256-GCM from `ring`, the unpadded standard base64 of
//! `base64`, random bytes, and UTF-8 decoding.
use vstd::prelude::*;
use vstd::utf8::{decode_utf8, valid_utf8};
use base64::Engine as _;
use ring::rand::SecureRandom as _;

verus! {

// ------------------------------------------------------------------------
// Base64 (standard alphabet, no padding).
// ------------------------------------------------------------------------
/// The character of the standard base64 alphabet for a six-bit value.
pub open spec fn b64_symbol(v: int) -> char {
    if v < 26 {
        (65 + v) as char
    } else if v < 52 {
        (97 + v - 26) as char
    } else if v < 62 {
        (48 + v - 52) as char
    } else if v == 62 {
        '+'
    } else {
        '/'
    }
}

/// Unpadded standard base64: each group of three bytes becomes four symbols,
/// a final group of one or two bytes becomes two or three.
pub open spec fn b64_encode(b: Seq<u8>) -> Seq<char>
    decreases b.len(),
{
    if b.len() == 0 {
        seq![]
    } else {
        let b0 = b[0] as int;
        if b.len() == 1 {
            seq![b64_symbol(b0 / 4), b64_symbol((b0 % 4) * 16)]
        } else {
            let b1 = b[1] as int;
            if b.len() == 2 {
                seq![
                    b64_symbol(b0 / 4),
                    b64_symbol((b0 % 4) * 16 + b1 / 16),
                    b64_symbol((b1 % 16) * 4),
                ]
            } else {
                let b2 = b[2] as int;
                seq![
                    b64_symbol(b0 / 4),
                    b64_symbol((b0 % 4) * 16 + b1 / 16),
                    b64_symbol((b1 % 16) * 4 + b2 / 64),
                    b64_symbol(b2 % 64),
                ] + b64_encode(b.subrange(3, b.len() as int))
            }
        }
    }
}

proof fn lemma_symbol_injective(v: int, w: int)
    requires
        0 <= v < 64,
        0 <= w < 64,
        b64_symbol(v) == b64_symbol(w),
    ensures
        v == w,
{
    assert(b64_symbol(v) as u32 == b64_symbol(w) as u32);
}

/// The characters of the standard base64 alphabet.
pub open spec fn is_b64_char(c: char) -> bool {
    ||| ('A' <= c && c <= 'Z')
    ||| ('a' <= c && c <= 'z')
    ||| ('0' <= c && c <= '9')
    ||| c == '+'
    ||| c == '/'
}

proof fn lemma_symbol_char(v: int)
    requires
        0 <= v < 64,
    ensures
        is_b64_char(b64_symbol(v)),
{
    assert(b64_symbol(v) as u32 == b64_symbol(v) as u32);
}

/// Every character of an encoding is in the alphabet.
pub proof fn lemma_b64_chars(b: Seq<u8>)
    ensures
        forall|i: int| 0 <= i < b64_encode(b).len() ==> is_b64_char(#[trigger] b64_encode(b)[i]),
    decreases b.len(),
{
    if b.len() >= 3 {
        lemma_b64_chars(b.subrange(3, b.len() as int));
    }
    if b.len() > 0 {
        let b0 = b[0] as int;
        lemma_symbol_char(b0 / 4);
        if b.len() == 1 {
            lemma_symbol_char((b0 % 4) * 16);
        } else {
            let b1 = b[1] as int;
            lemma_symbol_char((b0 % 4) * 16 + b1 / 16);
            if b.len() == 2 {
                lemma_symbol_char((b1 % 16) * 4);
            } else {
                let b2 = b[2] as int;
                lemma_symbol_char((b1 % 16) * 4 + b2 / 64);
                lemma_symbol_char(b2 % 64);
                let rest = b64_encode(b.subrange(3, b.len() as int));
                assert forall|i: int| 0 <= i < b64_encode(b).len() implies is_b64_char(
                    #[trigger] b64_encode(b)[i],
                ) by {
                    if i >= 4 {
                        assert(b64_encode(b)[i] == rest[i - 4]);
                    }
                }
            }
        }
    }
}

/// No symbol of the alphabet is a colon, so base64 text can stand between
/// colon separators.
pub proof fn lemma_b64_no_colon(b: Seq<u8>)
    ensures
        !b64_encode(b).contains(':'),
{
    lemma_b64_chars(b);
    if b64_encode(b).contains(':') {
        let i = choose|i: int| 0 <= i < b64_encode(b).len() && b64_encode(b)[i] == ':';
        assert(is_b64_char(b64_encode(b)[i]));
    }
}

proof fn lemma_b64_len(b: Seq<u8>)
    ensures
        b.len() == 0 <==> b64_encode(b).len() == 0,
        b.len() == 1 <==> b64_encode(b).len() == 2,
        b.len() == 2 <==> b64_encode(b).len() == 3,
        b.len() >= 3 <==> b64_encode(b).len() >= 4,
    decreases b.len(),
{
    if b.len() >= 3 {
        lemma_b64_len(b.subrange(3, b.len() as int));
    }
}

proof fn lemma_group_injective(a0: int, a1: int, a2: int, c0: int, c1: int, c2: int)
    requires
        0 <= a0 < 256, 0 <= a1 < 256, 0 <= a2 < 256,
        0 <= c0 < 256, 0 <= c1 < 256, 0 <= c2 < 256,
        a0 / 4 == c0 / 4,
        (a0 % 4) * 16 + a1 / 16 == (c0 % 4) * 16 + c1 / 16,
        (a1 % 16) * 4 + a2 / 64 == (c1 % 16) * 4 + c2 / 64,
        a2 % 64 == c2 % 64,
    ensures
        a0 == c0,
        a1 == c1,
        a2 == c2,
{
}

/// Distinct byte strings have distinct encodings, so decoding is well defined.
pub proof fn lemma_b64_injective(a: Seq<u8>, c: Seq<u8>)
    requires
        b64_encode(a) == b64_encode(c),
    ensures
        a == c,
    decreases a.len(),
{
    lemma_b64_len(a);
    lemma_b64_len(c);
    let ea = b64_encode(a);
    if a.len() > 0 {
        let a0 = a[0] as int;
        let c0 = c[0] as int;
        assert(ea[0] == b64_symbol(a0 / 4) && ea[0] == b64_symbol(c0 / 4));
        lemma_symbol_injective(a0 / 4, c0 / 4);
        if a.len() == 1 {
            assert(ea[1] == b64_symbol((a0 % 4) * 16) && ea[1] == b64_symbol((c0 % 4) * 16));
            lemma_symbol_injective((a0 % 4) * 16, (c0 % 4) * 16);
            assert(a =~= c);
        } else {
            let a1 = a[1] as int;
            let c1 = c[1] as int;
            assert(ea[1] == b64_symbol((a0 % 4) * 16 + a1 / 16));
            assert(ea[1] == b64_symbol((c0 % 4) * 16 + c1 / 16));
            lemma_symbol_injective((a0 % 4) * 16 + a1 / 16, (c0 % 4) * 16 + c1 / 16);
            if a.len() == 2 {
                assert(ea[2] == b64_symbol((a1 % 16) * 4) && ea[2] == b64_symbol((c1 % 16) * 4));
                lemma_symbol_injective((a1 % 16) * 4, (c1 % 16) * 4);
                lemma_group_injective(a0, a1, 0, c0, c1, 0);
                assert(a =~= c);
            } else {
                let a2 = a[2] as int;
                let c2 = c[2] as int;
                assert(ea[2] == b64_symbol((a1 % 16) * 4 + a2 / 64));
                assert(ea[2] == b64_symbol((c1 % 16) * 4 + c2 / 64));
                lemma_symbol_injective((a1 % 16) * 4 + a2 / 64, (c1 % 16) * 4 + c2 / 64);
                assert(ea[3] == b64_symbol(a2 % 64) && ea[3] == b64_symbol(c2 % 64));
                lemma_symbol_injective(a2 % 64, c2 % 64);
                lemma_group_injective(a0, a1, a2, c0, c1, c2);
                let ra = a.subrange(3, a.len() as int);
                let rc = c.subrange(3, c.len() as int);
                assert(b64_encode(ra) =~= ea.subrange(4, ea.len() as int));
                assert(b64_encode(rc) =~= ea.subrange(4, ea.len() as int));
                lemma_b64_injective(ra, rc);
                assert(ra.len() == rc.len());
                assert forall|i: int| 0 <= i < a.len() implies a[i] == c[i] by {
                    if i >= 3 {
                        assert(ra[i - 3] == rc[i - 3]);
                    }
                }
                assert(a =~= c);
            }
        }
    } else {
        assert(a =~= c);
    }
}

/// Whether the unpadded encoding of `n` bytes has a length that fits in `usize`
/// (the encoder panics otherwise).
pub open spec fn b64_fits(n: int) -> bool {
    4 * (n / 3) + 3 <= usize::MAX
}

/// Calls `Engine::encode` of `base64::engine::general_purpose::STANDARD_NO_PAD`,
/// which writes the standard alphabet without padding.
#[verifier::external_body]
pub(crate) fn b64_encode_bytes(data: &[u8]) -> (r: String)
    requires
        b64_fits(data@.len() as int),
    ensures
        r@ == b64_encode(data@),
{
    base64::engine::general_purpose::STANDARD_NO_PAD.encode(data)
}

/// Calls `Engine::decode` of `STANDARD_NO_PAD` on the bytes of `text`. That
/// engine accepts no padding and no non-zero trailing bits, so it accepts
/// exactly the canonical encodings and gives back the bytes they encode.
#[verifier::external_body]
pub(crate) fn b64_decode_text(text: &str) -> (r: Option<Vec<u8>>)
    ensures
        r matches Some(bytes) ==> b64_encode(bytes@) == text@,
        r is None ==> forall|bytes: Seq<u8>| b64_encode(bytes) != text@,
{
    base64::engine::general_purpose::STANDARD_NO_PAD.decode(text).ok()
}

// ------------------------------------------------------------------------
// SHA-256.
// ------------------------------------------------------------------------
/// The SHA-256 digest of a byte string.
pub uninterp spec fn sha256(data: Seq<u8>) -> Seq<u8>;

/// Calls `ring::digest::digest` with `SHA256` and copies out the 32 digest
/// bytes. `ring` panics only on inputs of 2^61 bytes or more.
#[verifier::external_body]
pub(crate) fn sha256_digest(data: &[u8]) -> (r: Vec<u8>)
    requires
        data@.len() < 0x2000_0000_0000_0000,
    ensures
        r@ == sha256(data@),
        r@.len() == 32,
{
    ring::digest::digest(&ring::digest::SHA256, data).as_ref().to_vec()
}

// ------------------------------------------------------------------------
// AES-256-GCM with empty associated data.
// ------------------------------------------------------------------------
/// The ciphertext followed by the 16-byte tag that AES-256-GCM seals a
/// plaintext to, under a 32-byte key and a 12-byte nonce.
pub uninterp spec fn aes_256_gcm_seal(key: Seq<u8>, nonce: Seq<u8>, plaintext: Seq<u8>) -> Seq<u8>;

/// What opening a sealed byte string yields: the plaintext when the tag
/// authenticates it under the key and nonce, nothing otherwise.
pub uninterp spec fn aes_256_gcm_open(key: Seq<u8>, nonce: Seq<u8>, sealed: Seq<u8>) -> Option<Seq<u8>>;

/// The largest plaintext `ring` seals with AES-GCM (`MAX_IN_OUT_LEN`).
pub open spec fn aes_gcm_max_input() -> int {
    0xf_ffff_ffe0
}

/// Calls `LessSafeKey::seal_in_place_append_tag` of `ring::aead` with
/// `AES_256_GCM`, the nonce and `Aad::empty()`. It fails only on a plaintext
/// longer than `MAX_IN_OUT_LEN`; what it seals opens again under the same key
/// and nonce to the same plaintext.
#[verifier::external_body]
pub(crate) fn seal_aes_256_gcm(key: &[u8], nonce: &[u8], plaintext: &[u8]) -> (r: Option<Vec<u8>>)
    requires
        key@.len() == 32,
        nonce@.len() == 12,
    ensures
        r is Some <==> plaintext@.len() <= aes_gcm_max_input(),
        r matches Some(sealed) ==> sealed@ == aes_256_gcm_seal(key@, nonce@, plaintext@),
        r matches Some(sealed) ==> sealed@.len() == plaintext@.len() + 16,
        r matches Some(sealed) ==> aes_256_gcm_open(key@, nonce@, sealed@) == Some(plaintext@),
{
    let unbound = ring::aead::UnboundKey::new(&ring::aead::AES_256_GCM, key).ok()?;
    let sealing_key = ring::aead::LessSafeKey::new(unbound);
    let mut nonce_bytes = [0u8; 12];
    nonce_bytes.copy_from_slice(nonce);
    let nonce = ring::aead::Nonce::assume_unique_for_key(nonce_bytes);
    let mut in_out = plaintext.to_vec();
    sealing_key.seal_in_place_append_tag(nonce, ring::aead::Aad::empty(), &mut in_out).ok()?;
    Some(in_out)
}

/// The bytes a sealing gave, or nothing.
pub open spec fn opened_view(r: Option<Vec<u8>>) -> Option<Seq<u8>> {
    match r {
        Some(bytes) => Some(bytes@),
        None => None,
    }
}

/// Calls `LessSafeKey::open_in_place` of `ring::aead` with `AES_256_GCM`,
/// the nonce and `Aad::empty()`, and copies out the plaintext.
#[verifier::external_body]
pub(crate) fn open_aes_256_gcm(key: &[u8], nonce: &[u8], sealed: &[u8]) -> (r: Option<Vec<u8>>)
    requires
        key@.len() == 32,
        nonce@.len() == 12,
    ensures
        opened_view(r) == aes_256_gcm_open(key@, nonce@, sealed@),
{
    let unbound = ring::aead::UnboundKey::new(&ring::aead::AES_256_GCM, key).ok()?;
    let opening_key = ring::aead::LessSafeKey::new(unbound);
    let mut nonce_bytes = [0u8; 12];
    nonce_bytes.copy_from_slice(nonce);
    let nonce = ring::aead::Nonce::assume_unique_for_key(nonce_bytes);
    let mut in_out = sealed.to_vec();
    let plaintext = opening_key.open_in_place(nonce, ring::aead::Aad::empty(), &mut in_out).ok()?;
    Some(plaintext.to_vec())
}

// ------------------------------------------------------------------------
// Randomness and UTF-8.
// ------------------------------------------------------------------------
/// Calls `SecureRandom::fill` of `ring::rand::SystemRandom` on a buffer of
/// `len` bytes. What the bytes are is left open; the call may fail.
#[verifier::external_body]
pub(crate) fn random_bytes(len: usize) -> (r: Option<Vec<u8>>)
    ensures
        r matches Some(bytes) ==> bytes@.len() == len,
{
    let mut buffer = vec![0u8; len];
    ring::rand::SystemRandom::new().fill(&mut buffer).ok()?;
    Some(buffer)
}

/// Calls `String::from_utf8`, which accepts exactly the valid UTF-8 byte
/// strings and decodes them.
#[verifier::external_body]
pub(crate) fn utf8_to_string(bytes: Vec<u8>) -> (r: Option<String>)
    ensures
        r is Some <==> valid_utf8(bytes@),
        r matches Some(text) ==> text@ == decode_utf8(bytes@),
{
    String::from_utf8(bytes).ok()
}

} // verus!
