//! Unpadded URL-safe base64: a complete specification of the encoding, a
//! proof that decoding inverts it, and trusted wrappers around the base64
//! crate's `URL_SAFE_NO_PAD` engine.

use vstd::prelude::*;

verus! {

/// The character the URL-safe alphabet assigns to a 6-bit value.
pub open spec fn b64_char_of(v: u8) -> char {
    if v < 26 {
        (('A' as u8) + v) as char
    } else if v < 52 {
        (('a' as u8) + (v - 26)) as char
    } else if v < 62 {
        (('0' as u8) + (v - 52)) as char
    } else if v == 62 {
        '-'
    } else {
        '_'
    }
}

/// The 6-bit value of a character of the URL-safe alphabet, or -1 for a
/// character outside it.
pub open spec fn b64_val_of(c: char) -> int {
    if 'A' <= c && c <= 'Z' {
        c as int - 'A' as int
    } else if 'a' <= c && c <= 'z' {
        26 + c as int - 'a' as int
    } else if '0' <= c && c <= '9' {
        52 + c as int - '0' as int
    } else if c == '-' {
        62
    } else if c == '_' {
        63
    } else {
        -1
    }
}

/// The four characters that encode a full group of three bytes.
pub open spec fn b64_group_chars(b0: u8, b1: u8, b2: u8) -> Seq<char> {
    seq![
        b64_char_of(b0 >> 2),
        b64_char_of(((b0 & 3) << 4) | (b1 >> 4)),
        b64_char_of(((b1 & 15) << 2) | (b2 >> 6)),
        b64_char_of(b2 & 63),
    ]
}

/// Unpadded URL-safe base64 encoding of a byte sequence: full groups of
/// three bytes become four characters; a final byte becomes two characters
/// and a final pair of bytes becomes three.
pub open spec fn b64url_encode_spec(bs: Seq<u8>) -> Seq<char>
    decreases bs.len(),
{
    if bs.len() >= 3 {
        b64_group_chars(bs[0], bs[1], bs[2]) + b64url_encode_spec(bs.skip(3))
    } else if bs.len() == 2 {
        seq![
            b64_char_of(bs[0] >> 2),
            b64_char_of(((bs[0] & 3) << 4) | (bs[1] >> 4)),
            b64_char_of((bs[1] & 15) << 2),
        ]
    } else if bs.len() == 1 {
        seq![b64_char_of(bs[0] >> 2), b64_char_of((bs[0] & 3) << 4)]
    } else {
        Seq::empty()
    }
}

/// Strict decoding of unpadded URL-safe base64: accepts exactly the
/// canonical encodings (every character in the alphabet, a length never 1
/// modulo 4, and no stray bits in a trailing partial group) and returns
/// the encoded bytes; everything else is rejected.
pub open spec fn b64url_decode_spec(s: Seq<char>) -> Option<Seq<u8>>
    decreases s.len(),
{
    if s.len() == 0 {
        Some(Seq::empty())
    } else if s.len() == 1 {
        None
    } else if s.len() == 2 {
        let v0 = b64_val_of(s[0]);
        let v1 = b64_val_of(s[1]);
        if v0 >= 0 && v1 >= 0 && v1 % 16 == 0 {
            Some(seq![(v0 * 4 + v1 / 16) as u8])
        } else {
            None
        }
    } else if s.len() == 3 {
        let v0 = b64_val_of(s[0]);
        let v1 = b64_val_of(s[1]);
        let v2 = b64_val_of(s[2]);
        if v0 >= 0 && v1 >= 0 && v2 >= 0 && v2 % 4 == 0 {
            Some(seq![(v0 * 4 + v1 / 16) as u8, ((v1 % 16) * 16 + v2 / 4) as u8])
        } else {
            None
        }
    } else {
        let v0 = b64_val_of(s[0]);
        let v1 = b64_val_of(s[1]);
        let v2 = b64_val_of(s[2]);
        let v3 = b64_val_of(s[3]);
        if v0 >= 0 && v1 >= 0 && v2 >= 0 && v3 >= 0 {
            match b64url_decode_spec(s.skip(4)) {
                Some(rest) => Some(
                    seq![
                        (v0 * 4 + v1 / 16) as u8,
                        ((v1 % 16) * 16 + v2 / 4) as u8,
                        ((v2 % 4) * 64 + v3) as u8,
                    ] + rest,
                ),
                None => None,
            }
        } else {
            None
        }
    }
}

/// The alphabet mapping is inverted by `b64_val_of`.
pub proof fn lemma_b64_char_val(v: u8)
    requires
        v < 64,
    ensures
        b64_val_of(b64_char_of(v)) == v as int,
{
}

/// Decoding inverts encoding: every byte sequence is recovered exactly
/// from its unpadded URL-safe base64 encoding.
pub proof fn lemma_b64_roundtrip(bs: Seq<u8>)
    ensures
        b64url_decode_spec(b64url_encode_spec(bs)) == Some(bs),
    decreases bs.len(),
{
    if bs.len() == 0 {
        assert(b64url_decode_spec(b64url_encode_spec(bs)) == Some(bs));
    } else if bs.len() == 1 {
        let b = bs[0];
        let c0 = b >> 2;
        let c1 = (b & 3) << 4;
        assert(c0 < 64 && c1 < 64 && c1 % 16 == 0 && c0 * 4 + c1 / 16 == b) by (bit_vector)
            requires
                c0 == b >> 2,
                c1 == (b & 3) << 4,
        ;
        lemma_b64_char_val(c0);
        lemma_b64_char_val(c1);
        assert(b64url_encode_spec(bs) == seq![b64_char_of(c0), b64_char_of(c1)]);
        assert(b64url_decode_spec(b64url_encode_spec(bs))->Some_0 =~= bs);
    } else if bs.len() == 2 {
        let b0 = bs[0];
        let b1 = bs[1];
        let c0 = b0 >> 2;
        let c1 = ((b0 & 3) << 4) | (b1 >> 4);
        let c2 = (b1 & 15) << 2;
        assert(c0 < 64 && c1 < 64 && c2 < 64 && c2 % 4 == 0 && c0 * 4 + c1 / 16 == b0 && (c1 % 16)
            * 16 + c2 / 4 == b1) by (bit_vector)
            requires
                c0 == b0 >> 2,
                c1 == ((b0 & 3) << 4) | (b1 >> 4),
                c2 == (b1 & 15) << 2,
        ;
        lemma_b64_char_val(c0);
        lemma_b64_char_val(c1);
        lemma_b64_char_val(c2);
        assert(b64url_decode_spec(b64url_encode_spec(bs))->Some_0 =~= bs);
    } else {
        let b0 = bs[0];
        let b1 = bs[1];
        let b2 = bs[2];
        let c0 = b0 >> 2;
        let c1 = ((b0 & 3) << 4) | (b1 >> 4);
        let c2 = ((b1 & 15) << 2) | (b2 >> 6);
        let c3 = b2 & 63;
        assert(c0 < 64 && c1 < 64 && c2 < 64 && c3 < 64 && c0 * 4 + c1 / 16 == b0 && (c1 % 16) * 16
            + c2 / 4 == b1 && (c2 % 4) * 64 + c3 == b2) by (bit_vector)
            requires
                c0 == b0 >> 2,
                c1 == ((b0 & 3) << 4) | (b1 >> 4),
                c2 == ((b1 & 15) << 2) | (b2 >> 6),
                c3 == b2 & 63,
        ;
        lemma_b64_char_val(c0);
        lemma_b64_char_val(c1);
        lemma_b64_char_val(c2);
        lemma_b64_char_val(c3);
        lemma_b64_roundtrip(bs.skip(3));
        let group = b64_group_chars(b0, b1, b2);
        let rest = b64url_encode_spec(bs.skip(3));
        let s = b64url_encode_spec(bs);
        assert(s == group + rest);
        assert(rest.len() != 1) by {
            lemma_b64_encode_len_mod(bs.skip(3));
        }
        assert(s.len() >= 4);
        assert(s[0] == group[0] && s[1] == group[1] && s[2] == group[2] && s[3] == group[3]);
        assert(s.skip(4) =~= rest);
        assert(b64url_decode_spec(s)->Some_0 =~= bs);
    }
}

/// The length of an encoding is never 1 modulo 4.
pub proof fn lemma_b64_encode_len_mod(bs: Seq<u8>)
    ensures
        b64url_encode_spec(bs).len() % 4 != 1,
    decreases bs.len(),
{
    if bs.len() >= 3 {
        lemma_b64_encode_len_mod(bs.skip(3));
    }
}

/// The length in characters of the unpadded base64 encoding of `n`
/// bytes: four per full group of three, plus two or three for a final
/// partial group.
pub open spec fn b64len(n: int) -> int {
    (n * 4 + 2) / 3
}

/// The encoding of a byte sequence has exactly `b64len` of its length
/// characters.
pub proof fn lemma_b64_encode_len(bs: Seq<u8>)
    ensures
        b64url_encode_spec(bs).len() == b64len(bs.len() as int),
    decreases bs.len(),
{
    if bs.len() >= 3 {
        lemma_b64_encode_len(bs.skip(3));
    }
}

/// Relies on base64's `URL_SAFE_NO_PAD` engine: the unpadded URL-safe
/// base64 encoding of the input bytes.
#[verifier::external_body]
pub(crate) fn b64url_encode(data: &[u8]) -> (r: String)
    ensures
        r@ == b64url_encode_spec(data@),
{
    base64::Engine::encode(&base64::engine::general_purpose::URL_SAFE_NO_PAD, data)
}

/// Relies on base64's `URL_SAFE_NO_PAD` engine: it accepts exactly the
/// canonical unpadded URL-safe encodings (its config rejects padding and
/// stray trailing bits) and returns the bytes they encode.
#[verifier::external_body]
pub(crate) fn b64url_decode(input: &str) -> (r: Result<Vec<u8>, ()>)
    ensures
        match r {
            Ok(v) => b64url_decode_spec(input@) == Some(v@),
            Err(_) => b64url_decode_spec(input@) is None,
        },
{
    match base64::Engine::decode(&base64::engine::general_purpose::URL_SAFE_NO_PAD, input) {
        Ok(v) => Ok(v),
        Err(_) => Err(()),
    }
}

} // verus!
