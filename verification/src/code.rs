//! Checksummed, base64-armoured codes and the byte formats behind them.

use base64::Engine;
use vstd::bytes::{
    lemma_auto_spec_u128_to_from_le_bytes, spec_u128_from_le_bytes, spec_u128_to_le_bytes,
    u128_from_le_bytes, u128_to_le_bytes,
};
use vstd::prelude::*;

use crate::crypto::Key;

verus! {

/// Why a code or a byte string could not be read back.
#[derive(Clone, Copy, Debug, PartialEq, Eq, Hash, Structural)]
pub enum ParseError {
    ChecksumError,
    IllegalByteError,
    IllegalCharError,
    BytePastEndError,
    EarlyEndError,
}

/// The sum of the bytes, as an unbounded number.
pub open spec fn byte_sum(bytes: Seq<u8>) -> nat
    decreases bytes.len(),
{
    if bytes.len() == 0 {
        0
    } else {
        byte_sum(bytes.drop_last()) + bytes.last() as nat
    }
}

/// The checksum of a byte string: the sum of its bytes modulo 256.
pub open spec fn spec_checksum(bytes: Seq<u8>) -> u8 {
    (byte_sum(bytes) % 256) as u8
}

/// The checksum is the sum of all the bytes modulo 256: the empty string has
/// checksum 0, and one more byte adds its value, wrapping around at 256.
pub proof fn lemma_checksum_adds(bytes: Seq<u8>, x: u8)
    ensures
        spec_checksum(Seq::<u8>::empty()) == 0,
        spec_checksum(bytes.push(x)) == (spec_checksum(bytes) + x) % 256,
{
    assert(bytes.push(x).drop_last() =~= bytes);
    assert(bytes.push(x).last() == x);
    vstd::arithmetic::div_mod::lemma_add_mod_noop(byte_sum(bytes) as int, x as int, 256);
    vstd::arithmetic::div_mod::lemma_small_mod(x as nat, 256);
}

pub fn checksum(bytes: &[u8]) -> (res: u8)
    ensures
        res == spec_checksum(bytes@),
{
    let mut res = 0u8;
    let mut i: usize = 0;
    while i < bytes.len()
        invariant
            i <= bytes@.len(),
            res == spec_checksum(bytes@.take(i as int)),
        decreases bytes@.len() - i,
    {
        proof {
            assert(bytes@.take(i + 1).drop_last() == bytes@.take(i as int));
        }
        res = res.wrapping_add(bytes[i]);
        i += 1;
    }
    proof {
        assert(bytes@.take(i as int) == bytes@);
    }
    res
}

/// The character of the standard base64 alphabet for a six-bit value:
/// `A`-`Z`, `a`-`z`, `0`-`9`, `+`, `/`.
pub open spec fn b64_digit(i: u8) -> char {
    if i < 26 {
        (65 + i) as char
    } else if i < 52 {
        (97 + i - 26) as char
    } else if i < 62 {
        (48 + i - 52) as char
    } else if i == 62 {
        '+'
    } else {
        '/'
    }
}

/// The text that the standard base64 alphabet, without padding, makes of
/// `bytes`: every 3 bytes give 4 characters of 6 bits each; a last 2 bytes
/// give 3 characters and a last byte gives 2, their missing low bits 0.
pub open spec fn b64_encode(bytes: Seq<u8>) -> Seq<char>
    decreases bytes.len(),
{
    if bytes.len() == 0 {
        seq![]
    } else if bytes.len() == 1 {
        let a = bytes[0];
        seq![b64_digit(a >> 2u8), b64_digit((a << 4u8) & 0x3f)]
    } else if bytes.len() == 2 {
        let (a, b) = (bytes[0], bytes[1]);
        seq![
            b64_digit(a >> 2u8),
            b64_digit(((a << 4u8) | (b >> 4u8)) & 0x3f),
            b64_digit((b << 2u8) & 0x3f),
        ]
    } else {
        let (a, b, c) = (bytes[0], bytes[1], bytes[2]);
        seq![
            b64_digit(a >> 2u8),
            b64_digit(((a << 4u8) | (b >> 4u8)) & 0x3f),
            b64_digit(((b << 2u8) | (c >> 6u8)) & 0x3f),
            b64_digit(c & 0x3f),
        ] + b64_encode(bytes.skip(3))
    }
}

/// The bytes that the standard base64 decoder, refusing padding and stray low
/// bits, reads from `code`: the bytes whose unpadded text is exactly `code`,
/// if there are any.
pub open spec fn b64_decode(code: Seq<char>) -> Option<Seq<u8>> {
    if exists|b: Seq<u8>| b64_encode(b) == code {
        Some(choose|b: Seq<u8>| b64_encode(b) == code)
    } else {
        None
    }
}

/// The six-bit values of a group of three bytes, and of a last group of one or
/// two, give the bytes back.
proof fn lemma_b64_group(a: u8, b: u8, c: u8, a2: u8, b2: u8, c2: u8)
    ensures
        a >> 2u8 < 64,
        ((a << 4u8) | (b >> 4u8)) & 0x3f < 64,
        ((b << 2u8) | (c >> 6u8)) & 0x3f < 64,
        c & 0x3f < 64,
        (b << 2u8) & 0x3f < 64,
        (a << 4u8) & 0x3f < 64,
        a >> 2u8 == a2 >> 2u8 && (a << 4u8) & 0x3f == (a2 << 4u8) & 0x3f ==> a == a2,
        a >> 2u8 == a2 >> 2u8 && ((a << 4u8) | (b >> 4u8)) & 0x3f == ((a2 << 4u8) | (b2 >> 4u8))
            & 0x3f && (b << 2u8) & 0x3f == (b2 << 2u8) & 0x3f ==> a == a2 && b == b2,
        a >> 2u8 == a2 >> 2u8 && ((a << 4u8) | (b >> 4u8)) & 0x3f == ((a2 << 4u8) | (b2 >> 4u8))
            & 0x3f && ((b << 2u8) | (c >> 6u8)) & 0x3f == ((b2 << 2u8) | (c2 >> 6u8)) & 0x3f && c
            & 0x3f == c2 & 0x3f ==> a == a2 && b == b2 && c == c2,
{
    assert(a >> 2u8 < 64 && ((a << 4u8) | (b >> 4u8)) & 0x3f < 64 && ((b << 2u8) | (c >> 6u8))
        & 0x3f < 64 && c & 0x3f < 64 && (b << 2u8) & 0x3f < 64 && (a << 4u8) & 0x3f < 64)
        by (bit_vector);
    assert(a >> 2u8 == a2 >> 2u8 && (a << 4u8) & 0x3f == (a2 << 4u8) & 0x3f ==> a == a2)
        by (bit_vector);
    assert(a >> 2u8 == a2 >> 2u8 && ((a << 4u8) | (b >> 4u8)) & 0x3f == ((a2 << 4u8) | (b2
        >> 4u8)) & 0x3f && (b << 2u8) & 0x3f == (b2 << 2u8) & 0x3f ==> a == a2 && b == b2)
        by (bit_vector);
    assert(a >> 2u8 == a2 >> 2u8 && ((a << 4u8) | (b >> 4u8)) & 0x3f == ((a2 << 4u8) | (b2
        >> 4u8)) & 0x3f && ((b << 2u8) | (c >> 6u8)) & 0x3f == ((b2 << 2u8) | (c2 >> 6u8)) & 0x3f
        && c & 0x3f == c2 & 0x3f ==> a == a2 && b == b2 && c == c2) by (bit_vector);
}

/// Different six-bit values have different characters.
proof fn lemma_b64_digit_injective(i: u8, j: u8)
    requires
        i < 64,
        j < 64,
        b64_digit(i) == b64_digit(j),
    ensures
        i == j,
{
}

/// The length of a base64 text by the number of bytes: none for none, 2 for
/// one, 3 for two, and at least 4 for three or more.
proof fn lemma_b64_len(b: Seq<u8>)
    ensures
        b.len() == 0 ==> b64_encode(b).len() == 0,
        b.len() == 1 ==> b64_encode(b).len() == 2,
        b.len() == 2 ==> b64_encode(b).len() == 3,
        b.len() >= 3 ==> b64_encode(b).len() >= 4,
{
}

/// Base64 encoding is one to one.
pub proof fn lemma_b64_encode_injective(b1: Seq<u8>, b2: Seq<u8>)
    requires
        b64_encode(b1) == b64_encode(b2),
    ensures
        b1 == b2,
    decreases b1.len(),
{
    let e1 = b64_encode(b1);
    let e2 = b64_encode(b2);
    lemma_b64_len(b1);
    lemma_b64_len(b2);
    if b1.len() >= 3 && b2.len() >= 3 {
        let (a, b, c, a2, b_2, c2) = (b1[0], b1[1], b1[2], b2[0], b2[1], b2[2]);
        lemma_b64_group(a, b, c, a2, b_2, c2);
        lemma_b64_group(a2, b_2, c2, a, b, c);
        assert(e1[0] == e2[0] && e1[1] == e2[1] && e1[2] == e2[2] && e1[3] == e2[3]);
        lemma_b64_digit_injective(a >> 2u8, a2 >> 2u8);
        lemma_b64_digit_injective(((a << 4u8) | (b >> 4u8)) & 0x3f, ((a2 << 4u8) | (b_2 >> 4u8)) & 0x3f);
        lemma_b64_digit_injective(((b << 2u8) | (c >> 6u8)) & 0x3f, ((b_2 << 2u8) | (c2 >> 6u8)) & 0x3f);
        lemma_b64_digit_injective(c & 0x3f, c2 & 0x3f);
        assert(e1.skip(4) =~= b64_encode(b1.skip(3)));
        assert(e2.skip(4) =~= b64_encode(b2.skip(3)));
        lemma_b64_encode_injective(b1.skip(3), b2.skip(3));
        assert(b1 =~= seq![b1[0], b1[1], b1[2]] + b1.skip(3));
        assert(b2 =~= seq![b2[0], b2[1], b2[2]] + b2.skip(3));
    } else if b1.len() == 2 && b2.len() == 2 {
        let (a, b, a2, b_2) = (b1[0], b1[1], b2[0], b2[1]);
        lemma_b64_group(a, b, 0, a2, b_2, 0);
        lemma_b64_group(a2, b_2, 0, a, b, 0);
        assert(e1[0] == e2[0] && e1[1] == e2[1] && e1[2] == e2[2]);
        lemma_b64_digit_injective(a >> 2u8, a2 >> 2u8);
        lemma_b64_digit_injective(((a << 4u8) | (b >> 4u8)) & 0x3f, ((a2 << 4u8) | (b_2 >> 4u8)) & 0x3f);
        lemma_b64_digit_injective((b << 2u8) & 0x3f, (b_2 << 2u8) & 0x3f);
        assert(b1 =~= b2);
    } else if b1.len() == 1 && b2.len() == 1 {
        let (a, a2) = (b1[0], b2[0]);
        lemma_b64_group(a, 0, 0, a2, 0, 0);
        lemma_b64_group(a2, 0, 0, a, 0, 0);
        assert(e1[0] == e2[0] && e1[1] == e2[1]);
        lemma_b64_digit_injective(a >> 2u8, a2 >> 2u8);
        lemma_b64_digit_injective((a << 4u8) & 0x3f, (a2 << 4u8) & 0x3f);
        assert(b1 =~= b2);
    } else if b1.len() == 0 && b2.len() == 0 {
    } else {
        assert(e1.len() != e2.len());
    }
}

/// Decoding the base64 text of some bytes gives them back.
pub proof fn lemma_b64_decode_encode(bytes: Seq<u8>)
    ensures
        b64_decode(b64_encode(bytes)) == Some(bytes),
{
    let code = b64_encode(bytes);
    assert(exists|b: Seq<u8>| b64_encode(b) == code);
    let b = choose|b: Seq<u8>| b64_encode(b) == code;
    lemma_b64_encode_injective(b, bytes);
}

/// The error type of the base64 decoder.
#[verifier::external_type_specification]
#[verifier::external_body]
pub struct ExDecodeError(base64::DecodeError);

/// Calls `Engine::encode` of the `STANDARD_NO_PAD` engine of base64. Claimed: the
/// text is the unpadded standard base64 text `b64_encode` of the bytes.
/// The encoder panics when the length of its output overflows a `usize`, so the
/// input length is bounded.
#[verifier::external_body]
fn base64_encode(bytes: &[u8]) -> (code: String)
    requires
        bytes@.len() <= usize::MAX / 4,
    ensures
        code@ == b64_encode(bytes@),
{
    base64::engine::general_purpose::STANDARD_NO_PAD.encode(bytes)
}

/// Calls `Engine::decode` of the `STANDARD_NO_PAD` engine of base64. Claimed: the
/// engine refuses padding, a length of one more than a multiple of four and
/// stray low bits in the last character, so it succeeds exactly when the text
/// is the unpadded standard base64 text of some bytes, and then gives those
/// bytes.
#[verifier::external_body]
fn base64_decode(code: &str) -> (res: Result<Vec<u8>, base64::DecodeError>)
    ensures
        res is Ok <==> exists|b: Seq<u8>| b64_encode(b) == code@,
        res matches Ok(bytes) ==> b64_encode(bytes@) == code@,
{
    base64::engine::general_purpose::STANDARD_NO_PAD.decode(code)
}

/// The longest byte string that can be turned into a code: with its checksum
/// byte, its base64 text must still have a length that fits in a `usize`.
pub const MAX_CODE_BYTES: usize = usize::MAX / 4 - 1;

/// The code of a byte string: the bytes followed by their checksum, in base64.
pub open spec fn spec_bytes_to_code(bytes: Seq<u8>) -> Seq<char> {
    b64_encode(bytes.push(spec_checksum(bytes)))
}

/// The payload of decoded bytes: the last byte must be the checksum of the
/// others, which are the payload.
pub open spec fn spec_checked_payload(bytes: Seq<u8>) -> Result<Seq<u8>, ParseError> {
    if bytes.len() == 0 {
        Err(ParseError::EarlyEndError)
    } else if bytes.last() == spec_checksum(bytes.drop_last()) {
        Ok(bytes.drop_last())
    } else {
        Err(ParseError::ChecksumError)
    }
}

/// The bytes that a code stands for: its base64 text is decoded and the last
/// byte must be the checksum of the others.
pub open spec fn spec_code_to_bytes(code: Seq<char>) -> Result<Seq<u8>, ParseError> {
    match b64_decode(code) {
        None => Err(ParseError::IllegalCharError),
        Some(bytes) => spec_checked_payload(bytes),
    }
}

pub fn bytes_to_code(bytes: Vec<u8>) -> (code: String)
    requires
        bytes@.len() <= MAX_CODE_BYTES,
    ensures
        code@ == spec_bytes_to_code(bytes@),
        spec_code_to_bytes(code@) == Ok::<Seq<u8>, ParseError>(bytes@),
{
    let mut bytes = bytes;
    let ghost orig = bytes@;
    let cs = checksum(bytes.as_slice());
    bytes.push(cs);
    proof {
        assert(bytes@.drop_last() == orig);
        lemma_b64_decode_encode(bytes@);
    }
    base64_encode(bytes.as_slice())
}

/// Checks and strips the checksum byte at the end of decoded bytes.
pub fn checked_payload(bytes: Vec<u8>) -> (res: Result<Vec<u8>, ParseError>)
    ensures
        match res {
            Ok(payload) => spec_checked_payload(bytes@) == Ok::<Seq<u8>, ParseError>(payload@),
            Err(e) => spec_checked_payload(bytes@) == Err::<Seq<u8>, ParseError>(e),
        },
{
    let mut bytes = bytes;
    let cs = match bytes.pop() {
        Some(cs) => cs,
        None => {
            return Err(ParseError::EarlyEndError);
        },
    };
    if cs == checksum(bytes.as_slice()) {
        Ok(bytes)
    } else {
        Err(ParseError::ChecksumError)
    }
}

pub fn code_to_bytes(code: &str) -> (res: Result<Vec<u8>, ParseError>)
    ensures
        match res {
            Ok(bytes) => spec_code_to_bytes(code@) == Ok::<Seq<u8>, ParseError>(bytes@),
            Err(e) => spec_code_to_bytes(code@) == Err::<Seq<u8>, ParseError>(e),
        },
{
    let bytes = match base64_decode(code) {
        Ok(bytes) => {
            proof {
                lemma_b64_decode_encode(bytes@);
            }
            bytes
        },
        Err(_) => {
            return Err(ParseError::IllegalCharError);
        },
    };
    checked_payload(bytes)
}

/// A parse result, with the value and the unread rest taken by their views.
pub open spec fn parsed_view<T: View>(res: Result<(T, &[u8]), ParseError>) -> Result<
    (T::V, Seq<u8>),
    ParseError,
> {
    match res {
        Ok((v, rest)) => Ok((v@, rest@)),
        Err(e) => Err(e),
    }
}

/// A result, with the value taken by its view.
pub open spec fn result_view<T: View>(res: Result<T, ParseError>) -> Result<T::V, ParseError> {
    match res {
        Ok(v) => Ok(v@),
        Err(e) => Err(e),
    }
}

/// What reading a whole byte string gives, from what is read at its start: the
/// value, as long as nothing is left after it.
pub open spec fn whole_of<V>(prefix: Result<(V, Seq<u8>), ParseError>) -> Result<V, ParseError> {
    match prefix {
        Ok((v, rest)) => if rest.len() == 0 {
            Ok(v)
        } else {
            Err(ParseError::BytePastEndError)
        },
        Err(e) => Err(e),
    }
}

/// The ability to write oneself as a sequence of bytes and to read oneself back
/// from the start of one.
pub trait SerdeBytes: View + Sized {
    /// The bytes that `write_bytes` appends.
    spec fn spec_bytes(&self) -> Seq<u8>;

    /// What `from_bytes_prefix` reads from the start of `bytes`: the value and the
    /// unread rest, or why nothing could be read.
    spec fn spec_parse_prefix(bytes: Seq<u8>) -> Result<(Self::V, Seq<u8>), ParseError>;

    /// The values that the type's invariant admits.
    spec fn spec_valid(&self) -> bool;

    fn write_bytes(&self, buf: &mut Vec<u8>)
        ensures
            final(buf)@ == old(buf)@ + self.spec_bytes(),
            self.spec_valid(),
    ;

    fn from_bytes_prefix(bytes: &[u8]) -> (res: Result<(Self, &[u8]), ParseError>)
        ensures
            parsed_view(res) == Self::spec_parse_prefix(bytes@),
    ;

    /// What is written is read back, whatever follows it.
    proof fn lemma_read_written(&self, rest: Seq<u8>)
        requires
            self.spec_valid(),
        ensures
            Self::spec_parse_prefix(self.spec_bytes() + rest) == Ok::<
                (Self::V, Seq<u8>),
                ParseError,
            >((self@, rest)),
    ;

    fn to_bytes(&self) -> (res: Vec<u8>)
        ensures
            res@ == self.spec_bytes(),
            self.spec_valid(),
    {
        let mut v = Vec::new();
        self.write_bytes(&mut v);
        proof {
            assert(Seq::<u8>::empty() + self.spec_bytes() == self.spec_bytes());
        }
        v
    }

    fn from_bytes(bytes: &[u8]) -> (res: Result<Self, ParseError>)
        ensures
            result_view(res) == whole_of(Self::spec_parse_prefix(bytes@)),
    {
        let (res, rem) = match Self::from_bytes_prefix(bytes) {
            Ok(r) => r,
            Err(e) => {
                return Err(e);
            },
        };
        if rem.len() == 0 {
            Ok(res)
        } else {
            Err(ParseError::BytePastEndError)
        }
    }
}

/// Whatever is written is read back whole.
pub proof fn lemma_whole_read_written<T: SerdeBytes>(value: T)
    requires
        value.spec_valid(),
    ensures
        whole_of(T::spec_parse_prefix(value.spec_bytes())) == Ok::<T::V, ParseError>(value@),
{
    value.lemma_read_written(Seq::empty());
    assert(value.spec_bytes() + Seq::<u8>::empty() == value.spec_bytes());
}

impl SerdeBytes for Key {
    /// The two halves, each as 16 little-endian bytes.
    open spec fn spec_bytes(&self) -> Seq<u8> {
        spec_u128_to_le_bytes(self.0) + spec_u128_to_le_bytes(self.1)
    }

    open spec fn spec_valid(&self) -> bool {
        true
    }

    /// Two halves of 16 little-endian bytes each; too short an input ends early.
    open spec fn spec_parse_prefix(bytes: Seq<u8>) -> Result<((u128, u128), Seq<u8>), ParseError> {
        if bytes.len() < 32 {
            Err(ParseError::EarlyEndError)
        } else {
            Ok(
                (
                    (
                        spec_u128_from_le_bytes(bytes.subrange(0, 16)),
                        spec_u128_from_le_bytes(bytes.subrange(16, 32)),
                    ),
                    bytes.subrange(32, bytes.len() as int),
                ),
            )
        }
    }

    fn write_bytes(&self, buf: &mut Vec<u8>) {
        let mut first = u128_to_le_bytes(self.0);
        let mut second = u128_to_le_bytes(self.1);
        buf.append(&mut first);
        buf.append(&mut second);
        proof {
            assert(final(buf)@ == old(buf)@ + self.spec_bytes());
        }
    }

    fn from_bytes_prefix(bytes: &[u8]) -> (res: Result<(Self, &[u8]), ParseError>) {
        if bytes.len() < 32 {
            return Err(ParseError::EarlyEndError);
        }
        let first = u128_from_le_bytes(&bytes[0..16]);
        let second = u128_from_le_bytes(&bytes[16..32]);
        let rest = &bytes[32..bytes.len()];
        proof {
            assert(first == spec_u128_from_le_bytes(bytes@.subrange(0, 16)));
            assert(second == spec_u128_from_le_bytes(bytes@.subrange(16, 32)));
            assert(rest@ == bytes@.subrange(32, bytes@.len() as int));
            assert((first, second)@ == (first, second));
        }
        Ok(((first, second), rest))
    }

    proof fn lemma_read_written(&self, rest: Seq<u8>) {
        lemma_auto_spec_u128_to_from_le_bytes();
        let b = self.spec_bytes() + rest;
        assert(b.subrange(0, 16) == spec_u128_to_le_bytes(self.0));
        assert(b.subrange(16, 32) == spec_u128_to_le_bytes(self.1));
        assert(b.subrange(32, b.len() as int) == rest);
    }
}

/// The ability to be written as a code and read back from one.
pub trait Serde: View + Sized {
    /// The bytes behind the code.
    spec fn serde_bytes(&self) -> Seq<u8>;

    /// What the bytes behind a code are read as.
    spec fn serde_parse(bytes: Seq<u8>) -> Result<Self::V, ParseError>;

    fn to_code(&self) -> (code: String)
        requires
            self.serde_bytes().len() <= MAX_CODE_BYTES,
        ensures
            code@ == spec_bytes_to_code(self.serde_bytes()),
            spec_code_to_bytes(code@) == Ok::<Seq<u8>, ParseError>(self.serde_bytes()),
            Self::serde_parse(self.serde_bytes()) == Ok::<Self::V, ParseError>(self@),
    ;

    fn from_code(code: &str) -> (res: Result<Self, ParseError>)
        ensures
            result_view(res) == match spec_code_to_bytes(code@) {
                Ok(bytes) => Self::serde_parse(bytes),
                Err(e) => Err(e),
            },
    ;
}

impl<T: SerdeBytes> Serde for T {
    open spec fn serde_bytes(&self) -> Seq<u8> {
        self.spec_bytes()
    }

    open spec fn serde_parse(bytes: Seq<u8>) -> Result<T::V, ParseError> {
        whole_of(T::spec_parse_prefix(bytes))
    }

    fn to_code(&self) -> (code: String) {
        let bytes = self.to_bytes();
        proof {
            lemma_whole_read_written(*self);
        }
        bytes_to_code(bytes)
    }

    fn from_code(code: &str) -> (res: Result<Self, ParseError>) {
        let bytes = match code_to_bytes(code) {
            Ok(bytes) => bytes,
            Err(e) => {
                return Err(e);
            },
        };
        Self::from_bytes(bytes.as_slice())
    }
}

/// The code of any byte string reads back as that string.
pub proof fn lemma_code_round_trip(bytes: Seq<u8>)
    ensures
        spec_code_to_bytes(spec_bytes_to_code(bytes)) == Ok::<Seq<u8>, ParseError>(bytes),
{
    let full = bytes.push(spec_checksum(bytes));
    lemma_b64_decode_encode(full);
    assert(full.drop_last() == bytes);
}

/// A code read back gives the value it was written from: `from_code` reads
/// every valid value back from the code that `to_code` makes of it.
pub proof fn lemma_code_read_written<T: SerdeBytes>(value: T)
    requires
        value.spec_valid(),
    ensures
        match spec_code_to_bytes(spec_bytes_to_code(value.spec_bytes())) {
            Ok(bytes) => whole_of(T::spec_parse_prefix(bytes)),
            Err(e) => Err(e),
        } == Ok::<T::V, ParseError>(value@),
{
    lemma_code_round_trip(value.spec_bytes());
    lemma_whole_read_written(value);
}

} // verus!
