//! Unbounded signed integers for the coordinates of the grid, kept as digit
//! strings in bijective base 256.

use vstd::arithmetic::power2::{lemma2_to64, lemma_pow2_adds, lemma_pow2_pos, pow2};
use vstd::bits::{lemma_u32_pow2_no_overflow, lemma_u32_shl_is_mul};
use vstd::prelude::*;

use crate::code::{ParseError, SerdeBytes};
use crate::utils::{
    bij_value, dec_byte, digit_value, from_bijbase256, inc_byte, le_value, lemma_bij_value_injective,
    bij_digits, lemma_bij_digits, lemma_from_bijbase256_no_leading_zero, lemma_le_canonical,
    lemma_le_value_push, lemma_to_bijbase256_undoes_from, spec_from_bijbase256,
};

verus! {

/// The digit string that `increment` leaves behind.
pub open spec fn spec_increment(digits: Seq<u8>) -> Seq<u8>
    decreases digits.len(),
{
    if digits.len() == 0 {
        seq![1u8]
    } else if digits[0] == 0 {
        seq![1u8].add(spec_increment(digits.drop_first()))
    } else {
        seq![inc_byte(digits[0])].add(digits.drop_first())
    }
}

/// The digit string that `decrement` leaves behind.
pub open spec fn spec_decrement(digits: Seq<u8>) -> Seq<u8>
    decreases digits.len(),
{
    if digits.len() == 0 {
        seq![]
    } else if digits[0] == 1 {
        if digits.len() == 1 {
            seq![]
        } else {
            seq![0u8].add(spec_decrement(digits.drop_first()))
        }
    } else {
        seq![dec_byte(digits[0])].add(digits.drop_first())
    }
}

proof fn lemma_increment_value(digits: Seq<u8>)
    ensures
        bij_value(spec_increment(digits)) == bij_value(digits) + 1,
    decreases digits.len(),
{
    if digits.len() == 0 {
        assert(seq![1u8].drop_first() =~= Seq::<u8>::empty());
        assert(bij_value(Seq::<u8>::empty()) == 0);
        assert(seq![1u8][0] == 1);
        assert(bij_value(seq![1u8]) == 1);
    } else if digits[0] == 0 {
        lemma_increment_value(digits.drop_first());
        let s = seq![1u8].add(spec_increment(digits.drop_first()));
        assert(s[0] == 1);
        assert(s.drop_first() =~= spec_increment(digits.drop_first()));
    } else {
        let s = seq![inc_byte(digits[0])].add(digits.drop_first());
        assert(s[0] == inc_byte(digits[0]));
        assert(digit_value(inc_byte(digits[0])) == digit_value(digits[0]) + 1);
        assert(s.drop_first() =~= digits.drop_first());
    }
}

proof fn lemma_decrement_value(digits: Seq<u8>)
    requires
        digits.len() > 0,
    ensures
        bij_value(spec_decrement(digits)) + 1 == bij_value(digits),
    decreases digits.len(),
{
    if digits[0] == 1 {
        if digits.len() == 1 {
            assert(digits.drop_first() =~= Seq::<u8>::empty());
        } else {
            lemma_decrement_value(digits.drop_first());
            let s = seq![0u8].add(spec_decrement(digits.drop_first()));
            assert(s[0] == 0);
            assert(s.drop_first() =~= spec_decrement(digits.drop_first()));
        }
    } else {
        let s = seq![dec_byte(digits[0])].add(digits.drop_first());
        assert(s[0] == dec_byte(digits[0]));
        assert(s.drop_first() =~= digits.drop_first());
    }
}

/// Increment, unrolled over the first `i` digits when they are all 0.
proof fn lemma_increment_prefix(digits: Seq<u8>, i: int)
    requires
        0 <= i <= digits.len(),
        forall|j: int| 0 <= j < i ==> digits[j] == 0,
    ensures
        spec_increment(digits) == Seq::new(i as nat, |j: int| 1u8).add(
            spec_increment(digits.skip(i)),
        ),
    decreases i,
{
    if i == 0 {
        assert(digits.skip(0) =~= digits);
        assert(Seq::new(0, |j: int| 1u8).add(spec_increment(digits)) =~= spec_increment(digits));
    } else {
        lemma_increment_prefix(digits, i - 1);
        let rest = digits.skip(i - 1);
        assert(rest[0] == 0);
        assert(rest.drop_first() =~= digits.skip(i));
        assert(Seq::new((i - 1) as nat, |j: int| 1u8).add(seq![1u8].add(spec_increment(digits.skip(i))))
            =~= Seq::new(i as nat, |j: int| 1u8).add(spec_increment(digits.skip(i))));
    }
}

/// Decrement, unrolled over the first `i` digits when they are all 1.
proof fn lemma_decrement_prefix(digits: Seq<u8>, i: int)
    requires
        0 <= i < digits.len(),
        forall|j: int| 0 <= j < i ==> digits[j] == 1,
    ensures
        spec_decrement(digits) == Seq::new(i as nat, |j: int| 0u8).add(
            spec_decrement(digits.skip(i)),
        ),
    decreases i,
{
    if i == 0 {
        assert(digits.skip(0) =~= digits);
        assert(Seq::new(0, |j: int| 0u8).add(spec_decrement(digits)) =~= spec_decrement(digits));
    } else {
        lemma_decrement_prefix(digits, i - 1);
        let rest = digits.skip(i - 1);
        assert(rest[0] == 1);
        assert(rest.len() > 1);
        assert(rest.drop_first() =~= digits.skip(i));
        assert(Seq::new((i - 1) as nat, |j: int| 0u8).add(seq![0u8].add(spec_decrement(digits.skip(i))))
            =~= Seq::new(i as nat, |j: int| 0u8).add(spec_decrement(digits.skip(i))));
    }
}

fn increment(num: &mut Vec<u8>)
    ensures
        final(num)@ == spec_increment(old(num)@),
        bij_value(final(num)@) == bij_value(old(num)@) + 1,
{
    proof {
        lemma_increment_value(num@);
    }
    let ghost orig = num@;
    let mut i: usize = 0;
    while i < num.len()
        invariant
            i <= num@.len() == orig.len(),
            orig == old(num)@,
            bij_value(spec_increment(orig)) == bij_value(orig) + 1,
            forall|j: int| 0 <= j < i ==> #[trigger] orig[j] == 0,
            forall|j: int| 0 <= j < i ==> #[trigger] num@[j] == 1,
            forall|j: int| i <= j < orig.len() ==> #[trigger] num@[j] == orig[j],
        decreases num@.len() - i,
    {
        let old_d = num[i];
        let d = old_d.wrapping_add(1);
        num.set(i, d);
        if d != 1 {
            proof {
                assert(d == inc_byte(old_d));
                lemma_increment_prefix(orig, i as int);
                let rest = orig.skip(i as int);
                assert(rest[0] == old_d);
                assert(rest.drop_first() =~= orig.skip(i + 1));
                assert(num@ =~= Seq::new(i as nat, |j: int| 1u8).add(spec_increment(rest)));
            }
            return;
        }
        i += 1;
    }
    proof {
        lemma_increment_prefix(orig, i as int);
        assert(orig.skip(i as int) =~= Seq::<u8>::empty());
    }
    num.push(1);
    proof {
        assert(num@ =~= Seq::new(i as nat, |j: int| 1u8).add(seq![1u8]));
    }
}

fn decrement(num: &mut Vec<u8>)
    requires
        old(num)@.len() > 0,
    ensures
        final(num)@ == spec_decrement(old(num)@),
        bij_value(final(num)@) + 1 == bij_value(old(num)@),
{
    proof {
        lemma_decrement_value(num@);
    }
    let ghost orig = num@;
    let mut i: usize = 0;
    while i < num.len()
        invariant
            i <= num@.len() == orig.len(),
            orig == old(num)@,
            bij_value(spec_decrement(orig)) + 1 == bij_value(orig),
            orig.len() > 0,
            forall|j: int| 0 <= j < i ==> #[trigger] orig[j] == 1,
            forall|j: int| 0 <= j < i ==> #[trigger] num@[j] == 0,
            forall|j: int| i <= j < orig.len() ==> #[trigger] num@[j] == orig[j],
        decreases num@.len() - i,
    {
        let old_d = num[i];
        let d = old_d.wrapping_sub(1);
        num.set(i, d);
        if d != 0 {
            proof {
                assert(d == dec_byte(old_d));
                lemma_decrement_prefix(orig, i as int);
                let rest = orig.skip(i as int);
                assert(rest[0] == old_d);
                assert(rest.drop_first() =~= orig.skip(i + 1));
                assert(num@ =~= Seq::new(i as nat, |j: int| 0u8).add(spec_decrement(rest)));
            }
            return;
        }
        i += 1;
    }
    proof {
        let n = orig.len() - 1;
        lemma_decrement_prefix(orig, n);
        let rest = orig.skip(n);
        assert(rest[0] == 1);
        assert(rest.len() == 1);
    }
    num.pop();
    proof {
        assert(num@ =~= Seq::new((orig.len() - 1) as nat, |j: int| 0u8));
        assert(Seq::new((orig.len() - 1) as nat, |j: int| 0u8).add(Seq::<u8>::empty()) =~= Seq::new((orig.len() - 1) as nat, |j: int| 0u8));
    }
}

/// The sign of a number.
#[derive(Clone, Copy, Debug, PartialEq, Eq, Structural)]
pub enum Sign {
    Positive,
    Negative,
}

/// The byte a sign is written as.
pub open spec fn sign_byte(sign: Sign) -> u8 {
    if sign == Sign::Negative {
        0
    } else {
        1
    }
}

/// The sign a byte is read as, if any.
pub open spec fn sign_of_byte(byte: u8) -> Option<Sign> {
    if byte == 0 {
        Some(Sign::Negative)
    } else if byte == 1 {
        Some(Sign::Positive)
    } else {
        None
    }
}

impl Sign {
    pub fn to_byte(self) -> (res: u8)
        ensures
            res == sign_byte(self),
    {
        if self == Sign::Negative {
            0
        } else {
            1
        }
    }

    pub fn from_byte(byte: u8) -> (res: Option<Self>)
        ensures
            res == sign_of_byte(byte),
    {
        match byte {
            0 => Some(Sign::Negative),
            1 => Some(Sign::Positive),
            _ => None,
        }
    }
}

/// A signed number as its sign and its bijective base-256 digits.
pub type NumView = (Sign, Seq<u8>);

/// The integer a number stands for: the digits' value when positive, and minus
/// that value minus one when negative, so that every integer has exactly one
/// number.
pub open spec fn num_value(n: NumView) -> int {
    if n.0 == Sign::Positive {
        bij_value(n.1) as int
    } else {
        -(bij_value(n.1) as int) - 1
    }
}

/// A signed number; its digits are a bijective base-256 string.
#[derive(Debug, PartialEq, Eq)]
pub struct Num {
    sign: Sign,
    digits: Vec<u8>,
}

impl View for Num {
    type V = NumView;

    closed spec fn view(&self) -> NumView {
        (self.sign, self.digits@)
    }
}

impl Clone for Num {
    fn clone(&self) -> (res: Self)
        ensures
            res@ == self@,
    {
        let digits = self.digits.clone();
        proof {
            assert(digits@ =~= self.digits@);
        }
        Num { sign: self.sign, digits }
    }
}

/// Every integer has one number only.
pub proof fn lemma_num_value_injective(a: NumView, b: NumView)
    requires
        num_value(a) == num_value(b),
    ensures
        a == b,
{
    if a.0 == b.0 {
        lemma_bij_value_injective(a.1, b.1);
    }
}

impl Num {
    pub fn new(sign: Sign, digits: Vec<u8>) -> (res: Self)
        ensures
            res@ == (sign, digits@),
    {
        Self { sign, digits }
    }

    /// The number of bytes of the number: its digits and its sign.
    pub fn len(&self) -> (res: usize)
        requires
            self@.1.len() < usize::MAX,
        ensures
            res == self@.1.len() + 1,
    {
        self.digits.len() + 1
    }

    pub fn increment(&mut self)
        ensures
            num_value(final(self)@) == num_value(old(self)@) + 1,
    {
        if self.sign == Sign::Negative {
            if self.digits.len() == 0 {
                self.sign = Sign::Positive;
                return;
            }
            decrement(&mut self.digits);
        } else {
            increment(&mut self.digits);
        }
    }

    pub fn decrement(&mut self)
        ensures
            num_value(final(self)@) == num_value(old(self)@) - 1,
    {
        if self.sign == Sign::Positive {
            if self.digits.len() == 0 {
                self.sign = Sign::Negative;
                return;
            }
            decrement(&mut self.digits);
        } else {
            increment(&mut self.digits);
        }
    }

    /// Adds `d`, which is -1, 0 or 1.
    pub fn add(&mut self, d: i8)
        requires
            -1 <= d <= 1,
        ensures
            num_value(final(self)@) == num_value(old(self)@) + d,
    {
        if d == -1 {
            self.decrement();
        } else if d == 1 {
            self.increment();
        }
    }
}

/// Increasing a number by one and then decreasing it by one gives it back, and
/// so does the other order.
pub proof fn lemma_increment_decrement_undo(n: NumView, up: NumView, back: NumView)
    requires
        num_value(up) == num_value(n) + 1 && num_value(back) == num_value(up) - 1
            || num_value(up) == num_value(n) - 1 && num_value(back) == num_value(up) + 1,
    ensures
        back == n,
{
    lemma_num_value_injective(back, n);
}

/// A digit as it is written: 0 is escaped as 0, 1, since 0, 0 ends the digits.
pub open spec fn escaped_digit(d: u8) -> Seq<u8> {
    if d == 0 {
        seq![0u8, 1u8]
    } else {
        seq![d]
    }
}

/// The digits as they are written, each escaped.
pub open spec fn escaped_digits(digits: Seq<u8>) -> Seq<u8>
    decreases digits.len(),
{
    if digits.len() == 0 {
        seq![]
    } else {
        escaped_digit(digits[0]) + escaped_digits(digits.drop_first())
    }
}

/// What the digit reader reads from the start of `bytes`: the digits and the
/// unread rest after the closing 0, 0, or why it could not.
pub open spec fn parse_digits(bytes: Seq<u8>) -> Result<(Seq<u8>, Seq<u8>), ParseError>
    decreases bytes.len(),
{
    if bytes.len() == 0 {
        Err(ParseError::EarlyEndError)
    } else if bytes[0] != 0 {
        prepend_digits(seq![bytes[0]], parse_digits(bytes.drop_first()))
    } else if bytes.len() < 2 {
        Err(ParseError::EarlyEndError)
    } else if bytes[1] == 0 {
        Ok((seq![], bytes.skip(2)))
    } else if bytes[1] == 1 {
        prepend_digits(seq![0u8], parse_digits(bytes.skip(2)))
    } else {
        Err(ParseError::IllegalByteError)
    }
}

/// A digit-reading result with `digits` read before it.
pub open spec fn prepend_digits(
    digits: Seq<u8>,
    res: Result<(Seq<u8>, Seq<u8>), ParseError>,
) -> Result<(Seq<u8>, Seq<u8>), ParseError> {
    match res {
        Ok((more, rest)) => Ok((digits + more, rest)),
        Err(e) => Err(e),
    }
}

proof fn lemma_escaped_push(digits: Seq<u8>, d: u8)
    ensures
        escaped_digits(digits.push(d)) == escaped_digits(digits) + escaped_digit(d),
    decreases digits.len(),
{
    if digits.len() == 0 {
        assert(seq![d].drop_first() =~= Seq::<u8>::empty());
        assert(seq![d][0] == d);
        assert(escaped_digits(Seq::<u8>::empty()) == Seq::<u8>::empty());
        assert(escaped_digits(seq![d]) =~= escaped_digit(d) + Seq::<u8>::empty());
        assert(digits.push(d) =~= seq![d]);
    } else {
        lemma_escaped_push(digits.drop_first(), d);
        assert(digits.push(d).drop_first() =~= digits.drop_first().push(d));
        assert(digits.push(d)[0] == digits[0]);
        assert(escaped_digit(digits[0]) + (escaped_digits(digits.drop_first()) + escaped_digit(d))
            =~= escaped_digit(digits[0]) + escaped_digits(digits.drop_first()) + escaped_digit(d));
    }
}

proof fn lemma_parse_escaped(digits: Seq<u8>, rest: Seq<u8>)
    ensures
        parse_digits(escaped_digits(digits) + seq![0u8, 0u8] + rest) == Ok::<
            (Seq<u8>, Seq<u8>),
            ParseError,
        >((digits, rest)),
    decreases digits.len(),
{
    let b = escaped_digits(digits) + seq![0u8, 0u8] + rest;
    if digits.len() == 0 {
        assert(b =~= seq![0u8, 0u8] + rest);
        assert(b[0] == 0 && b[1] == 0);
        assert(b.skip(2) =~= rest);
        assert(digits =~= Seq::<u8>::empty());
    } else {
        let d = digits[0];
        let tail = digits.drop_first();
        lemma_parse_escaped(tail, rest);
        let b2 = escaped_digits(tail) + seq![0u8, 0u8] + rest;
        assert(b =~= escaped_digit(d) + b2);
        if d == 0 {
            assert(b[0] == 0 && b[1] == 1);
            assert(b.skip(2) =~= b2);
            assert(parse_digits(b) == prepend_digits(seq![0u8], parse_digits(b2)));
        } else {
            assert(b[0] == d);
            assert(b.drop_first() =~= b2);
            assert(parse_digits(b) == prepend_digits(seq![d], parse_digits(b2)));
        }
        assert(seq![d] + tail =~= digits);
    }
}

/// The bytes a number is written as: the sign byte, the escaped digits, and 0, 0.
pub open spec fn num_bytes(n: NumView) -> Seq<u8> {
    seq![sign_byte(n.0)] + escaped_digits(n.1) + seq![0u8, 0u8]
}

impl SerdeBytes for Num {
    open spec fn spec_bytes(&self) -> Seq<u8> {
        num_bytes(self@)
    }

    open spec fn spec_valid(&self) -> bool {
        true
    }

    /// A sign byte (0 or 1, else the byte is illegal), then the escaped digits up
    /// to 0, 0.
    open spec fn spec_parse_prefix(bytes: Seq<u8>) -> Result<(NumView, Seq<u8>), ParseError> {
        if bytes.len() == 0 {
            Err(ParseError::EarlyEndError)
        } else {
            match sign_of_byte(bytes[0]) {
                None => Err(ParseError::IllegalByteError),
                Some(sign) => match parse_digits(bytes.drop_first()) {
                    Ok((digits, rest)) => Ok(((sign, digits), rest)),
                    Err(e) => Err(e),
                },
            }
        }
    }

    fn write_bytes(&self, buf: &mut Vec<u8>) {
        buf.push(self.sign.to_byte());
        let ghost start = buf@;
        let mut i: usize = 0;
        while i < self.digits.len()
            invariant
                i <= self.digits@.len(),
                buf@ == start + escaped_digits(self.digits@.take(i as int)),
            decreases self.digits@.len() - i,
        {
            let d = self.digits[i];
            proof {
                lemma_escaped_push(self.digits@.take(i as int), d);
                assert(self.digits@.take(i + 1) =~= self.digits@.take(i as int).push(d));
            }
            buf.push(d);
            if d == 0 {
                buf.push(1);
            }
            proof {
                assert(buf@ =~= start + escaped_digits(self.digits@.take(i + 1)));
            }
            i += 1;
        }
        buf.push(0);
        buf.push(0);
        proof {
            assert(self.digits@.take(i as int) =~= self.digits@);
            assert(final(buf)@ =~= old(buf)@ + self.spec_bytes());
        }
    }

    fn from_bytes_prefix(bytes: &[u8]) -> (res: Result<(Self, &[u8]), ParseError>) {
        if bytes.len() == 0 {
            return Err(ParseError::EarlyEndError);
        }
        let byte = bytes[0];
        let ghost all = bytes@;
        let body = &bytes[1..bytes.len()];
        proof {
            assert(body@ =~= all.drop_first());
        }
        let sign = match Sign::from_byte(byte) {
            Some(sign) => sign,
            None => {
                return Err(ParseError::IllegalByteError);
            },
        };
        let mut digits: Vec<u8> = Vec::new();
        let mut i: usize = 0;
        proof {
            assert(body@.skip(0) =~= body@);
            match parse_digits(body@) {
                Ok((more, rest)) => {
                    assert(digits@ + more =~= more);
                },
                Err(e) => {},
            }
        }
        loop
            invariant_except_break
                i <= body@.len(),
                all.len() > 0,
                body@ == all.drop_first(),
                sign_of_byte(all[0]) == Some(sign),
                all == bytes@,
                parse_digits(body@) == prepend_digits(digits@, parse_digits(body@.skip(i as int))),
            ensures
                i <= body@.len(),
                parse_digits(body@) == Ok::<(Seq<u8>, Seq<u8>), ParseError>(
                    (digits@, body@.skip(i as int)),
                ),
            decreases body@.len() - i,
        {
            let ghost here = body@.skip(i as int);
            if i >= body.len() {
                proof {
                    assert(here.len() == 0);
                    assert(parse_digits(here) == Err::<(Seq<u8>, Seq<u8>), ParseError>(
                        ParseError::EarlyEndError,
                    ));
                }
                return Err(ParseError::EarlyEndError);
            }
            let byte = body[i];
            i += 1;
            proof {
                assert(here[0] == byte);
                assert(here.drop_first() =~= body@.skip(i as int));
            }
            if byte == 0 {
                if i >= body.len() {
                    proof {
                        assert(here.len() == 1);
                        assert(parse_digits(here) == Err::<(Seq<u8>, Seq<u8>), ParseError>(
                            ParseError::EarlyEndError,
                        ));
                    }
                    return Err(ParseError::EarlyEndError);
                }
                let nextbyte = body[i];
                i += 1;
                proof {
                    assert(here[1] == nextbyte);
                    assert(here.skip(2) =~= body@.skip(i as int));
                }
                if nextbyte == 0 {
                    proof {
                        assert(digits@ + Seq::<u8>::empty() =~= digits@);
                    }
                    break;
                } else if nextbyte != 1 {
                    proof {
                        assert(parse_digits(here) == Err::<(Seq<u8>, Seq<u8>), ParseError>(
                            ParseError::IllegalByteError,
                        ));
                    }
                    return Err(ParseError::IllegalByteError);
                }
            }
            proof {
                let ghost old_digits = digits@;
                match parse_digits(body@.skip(i as int)) {
                    Ok((more, rest)) => {
                        assert(old_digits + (seq![byte] + more) =~= old_digits.push(byte) + more);
                    },
                    Err(e) => {},
                }
            }
            digits.push(byte);
        }
        Ok((Num { sign, digits }, &body[i..body.len()]))
    }

    proof fn lemma_read_written(&self, rest: Seq<u8>) {
        lemma_num_bytes_read_back(self@, rest);
    }
}

/// The bytes of a number are read back as the number, whatever follows them.
pub proof fn lemma_num_bytes_read_back(n: NumView, rest: Seq<u8>)
    ensures
        Num::spec_parse_prefix(num_bytes(n) + rest) == Ok::<(NumView, Seq<u8>), ParseError>(
            (n, rest),
        ),
{
    let b = num_bytes(n) + rest;
    lemma_parse_escaped(n.1, rest);
    assert(b.drop_first() =~= escaped_digits(n.1) + seq![0u8, 0u8] + rest);
    assert(b[0] == sign_byte(n.0));
    if n.0 == Sign::Negative {
        assert(sign_of_byte(b[0]) == Some(Sign::Negative));
    } else {
        assert(sign_of_byte(b[0]) == Some(Sign::Positive));
    }
}

/// The 8 bits of a byte spread over the even bits of a 16-bit word.
pub open spec fn spread_bits(x: u8) -> u16 {
    let w = x as u16;
    (w & 1) | ((w & 2) << 1u16) | ((w & 4) << 2u16) | ((w & 8) << 3u16) | ((w & 16) << 4u16) | ((w
        & 32) << 5u16) | ((w & 64) << 6u16) | ((w & 128) << 7u16)
}

/// The bits of `a` and `b` interleaved, those of `a` at the even places.
pub open spec fn spec_interleave(a: u8, b: u8) -> u16 {
    spread_bits(a) | (spread_bits(b) << 1u16)
}

proof fn lemma_interleave_step(a: u8, b: u8, i: u16)
    requires
        i < 8,
    ensures
        spec_interleave(
            (a as u16 & ((1u16 << i) - 1) as u16) as u8,
            (b as u16 & ((1u16 << i) - 1) as u16) as u8,
        ) | (((a as u16 & (1u16 << i)) << i) | ((b as u16 & (1u16 << i)) << ((i + 1) as u16)))
            == spec_interleave(
            (a as u16 & ((1u16 << ((i + 1) as u16)) - 1) as u16) as u8,
            (b as u16 & ((1u16 << ((i + 1) as u16)) - 1) as u16) as u8,
        ),
{
    assert(spec_interleave(
        (a as u16 & ((1u16 << i) - 1) as u16) as u8,
        (b as u16 & ((1u16 << i) - 1) as u16) as u8,
    ) | (((a as u16 & (1u16 << i)) << i) | ((b as u16 & (1u16 << i)) << ((i + 1) as u16)))
        == spec_interleave(
        (a as u16 & ((1u16 << ((i + 1) as u16)) - 1) as u16) as u8,
        (b as u16 & ((1u16 << ((i + 1) as u16)) - 1) as u16) as u8,
    )) by (bit_vector)
        requires
            i < 8,
    ;
}

fn interleave(a: u8, b: u8) -> (res: u16)
    ensures
        res == spec_interleave(a, b),
{
    let mut res: u16 = 0;
    let wa: u16 = a as u16;
    let wb: u16 = b as u16;
    assert(spec_interleave(
        (a as u16 & ((1u16 << 0u16) - 1) as u16) as u8,
        (b as u16 & ((1u16 << 0u16) - 1) as u16) as u8,
    ) == 0) by (bit_vector);
    let mut i: u16 = 0;
    while i < 8
        invariant
            i <= 8,
            wa == a as u16,
            wb == b as u16,
            res == spec_interleave(
                (a as u16 & ((1u16 << i) - 1) as u16) as u8,
                (b as u16 & ((1u16 << i) - 1) as u16) as u8,
            ),
        decreases 8 - i,
    {
        proof {
            lemma_interleave_step(a, b, i);
        }
        res |= ((wa & (1 << i)) << i) | ((wb & (1 << i)) << (i + 1));
        i += 1;
    }
    assert((a as u16 & ((1u16 << 8u16) - 1) as u16) as u8 == a) by (bit_vector);
    assert((b as u16 & ((1u16 << 8u16) - 1) as u16) as u8 == b) by (bit_vector);
    res
}

/// The `n` lowest little-endian bytes of `v`.
pub open spec fn le_bytes(v: nat, n: nat) -> Seq<u8>
    decreases n,
{
    if n == 0 {
        seq![]
    } else {
        seq![(v % 256) as u8].add(le_bytes(v / 256, (n - 1) as nat))
    }
}

/// The digit at place `i` of a digit string, or 0 past its end.
pub open spec fn digit_at(digits: Seq<u8>, i: int) -> u8 {
    if 0 <= i < digits.len() {
        digits[i]
    } else {
        0
    }
}

/// The 16-bit words made of the digits of `a` and `b` at the first `n` places,
/// interleaved, as one number, the first place lowest.
pub open spec fn pairs_value(a: Seq<u8>, b: Seq<u8>, n: nat) -> nat
    decreases n,
{
    if n == 0 {
        0
    } else {
        pairs_value(a, b, (n - 1) as nat) + pow2(16 * (n - 1) as nat) * spec_interleave(
            digit_at(a, n - 1),
            digit_at(b, n - 1),
        ) as nat
    }
}

/// The bits that come before the digits: `extra` in the lowest `extra_bitlen`
/// bits, then the sign of the first number, then the sign of the second.
pub open spec fn combine_head(first: Sign, second: Sign, extra: u8, extra_bitlen: u32) -> u16 {
    ((((sign_byte(second) << 1u8) | sign_byte(first)) as u16) << (extra_bitlen as u16)) | (
    extra as u16)
}

/// The longer length of the plain digit strings of two numbers.
pub open spec fn combine_len(a: NumView, b: NumView) -> nat {
    let da = spec_from_bijbase256(a.1);
    let db = spec_from_bijbase256(b.1);
    if da.len() >= db.len() {
        da.len()
    } else {
        db.len()
    }
}

/// The bytes of two numbers combined: as a string of bits, least significant
/// first, the `extra_bitlen` bits of `extra`, the sign bit of `a`, the sign bit
/// of `b`, then at each place of their plain base-256 digits the eight bits of
/// the two digits interleaved (those of `a` first); cut into little-endian
/// bytes, with a last, partial byte only when it is not zero. Any bit of `extra`
/// above `extra_bitlen` is OR-ed into the first byte.
pub open spec fn spec_combine(a: NumView, b: NumView, extra: u8, extra_bitlen: u32) -> Seq<u8> {
    let head = combine_head(a.0, b.0, extra, extra_bitlen);
    let lead = extra_bitlen + 2;
    let m = combine_len(a, b);
    let v = (head as nat) % pow2(lead as nat) + pow2(lead as nat) * pairs_value(
        spec_from_bijbase256(a.1),
        spec_from_bijbase256(b.1),
        m,
    );
    let w = le_bytes(v, ((lead + 16 * m) / 8 + 1) as nat);
    let w2 = w.update(0, w[0] | (head as u8));
    if w2.last() == 0 {
        w2.drop_last()
    } else {
        w2
    }
}

proof fn lemma_le_bytes_of_value(bytes: Seq<u8>)
    ensures
        le_bytes(le_value(bytes), bytes.len()) == bytes,
    decreases bytes.len(),
{
    if bytes.len() > 0 {
        lemma_le_bytes_of_value(bytes.drop_first());
        let v = le_value(bytes);
        vstd::arithmetic::div_mod::lemma_fundamental_div_mod_converse(
            v as int,
            256,
            le_value(bytes.drop_first()) as int,
            bytes[0] as int,
        );
        assert(seq![(v % 256) as u8].add(bytes.drop_first()) =~= bytes);
    }
}

/// One place of digits written after `r` pending bits `crem`: two full bytes
/// go out and `r` bits stay pending.
proof fn lemma_combine_step(w: u16, crem: u8, r: u32)
    requires
        1 <= r <= 7,
        (crem as u32) < (1u32 << r),
    ensures
        ((((w as u8) << r) | crem) as u32) + 256 * (((w >> ((8 - r) as u32)) as u8) as u32) + 65536
            * (((w >> ((16 - r) as u32)) as u8) as u32) == (crem as u32) + (w as u32) * (1u32 << r),
        (((w >> ((16 - r) as u32)) as u8) as u32) < (1u32 << r),
{
    assert(((((w as u8) << r) | crem) as u32) + 256 * (((w >> ((8 - r) as u32)) as u8) as u32)
        + 65536 * (((w >> ((16 - r) as u32)) as u8) as u32) == (crem as u32) + (w as u32) * (1u32
        << r) && (((w >> ((16 - r) as u32)) as u8) as u32) < (1u32 << r)) by (bit_vector)
        requires
            1 <= r <= 7,
            (crem as u32) < (1u32 << r),
    ;
}

/// One place of digits written with no bits pending: two whole bytes go out
/// and nothing stays pending.
proof fn lemma_combine_step_whole(w: u16)
    ensures
        ((((w as u8) << 0u32) | 0u8) as u32) + 256 * (((w >> 8u32) as u8) as u32) == (w as u32) * (
        1u32 << 0u32),
{
    assert(((((w as u8) << 0u32) | 0u8) as u32) + 256 * (((w >> 8u32) as u8) as u32) == (w as u32)
        * (1u32 << 0u32)) by (bit_vector);
}

/// The first byte, with the bits of `h` above the lowest `r` OR-ed into it.
proof fn lemma_combine_first_byte(x: u8, h: u8, r: u32)
    requires
        r < 8,
    ensures
        (((x << r) | (h & (((1u32 << r) - 1) as u8))) | h) == ((x << r) | h),
        ((h & (((1u32 << r) - 1) as u8)) | h) == h,
        (h & (((1u32 << r) - 1) as u8)) as u32 == (h as u32) % (1u32 << r),
        (h | h) == h,
{
    assert((((x << r) | (h & (((1u32 << r) - 1) as u8))) | h) == ((x << r) | h) && ((h & (((1u32
        << r) - 1) as u8)) | h) == h && (h & (((1u32 << r) - 1) as u8)) as u32 == (h as u32) % (1u32
        << r) && (h | h) == h) by (bit_vector)
        requires
            r < 8,
    ;
}

/// The bits before the digits, as the code computes them in a byte when they
/// fit in one and in a 16-bit word when they do not.
proof fn lemma_combine_head(sb: u8, extra: u8, e: u32)
    requires
        sb <= 3,
        e <= 8,
    ensures
        e + 2 < 8 ==> ((sb << e) | extra) as u16 == ((sb as u16) << (e as u16)) | (extra as u16),
        ((sb as u16) << e) == ((sb as u16) << (e as u16)),
        e + 2 >= 8 ==> ((((sb as u16) << (e as u16)) | (extra as u16)) as u32) < (1u32 << (e + 2)),
        e + 2 >= 8 ==> (((((sb as u16) << (e as u16)) | (extra as u16)) as u8) as u32) + 256 * (((((
        sb as u16) << (e as u16)) | (extra as u16)) >> 8u32) as u8) as u32 == ((((sb as u16) << (
        e as u16)) | (extra as u16)) as u32),
        e + 2 >= 8 ==> ((((((sb as u16) << (e as u16)) | (extra as u16)) >> 8u32) as u8) as u32) < (
        1u32 << ((e - 6) as u32)),
{
    assert((e + 2 < 8 ==> ((sb << e) | extra) as u16 == ((sb as u16) << (e as u16)) | (
    extra as u16)) && ((sb as u16) << e) == ((sb as u16) << (e as u16)) && (e + 2 >= 8 ==> ((((
    sb as u16) << (e as u16)) | (extra as u16)) as u32) < (1u32 << (e + 2))) && (e + 2 >= 8 ==> (
    ((((sb as u16) << (e as u16)) | (extra as u16)) as u8) as u32) + 256 * (((((sb as u16) << (
    e as u16)) | (extra as u16)) >> 8u32) as u8) as u32 == ((((sb as u16) << (e as u16)) | (
    extra as u16)) as u32)) && (e + 2 >= 8 ==> ((((((sb as u16) << (e as u16)) | (extra as u16))
        >> 8u32) as u8) as u32) < (1u32 << ((e - 6) as u32)))) by (bit_vector)
        requires
            sb <= 3,
            e <= 8,
    ;
}

/// `1 << r` is two to the power `r`.
proof fn lemma_shift_is_pow2(r: u32)
    requires
        r < 32,
    ensures
        (1u32 << r) as nat == pow2(r as nat),
{
    lemma_u32_pow2_no_overflow(r as nat);
    lemma_u32_shl_is_mul(1u32, r);
}

proof fn lemma_scale_sum(p: nat, q: nat, pq: nat, a: nat, b: nat, w: nat)
    requires
        pq == p * q,
        b == a + q * w,
    ensures
        p * b == p * a + pq * w,
{
    assert(p * (a + q * w) == p * a + (p * q) * w) by (nonlinear_arith);
}

/// The arithmetic of one place of digits: the pending bits and the two bytes
/// written keep the bytes so far standing for the bits so far.
proof fn lemma_combine_value_step(
    clean: Seq<u8>,
    crem: u8,
    r: u32,
    w: u16,
    low: u8,
    high: u8,
    nrem: u8,
    lead: nat,
    i: nat,
    start: nat,
    pairs: nat,
    next_pairs: nat,
)
    requires
        r <= 7,
        8 * clean.len() + r == lead + 16 * i,
        le_value(clean) + pow2(8 * clean.len()) * crem == start + pow2(lead) * pairs,
        next_pairs == pairs + pow2(16 * i) * w,
        low as u32 + 256 * (high as u32) + 65536 * (nrem as u32) == (crem as u32) + (w as u32) * (
        1u32 << r),
    ensures
        le_value(clean.push(low).push(high)) + pow2(8 * (clean.len() + 2) as nat) * nrem == start
            + pow2(lead) * next_pairs,
{
    let n = clean.len();
    lemma_le_value_push(clean, low);
    lemma_le_value_push(clean.push(low), high);
    lemma_shift_is_pow2(r);
    let p = pow2(8 * n);
    lemma_pow2_adds(8 * n, 8);
    lemma_pow2_adds(8 * n, 16);
    lemma_pow2_adds(8 * n, r as nat);
    lemma_pow2_adds(lead, 16 * i);
    lemma2_to64();
    assert(8 * (n + 2) == 8 * n + 16);
    assert(8 * (n + 1) == 8 * n + 8);
    let q = pow2(r as nat);
    assert(p * low + (p * 256) * high + (p * 65536) * nrem == p * (low + 256 * high + 65536 * nrem))
        by (nonlinear_arith);
    assert(p * (crem + w * q) == p * crem + (p * q) * w) by (nonlinear_arith);
    lemma_scale_sum(pow2(lead), pow2(16 * i), pow2(lead + 16 * i), pairs, next_pairs, w as nat);
}

impl Num {
    /// The bytes of two numbers combined with `extra_bitlen` bits of `extra`:
    /// see `spec_combine`.
    pub fn combine(&self, other: &Self, extra: u8, extra_bitlen: u32) -> (res: Vec<u8>)
        requires
            extra_bitlen <= 8,
        ensures
            res@ == spec_combine(self@, other@, extra, extra_bitlen),
    {
        let mut selfdigs = self.digits.clone();
        let mut otherdigs = other.digits.clone();
        proof {
            assert(selfdigs@ =~= self.digits@);
            assert(otherdigs@ =~= other.digits@);
        }
        from_bijbase256(&mut selfdigs);
        from_bijbase256(&mut otherdigs);

        let maxlen = if selfdigs.len() >= otherdigs.len() {
            selfdigs.len()
        } else {
            otherdigs.len()
        };
        let mut res: Vec<u8> = Vec::new();
        let ob = other.sign.to_byte();
        let selfb = self.sign.to_byte();
        let sb = (ob << 1) | selfb;
        assert(sb <= 3) by (bit_vector)
            requires
                sb == (ob << 1) | selfb,
                ob <= 1,
                selfb <= 1,
        ;
        let ghost head = combine_head(self@.0, other@.0, extra, extra_bitlen);
        let ghost hb = head as u8;
        let ghost lead = (extra_bitlen + 2) as nat;
        proof {
            lemma_combine_head(sb, extra, extra_bitlen);
            lemma_pow2_pos(lead);
        }
        let mut rem = sb;
        let mut rem_bitlen: u32 = 2;
        rem_bitlen += extra_bitlen;
        let ghost mut clean: Seq<u8>;
        let ghost mut crem: u8;
        if rem_bitlen < 8 {
            rem = (rem << extra_bitlen) | extra;
            proof {
                clean = seq![];
                crem = rem & (((1u32 << rem_bitlen) - 1) as u8);
                lemma_combine_first_byte(0, rem, rem_bitlen);
                lemma_shift_is_pow2(rem_bitlen);
                assert(head == rem as u16);
                lemma2_to64();
                assert(le_value(clean) == 0);
                assert(pairs_value(selfdigs@, otherdigs@, 0) == 0);
                assert(crem as nat == (head as nat) % pow2(lead));
                assert(pow2(8 * clean.len()) == 1);
                vstd::arithmetic::mul::lemma_mul_basics(pow2(lead) as int);
                vstd::arithmetic::mul::lemma_mul_basics(crem as int);
                assert(le_value(clean) + pow2(8 * clean.len()) * crem == (head as nat) % pow2(lead)
                    + pow2(lead) * pairs_value(selfdigs@, otherdigs@, 0));
            }
        } else {
            let t: u16 = ((rem as u16) << extra_bitlen) | (extra as u16);
            res.push(t as u8);
            rem = (t >> 8) as u8;
            rem_bitlen -= 8;
            proof {
                clean = seq![t as u8];
                crem = rem;
                assert(t == head);
                lemma_shift_is_pow2((extra_bitlen + 2) as u32);
                lemma_shift_is_pow2(rem_bitlen);
                lemma2_to64();
                assert(le_value(clean) == hb as nat) by {
                    assert(clean.drop_first() =~= Seq::<u8>::empty());
                    assert(le_value(Seq::<u8>::empty()) == 0);
                }
                vstd::arithmetic::div_mod::lemma_small_mod(head as nat, pow2(lead));
                lemma_combine_first_byte(0, hb, 0);
                assert(pairs_value(selfdigs@, otherdigs@, 0) == 0);
                assert(hb as nat + 256 * crem == head as nat);
                assert(pow2(8 * clean.len()) == 256);
                vstd::arithmetic::mul::lemma_mul_basics(pow2(lead) as int);
                assert(le_value(clean) + pow2(8 * clean.len()) * crem == (head as nat) % pow2(lead)
                    + pow2(lead) * pairs_value(selfdigs@, otherdigs@, 0));
            }
        }
        let ghost sd = selfdigs@;
        let ghost od = otherdigs@;
        let mut i: usize = 0;
        while i < maxlen
            invariant
                i <= maxlen,
                sd == selfdigs@,
                od == otherdigs@,
                sd == spec_from_bijbase256(self@.1),
                od == spec_from_bijbase256(other@.1),
                maxlen == combine_len(self@, other@),
                rem_bitlen <= 7,
                rem_bitlen < 8,
                lead == extra_bitlen + 2,
                hb == head as u8,
                res@.len() == clean.len(),
                8 * clean.len() + rem_bitlen == lead + 16 * i,
                (crem as u32) < (1u32 << rem_bitlen),
                le_value(clean) + pow2(8 * clean.len()) * crem == (head as nat) % pow2(lead) + pow2(
                    lead,
                ) * pairs_value(sd, od, i as nat),
                clean.len() > 0 ==> res@ == clean.update(0, clean[0] | hb),
                clean.len() > 0 ==> rem == crem,
                clean.len() == 0 ==> rem == hb && crem == (hb & (((1u32 << rem_bitlen) - 1) as u8)),
                clean.len() == 0 ==> i == 0,
            decreases maxlen - i,
        {
            let selfbyte = if i < selfdigs.len() {
                selfdigs[i]
            } else {
                0
            };
            let otherbyte = if i < otherdigs.len() {
                otherdigs[i]
            } else {
                0
            };
            let combined = interleave(selfbyte, otherbyte);

            let combined_low = ((combined as u8) << rem_bitlen) | rem;
            let combined_high = (combined >> (8 - rem_bitlen)) as u8;

            res.push(combined_low);
            res.push(combined_high);

            rem = if rem_bitlen == 0 {
                0
            } else {
                (combined >> (16 - rem_bitlen)) as u8
            };
            proof {
                let clow = ((combined as u8) << rem_bitlen) | crem;
                if rem_bitlen == 0 {
                    assert((1u32 << 0u32) == 1) by (bit_vector);
                    assert(crem == 0);
                    lemma_combine_step_whole(combined);
                } else {
                    lemma_combine_step(combined, crem, rem_bitlen);
                }
                assert(selfbyte == digit_at(sd, i as int));
                assert(otherbyte == digit_at(od, i as int));
                assert(pairs_value(sd, od, (i + 1) as nat) == pairs_value(sd, od, i as nat) + pow2(
                    16 * i as nat,
                ) * combined);
                lemma_combine_value_step(
                    clean,
                    crem,
                    rem_bitlen,
                    combined,
                    clow,
                    combined_high,
                    rem,
                    lead,
                    i as nat,
                    (head as nat) % pow2(lead),
                    pairs_value(sd, od, i as nat),
                    pairs_value(sd, od, (i + 1) as nat),
                );
                if clean.len() == 0 {
                    lemma_combine_first_byte(combined as u8, hb, rem_bitlen);
                    assert(res@ =~= clean.push(clow).push(combined_high).update(0, clow | hb));
                } else {
                    assert(res@ =~= clean.push(clow).push(combined_high).update(
                        0,
                        clean[0] | hb,
                    ));
                }
                clean = clean.push(clow).push(combined_high);
                crem = rem;
            }
            i += 1;
        }
        proof {
            let v = (head as nat) % pow2(lead) + pow2(lead) * pairs_value(sd, od, maxlen as nat);
            lemma_le_value_push(clean, crem);
            lemma_le_bytes_of_value(clean.push(crem));
            assert((lead + 16 * maxlen) / 8 == clean.len());
            let w = le_bytes(v, ((lead + 16 * maxlen) / 8 + 1) as nat);
            assert(w == clean.push(crem));
            if clean.len() == 0 {
                lemma_combine_first_byte(0, hb, rem_bitlen);
                assert(w.update(0, w[0] | hb) =~= seq![hb]);
            } else {
                assert(w.update(0, w[0] | hb) =~= res@.push(crem));
            }
        }
        if rem > 0 {
            res.push(rem);
        }
        res
    }
}

/// Reading back `n` little-endian bytes of a number below `256^n` gives it.
proof fn lemma_le_value_of_bytes(v: nat, n: nat)
    requires
        v < pow2(8 * n),
    ensures
        le_value(le_bytes(v, n)) == v,
    decreases n,
{
    lemma2_to64();
    if n == 0 {
        assert(le_bytes(v, n) =~= Seq::<u8>::empty());
    } else {
        let p = pow2(8 * (n - 1) as nat);
        lemma_pow2_adds(8, 8 * (n - 1) as nat);
        assert(8 + 8 * (n - 1) as nat == 8 * n);
        assert(v / 256 < p) by (nonlinear_arith)
            requires
                v < 256 * p,
        ;
        lemma_le_value_of_bytes(v / 256, (n - 1) as nat);
        let b = le_bytes(v, n);
        assert(b.drop_first() =~= le_bytes(v / 256, (n - 1) as nat));
        assert(b[0] == (v % 256) as u8);
        vstd::arithmetic::div_mod::lemma_fundamental_div_mod(v as int, 256);
    }
}

/// A leading 0 adds nothing to the value of a little-endian string.
pub proof fn lemma_le_value_drop_zero(bytes: Seq<u8>)
    requires
        bytes.len() > 0,
        bytes.last() == 0,
    ensures
        le_value(bytes.drop_last()) == le_value(bytes),
{
    lemma_le_value_push(bytes.drop_last(), 0);
    assert(bytes.drop_last().push(0) == bytes);
}

/// The interleaved words of `n` places fit in `16 * n` bits.
proof fn lemma_pairs_bound(a: Seq<u8>, b: Seq<u8>, n: nat)
    ensures
        pairs_value(a, b, n) < pow2(16 * n),
    decreases n,
{
    lemma2_to64();
    if n > 0 {
        lemma_pairs_bound(a, b, (n - 1) as nat);
        let p = pow2(16 * (n - 1) as nat);
        let w = spec_interleave(digit_at(a, n - 1), digit_at(b, n - 1)) as nat;
        lemma_pow2_adds(16 * (n - 1) as nat, 16);
        assert(16 * (n - 1) as nat + 16 == 16 * n);
        assert(pairs_value(a, b, (n - 1) as nat) + p * w < p * 65536) by (nonlinear_arith)
            requires
                pairs_value(a, b, (n - 1) as nat) < p,
                w < 65536,
        ;
    }
}

/// Places past the end of both digit strings add nothing.
proof fn lemma_pairs_extend(a: Seq<u8>, b: Seq<u8>, k: nat, n: nat)
    requires
        a.len() <= k <= n,
        b.len() <= k,
    ensures
        pairs_value(a, b, n) == pairs_value(a, b, k),
    decreases n,
{
    if n > k {
        lemma_pairs_extend(a, b, k, (n - 1) as nat);
        assert(spec_interleave(0, 0) == 0) by (bit_vector);
        assert(digit_at(a, n - 1) == 0 && digit_at(b, n - 1) == 0);
    }
}

/// Interleaving is one to one.
proof fn lemma_interleave_injective(a1: u8, b1: u8, a2: u8, b2: u8)
    requires
        spec_interleave(a1, b1) == spec_interleave(a2, b2),
    ensures
        a1 == a2,
        b1 == b2,
{
    assert(a1 == a2 && b1 == b2) by (bit_vector)
        requires
            spec_interleave(a1, b1) == spec_interleave(a2, b2),
    ;
}

/// The interleaved words of `n` places give back the digits at those places.
proof fn lemma_pairs_injective(a1: Seq<u8>, b1: Seq<u8>, a2: Seq<u8>, b2: Seq<u8>, n: nat)
    requires
        pairs_value(a1, b1, n) == pairs_value(a2, b2, n),
    ensures
        forall|i: int|
            0 <= i < n ==> digit_at(a1, i) == digit_at(a2, i) && digit_at(b1, i) == digit_at(b2, i),
    decreases n,
{
    if n > 0 {
        let k = pow2(16 * (n - 1) as nat);
        let x1 = pairs_value(a1, b1, (n - 1) as nat);
        let x2 = pairs_value(a2, b2, (n - 1) as nat);
        let w1 = spec_interleave(digit_at(a1, n - 1), digit_at(b1, n - 1));
        let w2 = spec_interleave(digit_at(a2, n - 1), digit_at(b2, n - 1));
        lemma_pairs_bound(a1, b1, (n - 1) as nat);
        lemma_pairs_bound(a2, b2, (n - 1) as nat);
        lemma_pow2_pos(16 * (n - 1) as nat);
        vstd::arithmetic::mul::lemma_mul_is_commutative(k as int, w1 as int);
        vstd::arithmetic::mul::lemma_mul_is_commutative(k as int, w2 as int);
        vstd::arithmetic::div_mod::lemma_fundamental_div_mod_converse(
            pairs_value(a1, b1, n) as int,
            k as int,
            w1 as int,
            x1 as int,
        );
        vstd::arithmetic::div_mod::lemma_fundamental_div_mod_converse(
            pairs_value(a2, b2, n) as int,
            k as int,
            w2 as int,
            x2 as int,
        );
        lemma_interleave_injective(
            digit_at(a1, n - 1),
            digit_at(b1, n - 1),
            digit_at(a2, n - 1),
            digit_at(b2, n - 1),
        );
        lemma_pairs_injective(a1, b1, a2, b2, (n - 1) as nat);
    }
}

/// Two digit strings without leading 0 that agree at every place are equal.
proof fn lemma_digits_equal(a1: Seq<u8>, a2: Seq<u8>, n: nat)
    requires
        a1.len() <= n,
        a2.len() <= n,
        a1.len() == 0 || a1.last() != 0,
        a2.len() == 0 || a2.last() != 0,
        forall|i: int| 0 <= i < n ==> digit_at(a1, i) == digit_at(a2, i),
    ensures
        a1 == a2,
{
    if a1.len() < a2.len() {
        assert(digit_at(a1, a2.len() - 1) == 0);
    } else if a2.len() < a1.len() {
        assert(digit_at(a2, a1.len() - 1) == 0);
    } else {
        assert forall|i: int| 0 <= i < a1.len() implies a1[i] == a2[i] by {
            assert(digit_at(a1, i) == digit_at(a2, i));
        }
        assert(a1 =~= a2);
    }
}

/// The head of a wall's bytes: two bits of `extra`, then the two sign bits.
proof fn lemma_head_parts(x1: u8, y1: u8, e1: u8, x2: u8, y2: u8, e2: u8)
    requires
        x1 <= 1,
        y1 <= 1,
        x2 <= 1,
        y2 <= 1,
        e1 < 4,
        e2 < 4,
    ensures
        ((((y1 << 1u8) | x1) as u16) << 2u16) | (e1 as u16) < 16,
        ((((y1 << 1u8) | x1) as u16) << 2u16) | (e1 as u16) == ((((y2 << 1u8) | x2) as u16)
            << 2u16) | (e2 as u16) ==> x1 == x2 && y1 == y2 && e1 == e2,
{
    assert(((((y1 << 1u8) | x1) as u16) << 2u16) | (e1 as u16) < 16 && (((((y1 << 1u8) | x1) as u16)
        << 2u16) | (e1 as u16) == ((((y2 << 1u8) | x2) as u16) << 2u16) | (e2 as u16) ==> x1 == x2
        && y1 == y2 && e1 == e2)) by (bit_vector)
        requires
            x1 <= 1,
            y1 <= 1,
            x2 <= 1,
            y2 <= 1,
            e1 < 4,
            e2 < 4,
    ;
}

/// The value of the bytes of two numbers combined with two bits: the head,
/// then the interleaved digits above it.
pub proof fn lemma_combine_value(a: NumView, b: NumView, extra: u8)
    requires
        extra < 4,
    ensures
        combine_head(a.0, b.0, extra, 2) < 16,
        le_value(spec_combine(a, b, extra, 2)) == combine_head(a.0, b.0, extra, 2) + 16
            * pairs_value(spec_from_bijbase256(a.1), spec_from_bijbase256(b.1), combine_len(a, b)),
{
    let head = combine_head(a.0, b.0, extra, 2);
    lemma_head_parts(sign_byte(a.0), sign_byte(b.0), extra, sign_byte(a.0), sign_byte(b.0), extra);
    lemma2_to64();
    let m = combine_len(a, b);
    let pairs = pairs_value(spec_from_bijbase256(a.1), spec_from_bijbase256(b.1), m);
    assert(pow2(4) == 16) by {
        vstd::arithmetic::power2::lemma2_to64();
    }
    vstd::arithmetic::div_mod::lemma_small_mod(head as nat, 16);
    let v = (head as nat) % pow2(4) + pow2(4) * pairs;
    assert(v == head + 16 * pairs);
    let n = ((4 + 16 * m) / 8 + 1) as nat;
    assert(n == 2 * m + 1);
    lemma_pairs_bound(spec_from_bijbase256(a.1), spec_from_bijbase256(b.1), m);
    lemma_pow2_adds(16 * m, 8);
    assert(8 * n == 16 * m + 8);
    assert(v < pow2(8 * n)) by (nonlinear_arith)
        requires
            v == head + 16 * pairs,
            head < 16,
            pairs < pow2(16 * m),
            pow2(8 * n) == pow2(16 * m) * pow2(8),
            pow2(8) == 256,
    ;
    lemma_le_value_of_bytes(v, n);
    let w = le_bytes(v, n);
    assert(w[0] == (v % 256) as u8);
    let x = (v % 256) as u8;
    let h = head as u8;
    assert(x % 16 == h) by {
        vstd::arithmetic::div_mod::lemma_mod_mod(v as int, 16, 16);
        vstd::arithmetic::div_mod::lemma_fundamental_div_mod_converse(v as int, 16, pairs as int, head as int);
        assert((v % 256) % 16 == v % 16) by (nonlinear_arith);
    }
    assert(x | h == x) by (bit_vector)
        requires
            x % 16 == h,
    ;
    let w2 = w.update(0, w[0] | h);
    assert(w2 =~= w);
    if w2.last() == 0 {
        lemma_le_value_drop_zero(w2);
    }
}

/// Two walls' worth of combined bytes with the same value come from the same
/// numbers and the same two bits.
pub proof fn lemma_combine_value_injective(
    a1: NumView,
    b1: NumView,
    e1: u8,
    a2: NumView,
    b2: NumView,
    e2: u8,
)
    requires
        e1 < 4,
        e2 < 4,
        le_value(spec_combine(a1, b1, e1, 2)) == le_value(spec_combine(a2, b2, e2, 2)),
    ensures
        a1 == a2,
        b1 == b2,
        e1 == e2,
{
    lemma_combine_value(a1, b1, e1);
    lemma_combine_value(a2, b2, e2);
    let (fa1, fb1) = (spec_from_bijbase256(a1.1), spec_from_bijbase256(b1.1));
    let (fa2, fb2) = (spec_from_bijbase256(a2.1), spec_from_bijbase256(b2.1));
    let (m1, m2) = (combine_len(a1, b1), combine_len(a2, b2));
    let h1 = combine_head(a1.0, b1.0, e1, 2);
    let h2 = combine_head(a2.0, b2.0, e2, 2);
    let p1 = pairs_value(fa1, fb1, m1);
    let p2 = pairs_value(fa2, fb2, m2);
    vstd::arithmetic::mul::lemma_mul_is_commutative(16, p1 as int);
    vstd::arithmetic::mul::lemma_mul_is_commutative(16, p2 as int);
    vstd::arithmetic::div_mod::lemma_fundamental_div_mod_converse(h1 + 16 * p1, 16, p1 as int, h1 as int);
    vstd::arithmetic::div_mod::lemma_fundamental_div_mod_converse(h2 + 16 * p2, 16, p2 as int, h2 as int);
    lemma_head_parts(sign_byte(a1.0), sign_byte(b1.0), e1, sign_byte(a2.0), sign_byte(b2.0), e2);
    assert(a1.0 == a2.0 && b1.0 == b2.0);
    let n = if m1 >= m2 { m1 } else { m2 };
    lemma_pairs_extend(fa1, fb1, m1, n);
    lemma_pairs_extend(fa2, fb2, m2, n);
    lemma_pairs_injective(fa1, fb1, fa2, fb2, n);
    lemma_from_bijbase256_no_leading_zero(a1.1);
    lemma_from_bijbase256_no_leading_zero(b1.1);
    lemma_from_bijbase256_no_leading_zero(a2.1);
    lemma_from_bijbase256_no_leading_zero(b2.1);
    lemma_digits_equal(fa1, fa2, n);
    lemma_digits_equal(fb1, fb2, n);
    lemma_to_bijbase256_undoes_from(a1.1);
    lemma_to_bijbase256_undoes_from(a2.1);
    lemma_to_bijbase256_undoes_from(b1.1);
    lemma_to_bijbase256_undoes_from(b2.1);
}

/// The bits at the even places of a 16-bit word, packed into a byte.
pub open spec fn even_bits(w: u16) -> u8 {
    ((w & 1) | ((w >> 1u16) & 2) | ((w >> 2u16) & 4) | ((w >> 3u16) & 8) | ((w >> 4u16) & 16) | ((w
        >> 5u16) & 32) | ((w >> 6u16) & 64) | ((w >> 7u16) & 128)) as u8
}

/// The bits at the odd places of a 16-bit word, packed into a byte.
pub open spec fn odd_bits(w: u16) -> u8 {
    even_bits(w >> 1u16)
}

/// Interleaving the even and the odd bits of a word gives the word back.
proof fn lemma_deinterleave(w: u16)
    ensures
        spec_interleave(even_bits(w), odd_bits(w)) == w,
{
    assert(spec_interleave(even_bits(w), odd_bits(w)) == w) by (bit_vector);
}

/// A digit placed below a digit string, leaving no leading 0.
pub open spec fn cons_digit(d: u8, digits: Seq<u8>) -> Seq<u8> {
    if digits.len() == 0 && d == 0 {
        seq![]
    } else {
        seq![d] + digits
    }
}

/// Two plain digit strings whose interleaved words stand for `p`: the words of
/// `p` in base 65536, each split into its even and its odd bits.
pub open spec fn split_digits(p: nat) -> (Seq<u8>, Seq<u8>)
    decreases p,
{
    if p == 0 {
        (seq![], seq![])
    } else {
        let w = (p % 65536) as u16;
        let (a, b) = split_digits(p / 65536);
        (cons_digit(even_bits(w), a), cons_digit(odd_bits(w), b))
    }
}

/// The digits at the places of a string with a digit placed below it.
proof fn lemma_cons_digit(d: u8, digits: Seq<u8>)
    ensures
        digit_at(cons_digit(d, digits), 0) == d,
        forall|i: int| 0 <= i ==> digit_at(cons_digit(d, digits), i + 1) == digit_at(digits, i),
        digits.len() == 0 || digits.last() != 0 ==> {
            let c = cons_digit(d, digits);
            c.len() == 0 || c.last() != 0
        },
        cons_digit(d, digits).len() <= digits.len() + 1,
        cons_digit(d, digits).len() == 0 ==> d == 0 && digits.len() == 0,
{
    let c = cons_digit(d, digits);
    if c.len() > 0 {
        assert forall|i: int| 0 <= i implies digit_at(c, i + 1) == digit_at(digits, i) by {
            if i < digits.len() {
                assert(c[i + 1] == digits[i]);
            }
        }
        if digits.len() > 0 {
            assert(c.last() == digits.last());
        }
    }
}

/// Interleaved words one place up: the words of strings with a digit below
/// stand for the lowest word plus 65536 times the words of the rest.
proof fn lemma_pairs_shift(a: Seq<u8>, b: Seq<u8>, a2: Seq<u8>, b2: Seq<u8>, n: nat)
    requires
        forall|i: int| 0 <= i ==> digit_at(a, i + 1) == digit_at(a2, i),
        forall|i: int| 0 <= i ==> digit_at(b, i + 1) == digit_at(b2, i),
    ensures
        pairs_value(a, b, n + 1) == spec_interleave(digit_at(a, 0), digit_at(b, 0)) + 65536
            * pairs_value(a2, b2, n),
    decreases n,
{
    lemma2_to64();
    if n == 0 {
        assert(pairs_value(a, b, 0) == 0);
        assert(pairs_value(a2, b2, 0) == 0);
        assert(pow2(0) == 1);
        assert(pairs_value(a, b, 1) == pairs_value(a, b, 0) + pow2(0) * spec_interleave(
            digit_at(a, 0),
            digit_at(b, 0),
        ));
    } else {
        lemma_pairs_shift(a, b, a2, b2, (n - 1) as nat);
        let w = spec_interleave(digit_at(a, n as int), digit_at(b, n as int)) as nat;
        assert(digit_at(a, n as int) == digit_at(a2, n - 1));
        assert(digit_at(b, n as int) == digit_at(b2, n - 1));
        let q = pow2(16 * (n - 1) as nat);
        lemma_pow2_adds(16, 16 * (n - 1) as nat);
        assert(16 + 16 * (n - 1) as nat == 16 * n);
        assert(pow2(16 * n) == 65536 * q);
        let x = pairs_value(a2, b2, (n - 1) as nat);
        let w0 = spec_interleave(digit_at(a, 0), digit_at(b, 0)) as nat;
        assert(pairs_value(a, b, n + 1) == pairs_value(a, b, n) + pow2(16 * n) * w);
        assert(pairs_value(a, b, n) == w0 + 65536 * x);
        assert(pairs_value(a2, b2, n) == x + q * w);
        assert(65536 * x + (65536 * q) * w == 65536 * (x + q * w)) by (nonlinear_arith);
    }
}

/// The digit strings that `split_digits` makes have no leading 0 and their
/// interleaved words stand for `p`, counted over any number of places that
/// covers both.
pub proof fn lemma_split_digits(p: nat, n: nat)
    requires
        split_digits(p).0.len() <= n,
        split_digits(p).1.len() <= n,
    ensures
        split_digits(p).0.len() == 0 || split_digits(p).0.last() != 0,
        split_digits(p).1.len() == 0 || split_digits(p).1.last() != 0,
        pairs_value(split_digits(p).0, split_digits(p).1, n) == p,
    decreases p,
{
    let (a, b) = split_digits(p);
    if p == 0 {
        lemma_pairs_extend(a, b, 0, n);
    } else {
        let w = (p % 65536) as u16;
        let (a2, b2) = split_digits(p / 65536);
        lemma_cons_digit(even_bits(w), a2);
        lemma_cons_digit(odd_bits(w), b2);
        lemma_deinterleave(w);
        vstd::arithmetic::div_mod::lemma_fundamental_div_mod(p as int, 65536);
        if n == 0 {
            lemma_split_digits(p / 65536, 0);
            assert(spec_interleave(0, 0) == 0) by (bit_vector);
            assert(w == 0);
            assert(false);
        } else {
            lemma_split_digits(p / 65536, (n - 1) as nat);
            lemma_pairs_shift(a, b, a2, b2, (n - 1) as nat);
        }
    }
}

/// Every number is the value of the combined bytes of some two numbers with
/// some two bits.
pub proof fn lemma_combine_reaches(v: nat) -> (r: (NumView, NumView, u8))
    ensures
        r.2 < 4,
        le_value(spec_combine(r.0, r.1, r.2, 2)) == v,
{
    let h = (v % 16) as u8;
    let p = v / 16;
    let (da, db) = split_digits(p);
    let n = if da.len() >= db.len() { da.len() } else { db.len() };
    lemma_split_digits(p, n);
    let e = h & 3;
    let xa = (h >> 2u8) & 1;
    let yb = h >> 3u8;
    let sa = if xa == 1 { Sign::Positive } else { Sign::Negative };
    let sb = if yb == 1 { Sign::Positive } else { Sign::Negative };
    assert(e < 4 && xa <= 1 && yb <= 1 && ((((yb << 1u8) | xa) as u16) << 2u16) | (e as u16)
        == h as u16) by (bit_vector)
        requires
            h < 16,
            e == h & 3,
            xa == (h >> 2u8) & 1,
            yb == h >> 3u8,
    ;
    assert(sign_byte(sa) == xa && sign_byte(sb) == yb);
    let a = (sa, bij_digits(le_value(da)));
    let b = (sb, bij_digits(le_value(db)));
    lemma_bij_digits(le_value(da));
    lemma_bij_digits(le_value(db));
    lemma_le_canonical(da);
    lemma_le_canonical(db);
    assert(spec_from_bijbase256(a.1) == da);
    assert(spec_from_bijbase256(b.1) == db);
    lemma_combine_value(a, b, e);
    vstd::arithmetic::div_mod::lemma_fundamental_div_mod(v as int, 16);
    (a, b, e)
}

/// Calls `rand::random::<u8>`: a byte from the thread-local generator. Any
/// byte may come back.
#[verifier::external_body]
pub(crate) fn random_byte() -> u8 {
    rand::random::<u8>()
}

/// Calls `rand::random_ratio`: `true` with probability `numerator /
/// denominator`, from the thread-local generator. Claimed, as its documentation
/// guarantees: with a numerator of 0 it is `false` and with a numerator equal to
/// the denominator it is `true`. It panics when the denominator is 0 or below
/// the numerator, so those inputs are left out.
#[verifier::external_body]
pub(crate) fn random_ratio(numerator: u32, denominator: u32) -> (res: bool)
    requires
        0 < denominator,
        numerator <= denominator,
    ensures
        numerator == 0 ==> !res,
        numerator == denominator ==> res,
{
    rand::random_ratio(numerator, denominator)
}

impl Num {
    /// A random number: random digits, each followed by one more with
    /// probability `1 - end_numerator / end_denominator`, and a random sign.
    /// A certain end gives no digits; an end that never comes gives digits up
    /// to the longest length a `Vec` can count.
    pub fn rand_num(end_numerator: u32, end_denominator: u32) -> (res: Self)
        requires
            0 < end_denominator,
            end_numerator <= end_denominator,
        ensures
            end_numerator == end_denominator ==> res@.1.len() == 0,
            end_numerator == 0 ==> res@.1.len() == usize::MAX,
    {
        let mut res: Vec<u8> = Vec::new();
        while res.len() < usize::MAX && random_ratio(end_denominator - end_numerator, end_denominator)
            invariant
                0 < end_denominator,
                end_numerator <= end_denominator,
                end_numerator == end_denominator ==> res@.len() == 0,
            decreases usize::MAX - res.len(),
        {
            res.push(random_byte());
        }
        let sign = if random_ratio(1, 2) {
            Sign::Positive
        } else {
            Sign::Negative
        };
        Num::new(sign, res)
    }
}

} // verus!
