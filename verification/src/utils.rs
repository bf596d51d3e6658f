//! Conversions between plain and bijective base-256 digit strings, and the box
//! that frames a wall of text.

use vstd::arithmetic::power2::{lemma2_to64, lemma_pow2_adds, pow2};
use vstd::prelude::*;

verus! {

// Digit strings are little-endian: the "leading" digits stand at the end.
// A plain string has no leading 0's; a bijective one may have, for there the
// digit 0 stands for 256.

/// `x + 1`, wrapping around at 256.
pub open spec fn inc_byte(x: u8) -> u8 {
    if x == 255 { 0 } else { (x + 1) as u8 }
}

/// `x - 1`, wrapping around at 0.
pub open spec fn dec_byte(x: u8) -> u8 {
    if x == 0 { 255 } else { (x - 1) as u8 }
}

/// What a digit of a bijective base-256 string is worth: the digit 0 stands for 256.
pub open spec fn digit_value(d: u8) -> nat {
    if d == 0 {
        256
    } else {
        d as nat
    }
}

/// The number that a bijective base-256 digit string stands for, least
/// significant digit first.
pub open spec fn bij_value(digits: Seq<u8>) -> nat
    decreases digits.len(),
{
    if digits.len() == 0 {
        0
    } else {
        digit_value(digits[0]) + 256 * bij_value(digits.drop_first())
    }
}

/// The number that a little-endian byte string stands for.
pub open spec fn le_value(bytes: Seq<u8>) -> nat
    decreases bytes.len(),
{
    if bytes.len() == 0 {
        0
    } else {
        bytes[0] as nat + 256 * le_value(bytes.drop_first())
    }
}

pub proof fn lemma_le_value_push(bytes: Seq<u8>, x: u8)
    ensures
        le_value(bytes.push(x)) == le_value(bytes) + pow2(8 * bytes.len()) * x,
    decreases bytes.len(),
{
    if bytes.len() == 0 {
        lemma2_to64();
        assert(bytes.push(x).drop_first() =~= Seq::<u8>::empty());
        assert(bytes.push(x)[0] == x);
        assert(le_value(Seq::<u8>::empty()) == 0);
        assert(le_value(bytes.push(x)) == x);
    } else {
        lemma_le_value_push(bytes.drop_first(), x);
        assert(bytes.push(x).drop_first() =~= bytes.drop_first().push(x));
        assert(bytes.push(x)[0] == bytes[0]);
        lemma_pow2_adds(8, 8 * (bytes.len() - 1) as nat);
        lemma2_to64();
        let p = pow2(8 * (bytes.len() - 1) as nat);
        assert(8 + 8 * (bytes.len() - 1) as nat == 8 * bytes.len());
        assert(pow2(8) * p == pow2(8 * bytes.len()));
        assert(256 * (le_value(bytes.drop_first()) + p * x) == 256 * le_value(bytes.drop_first())
            + (256 * p) * x) by (nonlinear_arith);
    }
}


/// The same for bijective digits: a new most significant digit adds its
/// worth at its place.
pub proof fn lemma_bij_value_push(digits: Seq<u8>, d: u8)
    ensures
        bij_value(digits.push(d)) == bij_value(digits) + pow2(8 * digits.len()) * digit_value(d),
    decreases digits.len(),
{
    lemma2_to64();
    if digits.len() == 0 {
        assert(digits.push(d).drop_first() =~= Seq::<u8>::empty());
        assert(digits.push(d)[0] == d);
        assert(bij_value(Seq::<u8>::empty()) == 0);
        assert(bij_value(digits.push(d)) == digit_value(d));
        assert(pow2(8 * digits.len()) == 1);
    } else {
        lemma_bij_value_push(digits.drop_first(), d);
        assert(digits.push(d).drop_first() =~= digits.drop_first().push(d));
        assert(digits.push(d)[0] == digits[0]);
        lemma_pow2_adds(8, 8 * (digits.len() - 1) as nat);
        let p = pow2(8 * (digits.len() - 1) as nat);
        assert(8 + 8 * (digits.len() - 1) as nat == 8 * digits.len());
        assert(pow2(8) * p == pow2(8 * digits.len()));
        assert(256 * (bij_value(digits.drop_first()) + p * digit_value(d)) == 256 * bij_value(
            digits.drop_first(),
        ) + (256 * p) * digit_value(d)) by (nonlinear_arith);
        assert(bij_value(digits) == digit_value(digits[0]) + 256 * bij_value(digits.drop_first()));
        assert(bij_value(digits.push(d)) == digit_value(digits[0]) + 256 * bij_value(
            digits.drop_first().push(d),
        ));
    }
}

/// Every number has one bijective base-256 digit string only.
pub proof fn lemma_bij_value_injective(a: Seq<u8>, b: Seq<u8>)
    requires
        bij_value(a) == bij_value(b),
    ensures
        a == b,
    decreases a.len(),
{
    if a.len() == 0 || b.len() == 0 {
        if a.len() != 0 || b.len() != 0 {
            assert(false);
        }
        assert(a == b);
    } else {
        let (da, db) = (digit_value(a[0]) - 1, digit_value(b[0]) - 1);
        let (ra, rb) = (bij_value(a.drop_first()), bij_value(b.drop_first()));
        assert(bij_value(a) - 1 == da + 256 * ra);
        assert(bij_value(b) - 1 == db + 256 * rb);
        vstd::arithmetic::div_mod::lemma_fundamental_div_mod_converse(
            bij_value(a) - 1,
            256,
            ra as int,
            da as int,
        );
        vstd::arithmetic::div_mod::lemma_fundamental_div_mod_converse(
            bij_value(b) - 1,
            256,
            rb as int,
            db as int,
        );
        lemma_bij_value_injective(a.drop_first(), b.drop_first());
        assert(a[0] == b[0]);
        assert(a == seq![a[0]].add(a.drop_first()));
        assert(b == seq![b[0]].add(b.drop_first()));
    }
}

/// Whether a plain digit string has no leading 0.
pub open spec fn no_leading_zero(digits: Seq<u8>) -> bool {
    digits.len() == 0 || digits.last() != 0
}

/// The plain base-256 digits of `v`, without a leading 0.
pub open spec fn le_digits(v: nat) -> Seq<u8>
    decreases v,
{
    if v == 0 {
        seq![]
    } else {
        seq![(v % 256) as u8] + le_digits(v / 256)
    }
}

/// The bijective base-256 digits of `v`, each in 1 ..= 256 with 0 standing
/// for 256.
pub open spec fn bij_digits(v: nat) -> Seq<u8>
    decreases v,
{
    if v == 0 {
        seq![]
    } else {
        seq![(v % 256) as u8] + bij_digits(((v - 1) / 256) as nat)
    }
}

/// What `from_bijbase256` turns `num` into: the plain digits of its value.
pub open spec fn spec_from_bijbase256(num: Seq<u8>) -> Seq<u8> {
    le_digits(bij_value(num))
}

/// What `to_bijbase256` turns `num` into: the bijective digits of its value.
pub open spec fn spec_to_bijbase256(num: Seq<u8>) -> Seq<u8> {
    bij_digits(le_value(num))
}

/// The plain digits of a number stand for it and have no leading 0.
pub proof fn lemma_le_digits(v: nat)
    ensures
        le_value(le_digits(v)) == v,
        no_leading_zero(le_digits(v)),
    decreases v,
{
    if v > 0 {
        lemma_le_digits(v / 256);
        let r = le_digits(v / 256);
        let s = seq![(v % 256) as u8] + r;
        assert(s[0] == (v % 256) as u8);
        assert(s.drop_first() =~= r);
        vstd::arithmetic::div_mod::lemma_fundamental_div_mod(v as int, 256);
        if r.len() > 0 {
            assert(s.last() == r.last());
        }
    }
}

/// The bijective digits of a number stand for it.
pub proof fn lemma_bij_digits(v: nat)
    ensures
        bij_value(bij_digits(v)) == v,
    decreases v,
{
    if v > 0 {
        let q = ((v - 1) / 256) as nat;
        lemma_bij_digits(q);
        let s = seq![(v % 256) as u8] + bij_digits(q);
        assert(s[0] == (v % 256) as u8);
        assert(s.drop_first() =~= bij_digits(q));
        vstd::arithmetic::div_mod::lemma_fundamental_div_mod(v - 1, 256);
        let r = (v - 1) % 256;
        if r < 255 {
            vstd::arithmetic::div_mod::lemma_fundamental_div_mod_converse(v as int, 256, q as int, r + 1);
        } else {
            vstd::arithmetic::div_mod::lemma_fundamental_div_mod_converse(v as int, 256, (q + 1) as int, 0);
        }
    }
}

/// A plain digit string without a leading 0 is the plain digits of its value,
/// and a nonempty one stands for a positive number.
pub proof fn lemma_le_canonical(a: Seq<u8>)
    requires
        no_leading_zero(a),
    ensures
        le_digits(le_value(a)) == a,
        a.len() > 0 ==> le_value(a) > 0,
    decreases a.len(),
{
    if a.len() > 0 {
        let t = a.drop_first();
        if t.len() > 0 {
            assert(t.last() == a.last());
        }
        lemma_le_canonical(t);
        let v = le_value(a);
        vstd::arithmetic::div_mod::lemma_fundamental_div_mod_converse(v as int, 256, le_value(t) as int, a[0] as int);
        assert(seq![a[0]] + t =~= a);
    }
}

/// Converting from bijective base 256 and back gives every digit string back.
pub proof fn lemma_to_bijbase256_undoes_from(num: Seq<u8>)
    ensures
        spec_to_bijbase256(spec_from_bijbase256(num)) == num,
{
    lemma_le_digits(bij_value(num));
    lemma_bij_digits(bij_value(num));
    lemma_bij_value_injective(bij_digits(bij_value(num)), num);
}

/// Converting to bijective base 256 and back gives back every digit string
/// without a leading 0.
pub proof fn lemma_from_bijbase256_undoes_to(num: Seq<u8>)
    requires
        num.len() == 0 || num.last() != 0,
    ensures
        spec_from_bijbase256(spec_to_bijbase256(num)) == num,
{
    lemma_bij_digits(le_value(num));
    lemma_le_canonical(num);
}

/// A digit string converted from bijective base 256 has no leading 0.
pub proof fn lemma_from_bijbase256_no_leading_zero(num: Seq<u8>)
    ensures
        spec_from_bijbase256(num).len() == 0 || spec_from_bijbase256(num).last() != 0,
{
    lemma_le_digits(bij_value(num));
}

/// One place of a conversion: digit `x` with carry `c` out balances carry `y`
/// in and digit worth `z`, and so do their values at place `p`.
proof fn lemma_place_step(p: int, x: int, c: int, y: int, z: int)
    requires
        x + 256 * c == y + z,
    ensures
        p * x + c * (256 * p) == y * p + p * z,
{
    assert(p * x + c * (256 * p) == y * p + p * z) by (nonlinear_arith)
        requires
            x + 256 * c == y + z,
    ;
}

pub fn from_bijbase256(num: &mut Vec<u8>)
    ensures
        final(num)@ == spec_from_bijbase256(old(num)@),
        le_value(final(num)@) == bij_value(old(num)@),
        no_leading_zero(final(num)@),
{
    let ghost orig = num@;
    let mut carry = false;
    let mut i: usize = 0;
    while i < num.len()
        invariant
            i <= num@.len() == orig.len(),
            forall|j: int| i <= j < orig.len() ==> #[trigger] num@[j] == orig[j],
            le_value(num@.take(i as int)) + (if carry {
                pow2(8 * i as nat)
            } else {
                0
            }) == bij_value(orig.take(i as int)),
            i > 0 && !carry ==> num@[i - 1] != 0,
        decreases num@.len() - i,
    {
        let ghost before = num@.take(i as int);
        let d = num[i];
        let t = carry;
        carry = d == 0 || (t && d == 255);
        let o = if t {
            d.wrapping_add(1)
        } else {
            d
        };
        num.set(i, o);
        proof {
            lemma2_to64();
            assert(num@.take(i + 1) =~= before.push(o));
            assert(orig.take(i + 1) =~= orig.take(i as int).push(d));
            lemma_le_value_push(before, o);
            lemma_bij_value_push(orig.take(i as int), d);
            let p = pow2(8 * i as nat);
            lemma_pow2_adds(8 * i as nat, 8);
            assert(8 * i as nat + 8 == 8 * (i + 1) as nat);
            lemma_place_step(
                p as int,
                o as int,
                if carry { 1 } else { 0 },
                if t { 1 } else { 0 },
                digit_value(d) as int,
            );
        }
        i += 1;
    }
    proof {
        assert(num@.take(i as int) =~= num@);
        assert(orig.take(i as int) =~= orig);
    }
    if carry {
        proof {
            lemma_le_value_push(num@, 1);
        }
        num.push(1);
    }
    proof {
        lemma_le_canonical(num@);
    }
}

pub fn to_bijbase256(num: &mut Vec<u8>)
    ensures
        final(num)@ == spec_to_bijbase256(old(num)@),
        bij_value(final(num)@) == le_value(old(num)@),
{
    let ghost orig = num@;
    // Leading 0's add nothing to the value.
    while num.len() > 0 && num[num.len() - 1] == 0
        invariant
            le_value(num@) == le_value(orig),
        decreases num@.len(),
    {
        proof {
            lemma_le_value_push(num@.drop_last(), 0);
            assert(num@.drop_last().push(0) =~= num@);
        }
        num.pop();
    }
    let ghost plain = num@;
    let mut borrow = false;
    let mut i: usize = 0;
    while i < num.len()
        invariant
            i <= num@.len() == plain.len(),
            no_leading_zero(plain),
            le_value(plain) == le_value(orig),
            forall|j: int| i <= j < plain.len() ==> #[trigger] num@[j] == plain[j],
            bij_value(num@.take(i as int)) == le_value(plain.take(i as int)) + (if borrow {
                pow2(8 * i as nat)
            } else {
                0
            }),
            borrow ==> i > 0 && (num@[i - 1] == 0 || plain[i - 1] == 0),
        decreases num@.len() - i,
    {
        let ghost before = num@.take(i as int);
        let p = num[i];
        let b = borrow;
        let d = if b {
            p.wrapping_sub(1)
        } else {
            p
        };
        borrow = d == 0 || (b && p == 0);
        num.set(i, d);
        proof {
            lemma2_to64();
            assert(num@.take(i + 1) =~= before.push(d));
            assert(plain.take(i + 1) =~= plain.take(i as int).push(p));
            lemma_bij_value_push(before, d);
            lemma_le_value_push(plain.take(i as int), p);
            let q = pow2(8 * i as nat);
            lemma_pow2_adds(8 * i as nat, 8);
            assert(8 * i as nat + 8 == 8 * (i + 1) as nat);
            lemma_place_step(
                q as int,
                p as int,
                if borrow { 1 } else { 0 },
                if b { 1 } else { 0 },
                digit_value(d) as int,
            );
        }
        i += 1;
    }
    proof {
        assert(num@.take(i as int) =~= num@);
        assert(plain.take(i as int) =~= plain);
    }
    if borrow {
        proof {
            let n = num@.len();
            lemma2_to64();
            assert(num@.drop_last().push(num@[n - 1]) =~= num@);
            lemma_bij_value_push(num@.drop_last(), num@[n - 1]);
            lemma_pow2_adds(8 * (n - 1) as nat, 8);
            assert(8 * (n - 1) as nat + 8 == 8 * n);
        }
        num.pop();
    }
    proof {
        lemma_bij_digits(le_value(orig));
        lemma_bij_value_injective(num@, bij_digits(le_value(orig)));
    }
}

/// `String::push` of std: the character is appended to the string.
pub assume_specification[ String::push ](string: &mut String, ch: char)
    ensures
        final(string)@ == old(string)@.push(ch),
;

pub const HOR_MARGIN: usize = 3;

pub const VER_MARGIN: usize = 1;

pub const COL_WIDTH: usize = 80;

/// `n` times the character `c`.
pub open spec fn repeat_char(c: char, n: nat) -> Seq<char> {
    Seq::new(n, |i: int| c)
}

pub fn repeated_push(s: &mut String, c: char, n: usize)
    ensures
        final(s)@ == old(s)@ + repeat_char(c, n as nat),
{
    let mut i: usize = 0;
    while i < n
        invariant
            i <= n,
            s@ == old(s)@ + repeat_char(c, i as nat),
        decreases n - i,
    {
        s.push(c);
        proof {
            assert(old(s)@ + repeat_char(c, i as nat) + seq![c] =~= old(s)@ + repeat_char(
                c,
                (i + 1) as nat,
            ));
        }
        i += 1;
    }
}

/// A line of the box that holds no text, between the corner or border
/// characters `left` and `right`, filled with `fill`.
pub open spec fn box_line(left: char, fill: char, right: char) -> Seq<char> {
    seq![left] + repeat_char(fill, (COL_WIDTH + HOR_MARGIN * 2) as nat) + seq![right, '\n']
}

/// A line of the box holding the text `t`, a row of `COL_WIDTH` characters.
pub open spec fn text_line(t: Seq<char>) -> Seq<char> {
    seq!['║'] + repeat_char(' ', HOR_MARGIN as nat) + t + repeat_char(' ', HOR_MARGIN as nat) + seq![
        '║',
        '\n',
    ]
}

/// The lines of the box that hold the text `s`: rows of `COL_WIDTH` characters,
/// the last one padded with spaces.
pub open spec fn text_lines(s: Seq<char>) -> Seq<char>
    decreases s.len(),
{
    if s.len() == 0 {
        seq![]
    } else if s.len() <= COL_WIDTH {
        text_line(s + repeat_char(' ', (COL_WIDTH - s.len()) as nat))
    } else {
        text_line(s.take(COL_WIDTH as int)) + text_lines(s.skip(COL_WIDTH as int))
    }
}

/// The text `s` in a box drawn with box-drawing characters: a top border, a
/// blank line, the text in rows of `COL_WIDTH` characters between margins of
/// `HOR_MARGIN` spaces, a blank line and a bottom border; every line ends in a
/// newline.
pub open spec fn spec_textbox(s: Seq<char>) -> Seq<char> {
    box_line('╔', '═', '╗') + box_line('║', ' ', '║') + text_lines(s) + box_line('║', ' ', '║')
        + box_line('╚', '═', '╝')
}

/// The text lines of a string made of whole rows and a rest are those of the
/// rows followed by those of the rest.
proof fn lemma_text_lines_split(a: Seq<char>, b: Seq<char>)
    requires
        a.len() as int % (COL_WIDTH as int) == 0,
    ensures
        text_lines(a + b) == text_lines(a) + text_lines(b),
    decreases a.len(),
{
    if a.len() == 0 {
        assert(a + b =~= b);
        assert(text_lines(a) + text_lines(b) =~= text_lines(b));
    } else {
        let w = COL_WIDTH as int;
        assert((a + b).take(w) =~= a.take(w));
        assert((a + b).skip(w) =~= a.skip(w) + b);
        lemma_text_lines_split(a.skip(w), b);
        if a.len() == w {
            assert(a.skip(w) =~= Seq::<char>::empty());
            assert(text_lines(Seq::<char>::empty()) == Seq::<char>::empty());
            assert(a + repeat_char(' ', 0) =~= a.take(w));
            if b.len() == 0 {
                assert(a + b =~= a);
                assert(text_lines(a) + text_lines(b) =~= text_lines(a));
            } else {
                assert(text_lines(a) =~= text_line(a.take(w)));
            }
        } else {
            assert(text_lines(a) == text_line(a.take(w)) + text_lines(a.skip(w)));
        }
        assert(text_line(a.take(w)) + (text_lines(a.skip(w)) + text_lines(b)) =~= text_line(
            a.take(w),
        ) + text_lines(a.skip(w)) + text_lines(b));
    }
}

/// The text lines of one full row.
proof fn lemma_text_lines_row(t: Seq<char>)
    requires
        t.len() == COL_WIDTH,
    ensures
        text_lines(t) == text_line(t),
{
    assert(t + repeat_char(' ', 0) =~= t);
}

/// The text lines of a last, partial row.
proof fn lemma_text_lines_partial(t: Seq<char>)
    requires
        0 < t.len() < COL_WIDTH,
    ensures
        text_lines(t) == text_line(t + repeat_char(' ', (COL_WIDTH - t.len()) as nat)),
{
}

pub fn textbox(s: String) -> (res: String)
    ensures
        res@ == spec_textbox(s@),
{
    proof {
        reveal_strlit("╔");
        reveal_strlit("╗\n");
        reveal_strlit("║");
        reveal_strlit("║\n");
        reveal_strlit("╝\n");
    }
    let mut res = String::from_str("╔");
    repeated_push(&mut res, '═', COL_WIDTH + HOR_MARGIN * 2);
    res.append("╗\n");
    let mut v: usize = 0;
    while v < VER_MARGIN
        invariant
            v <= VER_MARGIN,
            res@ == box_line('╔', '═', '╗') + if v == 0 {
                Seq::<char>::empty()
            } else {
                box_line('║', ' ', '║')
            },
        decreases VER_MARGIN - v,
    {
        proof {
            reveal_strlit("║");
            reveal_strlit("║\n");
        }
        res.append("║");
        repeated_push(&mut res, ' ', COL_WIDTH + HOR_MARGIN * 2);
        res.append("║\n");
        proof {
            assert(res@ =~= box_line('╔', '═', '╗') + box_line('║', ' ', '║'));
        }
        v += 1;
    }
    let ghost head = res@;
    let mut i: usize = 0;
    let ghost mut k: int = 0;
    proof {
        broadcast use vstd::string::axiom_spec_iter;
    }
    for c in it: s.as_str().chars()
        invariant
            it.seq() == s@,
            k == it.index(),
            0 <= k <= s@.len(),
            i == k % (COL_WIDTH as int),
            res@ == head + text_lines(s@.take(k - i)) + if i == 0 {
                Seq::<char>::empty()
            } else {
                seq!['║'] + repeat_char(' ', HOR_MARGIN as nat) + s@.subrange(k - i, k)
            },
    {
        proof {
            reveal_strlit("║\n");
        }
        if i == 0 {
            res.push('║');
            repeated_push(&mut res, ' ', HOR_MARGIN);
        }
        res.push(c);
        if i == COL_WIDTH - 1 {
            repeated_push(&mut res, ' ', HOR_MARGIN);
            res.append("║\n");
        }
        proof {
            let rows = s@.take(k - i);
            let part = s@.subrange(k - i, k + 1);
            assert(c == s@[k]);
            assert(part =~= s@.subrange(k - i, k).push(c));
            if i == COL_WIDTH - 1 {
                lemma_text_lines_split(rows, part);
                lemma_text_lines_row(part);
                assert(s@.take(k + 1) =~= rows + part);
            }
        }
        i += 1;
        i %= COL_WIDTH;
        proof {
            k = k + 1;
            assert(res@ == head + text_lines(s@.take(k - i)) + if i == 0 {
                Seq::<char>::empty()
            } else {
                seq!['║'] + repeat_char(' ', HOR_MARGIN as nat) + s@.subrange(k - i, k)
            }) by {
                if i == 0 {
                    assert(res@ =~= head + text_lines(s@.take(k - i)));
                } else {
                    assert(s@.take(k - i) == s@.take((k - 1) - (i - 1)));
                }
            }
        }
    }
    if i != 0 {
        repeated_push(&mut res, ' ', COL_WIDTH - i + HOR_MARGIN);
        res.append("║\n");
        proof {
            let rows = s@.take(k - i);
            let part = s@.subrange(k - i, k);
            lemma_text_lines_split(rows, part);
            lemma_text_lines_partial(part);
            assert(s@ =~= rows + part);
        }
    } else {
        proof {
            assert(s@.take(k) =~= s@);
        }
    }
    let ghost body = res@;
    let mut v: usize = 0;
    while v < VER_MARGIN
        invariant
            v <= VER_MARGIN,
            res@ == body + if v == 0 {
                Seq::<char>::empty()
            } else {
                box_line('║', ' ', '║')
            },
        decreases VER_MARGIN - v,
    {
        proof {
            reveal_strlit("║");
            reveal_strlit("║\n");
        }
        res.append("║");
        repeated_push(&mut res, ' ', COL_WIDTH + HOR_MARGIN * 2);
        res.append("║\n");
        proof {
            assert(res@ =~= body + box_line('║', ' ', '║'));
        }
        v += 1;
    }
    res.push('╚');
    repeated_push(&mut res, '═', COL_WIDTH + HOR_MARGIN * 2);
    res.append("╝\n");
    proof {
        assert(res@ =~= spec_textbox(s@));
    }
    res
}

} // verus!
