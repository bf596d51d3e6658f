//! A walker lost in the grid of rooms: where it stands, where it faces, and
//! what it sees there.

use vstd::bytes::{spec_u128_to_le_bytes, u128_from_le_bytes};
use vstd::prelude::*;

use crate::code::{
    bytes_to_code, code_to_bytes, lemma_whole_read_written, parsed_view, result_view,
    spec_bytes_to_code, spec_code_to_bytes, whole_of, ParseError, SerdeBytes, MAX_CODE_BYTES,
};
use crate::crypto::{
    encrypt, lemma_internal_decryption_inverts_encryption, spec_decrypt_internal, spec_encrypt, Key,
};
use crate::num::{
    lemma_combine_reaches, lemma_combine_value_injective, lemma_num_bytes_read_back,
    lemma_num_value_injective, num_bytes, num_value, random_byte, spec_combine, Num, NumView, Sign,
};
use crate::utils::{
    bij_digits, bij_value, le_value, lemma_bij_value_injective,    lemma_bij_digits, spec_textbox, spec_to_bijbase256, textbox,
};

verus! {

/// Moving forward was refused: there is a wall in front.
#[derive(Debug, PartialEq, Eq, Structural)]
pub struct HitWallError;

// Directions:
//        0
//    7*      1*
// 6             2
//    5*      3*
//        4
//
// * means there's a wall of text there, instead of a door.

/// The (x, y) step taken through the door in direction `index * 2`.
pub const DELTAS: [(i8, i8); 4] = [(0, 1), (1, 0), (0, -1), (-1, 0)];

/// The character each byte of an encrypted wall is shown as: the characters of
/// the library's alphabet, in turn.
pub const CHARMAP: [char; 256] = [
    'a', 'b', 'c', 'd', 'e', 'f', 'g', 'h', 'i', 'j', 'k', 'l', 'm', 'n', 'o', 'p',
    'q', 'r', 's', 't', 'u', 'v', 'w', 'x', 'y', 'z', 'A', 'B', 'C', 'D', 'E', 'F',
    'G', 'H', 'I', 'J', 'K', 'L', 'M', 'N', 'O', 'P', 'Q', 'R', 'S', 'T', 'U', 'V',
    'W', 'X', 'Y', 'Z', '0', '1', '2', '3', '4', '5', '6', '7', '8', '9', ',', '.',
    '!', '?', ' ', 'a', 'b', 'c', 'd', 'e', 'f', 'g', 'h', 'i', 'j', 'k', 'l', 'm',
    'n', 'o', 'p', 'q', 'r', 's', 't', 'u', 'v', 'w', 'x', 'y', 'z', 'A', 'B', 'C',
    'D', 'E', 'F', 'G', 'H', 'I', 'J', 'K', 'L', 'M', 'N', 'O', 'P', 'Q', 'R', 'S',
    'T', 'U', 'V', 'W', 'X', 'Y', 'Z', '0', '1', '2', '3', '4', '5', '6', '7', '8',
    '9', ',', '.', '!', '?', ' ', 'a', 'b', 'c', 'd', 'e', 'f', 'g', 'h', 'i', 'j',
    'k', 'l', 'm', 'n', 'o', 'p', 'q', 'r', 's', 't', 'u', 'v', 'w', 'x', 'y', 'z',
    'A', 'B', 'C', 'D', 'E', 'F', 'G', 'H', 'I', 'J', 'K', 'L', 'M', 'N', 'O', 'P',
    'Q', 'R', 'S', 'T', 'U', 'V', 'W', 'X', 'Y', 'Z', '0', '1', '2', '3', '4', '5',
    '6', '7', '8', '9', ',', '.', '!', '?', ' ', 'a', 'b', 'c', 'd', 'e', 'f', 'g',
    'h', 'i', 'j', 'k', 'l', 'm', 'n', 'o', 'p', 'q', 'r', 's', 't', 'u', 'v', 'w',
    'x', 'y', 'z', 'A', 'B', 'C', 'D', 'E', 'F', 'G', 'H', 'I', 'J', 'K', 'L', 'M',
    'N', 'O', 'P', 'Q', 'R', 'S', 'T', 'U', 'V', 'W', 'X', 'Y', 'Z', '0', '1', '2',
];

/// What a walker is: its position, the key of its library, and the direction
/// it faces.
pub type StateView = (NumView, NumView, Key, u8);

#[derive(Debug, PartialEq, Eq)]
pub struct State {
    positionx: Num,
    positiony: Num,
    key: Key,
    direction: u8,
}

impl View for State {
    type V = StateView;

    closed spec fn view(&self) -> StateView {
        (self.positionx@, self.positiony@, self.key, self.direction)
    }
}

impl Clone for State {
    fn clone(&self) -> (res: Self)
        ensures
            res@ == self@,
    {
        proof {
            use_type_invariant(self);
        }
        State {
            positionx: self.positionx.clone(),
            positiony: self.positiony.clone(),
            key: self.key,
            direction: self.direction,
        }
    }
}

impl State {
    /// A walker faces one of eight directions.
    #[verifier::type_invariant]
    spec fn well_formed(self) -> bool {
        self.direction < 8
    }
}

/// Whether a direction faces a door: the even ones do.
pub open spec fn faces_door(direction: u8) -> bool {
    direction % 2 == 0
}

/// The direction after turning left by one eighth.
pub open spec fn turned_left(direction: u8) -> u8 {
    ((direction + 7) % 8) as u8
}

/// The direction after turning right by one eighth.
pub open spec fn turned_right(direction: u8) -> u8 {
    ((direction + 1) % 8) as u8
}

/// The step along x taken through the door in an even direction.
pub open spec fn delta_x(direction: u8) -> int {
    DELTAS@[(direction / 2) as int].0 as int
}

/// The step along y taken through the door in an even direction.
pub open spec fn delta_y(direction: u8) -> int {
    DELTAS@[(direction / 2) as int].1 as int
}

/// What reading a direction byte gives: a byte below 8 and the rest, else an
/// illegal byte, or an early end for no byte at all.
pub open spec fn spec_parse_direction(bytes: Seq<u8>) -> Result<(u8, Seq<u8>), ParseError> {
    if bytes.len() == 0 {
        Err(ParseError::EarlyEndError)
    } else if bytes[0] < 8 {
        Ok((bytes[0], bytes.drop_first()))
    } else {
        Err(ParseError::IllegalByteError)
    }
}

pub fn parse_direction(bytes: &[u8]) -> (res: Result<(u8, &[u8]), ParseError>)
    ensures
        parsed_view(res) == spec_parse_direction(bytes@),
{
    if bytes.len() == 0 {
        return Err(ParseError::EarlyEndError);
    }
    let byte = bytes[0];
    if byte < 8 {
        let rest = &bytes[1..bytes.len()];
        proof {
            assert(rest@ =~= bytes@.drop_first());
        }
        Ok((byte, rest))
    } else {
        Err(ParseError::IllegalByteError)
    }
}

/// The bytes behind the wall in front of a walker: its position and the
/// direction it faces, combined and encrypted with its key.
pub open spec fn wall_bytes(s: StateView) -> Seq<u8> {
    spec_encrypt(spec_combine(s.0, s.1, s.3 / 2, 2), s.2)
}

/// The text written on the wall in front of a walker: the wall's bytes, each
/// shown as a character.
pub open spec fn wall_text(s: StateView) -> Seq<char> {
    wall_bytes(s).map_values(|b: u8| CHARMAP@[b as int])
}

/// The text shown for what stands in front of a walker.
pub open spec fn spec_describe(s: StateView) -> Seq<char> {
    if faces_door(s.3) {
        "A dark, rusty door stands before you."@
    } else {
        "A wall of text stands before you. It reads:\n"@ + spec_textbox(wall_text(s))
    }
}

impl SerdeBytes for State {
    /// The direction, the key, then the x and the y of the position.
    open spec fn spec_bytes(&self) -> Seq<u8> {
        seq![self@.3] + self@.2.spec_bytes() + num_bytes(self@.0) + num_bytes(self@.1)
    }

    /// A walker faces one of eight directions.
    open spec fn spec_valid(&self) -> bool {
        self@.3 < 8
    }

    /// The direction, the key, then the x and the y of the position, each read
    /// after the one before; the first error stops the reading.
    open spec fn spec_parse_prefix(bytes: Seq<u8>) -> Result<(StateView, Seq<u8>), ParseError> {
        match spec_parse_direction(bytes) {
            Err(e) => Err(e),
            Ok((direction, rest)) => match Key::spec_parse_prefix(rest) {
                Err(e) => Err(e),
                Ok((key, rest)) => match Num::spec_parse_prefix(rest) {
                    Err(e) => Err(e),
                    Ok((x, rest)) => match Num::spec_parse_prefix(rest) {
                        Err(e) => Err(e),
                        Ok((y, rest)) => Ok(((x, y, key, direction), rest)),
                    },
                },
            },
        }
    }

    fn write_bytes(&self, buf: &mut Vec<u8>) {
        proof {
            use_type_invariant(self);
        }
        buf.push(self.direction);
        self.key.write_bytes(buf);
        self.positionx.write_bytes(buf);
        self.positiony.write_bytes(buf);
        proof {
            assert(final(buf)@ =~= old(buf)@ + self.spec_bytes());
        }
    }

    fn from_bytes_prefix(bytes: &[u8]) -> (res: Result<(Self, &[u8]), ParseError>) {
        let (direction, bytes1) = match parse_direction(bytes) {
            Ok(r) => r,
            Err(e) => {
                return Err(e);
            },
        };
        let (key, bytes2) = match Key::from_bytes_prefix(bytes1) {
            Ok(r) => r,
            Err(e) => {
                return Err(e);
            },
        };
        let (positionx, bytes3) = match Num::from_bytes_prefix(bytes2) {
            Ok(r) => r,
            Err(e) => {
                return Err(e);
            },
        };
        let (positiony, bytes4) = match Num::from_bytes_prefix(bytes3) {
            Ok(r) => r,
            Err(e) => {
                return Err(e);
            },
        };
        Ok((State { positionx, positiony, key, direction }, bytes4))
    }

    proof fn lemma_read_written(&self, rest: Seq<u8>) {
        let kb = self@.2.spec_bytes();
        let xb = num_bytes(self@.0);
        let yb = num_bytes(self@.1);
        let b = self.spec_bytes() + rest;
        assert(b[0] == self@.3);
        assert(b.drop_first() =~= kb + (xb + yb + rest));
        self.key.lemma_read_written(xb + yb + rest);
        lemma_num_bytes_read_back(self@.0, yb + rest);
        assert(xb + yb + rest =~= xb + (yb + rest));
        lemma_num_bytes_read_back(self@.1, rest);
    }
}

impl State {
    /// A walker at the given position, with the given key, facing the given
    /// direction taken modulo 8.
    pub fn new(positionx: Num, positiony: Num, key: Key, direction: u8) -> (res: Self)
        ensures
            res@ == (positionx@, positiony@, key, direction % 8),
    {
        let d = direction & 7;
        assert(d == direction % 8) by (bit_vector)
            requires
                d == direction & 7,
        ;
        State { positionx, positiony, key, direction: d }
    }

    /// A walker dropped at random: random coordinates, whose digit strings end
    /// at each step with probability 1/1000, a random key and a random
    /// direction.
    pub fn random() -> (res: Self)
        ensures
            res@.3 < 8,
    {
        let positionx = Num::rand_num(1, 1000);
        let positiony = Num::rand_num(1, 1000);
        let mut key_bytes: Vec<u8> = Vec::new();
        let mut i: usize = 0;
        while i < 32
            invariant
                i <= 32,
                key_bytes@.len() == i,
            decreases 32 - i,
        {
            key_bytes.push(random_byte());
            i += 1;
        }
        let raw = key_bytes.as_slice();
        let key: Key = (u128_from_le_bytes(&raw[0..16]), u128_from_le_bytes(&raw[16..32]));
        let direction = random_byte();
        Self::new(positionx, positiony, key, direction)
    }

    pub fn from_code(code: &str) -> (res: Result<Self, ParseError>)
        ensures
            result_view(res) == match spec_code_to_bytes(code@) {
                Ok(bytes) => whole_of(Self::spec_parse_prefix(bytes)),
                Err(e) => Err(e),
            },
    {
        let bytes = match code_to_bytes(code) {
            Ok(bytes) => bytes,
            Err(e) => {
                return Err(e);
            },
        };
        Self::from_bytes(bytes.as_slice())
    }

    pub fn to_code(&self) -> (code: String)
        requires
            self.spec_bytes().len() <= MAX_CODE_BYTES,
        ensures
            code@ == spec_bytes_to_code(self.spec_bytes()),
            spec_code_to_bytes(code@) == Ok::<Seq<u8>, ParseError>(self.spec_bytes()),
            whole_of(Self::spec_parse_prefix(self.spec_bytes())) == Ok::<StateView, ParseError>(
                self@,
            ),
    {
        let bytes = self.to_bytes();
        proof {
            lemma_whole_read_written(*self);
        }
        bytes_to_code(bytes)
    }

    /// Whether `key` is the key of the walker's library.
    pub fn has_key(&self, key: &Key) -> (res: bool)
        ensures
            res == (self@.2 == *key),
    {
        self.key.0 == key.0 && self.key.1 == key.1
    }

    pub fn door_in_front(&self) -> (res: bool)
        ensures
            res == faces_door(self@.3),
    {
        let d = self.direction;
        assert((d & 1 == 0) == (d % 2 == 0)) by (bit_vector);
        self.direction & 1 == 0
    }

    pub fn turn_left(&mut self)
        ensures
            final(self)@ == (old(self)@.0, old(self)@.1, old(self)@.2, turned_left(old(self)@.3)),
    {
        proof {
            use_type_invariant(&*self);
        }
        let old_d = self.direction;
        let t = old_d + 7;
        let d = t & 7;
        assert(d == t % 8) by (bit_vector)
            requires
                d == t & 7,
        ;
        self.direction = d;
    }

    pub fn turn_right(&mut self)
        ensures
            final(self)@ == (old(self)@.0, old(self)@.1, old(self)@.2, turned_right(old(self)@.3)),
    {
        proof {
            use_type_invariant(&*self);
        }
        let old_d = self.direction;
        let t = old_d + 1;
        let d = t & 7;
        assert(d == t % 8) by (bit_vector)
            requires
                d == t & 7,
        ;
        self.direction = d;
    }

    /// Goes through the door in front, one room along the direction faced; a
    /// wall in front is refused and nothing changes.
    pub fn move_forward(&mut self) -> (res: Result<(), HitWallError>)
        ensures
            res is Err <==> !faces_door(old(self)@.3),
            res is Err ==> final(self)@ == old(self)@,
            res is Ok ==> {
                &&& num_value(final(self)@.0) == num_value(old(self)@.0) + delta_x(old(self)@.3)
                &&& num_value(final(self)@.1) == num_value(old(self)@.1) + delta_y(old(self)@.3)
                &&& final(self)@.2 == old(self)@.2
                &&& final(self)@.3 == old(self)@.3
            },
    {
        proof {
            use_type_invariant(&*self);
        }
        if !self.door_in_front() {
            return Err(HitWallError);
        }
        let (dx, dy) = DELTAS[(self.direction / 2) as usize];
        let mut x = Num::new(Sign::Positive, Vec::new());
        std::mem::swap(&mut x, &mut self.positionx);
        x.add(dx);
        self.positionx = x;
        let mut y = Num::new(Sign::Positive, Vec::new());
        std::mem::swap(&mut y, &mut self.positiony);
        y.add(dy);
        self.positiony = y;
        Ok(())
    }

    /// What stands in front: a door or a wall of text.
    pub fn describe(&self) -> (res: String)
        ensures
            res@ == spec_describe(self@),
    {
        if self.door_in_front() {
            self.describe_door()
        } else {
            self.describe_wall()
        }
    }

    fn describe_door(&self) -> (res: String)
        ensures
            res@ == "A dark, rusty door stands before you."@,
    {
        String::from_str("A dark, rusty door stands before you.")
    }

    fn describe_wall(&self) -> (res: String)
        requires
            !faces_door(self@.3),
        ensures
            res@ == "A wall of text stands before you. It reads:\n"@ + spec_textbox(wall_text(self@)),
    {
        proof {
            use_type_invariant(self);
        }
        let mut bytes = self.positionx.combine(&self.positiony, self.direction / 2, 2);

        encrypt(&mut bytes, self.key);

        let mut text = String::new();
        let mut i: usize = 0;
        while i < bytes.len()
            invariant
                i <= bytes@.len(),
                text@ == bytes@.take(i as int).map_values(|b: u8| CHARMAP@[b as int]),
            decreases bytes@.len() - i,
        {
            text.push(CHARMAP[bytes[i] as usize]);
            proof {
                assert(bytes@.take(i + 1).map_values(|b: u8| CHARMAP@[b as int]) =~= bytes@.take(
                    i as int,
                ).map_values(|b: u8| CHARMAP@[b as int]).push(CHARMAP@[bytes@[i as int] as int]));
            }
            i += 1;
        }
        proof {
            assert(bytes@.take(i as int) =~= bytes@);
        }
        let mut res = String::from_str("A wall of text stands before you. It reads:\n");
        let boxed = textbox(text);
        res.append(boxed.as_str());
        res
    }
}

/// Turning left and then right, or right and then left, faces the walker the
/// way it faced before.
pub proof fn lemma_turns_undo(direction: u8)
    requires
        direction < 8,
    ensures
        turned_right(turned_left(direction)) == direction,
        turned_left(turned_right(direction)) == direction,
{
}

/// Every turn swaps a door in front for a wall in front, and a wall for a door.
pub proof fn lemma_turn_swaps_door_and_wall(direction: u8)
    requires
        direction < 8,
    ensures
        faces_door(turned_left(direction)) == !faces_door(direction),
        faces_door(turned_right(direction)) == !faces_door(direction),
{
}

/// Four turns either way turn the walker around: both face the opposite
/// direction.
pub proof fn lemma_turn_around(direction: u8)
    requires
        direction < 8,
    ensures
        turned_right(turned_right(turned_right(turned_right(direction)))) == (direction + 4) % 8,
        turned_left(turned_left(turned_left(turned_left(direction)))) == (direction + 4) % 8,
{
    let r1 = turned_right(direction);
    let r2 = turned_right(r1);
    let r3 = turned_right(r2);
    assert(r2 == (direction + 2) % 8);
    assert(r3 == (direction + 3) % 8);
    let l1 = turned_left(direction);
    let l2 = turned_left(l1);
    let l3 = turned_left(l2);
    assert(l2 == (direction + 6) % 8);
    assert(l3 == (direction + 5) % 8);
}

/// Going through a door, turning around (four turns) and going through the
/// door in front again brings the walker back to the room it started in.
pub proof fn lemma_move_turn_around_move(
    direction: u8,
    x0: NumView,
    y0: NumView,
    x1: NumView,
    y1: NumView,
    x2: NumView,
    y2: NumView,
)
    requires
        direction < 8,
        faces_door(direction),
        num_value(x1) == num_value(x0) + delta_x(direction),
        num_value(y1) == num_value(y0) + delta_y(direction),
        num_value(x2) == num_value(x1) + delta_x(
            turned_right(turned_right(turned_right(turned_right(direction)))),
        ),
        num_value(y2) == num_value(y1) + delta_y(
            turned_right(turned_right(turned_right(turned_right(direction)))),
        ),
    ensures
        x2 == x0,
        y2 == y0,
{
    lemma_turn_around(direction);
    assert(DELTAS@[0] == (0i8, 1i8));
    assert(DELTAS@[1] == (1i8, 0i8));
    assert(DELTAS@[2] == (0i8, -1i8));
    assert(DELTAS@[3] == (-1i8, 0i8));
    lemma_num_value_injective(x2, x0);
    lemma_num_value_injective(y2, y0);
}


/// Whoever holds the key can read the room off a wall: two walkers with the
/// same key, facing walls with the same bytes, stand in the same room and face
/// the same way.
pub proof fn lemma_wall_determines_position(s1: StateView, s2: StateView)
    requires
        s1.3 < 8,
        s2.3 < 8,
        !faces_door(s1.3),
        !faces_door(s2.3),
        s1.2 == s2.2,
        wall_bytes(s1) == wall_bytes(s2),
    ensures
        s1 == s2,
{
    let key = s1.2;
    let q1 = spec_combine(s1.0, s1.1, s1.3 / 2, 2);
    let q2 = spec_combine(s2.0, s2.1, s2.3 / 2, 2);
    let u1 = spec_to_bijbase256(q1);
    let u2 = spec_to_bijbase256(q2);
    lemma_internal_decryption_inverts_encryption(u1, key);
    lemma_internal_decryption_inverts_encryption(u2, key);
    assert(u1 == u2);
    lemma_bij_digits(le_value(q1));
    lemma_bij_digits(le_value(q2));
    lemma_combine_value_injective(s1.0, s1.1, s1.3 / 2, s2.0, s2.1, s2.3 / 2);
}

/// Every byte string is on some wall of every library: for any key there is a
/// walker, facing a wall, whose wall has exactly those bytes.
pub proof fn lemma_every_byte_string_on_some_wall(key: Key, t: Seq<u8>) -> (s: StateView)
    ensures
        s.2 == key,
        s.3 < 8,
        !faces_door(s.3),
        wall_bytes(s) == t,
{
    let u = spec_decrypt_internal(t, key);
    lemma_internal_decryption_inverts_encryption(t, key);
    let v = bij_value(u);
    let (a, b, e) = lemma_combine_reaches(v);
    let d = (2 * e + 1) as u8;
    assert(d / 2 == e && d < 8 && d % 2 == 1);
    let s = (a, b, key, d);
    lemma_bij_digits(v);
    lemma_bij_value_injective(bij_digits(v), u);
    assert(spec_to_bijbase256(spec_combine(a, b, d / 2, 2)) == u);
    s
}

/// Every text over the characters of the walls is on some wall of every
/// library: for any key there is a walker, facing a wall, that reads exactly
/// that text there.
pub proof fn lemma_every_text_on_some_wall(key: Key, t: Seq<char>) -> (s: StateView)
    requires
        forall|i: int| 0 <= i < t.len() ==> CHARMAP@.contains(#[trigger] t[i]),
    ensures
        s.2 == key,
        s.3 < 8,
        !faces_door(s.3),
        wall_text(s) == t,
        spec_describe(s) == "A wall of text stands before you. It reads:\n"@ + spec_textbox(t),
{
    let tb = Seq::new(
        t.len(),
        |i: int| (choose|j: int| 0 <= j < 256 && CHARMAP@[j] == t[i]) as u8,
    );
    assert forall|i: int| 0 <= i < t.len() implies CHARMAP@[tb[i] as int] == t[i] by {
        assert(CHARMAP@.contains(t[i]));
        let j = choose|j: int| 0 <= j < 256 && CHARMAP@[j] == t[i];
        assert(0 <= j < 256 && CHARMAP@[j] == t[i]);
        assert(tb[i] as int == j);
    }
    let s = lemma_every_byte_string_on_some_wall(key, tb);
    assert(wall_text(s) =~= t);
    s
}

/// The bytes of a walker: its direction, the two halves of its key as 16
/// little-endian bytes each, then its x and then its y, each in the bytes of a
/// number.
pub proof fn lemma_state_bytes_layout(s: State)
    ensures
        s.spec_bytes() == seq![s@.3] + spec_u128_to_le_bytes(s@.2.0) + spec_u128_to_le_bytes(s@.2.1)
            + num_bytes(s@.0) + num_bytes(s@.1),
{
    assert(seq![s@.3] + (spec_u128_to_le_bytes(s@.2.0) + spec_u128_to_le_bytes(s@.2.1)) =~= seq![
        s@.3,
    ] + spec_u128_to_le_bytes(s@.2.0) + spec_u128_to_le_bytes(s@.2.1));
}

/// Reading a walker: a direction below 8, the two key halves as 16
/// little-endian bytes each, then the bytes of x and then those of y; whatever
/// follows is left unread.
pub proof fn lemma_state_parse_layout(
    d: u8,
    k0: u128,
    k1: u128,
    x: NumView,
    y: NumView,
    rest: Seq<u8>,
)
    requires
        d < 8,
    ensures
        State::spec_parse_prefix(
            seq![d] + spec_u128_to_le_bytes(k0) + spec_u128_to_le_bytes(k1) + num_bytes(x)
                + num_bytes(y) + rest,
        ) == Ok::<(StateView, Seq<u8>), ParseError>(((x, y, (k0, k1), d), rest)),
{
    let key: Key = (k0, k1);
    let kb = spec_u128_to_le_bytes(k0) + spec_u128_to_le_bytes(k1);
    let xb = num_bytes(x);
    let yb = num_bytes(y);
    let b = seq![d] + spec_u128_to_le_bytes(k0) + spec_u128_to_le_bytes(k1) + xb + yb + rest;
    assert(b[0] == d);
    assert(b.drop_first() =~= kb + (xb + yb + rest));
    key.lemma_read_written(xb + yb + rest);
    assert(key.spec_bytes() == kb);
    lemma_num_bytes_read_back(x, yb + rest);
    assert(xb + yb + rest =~= xb + (yb + rest));
    lemma_num_bytes_read_back(y, rest);
}

} // verus!
