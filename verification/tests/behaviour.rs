use temple_of_texts::code::{
    bytes_to_code, checked_payload, checksum, code_to_bytes, ParseError, Serde, SerdeBytes,
};
use temple_of_texts::crypto::{
    compress, decrypt, decrypt_internal, decrypt_single_run, encrypt, encrypt_internal,
    encrypt_single_run, hash, next_state, rijndael_sbox, Key, Pass, SBOX,
};
use temple_of_texts::num::{Num, Sign};
use temple_of_texts::state::{parse_direction, HitWallError, State};
use temple_of_texts::utils::{
    from_bijbase256, repeated_push, textbox, to_bijbase256, COL_WIDTH, HOR_MARGIN,
};

fn origin(key: Key, direction: u8) -> State {
    State::new(
        Num::new(Sign::Positive, vec![]),
        Num::new(Sign::Positive, vec![]),
        key,
        direction,
    )
}

fn boxed(rows: &[&str]) -> String {
    let inner = COL_WIDTH + HOR_MARGIN * 2;
    let mut s = String::new();
    s.push('╔');
    s.push_str(&"═".repeat(inner));
    s.push_str("╗\n");
    s.push('║');
    s.push_str(&" ".repeat(inner));
    s.push_str("║\n");
    for row in rows {
        s.push('║');
        s.push_str(&" ".repeat(HOR_MARGIN));
        s.push_str(row);
        s.push_str(&" ".repeat(COL_WIDTH - row.chars().count() + HOR_MARGIN));
        s.push_str("║\n");
    }
    s.push('║');
    s.push_str(&" ".repeat(inner));
    s.push_str("║\n");
    s.push('╚');
    s.push_str(&"═".repeat(inner));
    s.push_str("╝\n");
    s
}

#[test]
fn checksum_wraps_around() {
    assert_eq!(checksum(&[]), 0);
    assert_eq!(checksum(&[1, 2, 255]), 2);
    assert_eq!(checksum(&[128, 128]), 0);
}

#[test]
fn codes_are_unpadded_base64_with_a_checksum() {
    assert_eq!(bytes_to_code(vec![]), "AA");
    assert_eq!(bytes_to_code(vec![1, 2, 3]), "AQIDBg");
    assert_eq!(code_to_bytes("AA"), Ok(vec![]));
    assert_eq!(code_to_bytes("AQIDBg"), Ok(vec![1, 2, 3]));
}

#[test]
fn payload_checks_its_checksum() {
    assert_eq!(checked_payload(vec![1, 2, 3, 6]), Ok(vec![1, 2, 3]));
    assert_eq!(checked_payload(vec![0]), Ok(vec![]));
    assert_eq!(checked_payload(vec![]), Err(ParseError::EarlyEndError));
    assert_eq!(checked_payload(vec![1, 2]), Err(ParseError::ChecksumError));
}

#[test]
fn code_errors() {
    assert_eq!(code_to_bytes(""), Err(ParseError::EarlyEndError));
    assert_eq!(code_to_bytes("!!"), Err(ParseError::IllegalCharError));
    assert_eq!(code_to_bytes("AA=="), Err(ParseError::IllegalCharError));
    assert_eq!(code_to_bytes("AB"), Err(ParseError::IllegalCharError));
    assert_eq!(code_to_bytes("AQIDB"), Err(ParseError::IllegalCharError));
    assert_eq!(code_to_bytes("AQ"), Err(ParseError::ChecksumError));
    assert_eq!(code_to_bytes("AQIDBw"), Err(ParseError::ChecksumError));
}

#[test]
fn sbox_is_rijndaels() {
    let computed = rijndael_sbox();
    assert_eq!(computed, SBOX);
    assert_eq!(SBOX[0x00], 0x63);
    assert_eq!(SBOX[0x01], 0x7c);
    assert_eq!(SBOX[0x53], 0xed);
    assert_eq!(SBOX[0xff], 0x16);
}

#[test]
fn hash_swaps_and_substitutes() {
    assert_eq!(hash(0, 0), (0x63, 0x63));
    assert_eq!(hash(0x53, 0x53), (0xed, 0xed));
    for x in [0u8, 1, 0x55, 0xaa, 0xff, 0x3c] {
        for y in [0u8, 7, 0x80, 0xfe] {
            let (a, b) = hash(y, x);
            assert_eq!(hash(x, y), (b, a));
        }
    }
}

#[test]
fn hash_is_one_to_one() {
    let mut seen = vec![false; 65536];
    for x in 0..=255u8 {
        for y in 0..=255u8 {
            let (a, b) = hash(x, y);
            let k = (a as usize) * 256 + b as usize;
            assert!(!seen[k]);
            seen[k] = true;
        }
    }
}

#[test]
fn next_state_tells_inputs_apart() {
    let states = [0u128, 1, 1 << 127, u128::MAX, 0x0123_4567_89ab_cdef_0011_2233_4455_6677];
    let mut outs = Vec::new();
    for s in states {
        for b in [0u8, 1, 128, 255] {
            outs.push(next_state(s, b));
        }
    }
    for i in 0..outs.len() {
        for j in 0..i {
            assert_ne!(outs[i], outs[j]);
        }
    }
    assert_eq!(compress(0), 0);
    assert_eq!(compress(0x0102), 3);
}

#[test]
fn single_runs_undo_each_other() {
    for pass in [Pass::Forward, Pass::Backward] {
        let original = vec![9u8, 0, 255, 17, 3];
        let mut msg = original.clone();
        encrypt_single_run(&mut msg, 77, pass);
        assert_ne!(msg, original);
        decrypt_single_run(&mut msg, 77, pass);
        assert_eq!(msg, original);
        decrypt_single_run(&mut msg, 78, pass);
        encrypt_single_run(&mut msg, 78, pass);
        assert_eq!(msg, original);
    }
}

#[test]
fn cipher_known_values() {
    let mut bytes = vec![1, 2, 3];
    encrypt_internal(&mut bytes, (1, 2));
    assert_eq!(bytes, vec![71, 155, 189]);
    decrypt_internal(&mut bytes, (1, 2));
    assert_eq!(bytes, vec![1, 2, 3]);

    let mut zero = vec![0];
    encrypt_internal(&mut zero, (0, 0));
    assert_eq!(zero, vec![0]);

    let mut empty: Vec<u8> = vec![];
    encrypt_internal(&mut empty, (5, 6));
    assert!(empty.is_empty());
}

#[test]
fn encryption_rewrites_digits_in_bijective_base() {
    let mut num = vec![0, 1];
    encrypt(&mut num, (7, 9));
    assert_eq!(num, vec![14]);
    decrypt(&mut num, (7, 9));
    assert_eq!(num, vec![0, 1]);
}

#[test]
fn leading_zero_is_lost_by_encryption() {
    let mut num = vec![5, 0];
    encrypt(&mut num, (3, 4));
    decrypt(&mut num, (3, 4));
    assert_eq!(num, vec![5]);
}

#[test]
fn bijective_base_conversions() {
    let mut a = vec![0];
    from_bijbase256(&mut a);
    assert_eq!(a, vec![0, 1]);
    to_bijbase256(&mut a);
    assert_eq!(a, vec![0]);

    let mut b = vec![5, 0, 3];
    from_bijbase256(&mut b);
    assert_eq!(b, vec![5, 0, 4]);

    let mut c: Vec<u8> = vec![];
    from_bijbase256(&mut c);
    assert!(c.is_empty());

    let mut d = vec![0];
    to_bijbase256(&mut d);
    assert!(d.is_empty());
}

#[test]
fn increment_and_decrement_values() {
    let mut n = Num::new(Sign::Negative, vec![]);
    n.increment();
    assert_eq!(n, Num::new(Sign::Positive, vec![]));
    n.decrement();
    assert_eq!(n, Num::new(Sign::Negative, vec![]));

    let mut m = Num::new(Sign::Positive, vec![255]);
    m.increment();
    assert_eq!(m, Num::new(Sign::Positive, vec![0]));
    m.increment();
    assert_eq!(m, Num::new(Sign::Positive, vec![1, 1]));
    m.decrement();
    assert_eq!(m, Num::new(Sign::Positive, vec![0]));

    let mut k = Num::new(Sign::Positive, vec![1]);
    k.decrement();
    assert_eq!(k, Num::new(Sign::Positive, vec![]));

    let mut neg = Num::new(Sign::Negative, vec![0]);
    neg.decrement();
    assert_eq!(neg, Num::new(Sign::Negative, vec![1, 1]));
}

#[test]
fn add_steps_by_one_at_most() {
    let mut n = Num::new(Sign::Positive, vec![7]);
    n.add(0);
    assert_eq!(n, Num::new(Sign::Positive, vec![7]));
    n.add(1);
    assert_eq!(n, Num::new(Sign::Positive, vec![8]));
    n.add(-1);
    n.add(-1);
    assert_eq!(n, Num::new(Sign::Positive, vec![6]));
}

#[test]
fn num_length_counts_the_sign() {
    assert_eq!(Num::new(Sign::Positive, vec![]).len(), 1);
    assert_eq!(Num::new(Sign::Negative, vec![1, 2]).len(), 3);
}

#[test]
fn combine_edge_cases() {
    let p = Num::new(Sign::Positive, vec![]);
    let n = Num::new(Sign::Negative, vec![]);
    assert_eq!(p.combine(&p, 0xAB, 8), vec![0xAB, 0x03]);
    assert_eq!(n.combine(&n, 0, 0), Vec::<u8>::new());
    let one = Num::new(Sign::Positive, vec![1]);
    assert_eq!(one.combine(&p, 0, 0), vec![7, 0]);
}

#[test]
fn combine_with_six_extra_bits() {
    let one = Num::new(Sign::Positive, vec![1]);
    let p = Num::new(Sign::Positive, vec![]);
    assert_eq!(one.combine(&p, 0, 6), vec![0xC0, 0x01, 0x00]);
    let x = Num::new(Sign::Negative, vec![0, 7]);
    let y = Num::new(Sign::Positive, vec![3]);
    assert_eq!(x.combine(&y, 5, 6), vec![133, 10, 0, 64, 0]);
}

#[test]
fn sign_bytes() {
    assert_eq!(Sign::Negative.to_byte(), 0);
    assert_eq!(Sign::Positive.to_byte(), 1);
    assert_eq!(Sign::from_byte(0), Some(Sign::Negative));
    assert_eq!(Sign::from_byte(1), Some(Sign::Positive));
    assert_eq!(Sign::from_byte(2), None);
}

#[test]
fn num_byte_format() {
    let n = Num::new(Sign::Positive, vec![0, 7]);
    assert_eq!(n.to_bytes(), vec![1, 0, 1, 7, 0, 0]);
    assert_eq!(Num::from_bytes(&[1, 0, 1, 7, 0, 0]), Ok(n));
    assert_eq!(
        Num::from_bytes(&[0, 0, 0]),
        Ok(Num::new(Sign::Negative, vec![]))
    );
}

#[test]
fn num_parse_errors() {
    assert_eq!(Num::from_bytes(&[]), Err(ParseError::EarlyEndError));
    assert_eq!(Num::from_bytes(&[1, 5]), Err(ParseError::EarlyEndError));
    assert_eq!(Num::from_bytes(&[1, 0]), Err(ParseError::EarlyEndError));
    assert_eq!(Num::from_bytes(&[2, 0, 0]), Err(ParseError::IllegalByteError));
    assert_eq!(Num::from_bytes(&[1, 0, 2]), Err(ParseError::IllegalByteError));
    assert_eq!(
        Num::from_bytes(&[1, 0, 0, 5]),
        Err(ParseError::BytePastEndError)
    );
}

#[test]
fn key_byte_format() {
    let key: Key = (1, 2);
    let mut expected = vec![0u8; 32];
    expected[0] = 1;
    expected[16] = 2;
    assert_eq!(key.to_bytes(), expected);
    assert_eq!(Key::from_bytes(&expected), Ok(key));
    assert_eq!(Key::from_bytes(&[0u8; 31]), Err(ParseError::EarlyEndError));
    assert_eq!(
        Key::from_bytes(&[0u8; 33]),
        Err(ParseError::BytePastEndError)
    );
}

#[test]
fn key_codes_round_trip() {
    let key: Key = (0x0123_4567_89ab_cdef, u128::MAX);
    let code = key.to_code();
    assert_eq!(Key::from_code(&code), Ok(key));
    assert_eq!(
        Key::from_code(&bytes_to_code(vec![0; 31])),
        Err(ParseError::EarlyEndError)
    );
}

#[test]
fn direction_parsing() {
    assert_eq!(parse_direction(&[3, 9]), Ok((3, &[9u8][..])));
    assert_eq!(parse_direction(&[8]), Err(ParseError::IllegalByteError));
    assert_eq!(parse_direction(&[]), Err(ParseError::EarlyEndError));
    assert_eq!(State::from_bytes(&[8]), Err(ParseError::IllegalByteError));
    assert_eq!(State::from_bytes(&[0]), Err(ParseError::EarlyEndError));
}

#[test]
fn state_byte_format() {
    let state = origin((1, 2), 4);
    let mut expected = vec![4u8];
    expected.extend((1u128, 2u128).to_bytes());
    expected.extend([1, 0, 0, 1, 0, 0]);
    assert_eq!(state.to_bytes(), expected);
    let mut longer = expected.clone();
    longer.push(0);
    assert_eq!(State::from_bytes(&longer), Err(ParseError::BytePastEndError));
}

#[test]
fn state_codes_round_trip() {
    let state = State::new(
        Num::new(Sign::Negative, vec![0, 3]),
        Num::new(Sign::Positive, vec![9]),
        (11, 12),
        5,
    );
    let code = state.to_code();
    assert_eq!(code, bytes_to_code(state.to_bytes()));
    assert_eq!(State::from_code(&code), Ok(state.clone()));
    assert_eq!(State::from_code("AA"), Err(ParseError::EarlyEndError));
    assert_eq!(State::from_code("!"), Err(ParseError::IllegalCharError));
}

#[test]
fn directions_wrap_modulo_eight() {
    let state = origin((0, 0), 9);
    assert!(!state.door_in_front());
    assert_eq!(state.to_bytes()[0], 1);
}

#[test]
fn turning_left_then_right_undoes() {
    let mut state = origin((3, 4), 0);
    let before = state.clone();
    state.turn_left();
    assert_eq!(state.to_bytes()[0], 7);
    state.turn_right();
    assert_eq!(state, before);
    state.turn_right();
    state.turn_left();
    assert_eq!(state, before);
}

#[test]
fn every_turn_swaps_door_and_wall() {
    let mut state = origin((3, 4), 2);
    assert!(state.door_in_front());
    state.turn_right();
    assert!(!state.door_in_front());
    state.turn_right();
    assert!(state.door_in_front());
    state.turn_left();
    assert!(!state.door_in_front());
}

#[test]
fn moving_into_a_wall_is_refused() {
    let mut state = origin((3, 4), 1);
    let before = state.clone();
    assert_eq!(state.move_forward(), Err(HitWallError));
    assert_eq!(state, before);
}

#[test]
fn moving_follows_the_direction() {
    let mut north = origin((3, 4), 0);
    assert_eq!(north.move_forward(), Ok(()));
    assert_eq!(
        north,
        State::new(
            Num::new(Sign::Positive, vec![]),
            Num::new(Sign::Positive, vec![1]),
            (3, 4),
            0
        )
    );

    let mut west = origin((3, 4), 6);
    assert_eq!(west.move_forward(), Ok(()));
    assert_eq!(
        west,
        State::new(
            Num::new(Sign::Negative, vec![]),
            Num::new(Sign::Positive, vec![]),
            (3, 4),
            6
        )
    );
}

#[test]
fn moving_turning_around_and_moving_comes_back() {
    for direction in [0u8, 2, 4, 6] {
        let mut state = origin((5, 6), direction);
        let start = state.to_bytes();
        assert_eq!(state.move_forward(), Ok(()));
        for _ in 0..4 {
            state.turn_right();
        }
        assert_eq!(state.move_forward(), Ok(()));
        let mut back = state.to_bytes();
        back[0] = direction;
        assert_eq!(back, start);
    }
}

#[test]
fn door_description() {
    let state = origin((1, 2), 0);
    assert_eq!(state.describe(), "A dark, rusty door stands before you.");
}

#[test]
fn wall_descriptions() {
    let state = origin((1, 2), 1);
    assert_eq!(
        state.describe(),
        format!(
            "A wall of text stands before you. It reads:\n{}",
            boxed(&["p"])
        )
    );

    let other = State::new(
        Num::new(Sign::Negative, vec![5]),
        Num::new(Sign::Positive, vec![0, 1]),
        (3, 4),
        3,
    );
    assert_eq!(
        other.describe(),
        format!(
            "A wall of text stands before you. It reads:\n{}",
            boxed(&["BKy"])
        )
    );
}

#[test]
fn key_is_recognised() {
    let state = origin((21, 22), 0);
    assert!(state.has_key(&(21, 22)));
    assert!(!state.has_key(&(22, 21)));
}

#[test]
fn random_states_face_one_of_eight_directions() {
    for _ in 0..50 {
        let state = State::random();
        assert!(state.to_bytes()[0] < 8);
        assert_eq!(State::from_code(&state.to_code()), Ok(state.clone()));
    }
}

#[test]
fn certain_end_gives_no_digits() {
    for _ in 0..20 {
        assert_eq!(Num::rand_num(1, 1).len(), 1);
    }
}

#[test]
fn textbox_layout() {
    assert_eq!(textbox(String::new()), boxed(&[]));
    assert_eq!(textbox(String::from("ab")), boxed(&["ab"]));
    let row: String = "x".repeat(COL_WIDTH);
    assert_eq!(textbox(row.clone()), boxed(&[row.as_str()]));
    let long = format!("{}é", row);
    assert_eq!(textbox(long), boxed(&[row.as_str(), "é"]));
}

#[test]
fn repeated_push_appends() {
    let mut s = String::from("a");
    repeated_push(&mut s, '═', 3);
    assert_eq!(s, "a═══");
    repeated_push(&mut s, 'b', 0);
    assert_eq!(s, "a═══");
}

fn wall_of(x: Num, y: Num, direction: u8) -> String {
    State::new(x, y, (8, 9), direction).describe()
}

#[test]
fn walls_tell_rooms_apart() {
    let here = wall_of(Num::new(Sign::Negative, vec![0]), Num::new(Sign::Negative, vec![]), 1);
    assert_eq!(
        here,
        format!("A wall of text stands before you. It reads:\n{}", boxed(&["VHa"]))
    );
    let next = wall_of(Num::new(Sign::Negative, vec![0]), Num::new(Sign::Negative, vec![1]), 1);
    let turned = wall_of(Num::new(Sign::Negative, vec![0]), Num::new(Sign::Negative, vec![]), 3);
    let flipped = wall_of(Num::new(Sign::Positive, vec![0]), Num::new(Sign::Negative, vec![]), 1);
    assert_ne!(here, next);
    assert_ne!(here, turned);
    assert_ne!(here, flipped);
    assert_ne!(next, turned);
}

#[test]
fn carried_digits_give_their_own_wall() {
    let a = wall_of(Num::new(Sign::Negative, vec![0]), Num::new(Sign::Negative, vec![]), 1);
    let b = wall_of(
        Num::new(Sign::Negative, vec![0]),
        Num::new(Sign::Negative, vec![0, 255]),
        1,
    );
    assert_eq!(
        b,
        format!("A wall of text stands before you. It reads:\n{}", boxed(&["vWsPx"]))
    );
    assert_ne!(a, b);
}

#[test]
fn base_conversions_carry_and_borrow() {
    let mut a = vec![0, 255];
    from_bijbase256(&mut a);
    assert_eq!(a, vec![0, 0, 1]);
    to_bijbase256(&mut a);
    assert_eq!(a, vec![0, 255]);

    let mut b = vec![0, 0];
    to_bijbase256(&mut b);
    assert!(b.is_empty());

    let mut c = vec![255, 255];
    from_bijbase256(&mut c);
    assert_eq!(c, vec![255, 255]);

    let mut d = vec![0, 0, 0];
    from_bijbase256(&mut d);
    assert_eq!(d, vec![0, 1, 1, 1]);
    to_bijbase256(&mut d);
    assert_eq!(d, vec![0, 0, 0]);
}

#[test]
fn the_empty_text_is_on_a_wall() {
    let wall = wall_of(Num::new(Sign::Negative, vec![]), Num::new(Sign::Negative, vec![]), 1);
    assert_eq!(
        wall,
        format!("A wall of text stands before you. It reads:\n{}", boxed(&[]))
    );
}

#[test]
fn every_character_is_on_some_wall() {
    let mut seen = std::collections::HashSet::new();
    let mut digit_choices: Vec<Vec<u8>> = vec![vec![]];
    for d in 1..=15u8 {
        digit_choices.push(vec![d]);
    }
    for xd in &digit_choices {
        for yd in &digit_choices {
            for sx in [Sign::Negative, Sign::Positive] {
                for sy in [Sign::Negative, Sign::Positive] {
                    for direction in [1u8, 3, 5, 7] {
                        seen.insert(wall_of(
                            Num::new(sx, xd.clone()),
                            Num::new(sy, yd.clone()),
                            direction,
                        ));
                    }
                }
            }
        }
    }
    let alphabet = "abcdefghijklmnopqrstuvwxyzABCDEFGHIJKLMNOPQRSTUVWXYZ0123456789,.!? ";
    for c in alphabet.chars() {
        let text = c.to_string();
        let expected = format!(
            "A wall of text stands before you. It reads:\n{}",
            boxed(&[text.as_str()])
        );
        assert!(seen.contains(&expected), "no wall reads {:?}", c);
    }
}
