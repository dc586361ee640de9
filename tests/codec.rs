use native_commit::codec::{decode_felts_as_str, encode_str_as_felts};
use native_commit::felt::{big4int_to_u256, Felt};

fn round_trip(s: &str) -> String {
    decode_felts_as_str(&encode_str_as_felts(s))
}

#[test]
fn encode_empty_gives_no_elements() {
    assert_eq!(encode_str_as_felts("").len(), 0);
}

#[test]
fn decode_no_elements_gives_empty_text() {
    assert_eq!(decode_felts_as_str(&[]), "");
}

#[test]
fn round_trip_boundary_lengths() {
    for n in [0usize, 1, 30, 31, 32, 62] {
        let s: String = (0..n).map(|i| (b'a' + (i % 26) as u8) as char).collect();
        assert_eq!(round_trip(&s), s, "length {}", n);
    }
}

#[test]
fn round_trip_multibyte_text() {
    let s = "gas épuisé — 残り";
    assert_eq!(round_trip(s), s);
}

#[test]
fn element_counts_follow_chunks() {
    assert_eq!(encode_str_as_felts("a").len(), 1);
    assert_eq!(encode_str_as_felts(&"x".repeat(31)).len(), 1);
    assert_eq!(encode_str_as_felts(&"x".repeat(32)).len(), 2);
    assert_eq!(encode_str_as_felts(&"x".repeat(62)).len(), 2);
    assert_eq!(encode_str_as_felts(&"x".repeat(63)).len(), 3);
}

#[test]
fn encoding_layout_is_zero_then_payload_then_padding() {
    let e = encode_str_as_felts("ab");
    assert_eq!(e[0].bytes[0], 0);
    assert_eq!(e[0].bytes[1], b'a');
    assert_eq!(e[0].bytes[2], b'b');
    assert!(e[0].bytes[3..].iter().all(|b| *b == 0));
    let sf = starknet_types_core::felt::Felt::from_bytes_be(&e[0].bytes);
    let expected = starknet_types_core::felt::Felt::from_hex("0x61620000000000000000000000000000000000000000000000000000000000").unwrap();
    assert_eq!(sf, expected);
}

#[test]
fn decode_falls_back_per_element() {
    let mut text = [0u8; 32];
    text[1] = b'o';
    text[2] = b'k';
    let mut raw = [0u8; 32];
    raw[31] = 0xff;
    let elems = [Felt { bytes: text }, Felt { bytes: raw }];
    let text_dec = starknet_types_core::felt::Felt::from_bytes_be(&text).to_string();
    assert_eq!(decode_felts_as_str(&elems), format!("[ok ({}), 255]", text_dec));
}

#[test]
fn decode_never_fails_on_raw_values() {
    let mut raw = [0u8; 32];
    raw[30] = 0xc3;
    raw[31] = 0x28;
    let s = decode_felts_as_str(&[Felt { bytes: raw }]);
    assert_eq!(s, "[49960]");
}

#[test]
fn from_u128_is_big_endian() {
    let f = Felt::from_u128(0x0102);
    assert_eq!(f.bytes[30], 1);
    assert_eq!(f.bytes[31], 2);
    assert!(f.bytes[..30].iter().all(|b| *b == 0));
    let sf = starknet_types_core::felt::Felt::from_bytes_be(&Felt::from_u128(21000).bytes);
    assert_eq!(sf, starknet_types_core::felt::Felt::from(21000u64));
}

#[test]
fn canonical_bytes_are_checked() {
    let mut p = [0u8; 32];
    p[0] = 0x08;
    p[7] = 0x11;
    p[31] = 0x01;
    assert!(Felt::from_bytes_be_checked(p).is_none());
    let mut below = p;
    below[31] = 0;
    assert!(Felt::from_bytes_be_checked(below).is_some());
    assert!(Felt::from_bytes_be_checked([0xff; 32]).is_none());
    assert!(Felt::from_bytes_be_checked([0x07; 32]).is_some());
}

#[test]
fn limbs_pair_into_halves() {
    let u = big4int_to_u256([1, 2, 3, 4]);
    assert_eq!(u.lo, 1 | (2u128 << 64));
    assert_eq!(u.hi, 3 | (4u128 << 64));
}

#[test]
fn fallback_shows_elements_in_decimal() {
    let mut big = [0u8; 32];
    big[1] = 0xff;
    big[31] = 0x01;
    let expected = starknet_types_core::felt::Felt::from_bytes_be(&big).to_string();
    assert_eq!(decode_felts_as_str(&[Felt { bytes: big }]), format!("[{}]", expected));
    assert!(expected.chars().all(|c| c.is_ascii_digit()));
}
