use uuidv7::errors::UuidError;
use uuidv7::generator::{generate, generate_from_ms, generate_from_timestamp, generate_now};
use uuidv7::ident::Identifier;

const SAMPLE: [u8; 16] = [
    0x00, 0x01, 0x02, 0x03, 0x04, 0x05, 0x06, 0x07, 0x08, 0x09, 0x0a, 0x0b, 0x0c, 0x0d, 0x0e,
    0x0f,
];

fn extract_ts_big_endian(bytes: &[u8; 16]) -> u64 {
    let mut t: u64 = 0;
    for i in 0..6 {
        t = t * 256 + bytes[i] as u64;
    }
    t
}

#[test]
fn timestamp_round_trip() {
    let stamps: [u64; 6] = [0, 1, 999, 1000, 1645557742000, 0xFFFF_FFFF_FFFF];
    for &t in stamps.iter() {
        let id = generate_from_timestamp(t).unwrap();
        let enc = id.encode();
        let dec = Identifier::decode(&enc).unwrap();
        assert_eq!(dec.timestamp_ms(), t);
    }
}

#[test]
fn version_and_variant_always_fixed() {
    for i in 0..50 {
        let id = generate_now();
        assert_eq!(id.version(), 7);
        assert_eq!(id.variant(), 2);
        let id2 = generate_from_timestamp(1000 * i as u64).unwrap();
        assert_eq!(id2.version(), 7);
        assert_eq!(id2.variant(), 2);
        let enc = id2.encode();
        assert_eq!(enc[6] >> 4, 7);
        assert_eq!(enc[8] >> 6, 2);
    }
}

#[test]
fn format_parse_round_trip() {
    let inputs: [[u8; 16]; 4] = [
        [0; 16],
        [0xff; 16],
        SAMPLE,
        [
            0x01, 0x7f, 0x22, 0xe2, 0x79, 0xb0, 0x7c, 0xc3, 0x98, 0xc4, 0xdc, 0x0c, 0x0c, 0x07,
            0x39, 0x8f,
        ],
    ];
    for b in inputs.iter() {
        let id = Identifier::decode(b).unwrap();
        let s = id.format();
        let back = Identifier::parse(&s).unwrap();
        assert_eq!(back.encode(), *b);
    }
}

#[test]
fn format_exact_value() {
    let id = Identifier::decode(&SAMPLE).unwrap();
    assert_eq!(id.format(), "00010203-0405-0607-0809-0a0b0c0d0e0f");
}

#[test]
fn parse_exact_value() {
    let id = Identifier::parse("00010203-0405-0607-0809-0a0b0c0d0e0f").unwrap();
    assert_eq!(id.encode(), SAMPLE);
}

#[test]
fn parse_accepts_uppercase() {
    let id = Identifier::parse("00010203-0405-0607-0809-0A0B0C0D0E0F").unwrap();
    assert_eq!(id.encode(), SAMPLE);
}

#[test]
fn monotonic_timestamps() {
    let mut previous: Option<[u8; 16]> = None;
    let mut previous_ts: Option<u64> = None;
    let mut previous_str: Option<String> = None;
    for k in 0..100 {
        let t: u64 = 1645557742000 + 7 * k as u64;
        let id = generate_from_timestamp(t).unwrap();
        assert_eq!(id.timestamp_ms(), t);
        let enc = id.encode();
        let s = id.format();
        if let Some(p) = previous {
            assert!(p < enc);
        }
        if let Some(pt) = previous_ts {
            assert!(pt < id.timestamp_ms());
        }
        if let Some(ps) = previous_str {
            assert!(ps < s);
        }
        previous = Some(enc);
        previous_ts = Some(id.timestamp_ms());
        previous_str = Some(s);
    }
}

#[test]
fn uniqueness_ten_thousand() {
    let mut all: Vec<[u8; 16]> = Vec::with_capacity(10_000);
    for _ in 0..10_000 {
        all.push(generate_now().encode());
    }
    all.sort();
    for w in all.windows(2) {
        assert!(w[0] != w[1]);
    }
}

#[test]
fn decode_wrong_length_fails() {
    let fifteen: [u8; 15] = [0; 15];
    let seventeen: [u8; 17] = [0; 17];
    assert_eq!(
        Identifier::decode(&fifteen).unwrap_err(),
        UuidError::InvalidLength
    );
    assert_eq!(
        Identifier::decode(&seventeen).unwrap_err(),
        UuidError::InvalidLength
    );
    assert_eq!(Identifier::decode(&[]).unwrap_err(), UuidError::InvalidLength);
}

#[test]
fn decode_is_permissive_on_any_sixteen_bytes() {
    let b: [u8; 16] = [0xde; 16];
    let id = Identifier::decode(&b).unwrap();
    assert_eq!(id.encode(), b);
}

#[test]
fn parse_malformed_fails() {
    let cases: [&str; 6] = [
        "00010203-0405-0607-0809-0a0b0c0d0e0",
        "00010203-0405-0607-0809-0a0b0c0d0e0f0",
        "000102030-405-0607-0809-0a0b0c0d0e0f",
        "00010203-0405-0607-0809-0a0b0c0d0eg!",
        "",
        "00010203040506070809-0a0b0c0d0e0f--",
    ];
    for s in cases.iter() {
        assert_eq!(Identifier::parse(s).unwrap_err(), UuidError::InvalidFormat);
    }
}

#[test]
fn overflow_is_rejected() {
    assert_eq!(
        generate_from_timestamp(0x1_0000_0000_0000).unwrap_err(),
        UuidError::Overflow
    );
    assert_eq!(
        generate_from_timestamp(u64::MAX).unwrap_err(),
        UuidError::Overflow
    );
    assert_eq!(
        generate_from_ms(0x1_0000_0000_0000).unwrap_err(),
        UuidError::Overflow
    );
    assert!(generate_from_timestamp(0xFFFF_FFFF_FFFF).is_ok());
}

#[test]
fn concrete_scenario() {
    let id = generate_from_timestamp(1645557742000).unwrap();
    let enc = id.encode();
    assert_eq!(extract_ts_big_endian(&enc), 1645557742000);
    let s = id.format();
    assert_eq!(s.chars().nth(14).unwrap(), '7');
}

#[test]
fn generated_strings_are_canonical() {
    let s = generate();
    assert_eq!(s.len(), 36);
    let chars: Vec<char> = s.chars().collect();
    for (p, c) in chars.iter().enumerate() {
        if p == 8 || p == 13 || p == 18 || p == 23 {
            assert_eq!(*c, '-');
        } else {
            assert!(c.is_ascii_hexdigit());
            assert!(!c.is_ascii_uppercase());
        }
    }
    assert_eq!(chars[14], '7');
    let id = Identifier::parse(&s).unwrap();
    assert_eq!(id.version(), 7);
    assert_eq!(id.variant(), 2);
}

#[test]
fn generate_from_ms_string_carries_timestamp() {
    let s = generate_from_ms(1645557742000).unwrap();
    let id = Identifier::parse(&s).unwrap();
    assert_eq!(id.timestamp_ms(), 1645557742000);
    assert_eq!(s.chars().nth(14).unwrap(), '7');
}
