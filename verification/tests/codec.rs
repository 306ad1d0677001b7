use cargo_executable_payload::codec::{decode, decode_table, encode};

fn sample(len: usize) -> Vec<u8> {
    let mut bytes = Vec::with_capacity(len);
    let mut x: u32 = 0x1234_5678;
    for _ in 0..len {
        x = x.wrapping_mul(1_664_525).wrapping_add(1_013_904_223);
        bytes.push((x >> 24) as u8);
    }
    bytes
}

#[test]
fn encode_known_vectors() {
    assert_eq!(encode(b""), "");
    assert_eq!(encode(b"f"), "Zg==");
    assert_eq!(encode(b"fo"), "Zm8=");
    assert_eq!(encode(b"foo"), "Zm9v");
    assert_eq!(encode(b"foob"), "Zm9vYg==");
    assert_eq!(encode(b"fooba"), "Zm9vYmE=");
    assert_eq!(encode(b"foobar"), "Zm9vYmFy");
}

#[test]
fn encode_uses_plus_and_slash() {
    assert_eq!(encode(&[0xfb, 0xff]), "+/8=");
    assert_eq!(encode(&[0xff, 0xff, 0xff]), "////");
    assert_eq!(encode(&[0x00, 0x00, 0x00]), "AAAA");
}

#[test]
fn encode_does_not_wrap_lines() {
    let text = encode(&sample(3000));
    assert_eq!(text.len(), 4000);
    assert!(!text.contains('\n'));
    assert!(!text.contains('\r'));
}

#[test]
fn decode_known_vectors() {
    assert_eq!(decode(""), b"".to_vec());
    assert_eq!(decode("Zg=="), b"f".to_vec());
    assert_eq!(decode("Zm8="), b"fo".to_vec());
    assert_eq!(decode("Zm9v"), b"foo".to_vec());
    assert_eq!(decode("Zm9vYg=="), b"foob".to_vec());
    assert_eq!(decode("Zm9vYmE="), b"fooba".to_vec());
    assert_eq!(decode("Zm9vYmFy"), b"foobar".to_vec());
    assert_eq!(decode("+/8="), vec![0xfb, 0xff]);
}

#[test]
fn decode_packs_bits_as_stated() {
    // Q=16, U=20, J=9, D=3
    assert_eq!(
        decode("QUJD"),
        vec![(16 << 2) | (20 >> 4), ((20 & 15) << 4) | (9 >> 2), ((9 & 3) << 6) | 3]
    );
    assert_eq!(decode("QUJD"), b"ABC".to_vec());
}

#[test]
fn decode_treats_unknown_symbols_as_zero() {
    assert_eq!(decode("!!!!"), vec![0, 0, 0]);
    assert_eq!(decode("===="), vec![0]);
}

#[test]
fn round_trip_short_lengths() {
    for len in 0..=9 {
        let bytes = sample(len);
        assert_eq!(decode(&encode(&bytes)), bytes, "length {}", len);
    }
}

#[test]
fn round_trip_many_lengths() {
    for len in 0..300 {
        let bytes = sample(len);
        let text = encode(&bytes);
        assert_eq!(text.len(), 4 * ((len + 2) / 3));
        assert_eq!(text.len() % 4, 0);
        assert_eq!(decode(&text), bytes);
    }
}

#[test]
fn round_trip_every_byte_value() {
    let bytes: Vec<u8> = (0..=255u8).collect();
    assert_eq!(decode(&encode(&bytes)), bytes);
    let zeros = vec![0u8; 7];
    assert_eq!(decode(&encode(&zeros)), zeros);
}

#[test]
fn encode_is_deterministic() {
    let bytes = sample(100);
    assert_eq!(encode(&bytes), encode(&bytes));
    assert_eq!(encode(&bytes).len(), 136);
}

#[test]
fn encoded_alphabet_only() {
    let text = encode(&sample(500));
    assert!(text
        .chars()
        .all(|c| c.is_ascii_alphanumeric() || c == '+' || c == '/' || c == '='));
    assert!(!text.trim_end_matches('=').contains('='));
}

#[test]
fn decode_table_entries() {
    let table = decode_table();
    assert_eq!(table.len(), 256);
    let alphabet = b"ABCDEFGHIJKLMNOPQRSTUVWXYZabcdefghijklmnopqrstuvwxyz0123456789+/";
    for (i, &c) in alphabet.iter().enumerate() {
        assert_eq!(table[usize::from(c)], i as u8);
    }
    assert_eq!(table[usize::from(b'=')], 0);
    assert_eq!(table[0], 0);
    assert_eq!(table[255], 0);
    assert_eq!(table.iter().filter(|&&v| v != 0).count(), 63);
}
