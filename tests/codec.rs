use seaplane::codec::{decode, encode, EncodingError};

#[test]
fn round_trip_small_lengths() {
    let samples: Vec<Vec<u8>> = vec![
        vec![],
        vec![0],
        vec![255, 254],
        vec![1, 2, 3],
        vec![0xfb, 0xff, 0xbf, 0x00],
        vec![b'f', b'o', b'o', b'/', b'b', b'a', b'r', b'\n'],
    ];
    for b in samples {
        let e = encode(&b);
        assert_eq!(decode(&e), Ok(b));
    }
}

#[test]
fn round_trip_every_byte() {
    let all: Vec<u8> = (0..=255u8).collect();
    let e = encode(&all);
    assert_eq!(e.len(), 342);
    assert_eq!(decode(&e).unwrap(), all);
}

#[test]
fn encode_known_values() {
    assert_eq!(encode(b""), "");
    assert_eq!(encode(b"f"), "Zg");
    assert_eq!(encode(b"fo"), "Zm8");
    assert_eq!(encode(b"foo"), "Zm9v");
    assert_eq!(encode(b"foo/bar\n"), "Zm9vL2Jhcgo");
    assert_eq!(encode(&[0xfb, 0xff]), "-_8");
}

#[test]
fn decode_known_values() {
    assert_eq!(decode("Zm9vL2Jhcgo").unwrap(), b"foo/bar\n".to_vec());
    assert_eq!(decode("bW9ieQo").unwrap(), b"moby\n".to_vec());
    assert_eq!(decode("-_8").unwrap(), vec![0xfb, 0xff]);
    assert_eq!(decode("").unwrap(), Vec::<u8>::new());
}

#[test]
fn decode_rejects_foreign_characters() {
    assert_eq!(decode("Zm9v+A"), Err(EncodingError));
    assert_eq!(decode("Zm9v/A"), Err(EncodingError));
    assert_eq!(decode("Zg=="), Err(EncodingError));
    assert_eq!(decode("Zm 9v"), Err(EncodingError));
    assert_eq!(decode("Zm9é"), Err(EncodingError));
}

#[test]
fn decode_rejects_impossible_length() {
    assert_eq!(decode("Z"), Err(EncodingError));
    assert_eq!(decode("Zm9vZ"), Err(EncodingError));
}

#[test]
fn decode_rejects_trailing_bits() {
    assert_eq!(decode("Zh"), Err(EncodingError));
    assert_eq!(decode("Zm9"), Err(EncodingError));
    assert_eq!(decode("Zm8"), Ok(b"fo".to_vec()));
}
