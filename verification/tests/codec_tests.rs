use dbmap::{Codec, StorageError};

#[test]
fn u64_encodes_as_eight_big_endian_bytes() {
    assert_eq!(42u64.encode().unwrap(), vec![0, 0, 0, 0, 0, 0, 0, 42]);
    assert_eq!(
        0x0102030405060708u64.encode().unwrap(),
        vec![1, 2, 3, 4, 5, 6, 7, 8]
    );
    assert_eq!(u64::MAX.encode().unwrap(), vec![255; 8]);
}

#[test]
fn u64_round_trips() {
    for v in [0u64, 1, 255, 256, 65535, u64::MAX, u64::MAX - 1] {
        let payload = v.encode().unwrap();
        assert_eq!(u64::decode(&payload).unwrap(), v);
    }
}

#[test]
fn u64_rejects_wrong_length_payloads() {
    assert_eq!(u64::decode(&[]), Err(StorageError::DecodeFailed));
    assert_eq!(u64::decode(&[1, 2, 3]), Err(StorageError::DecodeFailed));
    assert_eq!(
        u64::decode(&[0, 0, 0, 0, 0, 0, 0, 0, 0]),
        Err(StorageError::DecodeFailed)
    );
}

#[test]
fn string_encodes_as_utf8() {
    assert_eq!("abc".to_string().encode().unwrap(), b"abc".to_vec());
    assert_eq!(
        "\u{20ac}".to_string().encode().unwrap(),
        vec![0xe2, 0x82, 0xac]
    );
    let s = "caf\u{e9} \u{1f600}".to_string();
    let payload = s.encode().unwrap();
    assert_eq!(String::decode(&payload).unwrap(), s);
}

#[test]
fn string_rejects_invalid_utf8() {
    assert_eq!(String::decode(&[0xff, 0xfe]), Err(StorageError::DecodeFailed));
    assert_eq!(String::decode(&[0xe2, 0x82]), Err(StorageError::DecodeFailed));
    assert_eq!(String::decode(b"fine").unwrap(), "fine".to_string());
}

#[test]
fn raw_bytes_round_trip_unchanged() {
    let v: Vec<u8> = vec![0, 1, 2, 255];
    assert_eq!(v.encode().unwrap(), v);
    assert_eq!(Vec::<u8>::decode(&v).unwrap(), v);
    assert_eq!(Vec::<u8>::decode(&[]).unwrap(), Vec::<u8>::new());
}

#[test]
fn char_codec_is_fallible_on_encode() {
    assert_eq!('A'.encode().unwrap(), vec![65]);
    assert_eq!('\u{ff}'.encode().unwrap(), vec![0xff]);
    assert_eq!('\u{100}'.encode(), Err(StorageError::EncodeFailed));
    assert_eq!('\u{20ac}'.encode(), Err(StorageError::EncodeFailed));
    assert_eq!(char::decode(&[65]).unwrap(), 'A');
    assert_eq!(char::decode(&[65, 66]), Err(StorageError::DecodeFailed));
}
