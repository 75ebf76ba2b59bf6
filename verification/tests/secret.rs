use raptor::error::Error;
use raptor::secret::{check_key, decode_secret, validate_secret, MIN_KEY_BYTES};

fn sample(len: usize) -> Vec<u8> {
    (0..len).map(|i| (i * 37 + 11) as u8).collect()
}

#[test]
fn decodes_padded_text() {
    // "Hello!" followed by DE AD BE EF
    let key = decode_secret("JBSWY3DPEHPK3PXP").unwrap();
    assert_eq!(key, vec![0x48, 0x65, 0x6c, 0x6c, 0x6f, 0x21, 0xde, 0xad, 0xbe, 0xef]);
}

#[test]
fn decodes_text_with_padding_characters() {
    assert_eq!(decode_secret("MY======").unwrap(), vec![b'f']);
    assert_eq!(decode_secret("MZXQ====").unwrap(), vec![b'f', b'o']);
    assert_eq!(decode_secret("MZXW6===").unwrap(), vec![b'f', b'o', b'o']);
    assert_eq!(decode_secret("MZXW6YQ=").unwrap(), vec![b'f', b'o', b'o', b'b']);
    assert_eq!(decode_secret("MZXW6YTB").unwrap(), vec![b'f', b'o', b'o', b'b', b'a']);
}

#[test]
fn decodes_text_without_padding_characters() {
    assert_eq!(decode_secret("MY").unwrap(), vec![b'f']);
    assert_eq!(decode_secret("MZXQ").unwrap(), vec![b'f', b'o']);
    assert_eq!(decode_secret("MZXW6").unwrap(), vec![b'f', b'o', b'o']);
    assert_eq!(decode_secret("MZXW6YQ").unwrap(), vec![b'f', b'o', b'o', b'b']);
}

#[test]
fn empty_secret_decodes_to_no_bytes() {
    assert_eq!(decode_secret("").unwrap(), Vec::<u8>::new());
    assert_eq!(validate_secret(""), Err(Error::SecretTooShort { bytes: 0, bits: 0 }));
}

#[test]
fn rejects_text_outside_the_alphabet() {
    assert_eq!(decode_secret("not base32!"), Err(Error::InvalidEncoding));
    assert_eq!(decode_secret("JBSWY3DPEHPK3PX1"), Err(Error::InvalidEncoding));
    assert_eq!(decode_secret("jbswy3dpehpk3pxp"), Err(Error::InvalidEncoding));
    assert_eq!(decode_secret("JBSWY3DP EHPK3PXP"), Err(Error::InvalidEncoding));
    assert_eq!(decode_secret("JBSWY3DPEHPK3PX\u{e9}"), Err(Error::InvalidEncoding));
    assert_eq!(validate_secret("********"), Err(Error::InvalidEncoding));
}

#[test]
fn round_trip_with_padding() {
    for len in 16..=64 {
        let key = sample(len);
        let text = base32::encode(base32::Alphabet::Rfc4648 { padding: true }, &key);
        assert_eq!(decode_secret(&text), Ok(key.clone()), "length {}", len);
        assert_eq!(validate_secret(&text), Ok(key), "length {}", len);
    }
}

#[test]
fn round_trip_without_padding() {
    for len in 16..=64 {
        let key = sample(len);
        let text = base32::encode(base32::Alphabet::Rfc4648 { padding: false }, &key);
        assert_eq!(decode_secret(&text), Ok(key.clone()), "length {}", len);
        assert_eq!(validate_secret(&text), Ok(key), "length {}", len);
    }
}

#[test]
fn round_trip_of_extreme_bytes() {
    for byte in [0x00u8, 0xff, 0x80, 0x7f] {
        let key = vec![byte; 16];
        for padding in [true, false] {
            let text = base32::encode(base32::Alphabet::Rfc4648 { padding }, &key);
            assert_eq!(validate_secret(&text), Ok(key.clone()));
        }
    }
}

#[test]
fn eighty_bit_secret_is_too_short() {
    assert_eq!(
        validate_secret("JBSWY3DPEHPK3PXP"),
        Err(Error::SecretTooShort { bytes: 10, bits: 80 })
    );
}

#[test]
fn hundred_sixty_bit_secret_is_accepted() {
    let key = validate_secret("JBSWY3DPEHPK3PXPJBSWY3DPEHPK3PXP").unwrap();
    assert_eq!(key.len(), 20);
    assert_eq!(&key[..10], &key[10..]);
    assert_eq!(&key[..6], b"Hello!");
}

#[test]
fn key_length_boundary() {
    assert_eq!(MIN_KEY_BYTES, 16);
    assert_eq!(check_key(vec![7; 16]), Ok(vec![7; 16]));
    assert_eq!(check_key(vec![7; 17]), Ok(vec![7; 17]));
    assert_eq!(check_key(vec![7; 15]), Err(Error::SecretTooShort { bytes: 15, bits: 120 }));
    assert_eq!(check_key(Vec::new()), Err(Error::SecretTooShort { bytes: 0, bits: 0 }));
}

#[test]
fn short_secrets_of_every_length_are_refused() {
    for len in 0..16 {
        let text = base32::encode(base32::Alphabet::Rfc4648 { padding: true }, &sample(len));
        assert_eq!(
            validate_secret(&text),
            Err(Error::SecretTooShort { bytes: len, bits: len * 8 })
        );
    }
}
