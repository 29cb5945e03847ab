use workshop::crypt::Data;

#[test]
fn empty_data() {
    let mut data = Data::new(vec![]);
    assert_eq!(data.read(), None);
}

#[test]
fn read_data() {
    let mut data = Data::new(vec![1, 2, 3]);
    assert_eq!(data.read(), Some(1));
    assert_eq!(data.read(), Some(2));
    assert_eq!(data.read(), Some(3));
    assert_eq!(data.read(), None);
}

#[test]
fn encrypted_read_past_end() {
    let mut data = Data::new(vec![1, 2, 3]);
    assert_eq!(data.read(), Some(1));

    let mut encrypted = data.encrypt(0xCE);
    assert_eq!(encrypted.read(), Some(204));
    assert_eq!(encrypted.read(), Some(205));
    assert_eq!(encrypted.read(), None);
}

#[test]
fn decrypt_wrong_key() {
    let mut data = Data::new(vec![1, 2, 3]);
    assert_eq!(data.read(), Some(1));

    let encrypted = data.encrypt(0xCE);
    match encrypted.decrypt(5) {
        Ok(_) => {
            panic!("Data was decrypted with a wrong key");
        }
        Err(mut decrypted) => {
            assert_eq!(decrypted.read(), Some(204));
        }
    }
}

#[test]
fn encrypt_decrypt_roundtrip() {
    let mut data = Data::new(vec![1, 2, 3]);
    assert_eq!(data.read(), Some(1));

    let mut encrypted = data.encrypt(0xCE);
    assert_eq!(encrypted.read(), Some(204));

    let mut data = match encrypted.decrypt(0xCE) {
        Ok(d) => d,
        Err(_) => {
            panic!("Wrong key was used");
        }
    };
    assert_eq!(data.read(), Some(3));
    assert_eq!(data.read(), None);
}
