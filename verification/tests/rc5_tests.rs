use cryptography::ciphers::rc5::RC5;
use cryptography::Cipher;

#[test]
fn rc5_new_records_its_parameters() {
    let key = vec![0x00, 0x01, 0x02, 0x03, 0x04, 0x05, 0x06, 0x07];
    let rc5 = RC5::new(key.clone(), 12, 64);
    assert_eq!(rc5.key(), &key);
    assert_eq!(rc5.rounds(), 12);
    assert_eq!(rc5.word_size(), 64);
    assert_eq!(rc5.number_of_rounds(), 26);
    assert_eq!(rc5.key_size(), 8);
}

#[test]
fn rc5_new_with_no_rounds_and_no_key() {
    let rc5 = RC5::new(Vec::new(), 0, 0);
    assert_eq!(rc5.number_of_rounds(), 2);
    assert_eq!(rc5.key_size(), 0);
    assert_eq!(rc5.word_size(), 0);
}

#[test]
fn rc5_destroy_wipes_the_instance() {
    let mut rc5 = RC5::new(vec![1, 2, 3, 4], 12, 32);
    rc5.destroy();
    assert!(rc5.key().is_empty());
    assert_eq!(rc5.rounds(), 0);
    assert_eq!(rc5.word_size(), 0);
    assert_eq!(rc5.number_of_rounds(), 0);
    assert_eq!(rc5.key_size(), 0);
}

#[test]
fn rc5_encrypt_yields_no_bytes() {
    let key = vec![0x00, 0x01, 0x02, 0x03, 0x04, 0x05, 0x06, 0x07];
    let mut rc5 = RC5::new(key.clone(), 12, 64);
    let input = vec![0x00, 0x01, 0x02, 0x03, 0x04, 0x05, 0x06, 0x07];
    assert_eq!(rc5.encrypt(&input), Vec::<u8>::new());
    assert_eq!(rc5.encrypt(&[]), Vec::<u8>::new());
    assert_eq!(rc5.key(), &key);
    assert_eq!(rc5.rounds(), 12);
}
