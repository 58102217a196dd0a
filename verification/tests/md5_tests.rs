use cryptography::hash::md5::MessageDigestAlgorithm;
use cryptography::HashFunction;

#[test]
fn test_strings() {
    let mut md5 = MessageDigestAlgorithm::new();
    let input = "";
    let output = md5.hash(input.as_bytes());
    assert_eq!(
        output,
        vec![
            0xd4, 0x1d, 0x8c, 0xd9, 0x8f, 0x00, 0xb2, 0x04, 0xe9, 0x80, 0x09, 0x98, 0xec, 0xf8,
            0x42, 0x7e
        ]
    );

    let input = "a";
    let output = md5.hash(input.as_bytes());
    assert_eq!(
        output,
        vec![
            0x0c, 0xc1, 0x75, 0xb9, 0xc0, 0xf1, 0xb6, 0xa8, 0x31, 0xc3, 0x99, 0xe2, 0x69, 0x77,
            0x26, 0x61
        ]
    );

    let input = "abc";
    let output = md5.hash(input.as_bytes());
    assert_eq!(
        output,
        vec![
            0x90, 0x01, 0x50, 0x98, 0x3c, 0xd2, 0x4f, 0xb0, 0xd6, 0x96, 0x3f, 0x7d, 0x28, 0xe1,
            0x7f, 0x72
        ]
    );

    let input = "message digest";
    let output = md5.hash(input.as_bytes());
    assert_eq!(
        output,
        vec![
            0xf9, 0x6b, 0x69, 0x7d, 0x7c, 0xb7, 0x93, 0x8d, 0x52, 0x5a, 0x2f, 0x31, 0xaa, 0xf1,
            0x61, 0xd0
        ]
    );

    let input = "abcdefghijklmnopqrstuvwxyz";
    let output = md5.hash(input.as_bytes());
    assert_eq!(
        output,
        vec![
            0xc3, 0xfc, 0xd3, 0xd7, 0x61, 0x92, 0xe4, 0x00, 0x7d, 0xfb, 0x49, 0x6c, 0xca, 0x67,
            0xe1, 0x3b
        ]
    );

    let input = "ABCDEFGHIJKLMNOPQRSTUVWXYZabcdefghijklmnopqrstuvwxyz0123456789";
    let output = md5.hash(input.as_bytes());
    assert_eq!(
        output,
        vec![
            0xd1, 0x74, 0xab, 0x98, 0xd2, 0x77, 0xd9, 0xf5, 0xa5, 0x61, 0x1c, 0x2c, 0x9f, 0x41,
            0x9d, 0x9f
        ]
    );

    let input =
        "12345678901234567890123456789012345678901234567890123456789012345678901234567890";
    let output = md5.hash(input.as_bytes());
    assert_eq!(
        output,
        vec![
            0x57, 0xed, 0xf4, 0xa2, 0x2b, 0xe3, 0xc9, 0x55, 0xac, 0x49, 0xda, 0x2e, 0x21, 0x07,
            0xb6, 0x7a
        ]
    );
}

fn hex(bytes: &[u8]) -> String {
    let mut out = String::new();
    for b in bytes {
        out.push_str(&format!("{:02x}", b));
    }
    out
}

#[test]
fn md5_of_the_alphabet_in_lower_case() {
    let mut md5 = MessageDigestAlgorithm::new();
    assert_eq!(hex(&md5.hash(b"abcdefghijklmnopqrstuvwxyz")), "c3fcd3d76192e4007dfb496cca67e13b");
}

#[test]
fn md5_at_the_padding_boundaries() {
    let mut md5 = MessageDigestAlgorithm::new();
    // 55 bytes fill the first block exactly; 56 bytes need a second one.
    assert_eq!(hex(&md5.hash(&[b'a'; 55])), "ef1772b6dff9a122358552954ad0df65");
    assert_eq!(hex(&md5.hash(&[b'a'; 56])), "3b0c8ac703f828b04c6c197006d17218");
    assert_eq!(hex(&md5.hash(&[b'a'; 63])), "b06521f39153d618550606be297466d5");
    assert_eq!(hex(&md5.hash(&[b'a'; 64])), "014842d480b571495a4a0363793f7367");
    assert_eq!(hex(&md5.hash(&[b'a'; 119])), "8a7bd0732ed6a28ce75f6dabc90e1613");
    assert_eq!(hex(&md5.hash(&[b'a'; 120])), "5f61c0ccad4cac44c75ff505e1f1e537");
}

#[test]
fn md5_is_a_function_of_the_input() {
    let mut first = MessageDigestAlgorithm::new();
    let mut second = MessageDigestAlgorithm::default();
    let once = first.hash(b"message digest");
    let twice = first.hash(b"message digest");
    assert_eq!(once, twice);
    assert_eq!(once, second.hash(b"message digest"));
    assert_eq!(once.len(), 16);
    assert_ne!(once, first.hash(b"message digesu"));
}

#[test]
fn md5_auxiliary_functions() {
    let (x, y, z) = (0xf0f0_f0f0u32, 0xcccc_ccccu32, 0xaaaa_aaaau32);
    assert_eq!(MessageDigestAlgorithm::f(x, y, z), 0xcaca_caca);
    assert_eq!(MessageDigestAlgorithm::g(x, y, z), 0xe4e4_e4e4);
    assert_eq!(MessageDigestAlgorithm::h(x, y, z), 0x9696_9696);
    assert_eq!(MessageDigestAlgorithm::i(x, y, z), 0x3939_3939);
}
