use librepods::bluetooth::le::{ah, decrypt, e, verify_rpa, verify_rpa_octets};

fn sample_irk() -> [u8; 16] {
    [
        0x9b, 0x7d, 0x39, 0x0a, 0xa6, 0x10, 0x10, 0x34, 0x05, 0xad, 0xc8, 0x57, 0xa3, 0x34, 0x02,
        0xec,
    ]
}

#[test]
fn ah_reproduces_the_sample_hash() {
    let prand = [0x94, 0x81, 0x70];
    assert_eq!(ah(&sample_irk(), &prand), [0xaa, 0xfb, 0x0d]);
}

#[test]
fn e_reverses_key_plaintext_and_ciphertext() {
    let mut data = [0u8; 16];
    data[0] = 0x94;
    data[1] = 0x81;
    data[2] = 0x70;
    let out = e(&sample_irk(), &data);
    assert_eq!(
        out,
        [
            0xaa, 0xfb, 0x0d, 0xc4, 0xdc, 0x1b, 0x8c, 0xa4, 0x11, 0x23, 0xbe, 0x2e, 0xb7, 0x5f,
            0x9d, 0x15
        ]
    );
}

#[test]
fn verify_rpa_accepts_the_sample_address() {
    assert!(verify_rpa("70:81:94:0D:FB:AA", &sample_irk()));
    assert!(verify_rpa_octets(&[0x70, 0x81, 0x94, 0x0d, 0xfb, 0xaa], &sample_irk()));
}

#[test]
fn verify_rpa_rejects_other_keys() {
    let mut key = sample_irk();
    for i in 0..16 {
        key[i] ^= 0x01;
        assert!(!verify_rpa("70:81:94:0D:FB:AA", &key));
        key[i] ^= 0x01;
    }
    assert!(!verify_rpa("70:81:94:0D:FB:AA", &[0u8; 16]));
}

#[test]
fn decrypt_recovers_the_standard_block() {
    let key: [u8; 16] = [
        0x00, 0x01, 0x02, 0x03, 0x04, 0x05, 0x06, 0x07, 0x08, 0x09, 0x0a, 0x0b, 0x0c, 0x0d, 0x0e,
        0x0f,
    ];
    let cipher: [u8; 16] = [
        0x69, 0xc4, 0xe0, 0xd8, 0x6a, 0x7b, 0x04, 0x30, 0xd8, 0xcd, 0xb7, 0x80, 0x70, 0xb4, 0xc5,
        0x5a,
    ];
    let plain: [u8; 16] = [
        0x00, 0x11, 0x22, 0x33, 0x44, 0x55, 0x66, 0x77, 0x88, 0x99, 0xaa, 0xbb, 0xcc, 0xdd, 0xee,
        0xff,
    ];
    assert_eq!(decrypt(&key, &cipher), plain);
}
