use block_ciphers::aes::Aes128;
use block_ciphers::block::BlockCipher;
use block_ciphers::cbc::{CbcDecrypt, CbcEncrypt};
use block_ciphers::cfb::Cfb as GostCfb;
use block_ciphers::cfb_mode::Cfb;
use block_ciphers::ctr128::Ctr128Core;
use block_ciphers::ctr64::Ctr64Core;
use block_ciphers::des::Des;
use block_ciphers::magma::Magma;
use block_ciphers::ofb::OfbCore;
use block_ciphers::Error;

fn hex(s: &str) -> Vec<u8> {
    (0..s.len())
        .step_by(2)
        .map(|i| u8::from_str_radix(&s[i..i + 2], 16).unwrap())
        .collect()
}

fn blocks(v: &[&str]) -> Vec<Vec<u8>> {
    v.iter().map(|s| hex(s)).collect()
}

fn aes_key() -> Aes128 {
    let mut k = [0u8; 16];
    k.copy_from_slice(&hex("2b7e151628aed2a6abf7158809cf4f3c"));
    Aes128::new(&k)
}

fn magma_key() -> Magma {
    let mut k = [0u8; 32];
    k.copy_from_slice(&hex(
        "ffeeddccbbaa99887766554433221100f0f1f2f3f4f5f6f7f8f9fafbfcfdfeff",
    ));
    Magma::new(&k)
}

fn nist_plaintext() -> Vec<Vec<u8>> {
    blocks(&[
        "6bc1bee22e409f96e93d7e117393172a",
        "ae2d8a571e03ac9c9eb76fac45af8e51",
        "30c81c46a35ce411e5fbc1191a0a52ef",
        "f69f2445df4f9b17ad2b417be66c3710",
    ])
}

fn gost_plaintext() -> Vec<Vec<u8>> {
    blocks(&["92def06b3c130a59", "db54c704f8189d20", "4a98fb2e67a8024c", "8912409b17b57e41"])
}

fn sample(n: usize, len: usize) -> Vec<Vec<u8>> {
    (0..n)
        .map(|i| (0..len).map(|j| (i * 31 + j * 7 + 3) as u8).collect())
        .collect()
}

#[test]
fn magma_block_vector() {
    let c = magma_key();
    let mut b = hex("fedcba9876543210");
    c.encrypt_block(&mut b);
    assert_eq!(b, hex("4ee901e5c2d8ca3d"));
    c.decrypt_block(&mut b);
    assert_eq!(b, hex("fedcba9876543210"));
}

#[test]
fn cbc_aes128_nist_vector() {
    let iv: Vec<u8> = (0u8..16).collect();
    let expected = blocks(&[
        "7649abac8119b246cee98e9b12e9197d",
        "5086cb9b507219ee95db113a917678b2",
        "73bed6b8e3c1743b7116e69e22229516",
        "3ff1caa1681fac09120eca307586e1a7",
    ]);
    let mut data = nist_plaintext();
    let mut enc = CbcEncrypt::inner_iv_init(aes_key(), 1, &iv).unwrap();
    enc.encrypt_blocks(&mut data);
    assert_eq!(data, expected);
    let mut dec = CbcDecrypt::inner_iv_init(aes_key(), 1, &iv).unwrap();
    dec.decrypt_blocks(&mut data);
    assert_eq!(data, nist_plaintext());
}

#[test]
fn cbc_magma_three_block_iv_vector() {
    let iv = hex("1234567890abcdef234567890abcdef134567890abcdef12");
    let expected = blocks(&["96d1b05eea683919", "aff76129abb937b9", "5058b4a1c4bc0019", "20b78b1a7cd7e667"]);
    let mut data = gost_plaintext();
    let mut enc = CbcEncrypt::inner_iv_init(magma_key(), 3, &iv).unwrap();
    enc.encrypt_blocks(&mut data);
    assert_eq!(data, expected);
    let mut dec = CbcDecrypt::inner_iv_init(magma_key(), 3, &iv).unwrap();
    dec.decrypt_blocks(&mut data);
    assert_eq!(data, gost_plaintext());
}

#[test]
fn cbc_single_block_iv_is_textbook_cbc() {
    let iv = hex("000102030405060708090a0b0c0d0e0f");
    let msg = sample(5, 16);
    let c = aes_key();
    let mut prev = iv.clone();
    let mut textbook = Vec::new();
    for p in &msg {
        let mut b: Vec<u8> = p.iter().zip(&prev).map(|(a, b)| a ^ b).collect();
        c.encrypt_block(&mut b);
        prev = b.clone();
        textbook.push(b);
    }
    let mut data = msg.clone();
    let mut enc = CbcEncrypt::inner_iv_init(aes_key(), 1, &iv).unwrap();
    enc.encrypt_blocks(&mut data);
    assert_eq!(data, textbook);
}

#[test]
fn cbc_round_trip_with_des_and_two_block_iv() {
    let mut k = [0u8; 8];
    k.copy_from_slice(&hex("133457799bbcdff1"));
    let iv = hex("0011223344556677f0e1d2c3b4a59687");
    let msg = sample(7, 8);
    let mut data = msg.clone();
    let mut enc = CbcEncrypt::inner_iv_init(Des::new(&k), 2, &iv).unwrap();
    enc.encrypt_blocks(&mut data);
    assert_ne!(data, msg);
    let mut dec = CbcDecrypt::inner_iv_init(Des::new(&k), 2, &iv).unwrap();
    dec.decrypt_blocks(&mut data);
    assert_eq!(data, msg);
}

#[test]
fn cbc_rejects_bad_parameters() {
    let iv = vec![0u8; 16];
    assert_eq!(CbcEncrypt::inner_iv_init(aes_key(), 0, &iv).err(), Some(Error::InvalidParameter));
    assert_eq!(
        CbcDecrypt::inner_iv_init(aes_key(), 256, &vec![0u8; 256 * 16]).err(),
        Some(Error::InvalidParameter)
    );
    assert_eq!(CbcEncrypt::inner_iv_init(aes_key(), 2, &iv).err(), Some(Error::InvalidIvLength));
    assert_eq!(CbcDecrypt::inner_iv_init(aes_key(), 1, &vec![0u8; 15]).err(), Some(Error::InvalidIvLength));
}

#[test]
fn cfb_aes128_nist_vector() {
    let iv: Vec<u8> = (0u8..16).collect();
    let expected = blocks(&[
        "3b3fd92eb72dad20333449f8e83cfb4a",
        "c8a64537a0b3a93fcde3cdad9f1ce58b",
        "26751f67a3cbb140b1808cf187a4f4df",
        "c04b05357c5d1c0eeac4c66f9ff7f2e6",
    ]);
    let mut data = nist_plaintext();
    let mut enc = Cfb::inner_iv_init(aes_key(), &iv).unwrap();
    enc.encrypt_blocks(&mut data);
    assert_eq!(data, expected);
    assert_eq!(enc.iv_state(), expected[3]);
    let mut dec = Cfb::inner_iv_init(aes_key(), &iv).unwrap();
    dec.decrypt_blocks_with_pre_mut(&mut data);
    assert_eq!(data, nist_plaintext());
}

#[test]
fn cfb_one_block_at_a_time() {
    let iv: Vec<u8> = (0u8..16).collect();
    let mut dec = Cfb::inner_iv_init(aes_key(), &iv).unwrap();
    let mut b = hex("3b3fd92eb72dad20333449f8e83cfb4a");
    dec.decrypt_block_inout_mut(&mut b);
    assert_eq!(b, hex("6bc1bee22e409f96e93d7e117393172a"));
    let mut enc = Cfb::inner_iv_init(aes_key(), &iv).unwrap();
    let mut b = hex("6bc1bee22e409f96e93d7e117393172a");
    enc.encrypt_block_inout_mut(&mut b);
    assert_eq!(b, hex("3b3fd92eb72dad20333449f8e83cfb4a"));
}

#[test]
fn cfb_decrypt_of_no_blocks_keeps_register() {
    let iv: Vec<u8> = (10u8..26).collect();
    let mut dec = Cfb::inner_iv_init(aes_key(), &iv).unwrap();
    let mut none: Vec<Vec<u8>> = Vec::new();
    dec.decrypt_blocks_with_pre_mut(&mut none);
    assert!(none.is_empty());
    assert_eq!(dec.iv_state(), iv);
}

#[test]
fn cfb_rejects_bad_iv() {
    assert_eq!(Cfb::inner_iv_init(aes_key(), &vec![0u8; 8]).err(), Some(Error::InvalidIvLength));
}

#[test]
fn gost_cfb_magma_vector() {
    let iv = hex("1234567890abcdef234567890abcdef1");
    let expected = blocks(&["db37e0e266903c83", "0d46644c1f9a089c", "24bdd2035315d38b", "bcc0321421075505"]);
    let mut data = gost_plaintext();
    let mut enc = GostCfb::inner_iv_init(magma_key(), 8, &iv).unwrap();
    enc.encrypt_blocks(&mut data);
    assert_eq!(data, expected);
    let mut dec = GostCfb::inner_iv_init(magma_key(), 8, &iv).unwrap();
    dec.decrypt_blocks(&mut data);
    assert_eq!(data, gost_plaintext());
}

#[test]
fn gost_cfb_full_block_is_standard_cfb() {
    let iv: Vec<u8> = (0u8..16).collect();
    let msg = sample(6, 16);
    let mut a = msg.clone();
    let mut b = msg.clone();
    let mut gost = GostCfb::inner_iv_init(aes_key(), 16, &iv).unwrap();
    let mut std_cfb = Cfb::inner_iv_init(aes_key(), &iv).unwrap();
    gost.encrypt_blocks(&mut a);
    std_cfb.encrypt_blocks(&mut b);
    assert_eq!(a, b);
    assert_eq!(gost.iv_state(), std_cfb.iv_state());
}

#[test]
fn gost_cfb_narrow_output_round_trip() {
    let iv: Vec<u8> = (0u8..40).collect();
    let msg = sample(9, 5);
    let mut data = msg.clone();
    let mut enc = GostCfb::inner_iv_init(aes_key(), 5, &iv).unwrap();
    for b in data.iter_mut() {
        enc.encrypt_block_inout_mut(b);
    }
    assert_ne!(data, msg);
    let mut dec = GostCfb::inner_iv_init(aes_key(), 5, &iv).unwrap();
    for b in data.iter_mut() {
        dec.decrypt_block_inout_mut(b);
    }
    assert_eq!(data, msg);
}

#[test]
fn gost_cfb_rejects_bad_parameters() {
    assert_eq!(GostCfb::inner_iv_init(aes_key(), 0, &vec![0u8; 16]).err(), Some(Error::InvalidParameter));
    assert_eq!(GostCfb::inner_iv_init(aes_key(), 17, &vec![0u8; 16]).err(), Some(Error::InvalidParameter));
    assert_eq!(GostCfb::inner_iv_init(aes_key(), 16, &vec![0u8; 15]).err(), Some(Error::InvalidIvLength));
}

#[test]
fn ofb_aes128_nist_vector() {
    let iv: Vec<u8> = (0u8..16).collect();
    let expected = blocks(&[
        "3b3fd92eb72dad20333449f8e83cfb4a",
        "7789508d16918f03f53c52dac54ed825",
        "9740051e9c5fecf64344f7a82260edcc",
        "304c6528f659c77866a510d9c1d6ae5e",
    ]);
    let mut data = nist_plaintext();
    let mut ofb = OfbCore::inner_iv_init(aes_key(), 1, 16, &iv).unwrap();
    assert_eq!(ofb.remaining_blocks(), None);
    ofb.apply_keystream_blocks(&mut data);
    assert_eq!(data, expected);
    let mut ofb = OfbCore::inner_iv_init(aes_key(), 1, 16, &iv).unwrap();
    ofb.apply_keystream_blocks(&mut data);
    assert_eq!(data, nist_plaintext());
}

#[test]
fn ofb_magma_two_block_iv_vector() {
    let iv = hex("1234567890abcdef234567890abcdef1");
    let expected = blocks(&["db37e0e266903c83", "0d46644c1f9a089c", "a0f83062430e327e", "c824efb8bd4fdb05"]);
    let mut data = gost_plaintext();
    let mut ofb = OfbCore::inner_iv_init(magma_key(), 2, 8, &iv).unwrap();
    ofb.apply_keystream_blocks(&mut data);
    assert_eq!(data, expected);
}

#[test]
fn ofb_state_export_and_resume() {
    let iv = hex("1234567890abcdef234567890abcdef134567890abcdef12");
    let msg = sample(8, 5);
    let mut whole = msg.clone();
    let mut one = OfbCore::inner_iv_init(magma_key(), 3, 5, &iv).unwrap();
    one.apply_keystream_blocks(&mut whole);

    let mut first = msg[..4].to_vec();
    let mut rest = msg[4..].to_vec();
    let mut a = OfbCore::inner_iv_init(magma_key(), 3, 5, &iv).unwrap();
    a.apply_keystream_blocks(&mut first);
    let state = a.iv_state();
    assert_eq!(state.len(), 24);
    let mut b = OfbCore::inner_iv_init(magma_key(), 3, 5, &state).unwrap();
    b.apply_keystream_blocks(&mut rest);
    first.extend(rest);
    assert_eq!(first, whole);
}

#[test]
fn ofb_rejects_bad_parameters() {
    assert_eq!(OfbCore::inner_iv_init(aes_key(), 0, 16, &vec![]).err(), Some(Error::InvalidParameter));
    assert_eq!(OfbCore::inner_iv_init(aes_key(), 1, 0, &vec![0u8; 16]).err(), Some(Error::InvalidParameter));
    assert_eq!(OfbCore::inner_iv_init(aes_key(), 2, 16, &vec![0u8; 16]).err(), Some(Error::InvalidIvLength));
}

#[test]
fn ctr128_aes_nist_vector() {
    let expected = blocks(&[
        "874d6191b620e3261bef6864990db6ce",
        "9806f66b7970fdff8617187bb9fffdff",
        "5ae4df3edbd5d35e5b4f09020db03eab",
        "1e031dda2fbe03d1792170a0f3009cee",
    ]);
    let mut ctr = Ctr128Core::inner_iv_init(aes_key(), 16, &hex("f0f1f2f3f4f5f6f7")).unwrap();
    ctr.set_block_pos(0xf8f9fafbfcfdfeff);
    assert_eq!(ctr.get_block_pos(), 0xf8f9fafbfcfdfeff);
    let mut data = nist_plaintext();
    ctr.apply_keystream(&mut data).unwrap();
    assert_eq!(data, expected);
    assert_eq!(ctr.get_block_pos(), 0xf8f9fafbfcfdff03);
}

#[test]
fn ctr64_magma_vector() {
    let expected = blocks(&["4e98110c97b7b93c", "3e250d93d6e85d69", "136d868807b2dbef", "568eb680ab52a12d"]);
    let mut ctr = Ctr64Core::inner_iv_init(magma_key(), 8, &hex("12345678")).unwrap();
    let mut data = gost_plaintext();
    ctr.apply_keystream_blocks(&mut data);
    assert_eq!(data, expected);
}

#[test]
fn ctr_twice_gives_data_back() {
    let msg = sample(6, 7);
    let mut data = msg.clone();
    let mut a = Ctr128Core::inner_iv_init(aes_key(), 7, &hex("0102030405060708")).unwrap();
    a.apply_keystream_blocks(&mut data);
    assert_ne!(data, msg);
    let mut b = Ctr128Core::inner_iv_init(aes_key(), 7, &hex("0102030405060708")).unwrap();
    b.apply_keystream_blocks(&mut data);
    assert_eq!(data, msg);
}

#[test]
fn ctr_seek_matches_tail() {
    let msg = sample(9, 8);
    let mut whole = msg.clone();
    let mut a = Ctr64Core::inner_iv_init(magma_key(), 8, &hex("12345678")).unwrap();
    a.apply_keystream_blocks(&mut whole);
    let mut tail = msg[5..].to_vec();
    let mut b = Ctr64Core::inner_iv_init(magma_key(), 8, &hex("12345678")).unwrap();
    b.set_block_pos(5);
    b.apply_keystream_blocks(&mut tail);
    assert_eq!(tail, whole[5..].to_vec());
}

#[test]
fn ctr_counter_overflow_is_refused() {
    let mut ctr = Ctr64Core::inner_iv_init(magma_key(), 8, &hex("00000000")).unwrap();
    ctr.set_block_pos(u32::MAX - 1);
    assert_eq!(ctr.remaining_blocks(), Some(1));
    let mut two = sample(2, 8);
    let before = two.clone();
    assert_eq!(ctr.apply_keystream(&mut two), Err(Error::CounterOverflow));
    assert_eq!(two, before);
    assert_eq!(ctr.get_block_pos(), u32::MAX - 1);
    let mut one = sample(1, 8);
    assert_eq!(ctr.apply_keystream(&mut one), Ok(()));
    assert_eq!(ctr.get_block_pos(), u32::MAX);
    assert_eq!(ctr.remaining_blocks(), Some(0));
}

#[test]
fn ctr_counter_wraps_without_check() {
    let mut a = Ctr128Core::inner_iv_init(aes_key(), 16, &hex("0000000000000001")).unwrap();
    a.set_block_pos(u64::MAX);
    let mut data = sample(2, 16);
    a.apply_keystream_blocks(&mut data);
    assert_eq!(a.get_block_pos(), 1);
}

#[test]
fn ctr_rejects_bad_parameters() {
    assert_eq!(Ctr128Core::inner_iv_init(aes_key(), 0, &vec![0u8; 8]).err(), Some(Error::InvalidParameter));
    assert_eq!(Ctr128Core::inner_iv_init(aes_key(), 16, &vec![0u8; 16]).err(), Some(Error::InvalidIvLength));
    assert_eq!(Ctr64Core::inner_iv_init(magma_key(), 9, &vec![0u8; 4]).err(), Some(Error::InvalidParameter));
    assert_eq!(Ctr64Core::inner_iv_init(magma_key(), 8, &vec![0u8; 8]).err(), Some(Error::InvalidIvLength));
}


#[test]
fn cbc_padded_round_trip_any_length() {
    let iv = hex("000102030405060708090a0b0c0d0e0f");
    for len in [1usize, 5, 15, 16, 17, 31, 32, 40] {
        let msg: Vec<u8> = (0..len).map(|i| (i * 13 + 1) as u8).collect();
        let mut enc = CbcEncrypt::inner_iv_init(aes_key(), 1, &iv).unwrap();
        let ct = enc.encrypt_padded(&msg);
        assert_eq!(ct.len(), len / 16 + 1);
        let mut dec = CbcDecrypt::inner_iv_init(aes_key(), 1, &iv).unwrap();
        assert_eq!(dec.decrypt_padded(&ct), Ok(msg));
    }
}

#[test]
fn cbc_padding_bytes() {
    let iv = vec![0u8; 16];
    let msg = hex("0102030405");
    let mut enc = CbcEncrypt::inner_iv_init(aes_key(), 1, &iv).unwrap();
    let ct = enc.encrypt_padded(&msg);
    let mut block = ct[0].clone();
    aes_key().decrypt_block(&mut block);
    assert_eq!(block, hex("01020304058000000000000000000000"));
}

#[test]
fn cbc_bad_padding_is_reported() {
    let iv = vec![0u8; 16];
    let mut enc = CbcEncrypt::inner_iv_init(aes_key(), 1, &iv).unwrap();
    let mut blocks = vec![vec![0u8; 16]];
    enc.encrypt_blocks(&mut blocks);
    let mut dec = CbcDecrypt::inner_iv_init(aes_key(), 1, &iv).unwrap();
    assert_eq!(dec.decrypt_padded(&blocks), Err(Error::BadPadding));
    let mut dec = CbcDecrypt::inner_iv_init(aes_key(), 1, &iv).unwrap();
    assert_eq!(dec.decrypt_padded(&Vec::new()), Err(Error::BadPadding));
}

#[test]
fn ctr_short_final_block() {
    let mut whole = nist_plaintext();
    let mut a = Ctr128Core::inner_iv_init(aes_key(), 16, &hex("f0f1f2f3f4f5f6f7")).unwrap();
    a.set_block_pos(0xf8f9fafbfcfdfeff);
    a.apply_keystream_blocks(&mut whole);
    let mut b = Ctr128Core::inner_iv_init(aes_key(), 16, &hex("f0f1f2f3f4f5f6f7")).unwrap();
    b.set_block_pos(0xf8f9fafbfcfdfeff);
    let mut first = nist_plaintext()[..3].to_vec();
    b.apply_keystream_blocks(&mut first);
    let mut tail = nist_plaintext()[3][..5].to_vec();
    b.encrypt_block_inout_mut(&mut tail);
    assert_eq!(tail, whole[3][..5].to_vec());
    assert_eq!(tail, hex("1e031dda2f"));
    let mut c = Ctr128Core::inner_iv_init(aes_key(), 16, &hex("f0f1f2f3f4f5f6f7")).unwrap();
    c.set_block_pos(0xf8f9fafbfcfdff02);
    c.decrypt_block_inout_mut(&mut tail);
    assert_eq!(tail, nist_plaintext()[3][..5].to_vec());
}

#[test]
fn ofb_short_final_block() {
    let iv: Vec<u8> = (0u8..16).collect();
    let mut ofb = OfbCore::inner_iv_init(aes_key(), 1, 16, &iv).unwrap();
    let mut b = hex("6bc1bee22e409f96e93d7e");
    ofb.encrypt_block_inout_mut(&mut b);
    assert_eq!(b, hex("3b3fd92eb72dad20333449"));
    let mut back = OfbCore::inner_iv_init(aes_key(), 1, 16, &iv).unwrap();
    back.decrypt_block_inout_mut(&mut b);
    assert_eq!(b, hex("6bc1bee22e409f96e93d7e"));
}

#[test]
fn whole_slice_block_functions() {
    let c = aes_key();
    let mut data = nist_plaintext();
    block_ciphers::block::cipher_encrypt_blocks(&c, &mut data);
    let mut one = nist_plaintext()[2].clone();
    c.encrypt_block(&mut one);
    assert_eq!(data[2], one);
    block_ciphers::block::cipher_decrypt_blocks(&c, &mut data);
    assert_eq!(data, nist_plaintext());
}

#[test]
fn cfb_short_final_block() {
    let iv: Vec<u8> = (0u8..16).collect();
    let mut enc = Cfb::inner_iv_init(aes_key(), &iv).unwrap();
    let mut data = nist_plaintext()[..1].to_vec();
    enc.encrypt_blocks(&mut data);
    let mut tail = hex("ae2d8a571e03ac9c9e");
    enc.encrypt_tail(&mut tail);
    assert_eq!(tail, hex("c8a64537a0b3a93fcd"));
    let mut dec = Cfb::inner_iv_init(aes_key(), &iv).unwrap();
    dec.decrypt_blocks_with_pre_mut(&mut data);
    assert_eq!(data, nist_plaintext()[..1].to_vec());
    dec.decrypt_tail(&mut tail);
    assert_eq!(tail, hex("ae2d8a571e03ac9c9e"));
}

#[test]
fn gost_cfb_short_final_block() {
    let iv = hex("1234567890abcdef234567890abcdef1");
    let mut enc = GostCfb::inner_iv_init(magma_key(), 8, &iv).unwrap();
    let mut data = gost_plaintext()[..2].to_vec();
    enc.encrypt_blocks(&mut data);
    let mut tail = hex("4a98fb");
    enc.encrypt_tail(&mut tail);
    assert_eq!(tail, hex("24bdd2"));
    let mut dec = GostCfb::inner_iv_init(magma_key(), 8, &iv).unwrap();
    dec.decrypt_blocks(&mut data);
    dec.decrypt_tail(&mut tail);
    assert_eq!(tail, hex("4a98fb"));
    assert_eq!(data, gost_plaintext()[..2].to_vec());
}
