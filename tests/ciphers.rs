use block_ciphers::aes::{Aes128, Aes192, Aes256};
use block_ciphers::block::BlockCipher;
use block_ciphers::des::Des;
use block_ciphers::tdes::{TdesEde2, TdesEde3, TdesEee2, TdesEee3};
use block_ciphers::Error;

fn hex(s: &str) -> Vec<u8> {
    (0..s.len())
        .step_by(2)
        .map(|i| u8::from_str_radix(&s[i..i + 2], 16).unwrap())
        .collect()
}

fn arr<const N: usize>(v: &[u8]) -> [u8; N] {
    let mut a = [0u8; N];
    a.copy_from_slice(v);
    a
}

fn round_trip<C: BlockCipher>(c: &C, block: &[u8]) {
    let mut b = block.to_vec();
    c.encrypt_block(&mut b);
    assert_ne!(b, block.to_vec());
    c.decrypt_block(&mut b);
    assert_eq!(b, block.to_vec());
}

#[test]
fn aes128_fips197() {
    let c = Aes128::new(&arr::<16>(&hex("000102030405060708090a0b0c0d0e0f")));
    let mut b = hex("00112233445566778899aabbccddeeff");
    c.encrypt_block(&mut b);
    assert_eq!(b, hex("69c4e0d86a7b0430d8cdb78070b4c55a"));
    c.decrypt_block(&mut b);
    assert_eq!(b, hex("00112233445566778899aabbccddeeff"));
}

#[test]
fn aes192_fips197() {
    let key: Vec<u8> = (0u8..24).collect();
    let c = Aes192::new(&arr::<24>(&key));
    let mut b = hex("00112233445566778899aabbccddeeff");
    c.encrypt_block(&mut b);
    assert_eq!(b, hex("dda97ca4864cdfe06eaf70a0ec0d7191"));
    c.decrypt_block(&mut b);
    assert_eq!(b, hex("00112233445566778899aabbccddeeff"));
}

#[test]
fn aes256_fips197() {
    let key: Vec<u8> = (0u8..32).collect();
    let c = Aes256::new(&arr::<32>(&key));
    let mut b = hex("00112233445566778899aabbccddeeff");
    c.encrypt_block(&mut b);
    assert_eq!(b, hex("8ea2b7ca516745bfeafc49904b496089"));
    c.decrypt_block(&mut b);
    assert_eq!(b, hex("00112233445566778899aabbccddeeff"));
}

#[test]
fn aes_round_trips_on_varied_blocks() {
    let c128 = Aes128::new(&[7u8; 16]);
    let c192 = Aes192::new(&[0xa5u8; 24]);
    let c256 = Aes256::new(&arr::<32>(&(100u8..132).collect::<Vec<u8>>()));
    for seed in 0u8..8 {
        let block: Vec<u8> = (0u8..16).map(|i| i.wrapping_mul(37).wrapping_add(seed)).collect();
        round_trip(&c128, &block);
        round_trip(&c192, &block);
        round_trip(&c256, &block);
    }
}

#[test]
fn des_known_answer() {
    let c = Des::new(&arr::<8>(&hex("0123456789abcdef")));
    let mut b = hex("0123456789abcde7");
    c.encrypt_block(&mut b);
    assert_eq!(b, hex("c95744256a5ed31d"));
    c.decrypt_block(&mut b);
    assert_eq!(b, hex("0123456789abcde7"));
}

fn tdes_key(n: usize) -> Vec<u8> {
    let mut k = Vec::new();
    for i in 1..=n {
        k.extend_from_slice(&[i as u8; 8]);
    }
    k
}

#[test]
fn tdes_ede3_known_answer() {
    let c = TdesEde3::new(&arr::<24>(&tdes_key(3)));
    let mut b = vec![0u8; 8];
    c.encrypt_block(&mut b);
    assert_eq!(b, hex("8ca64de9c1b123a7"));
    c.decrypt_block(&mut b);
    assert_eq!(b, vec![0u8; 8]);
}

#[test]
fn tdes_eee3_known_answer() {
    let c = TdesEee3::new(&arr::<24>(&tdes_key(3)));
    let mut b = vec![0u8; 8];
    c.encrypt_block(&mut b);
    assert_eq!(b, hex("83afdb0ba8cf9c37"));
    c.decrypt_block(&mut b);
    assert_eq!(b, vec![0u8; 8]);
}

#[test]
fn tdes_ede2_known_answer() {
    let c = TdesEde2::new(&arr::<16>(&tdes_key(2)));
    let mut b = vec![0u8; 8];
    c.encrypt_block(&mut b);
    assert_eq!(b, hex("e028c8a6e6797770"));
    c.decrypt_block(&mut b);
    assert_eq!(b, vec![0u8; 8]);
}

#[test]
fn tdes_eee2_known_answer() {
    let c = TdesEee2::new(&arr::<16>(&tdes_key(2)));
    let mut b = vec![0u8; 8];
    c.encrypt_block(&mut b);
    assert_eq!(b, hex("b64dfb2e8400cbbd"));
    c.decrypt_block(&mut b);
    assert_eq!(b, vec![0u8; 8]);
}

#[test]
fn tdes_with_equal_keys_is_single_des() {
    let k = hex("133457799bbcdff1");
    let mut key = Vec::new();
    for _ in 0..3 {
        key.extend_from_slice(&k);
    }
    let ede = TdesEde3::new(&arr::<24>(&key));
    let des = Des::new(&arr::<8>(&k));
    let mut a = hex("0123456789abcdef");
    let mut b = a.clone();
    ede.encrypt_block(&mut a);
    des.encrypt_block(&mut b);
    assert_eq!(a, b);
    assert_eq!(a, hex("85e813540f0ab405"));
}

#[test]
fn slice_constructors_check_key_length() {
    assert!(Aes128::new_from_slice(&[0u8; 15]).is_err());
    assert_eq!(Aes192::new_from_slice(&[0u8; 32]).err().map(|_| ()), Some(()));
    assert!(Aes256::new_from_slice(&[0u8; 32]).is_ok());
    assert!(matches!(Des::new_from_slice(&[0u8; 7]), Err(Error::InvalidKeyLength)));
    assert!(matches!(TdesEde3::new_from_slice(&[0u8; 16]), Err(Error::InvalidKeyLength)));
    assert!(matches!(TdesEee3::new_from_slice(&[0u8; 25]), Err(Error::InvalidKeyLength)));
    assert!(matches!(TdesEde2::new_from_slice(&[0u8; 24]), Err(Error::InvalidKeyLength)));
    assert!(matches!(TdesEee2::new_from_slice(&[0u8; 8]), Err(Error::InvalidKeyLength)));
    let key = hex("000102030405060708090a0b0c0d0e0f");
    let a = Aes128::new_from_slice(&key).ok().unwrap();
    let mut b = hex("00112233445566778899aabbccddeeff");
    a.encrypt_block(&mut b);
    assert_eq!(b, hex("69c4e0d86a7b0430d8cdb78070b4c55a"));
    let t = TdesEde2::new_from_slice(&tdes_key(2)).ok().unwrap();
    let mut z = vec![0u8; 8];
    t.encrypt_block(&mut z);
    assert_eq!(z, hex("e028c8a6e6797770"));
}
