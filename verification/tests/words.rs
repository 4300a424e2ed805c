use pvm::abi::{arg_address, arg_u256, encode_bool, encode_u256, encode_u256_words};
use pvm::arithmetic::{encode_compute, encode_compute_many};
use pvm::keccak::{has_selector, selector};
use pvm::math::sqrt_u256;
use pvm::storage_keys::{array_slot, mapping_key_1, mapping_key_2, slot_key, storage_get_u256, storage_set_u256};
use pvm::syscall::HostStorage;
use pvm::word::U256;

fn w(x: u64) -> U256 {
    U256::from_u64(x)
}

#[test]
fn integer_square_roots() {
    assert_eq!(sqrt_u256(w(0)), w(0));
    assert_eq!(sqrt_u256(w(1)), w(1));
    assert_eq!(sqrt_u256(w(2)), w(1));
    assert_eq!(sqrt_u256(w(3)), w(1));
    assert_eq!(sqrt_u256(w(4)), w(2));
    assert_eq!(sqrt_u256(w(99)), w(9));
    assert_eq!(sqrt_u256(w(100_000_000)), w(10_000));
    assert_eq!(sqrt_u256(w(u64::MAX)), w(u32::MAX as u64));
    assert_eq!(sqrt_u256(U256::max_value()), U256::from_u128(u128::MAX));
}

#[test]
fn word_comparisons_and_narrowing() {
    assert!(w(3).lt(&w(4)));
    assert!(!w(4).lt(&w(4)));
    assert!(w(0).is_zero());
    assert!(U256::from_u128(1u128 << 100).eq_word(&U256::from_u128(1u128 << 100)));
    assert_eq!(w(7).try_to_u32(), Some(7));
    assert_eq!(w(1 << 40).try_to_u32(), None);
    assert_eq!(U256::max_value().try_to_u128(), None);
    assert_eq!(U256::from_u128(u128::MAX).try_to_u128(), Some(u128::MAX));
}

#[test]
fn abi_words() {
    let mut expected = vec![0u8; 32];
    expected[30] = 1;
    expected[31] = 2;
    assert_eq!(encode_u256(w(0x0102)), expected);
    let mut t = vec![0u8; 32];
    t[31] = 1;
    assert_eq!(encode_bool(true), t);
    assert_eq!(encode_bool(false), vec![0u8; 32]);
    let two = encode_u256_words(&[w(1), w(2)]);
    assert_eq!(two.len(), 64);
    assert_eq!(two[31], 1);
    assert_eq!(two[63], 2);
    let mut data = vec![0xaa, 0xbb, 0xcc, 0xdd];
    data.extend_from_slice(&encode_u256(w(5)));
    data.extend_from_slice(&[0u8; 12]);
    data.extend_from_slice(&[0x33; 20]);
    assert_eq!(arg_u256(&data, 0), w(5));
    assert_eq!(arg_address(&data, 1), [0x33; 20]);
}

#[test]
fn selectors_are_keccak_prefixes() {
    assert_eq!(selector("transfer(address,uint256)"), [0xa9, 0x05, 0x9c, 0xbb]);
    assert_eq!(selector("balanceOf(address)"), [0x70, 0xa0, 0x82, 0x31]);
    let sel = selector("approve(address,uint256)");
    assert_eq!(sel, [0x09, 0x5e, 0xa7, 0xb3]);
    assert!(has_selector(&[0x09, 0x5e, 0xa7, 0xb3, 0], &sel));
    assert!(!has_selector(&[0x09, 0x5e, 0xa7], &sel));
}

#[test]
fn arithmetic_calldata() {
    let data = encode_compute(w(12345), w(6789));
    let digest = alloy_primitives::keccak256(b"compute(uint256,uint256)");
    assert_eq!(&data[..4], &digest[..4]);
    assert_eq!(data.len(), 68);
    assert_eq!(arg_u256(&data, 0), w(12345));
    assert_eq!(arg_u256(&data, 1), w(6789));
    let many = encode_compute_many(w(10_000));
    let digest = alloy_primitives::keccak256(b"computeMany(uint256)");
    assert_eq!(&many[..4], &digest[..4]);
    assert_eq!(arg_u256(&many, 0), w(10_000));
}

#[test]
fn mapping_keys_hash_padded_input() {
    let key = [0x11u8; 20];
    let mut input = [0u8; 64];
    input[12..32].copy_from_slice(&key);
    input[44..48].copy_from_slice(&9u32.to_be_bytes());
    assert_eq!(mapping_key_1(9, &key), alloy_primitives::keccak256(input).0);

    let key2 = [0x22u8; 20];
    let mut inner = [0u8; 64];
    inner[12..32].copy_from_slice(&key2);
    inner[44..48].copy_from_slice(&10u32.to_be_bytes());
    let inner_hash = alloy_primitives::keccak256(inner).0;
    let mut outer = [0u8; 64];
    outer[12..32].copy_from_slice(&key);
    outer[32..64].copy_from_slice(&inner_hash);
    assert_eq!(mapping_key_2(9, &key, &key2), alloy_primitives::keccak256(outer).0);
    assert_ne!(mapping_key_1(9, &key), mapping_key_1(10, &key));
}

#[test]
fn array_slots_hash_base_and_index() {
    let mut packed = [0u8; 64];
    packed[28..32].copy_from_slice(&3u32.to_be_bytes());
    packed[63] = 4;
    assert_eq!(array_slot(3, w(4)), alloy_primitives::keccak256(packed).0);
}

#[test]
fn slot_words_read_back() {
    let mut st = HostStorage::new();
    let mut key = [0u8; 32];
    key[31] = 8;
    assert_eq!(slot_key(8), key);
    assert_eq!(storage_get_u256(&st, 8), w(0));
    storage_set_u256(&mut st, 8, w(77));
    assert_eq!(storage_get_u256(&st, 8), w(77));
    assert_eq!(storage_get_u256(&st, 9), w(0));
    let mut expected = [0u8; 32];
    expected[31] = 77;
    assert_eq!(st.load(&key), expected);
    storage_set_u256(&mut st, 8, w(0));
    assert!(!st.contains(&key));
    assert_eq!(storage_get_u256(&st, 8), w(0));
}
