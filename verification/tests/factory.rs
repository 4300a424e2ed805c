use pvm::abi::{encode_address, encode_u256};
use pvm::factory::{
    address_lt, encode_initialize, factory_function, sort_tokens, CreatePairAction, FactoryError, FactoryFunction, FactoryOutcome,
    FactoryState,
};
use pvm::keccak::selector;
use pvm::word::U256;

const SETTER: [u8; 20] = [0x5e; 20];
const HASH: [u8; 32] = [0xc0; 32];
const TOKEN_A: [u8; 20] = [0x20; 20];
const TOKEN_B: [u8; 20] = [0x10; 20];
const PAIR: [u8; 20] = [0x77; 20];

fn deployed() -> FactoryState {
    let mut input = vec![0u8; 12];
    input.extend_from_slice(&SETTER);
    input.extend_from_slice(&HASH);
    FactoryState::deploy(&input)
}

fn call(sig: &str, args: &[Vec<u8>]) -> Vec<u8> {
    let mut data = selector(sig).to_vec();
    for a in args {
        data.extend_from_slice(a);
    }
    data
}

#[test]
fn tokens_sort_by_bytes() {
    assert!(address_lt(&TOKEN_B, &TOKEN_A));
    assert!(!address_lt(&TOKEN_A, &TOKEN_B));
    assert!(!address_lt(&TOKEN_A, &TOKEN_A));
    assert_eq!(sort_tokens(&TOKEN_A, &TOKEN_B), (TOKEN_B, TOKEN_A));
    assert_eq!(sort_tokens(&TOKEN_B, &TOKEN_A), (TOKEN_B, TOKEN_A));
    let mut x = [0u8; 20];
    x[19] = 1;
    let mut y = [0u8; 20];
    y[0] = 1;
    assert_eq!(sort_tokens(&y, &x), (x, y));
}

#[test]
fn deploy_reads_setter_and_code_hash() {
    let f = deployed();
    assert_eq!(f.fee_to_setter_address(), SETTER);
    assert_eq!(f.pair_code_hash, HASH);
    assert_eq!(f.all_pairs_length(), U256::from_u64(0));
    let short = FactoryState::deploy(&[1, 2, 3]);
    assert_eq!(short.fee_to_setter_address(), [0u8; 20]);
    assert_eq!(short.pair_code_hash, [0u8; 32]);
}

#[test]
fn create_pair_checks_its_tokens() {
    let f = deployed();
    assert_eq!(f.create_pair_begin(&TOKEN_A, &TOKEN_A).unwrap_err(), FactoryError::IdenticalAddresses);
    assert_eq!(f.create_pair_begin(&TOKEN_A, &[0u8; 20]).unwrap_err(), FactoryError::ZeroAddress);
    let plan = f.create_pair_begin(&TOKEN_A, &TOKEN_B).unwrap();
    assert_eq!(plan.token0, TOKEN_B);
    assert_eq!(plan.token1, TOKEN_A);
    assert_eq!(plan.code_hash, HASH);
    let no_code = FactoryState::deploy(&[]);
    assert_eq!(no_code.create_pair_begin(&TOKEN_A, &TOKEN_B).unwrap_err(), FactoryError::NoPairCode);
}

#[test]
fn created_pair_is_found_in_both_orders() {
    let mut f = deployed();
    let plan = f.create_pair_begin(&TOKEN_A, &TOKEN_B).unwrap();
    f.create_pair_finish(&plan.token0, &plan.token1, &PAIR);
    assert_eq!(f.get_pair_internal(&TOKEN_A, &TOKEN_B), PAIR);
    assert_eq!(f.get_pair_internal(&TOKEN_B, &TOKEN_A), PAIR);
    assert_eq!(f.all_pairs_length(), U256::from_u64(1));
    assert_eq!(f.all_pairs_get(U256::from_u64(0)), PAIR);
    assert_eq!(f.all_pairs_get(U256::from_u64(1)), [0u8; 20]);
    assert_eq!(f.create_pair_begin(&TOKEN_B, &TOKEN_A).unwrap_err(), FactoryError::PairExists);
}

#[test]
fn initialize_calldata_layout() {
    let data = encode_initialize(&TOKEN_B, &TOKEN_A);
    assert_eq!(data.len(), 68);
    assert_eq!(&data[..4], &selector("initialize(address,address)"));
    assert_eq!(&data[4..36], encode_address(&TOKEN_B).as_slice());
    assert_eq!(&data[36..68], encode_address(&TOKEN_A).as_slice());
}

#[test]
fn fee_settings_need_the_setter() {
    let mut f = deployed();
    let set = call("setFeeTo(address)", &[encode_address(&PAIR)]);
    match f.call_local(&set, &TOKEN_A) {
        FactoryOutcome::Failed(e) => assert_eq!(e, FactoryError::Forbidden),
        other => panic!("unexpected {:?}", other),
    }
    match f.call_local(&set, &SETTER) {
        FactoryOutcome::Return(v) => assert!(v.is_empty()),
        other => panic!("unexpected {:?}", other),
    }
    match f.call_local(&call("feeTo()", &[]), &TOKEN_A) {
        FactoryOutcome::Return(v) => assert_eq!(v, encode_address(&PAIR)),
        other => panic!("unexpected {:?}", other),
    }
    let handover = call("setFeeToSetter(address)", &[encode_address(&TOKEN_A)]);
    assert!(matches!(f.call_local(&handover, &SETTER), FactoryOutcome::Return(_)));
    assert_eq!(f.fee_to_setter_address(), TOKEN_A);
    assert!(matches!(f.call_local(&set, &SETTER), FactoryOutcome::Failed(FactoryError::Forbidden)));
}

#[test]
fn factory_calls_by_calldata() {
    let mut f = deployed();
    assert_eq!(factory_function(&selector("allPairsLength()")), Some(FactoryFunction::AllPairsLength));
    assert_eq!(factory_function(&[0, 0, 0, 0]), None);
    let create = call("createPair(address,address)", &[encode_address(&TOKEN_A), encode_address(&TOKEN_B)]);
    match f.call_local(&create, &SETTER) {
        FactoryOutcome::CreatePair(plan) => {
            assert_eq!((plan.token0, plan.token1), (TOKEN_B, TOKEN_A));
            f.create_pair_finish(&plan.token0, &plan.token1, &PAIR);
        }
        other => panic!("unexpected {:?}", other),
    }
    match f.call_local(&call("getPair(address,address)", &[encode_address(&TOKEN_A), encode_address(&TOKEN_B)]), &SETTER) {
        FactoryOutcome::Return(v) => assert_eq!(v, encode_address(&PAIR)),
        other => panic!("unexpected {:?}", other),
    }
    match f.call_local(&call("allPairs(uint256)", &[encode_u256(U256::from_u64(0))]), &SETTER) {
        FactoryOutcome::Return(v) => assert_eq!(v, encode_address(&PAIR)),
        other => panic!("unexpected {:?}", other),
    }
    match f.call_local(&call("allPairsLength()", &[]), &SETTER) {
        FactoryOutcome::Return(v) => assert_eq!(v, encode_u256(U256::from_u64(1))),
        other => panic!("unexpected {:?}", other),
    }
    assert!(matches!(f.call_local(&create, &SETTER), FactoryOutcome::Failed(FactoryError::PairExists)));
    assert!(matches!(
        f.call_local(&call("getPair(address,address)", &[]), &SETTER),
        FactoryOutcome::Failed(FactoryError::BadCalldata)
    ));
    assert!(matches!(f.call_local(&[9, 9, 9, 9], &SETTER), FactoryOutcome::Failed(FactoryError::UnknownFunction)));
}

#[test]
fn create_pair_goes_through_instantiation_and_initialization() {
    let mut f = deployed();
    let plan = f.create_pair_begin(&TOKEN_B, &TOKEN_A).unwrap();
    match FactoryState::create_pair_instantiated(&plan, None) {
        CreatePairAction::Revert(e) => assert_eq!(e, FactoryError::InstantiateFailed),
        other => panic!("unexpected {:?}", other),
    }
    let (pair, data) = match FactoryState::create_pair_instantiated(&plan, Some(PAIR)) {
        CreatePairAction::CallPair { pair, data } => (pair, data),
        other => panic!("unexpected {:?}", other),
    };
    assert_eq!(pair, PAIR);
    assert_eq!(data, encode_initialize(&plan.token0, &plan.token1));
    match f.create_pair_initialized(&plan, &pair, false) {
        CreatePairAction::Revert(e) => assert_eq!(e, FactoryError::InitializeFailed),
        other => panic!("unexpected {:?}", other),
    }
    assert_eq!(f.all_pairs_length(), U256::from_u64(0));
    assert_eq!(f.get_pair_internal(&plan.token0, &plan.token1), [0u8; 20]);
    match f.create_pair_initialized(&plan, &pair, true) {
        CreatePairAction::Return(out) => assert_eq!(out, encode_address(&PAIR)),
        other => panic!("unexpected {:?}", other),
    }
    assert_eq!(f.all_pairs_length(), U256::from_u64(1));
    assert_eq!(f.all_pairs_get(U256::from_u64(0)), PAIR);
    assert_eq!(f.get_pair_internal(&TOKEN_A, &TOKEN_B), PAIR);
    assert_eq!(f.get_pair_internal(&TOKEN_B, &TOKEN_A), PAIR);
}
