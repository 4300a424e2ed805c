use pvm::abi::{encode_address, encode_u256};
use pvm::keccak::selector;
use pvm::pair::{read_reserves, reserves_word, PairError, PairState, MINIMUM_LIQUIDITY};
use pvm::pair_calls::{
    balance_of_result, decode_swap_args, encode_balance_of, transfer_result, encode_transfer, pair_function, timestamp_from_word, PairFunction, PairOutcome,
};
use pvm::pair_host::{fits, PairReply, PairRequest, PairStage, PairStep};
use pvm::word::U256;

const FACTORY: [u8; 20] = [0xfa; 20];
const TOKEN0: [u8; 20] = [0x10; 20];
const TOKEN1: [u8; 20] = [0x20; 20];
const ALICE: [u8; 20] = [0xa1; 20];
const BOB: [u8; 20] = [0xb0; 20];
const PAIR: [u8; 20] = [0x99; 20];

fn w(x: u64) -> U256 {
    U256::from_u64(x)
}

fn word_of(x: u128) -> Vec<u8> {
    let mut v = vec![0u8; 16];
    v.extend_from_slice(&x.to_be_bytes());
    v
}

fn initialized() -> PairState {
    let mut p = PairState::deploy(&FACTORY);
    p.initialize(&TOKEN0, &TOKEN1).unwrap();
    p
}

fn call(sig: &str, args: &[Vec<u8>]) -> Vec<u8> {
    let mut data = selector(sig).to_vec();
    for a in args {
        data.extend_from_slice(a);
    }
    data
}

#[test]
fn reserves_read_back_when_reserve0_is_a_multiple_of_2_16() {
    let packed = reserves_word(3 << 16, 5, 7);
    assert_eq!(read_reserves(packed), (3 << 16, 5, 7));
    assert_eq!(read_reserves(reserves_word(0, u128::MAX >> 16, u32::MAX)), (0, u128::MAX >> 16, u32::MAX));
}

#[test]
fn reserves_read_back_as_uint112() {
    assert_eq!(read_reserves(reserves_word(1, 2, 3)), (1, 2, 3));
    let max = (1u128 << 112) - 1;
    assert_eq!(read_reserves(reserves_word(max, max, 9)), (max, max, 9));
}

#[test]
fn deploy_records_the_factory() {
    let p = PairState::deploy(&FACTORY);
    assert_eq!(p.get_factory(), FACTORY);
    assert_eq!(p.get_token0(), [0u8; 20]);
    assert_eq!(p.get_reserves(), (0, 0, 0));
    assert_eq!(p.get_balance(&ALICE), w(0));
}

#[test]
fn initialize_only_once() {
    let mut p = initialized();
    assert_eq!(p.get_token0(), TOKEN0);
    assert_eq!(p.get_token1(), TOKEN1);
    assert_eq!(p.initialize(&TOKEN1, &TOKEN0), Err(PairError::AlreadyInitialized));
    assert_eq!(p.get_token0(), TOKEN0);
}

#[test]
fn first_mint_locks_minimum_liquidity() {
    let mut p = initialized();
    p.take_lock().unwrap();
    let liquidity = p.mint(&ALICE, w(10_000), w(10_000), 42).unwrap();
    assert_eq!(liquidity, w(9_000));
    assert_eq!(p.get_balance(&ALICE), w(9_000));
    assert_eq!(p.get_balance(&[0u8; 20]), w(MINIMUM_LIQUIDITY));
    assert_eq!(p.total_supply, w(10_000));
    assert_eq!(p.get_reserves(), (10_000, 10_000, 42));
}

#[test]
fn mint_below_minimum_fails_and_changes_nothing() {
    let mut p = initialized();
    p.take_lock().unwrap();
    assert_eq!(p.mint(&ALICE, w(1_000), w(1_000), 1), Err(PairError::InsufficientLiquidityMinted));
    assert_eq!(p.get_balance(&ALICE), w(0));
    assert_eq!(p.total_supply, w(0));
    assert_eq!(p.get_reserves(), (0, 0, 0));
}

#[test]
fn mint_of_unrepresentable_balance_traps() {
    let mut p = initialized();
    let big = U256::from_u128(u128::MAX);
    let mut huge = big;
    huge.limbs[2] = 1;
    p.take_lock().unwrap();
    let r = p.mint(&ALICE, huge, w(1 << 40), 1);
    assert_eq!(r, Err(PairError::ReserveOverflow));
    assert!(PairError::ReserveOverflow.is_trap());
    assert!(!PairError::K.is_trap());
}

#[test]
fn transfer_moves_shares() {
    let mut p = initialized();
    p.take_lock().unwrap();
    p.mint(&ALICE, w(10_000), w(10_000), 0).unwrap();
    assert_eq!(p.transfer(&ALICE, &BOB, w(4_000)), Ok(true));
    assert_eq!(p.get_balance(&ALICE), w(5_000));
    assert_eq!(p.get_balance(&BOB), w(4_000));
    assert_eq!(p.transfer(&BOB, &ALICE, w(4_001)), Err(PairError::InsufficientBalance));
    assert_eq!(p.get_balance(&BOB), w(4_000));
}

#[test]
fn transfer_keeps_the_sum_of_shares() {
    let mut p = initialized();
    p.take_lock().unwrap();
    p.mint(&ALICE, w(10_000), w(10_000), 0).unwrap();
    p.transfer(&ALICE, &BOB, w(1_234)).unwrap();
    let before = (p.get_balance(&ALICE), p.get_balance(&BOB));
    p.transfer(&BOB, &ALICE, w(234)).unwrap();
    let after = (p.get_balance(&ALICE), p.get_balance(&BOB));
    assert_eq!(before, (w(7_766), w(1_234)));
    assert_eq!(after, (w(8_000), w(1_000)));
    p.transfer(&ALICE, &ALICE, w(8_000)).unwrap();
    assert_eq!(p.get_balance(&ALICE), w(8_000));
    assert_eq!(p.get_balance(&[0u8; 20]), w(MINIMUM_LIQUIDITY));
}

#[test]
fn transfer_from_spends_allowance() {
    let mut p = initialized();
    p.take_lock().unwrap();
    p.mint(&ALICE, w(10_000), w(10_000), 0).unwrap();
    assert!(p.approve(&ALICE, &BOB, w(3_000)));
    assert_eq!(p.get_allowance(&ALICE, &BOB), w(3_000));
    assert_eq!(p.transfer_from(&BOB, &ALICE, &BOB, w(3_001)), Err(PairError::InsufficientAllowance));
    assert_eq!(p.transfer_from(&BOB, &ALICE, &BOB, w(1_000)), Ok(true));
    assert_eq!(p.get_allowance(&ALICE, &BOB), w(2_000));
    assert_eq!(p.get_balance(&BOB), w(1_000));
    assert_eq!(p.get_balance(&ALICE), w(8_000));
}

#[test]
fn unlimited_allowance_is_not_spent() {
    let mut p = initialized();
    p.take_lock().unwrap();
    p.mint(&ALICE, w(10_000), w(10_000), 0).unwrap();
    p.approve(&ALICE, &BOB, U256::max_value());
    assert_eq!(p.transfer_from(&BOB, &ALICE, &BOB, w(500)), Ok(true));
    assert_eq!(p.get_allowance(&ALICE, &BOB), U256::max_value());
    assert_eq!(p.transfer_from(&BOB, &ALICE, &BOB, w(9_000)), Err(PairError::InsufficientBalance));
}

#[test]
fn burn_without_liquidity_fails() {
    let mut p = initialized();
    p.take_lock().unwrap();
    p.mint(&ALICE, w(10_000), w(10_000), 0).unwrap();
    p.take_lock().unwrap();
    assert_eq!(p.burn_begin(&PAIR, w(10_000), w(10_000)), Err(PairError::InsufficientLiquidityBurned));
}

#[test]
fn burn_pays_out_a_share_of_the_balances() {
    let mut p = initialized();
    p.take_lock().unwrap();
    p.mint(&ALICE, w(10_000), w(10_000), 0).unwrap();
    p.transfer(&ALICE, &PAIR, w(500)).unwrap();
    p.take_lock().unwrap();
    let (a0, a1) = p.burn_begin(&PAIR, w(10_000), w(20_000)).unwrap();
    assert_eq!(a0, w(500));
    assert_eq!(a1, w(1_000));
    assert_eq!(p.get_balance(&PAIR), w(0));
    assert_eq!(p.total_supply, w(9_500));
    assert_eq!(p.take_lock(), Err(PairError::Locked));
    assert_eq!(p.burn_finish(w(5_000), w(10_000), 9), Ok(()));
    assert_eq!(p.get_reserves(), (5_000, 10_000, 9));
}

#[test]
fn swap_checks_its_request() {
    let mut p = initialized();
    p.take_lock().unwrap();
    p.mint(&ALICE, w(65_536 * 2), w(65_536 * 2), 0).unwrap();
    assert_eq!(p.swap_begin(w(0), w(0), &BOB), Err(PairError::InsufficientOutputAmount));
    assert_eq!(p.swap_begin(w(65_536 * 2), w(0), &BOB), Err(PairError::InsufficientLiquidity));
    assert_eq!(p.swap_begin(w(10), w(0), &TOKEN1), Err(PairError::InvalidTo));
    assert_eq!(p.swap_begin(w(1_000), w(0), &BOB), Ok(()));
    assert_eq!(p.swap_begin(w(1_000), w(0), &BOB), Err(PairError::Locked));
}

#[test]
fn swap_keeps_the_product() {
    let mut p = initialized();
    let r = 65_536u64 * 2;
    p.take_lock().unwrap();
    p.mint(&ALICE, w(r), w(r), 0).unwrap();
    p.swap_begin(w(1_000), w(0), &BOB).unwrap();
    assert_eq!(p.swap_finish(w(1_000), w(0), w(r - 1_000), w(r), 5), Err(PairError::InsufficientInputAmount));
    assert_eq!(p.swap_finish(w(1_000), w(0), w(r - 1_000), w(r + 1), 5), Err(PairError::K));
    assert_eq!(p.swap_finish(w(1_000), w(0), w(r - 1_000), w(r + 2_000), 5), Ok(()));
    assert_eq!(p.get_reserves().0, (r - 1_000) as u128);
}

#[test]
fn skim_and_sync() {
    let mut p = initialized();
    let r = 65_536u64 * 3;
    p.take_lock().unwrap();
    p.mint(&ALICE, w(r), w(r), 0).unwrap();
    p.take_lock().unwrap();
    let (e0, e1) = p.skim_amounts(w(r + 5), w(r + 7));
    assert_eq!((e0, e1), (w(5), w(7)));
    assert_eq!(p.take_lock(), Err(PairError::Locked));
    p.release_lock();
    p.take_lock().unwrap();
    assert_eq!(p.sync(w(r + 5), w(r)), Ok(()));
    assert_eq!(p.take_lock(), Ok(()));
    assert_eq!(p.get_reserves(), ((r + 5) as u128, r as u128, 0));
}

#[test]
fn calldata_names_pair_functions() {
    assert_eq!(pair_function(&selector("mint(address)")), Some(PairFunction::Mint));
    assert_eq!(pair_function(&selector("getReserves()")), Some(PairFunction::GetReserves));
    assert_eq!(pair_function(&[0xde, 0xad, 0xbe, 0xef]), None);
    assert_eq!(pair_function(&[0x01, 0x02]), None);
    assert_eq!(selector("transfer(address,uint256)"), [0xa9, 0x05, 0x9c, 0xbb]);
}

#[test]
fn local_calls_answer_views() {
    let mut p = initialized();
    p.take_lock().unwrap();
    p.mint(&ALICE, w(10_000), w(10_000), 3).unwrap();
    match p.call_local(&call("balanceOf(address)", &[encode_address(&ALICE)]), &BOB) {
        PairOutcome::Return(v) => assert_eq!(v, word_of(9_000)),
        other => panic!("unexpected {:?}", other),
    }
    match p.call_local(&call("token1()", &[]), &BOB) {
        PairOutcome::Return(v) => assert_eq!(v, encode_address(&TOKEN1)),
        other => panic!("unexpected {:?}", other),
    }
    match p.call_local(&call("MINIMUM_LIQUIDITY()", &[]), &BOB) {
        PairOutcome::Return(v) => assert_eq!(v, word_of(1_000)),
        other => panic!("unexpected {:?}", other),
    }
}

#[test]
fn local_calls_transfer_and_fail() {
    let mut p = initialized();
    p.take_lock().unwrap();
    p.mint(&ALICE, w(10_000), w(10_000), 3).unwrap();
    match p.call_local(&call("transfer(address,uint256)", &[encode_address(&BOB), encode_u256(w(10))]), &ALICE) {
        PairOutcome::Return(v) => assert_eq!(v, word_of(1)),
        other => panic!("unexpected {:?}", other),
    }
    assert_eq!(p.get_balance(&BOB), w(10));
    match p.call_local(&[0x12, 0x34, 0x56, 0x78], &ALICE) {
        PairOutcome::Failed(e) => assert_eq!(e, PairError::UnknownFunction),
        other => panic!("unexpected {:?}", other),
    }
    match p.call_local(&call("balanceOf(address)", &[]), &ALICE) {
        PairOutcome::Failed(e) => assert_eq!(e, PairError::BadCalldata),
        other => panic!("unexpected {:?}", other),
    }
    match p.call_local(&call("mint(address)", &[encode_address(&ALICE)]), &ALICE) {
        PairOutcome::NeedsHost(f) => assert_eq!(f, PairFunction::Mint),
        other => panic!("unexpected {:?}", other),
    }
}

#[test]
fn swap_arguments_decode() {
    let mut data = selector("swap(uint256,uint256,address,bytes)").to_vec();
    data.extend_from_slice(&encode_u256(w(5)));
    data.extend_from_slice(&encode_u256(w(0)));
    data.extend_from_slice(&encode_address(&BOB));
    data.extend_from_slice(&encode_u256(w(128)));
    data.extend_from_slice(&encode_u256(w(2)));
    data.extend_from_slice(&[0xab, 0xcd]);
    data.extend_from_slice(&[0u8; 30]);
    let args = decode_swap_args(&data).unwrap();
    assert_eq!(args.amount0_out, w(5));
    assert_eq!(args.amount1_out, w(0));
    assert_eq!(args.to, BOB);
    assert_eq!(args.data, vec![0xab, 0xcd]);
    assert!(decode_swap_args(&data[..100]).is_none());
}

#[test]
fn token_calls_a_pair_makes() {
    let transfer = encode_transfer(&BOB, w(0x0102));
    assert_eq!(transfer.len(), 68);
    assert_eq!(&transfer[..4], &[0xa9, 0x05, 0x9c, 0xbb]);
    assert_eq!(&transfer[4..16], &[0u8; 12]);
    assert_eq!(&transfer[16..36], &BOB);
    assert_eq!(&transfer[66..], &[0x01, 0x02]);
    let balance = encode_balance_of(&PAIR);
    assert_eq!(balance.len(), 36);
    assert_eq!(&balance[..4], &[0x70, 0xa0, 0x82, 0x31]);
    assert_eq!(&balance[16..36], &PAIR);
}

#[test]
fn timestamps_must_fit_32_bits() {
    let mut word = [0u8; 32];
    word[28..].copy_from_slice(&1_700_000_000u32.to_be_bytes());
    assert_eq!(timestamp_from_word(&word), Some(1_700_000_000));
    word[27] = 1;
    assert_eq!(timestamp_from_word(&word), None);
}

#[test]
fn locked_pair_refuses_lock_taking_calls_first() {
    let mut p = initialized();
    p.take_lock().unwrap();
    p.mint(&ALICE, w(10_000), w(10_000), 0).unwrap();
    p.transfer(&ALICE, &PAIR, w(100)).unwrap();
    p.take_lock().unwrap();
    p.burn_begin(&PAIR, w(10_000), w(10_000)).unwrap();
    assert!(matches!(p.call_local(&call("mint(address)", &[]), &ALICE), PairOutcome::Failed(PairError::Locked)));
    assert!(matches!(p.call_local(&call("sync()", &[]), &ALICE), PairOutcome::Failed(PairError::Locked)));
    let init = call("initialize(address,address)", &[encode_address(&ALICE), encode_address(&BOB)]);
    assert!(matches!(p.call_local(&init, &ALICE), PairOutcome::Failed(PairError::Locked)));
    assert!(matches!(p.call_local(&call("totalSupply()", &[]), &ALICE), PairOutcome::Return(_)));
    p.release_lock();
    assert!(matches!(p.call_local(&call("mint(address)", &[]), &ALICE), PairOutcome::Failed(PairError::BadCalldata)));
    assert!(matches!(p.call_local(&call("sync()", &[]), &ALICE), PairOutcome::NeedsHost(PairFunction::Sync)));
}

#[test]
fn token_call_replies() {
    let mut out = [0u8; 32];
    out[30] = 0x12;
    out[31] = 0x34;
    assert_eq!(balance_of_result(true, &out), Ok(w(0x1234)));
    assert_eq!(balance_of_result(false, &out), Err(PairError::TokenCallFailed));
    assert_eq!(transfer_result(true), Ok(()));
    assert_eq!(transfer_result(false), Err(PairError::TokenCallFailed));
}

#[test]
fn first_mint_supply_is_the_sum_of_balances() {
    let mut p = initialized();
    p.take_lock().unwrap();
    let liquidity = p.mint(&ALICE, w(40_000), w(90_000), 1).unwrap();
    assert_eq!(liquidity, w(60_000 - 1_000));
    let mut sum = p.get_balance(&ALICE).limbs[0] + p.get_balance(&[0u8; 20]).limbs[0];
    assert_eq!(p.total_supply, w(sum));
    let more = p.mint(&BOB, w(44_000), w(99_000), 2).unwrap();
    assert_eq!(more, w(6_000));
    sum += more.limbs[0];
    assert_eq!(p.total_supply, w(sum));
}

#[test]
fn mint_call_asks_for_balances_then_the_time() {
    let mut p = initialized();
    let data = call("mint(address)", &[encode_address(&ALICE)]);
    let step = p.begin_call(PairFunction::Mint, &data);
    assert_eq!(step, PairStep::Ask(PairRequest::Balances, PairStage::MintBalances { to: ALICE }));
    assert_eq!(p.take_lock(), Err(PairError::Locked));
    let stage = PairStage::MintBalances { to: ALICE };
    assert!(fits(&stage, &PairReply::Balances(w(10_000), w(10_000))));
    assert!(!fits(&stage, &PairReply::Now(1)));
    let step = p.resume(stage, PairReply::Balances(w(10_000), w(10_000)), &PAIR);
    let stage = PairStage::MintNow { to: ALICE, b0: w(10_000), b1: w(10_000) };
    assert_eq!(step, PairStep::Ask(PairRequest::Now, stage));
    assert_eq!(p.resume(stage, PairReply::Now(42), &PAIR), PairStep::Return(encode_u256(w(9_000))));
    assert_eq!(p.get_balance(&ALICE), w(9_000));
    assert_eq!(p.get_reserves(), (10_000, 10_000, 42));
    assert_eq!(p.take_lock(), Ok(()));
}

#[test]
fn swap_call_pays_out_then_checks_the_product() {
    let mut p = initialized();
    let r = 65_536u64 * 2;
    p.take_lock().unwrap();
    p.mint(&ALICE, w(r), w(r), 0).unwrap();
    let data = call("swap(uint256,uint256,address,bytes)", &[
        encode_u256(w(0)), encode_u256(w(1_000)), encode_address(&BOB), encode_u256(w(128)), encode_u256(w(0)),
    ]);
    let step = p.begin_call(PairFunction::Swap, &data);
    let stage = PairStage::SwapPaid1 { out0: w(0), out1: w(1_000) };
    assert_eq!(step, PairStep::Ask(PairRequest::Transfer { first: false, to: BOB, value: w(1_000) }, stage));
    let step = p.resume(stage, PairReply::Transferred, &PAIR);
    let stage = PairStage::SwapBalances { out0: w(0), out1: w(1_000) };
    assert_eq!(step, PairStep::Ask(PairRequest::Balances, stage));
    let step = p.resume(stage, PairReply::Balances(w(r + 2_000), w(r - 1_000)), &PAIR);
    let stage = PairStage::SwapNow { out0: w(0), out1: w(1_000), b0: w(r + 2_000), b1: w(r - 1_000) };
    assert_eq!(step, PairStep::Ask(PairRequest::Now, stage));
    assert_eq!(p.resume(stage, PairReply::Now(7), &PAIR), PairStep::Return(Vec::new()));
    assert_eq!(p.get_reserves(), ((r + 2_000) as u128, (r - 1_000) as u128, 7));
}

#[test]
fn burn_call_pays_out_both_tokens_and_settles() {
    let mut p = initialized();
    p.take_lock().unwrap();
    p.mint(&ALICE, w(10_000), w(10_000), 0).unwrap();
    p.transfer(&ALICE, &PAIR, w(500)).unwrap();
    let data = call("burn(address)", &[encode_address(&BOB)]);
    let step = p.begin_call(PairFunction::Burn, &data);
    let stage = PairStage::BurnBalances { to: BOB };
    assert_eq!(step, PairStep::Ask(PairRequest::Balances, stage));
    let step = p.resume(stage, PairReply::Balances(w(10_000), w(20_000)), &PAIR);
    let stage = PairStage::BurnPaid0 { to: BOB, a0: w(500), a1: w(1_000) };
    assert_eq!(step, PairStep::Ask(PairRequest::Transfer { first: true, to: BOB, value: w(500) }, stage));
    let step = p.resume(stage, PairReply::Transferred, &PAIR);
    let stage = PairStage::BurnPaid1 { a0: w(500), a1: w(1_000) };
    assert_eq!(step, PairStep::Ask(PairRequest::Transfer { first: false, to: BOB, value: w(1_000) }, stage));
    let step = p.resume(stage, PairReply::Transferred, &PAIR);
    let stage = PairStage::BurnSettle { a0: w(500), a1: w(1_000) };
    assert_eq!(step, PairStep::Ask(PairRequest::Balances, stage));
    let step = p.resume(stage, PairReply::Balances(w(9_500), w(19_000)), &PAIR);
    let stage = PairStage::BurnNow { a0: w(500), a1: w(1_000), b0: w(9_500), b1: w(19_000) };
    assert_eq!(step, PairStep::Ask(PairRequest::Now, stage));
    let mut out = encode_u256(w(500));
    out.extend_from_slice(&encode_u256(w(1_000)));
    assert_eq!(p.resume(stage, PairReply::Now(3), &PAIR), PairStep::Return(out));
    assert_eq!(p.get_reserves(), (9_500, 19_000, 3));
    assert_eq!(p.total_supply, w(9_500));
}

#[test]
fn skim_and_sync_calls_through_the_host() {
    let mut p = initialized();
    let r = 65_536u64 * 3;
    p.take_lock().unwrap();
    p.mint(&ALICE, w(r), w(r), 0).unwrap();
    let step = p.begin_call(PairFunction::Skim, &call("skim(address)", &[encode_address(&BOB)]));
    let stage = PairStage::SkimBalances { to: BOB };
    assert_eq!(step, PairStep::Ask(PairRequest::Balances, stage));
    let step = p.resume(stage, PairReply::Balances(w(r + 5), w(r + 7)), &PAIR);
    let stage = PairStage::SkimPaid0 { to: BOB, e1: w(7) };
    assert_eq!(step, PairStep::Ask(PairRequest::Transfer { first: true, to: BOB, value: w(5) }, stage));
    let step = p.resume(stage, PairReply::Transferred, &PAIR);
    assert_eq!(step, PairStep::Ask(PairRequest::Transfer { first: false, to: BOB, value: w(7) }, PairStage::SkimPaid1));
    assert_eq!(p.resume(PairStage::SkimPaid1, PairReply::Transferred, &PAIR), PairStep::Return(Vec::new()));
    let step = p.begin_call(PairFunction::Sync, &call("sync()", &[]));
    assert_eq!(step, PairStep::Ask(PairRequest::Balances, PairStage::SyncBalances));
    assert_eq!(p.resume(PairStage::SyncBalances, PairReply::Balances(w(r + 1), w(r)), &PAIR), PairStep::Return(Vec::new()));
    assert_eq!(p.get_reserves(), ((r + 1) as u128, r as u128, 0));
}

#[test]
fn calls_through_the_host_refuse_what_cannot_go_on() {
    let mut p = initialized();
    assert_eq!(p.begin_call(PairFunction::Mint, &selector("mint(address)")), PairStep::Revert(PairError::BadCalldata));
    assert_eq!(p.begin_call(PairFunction::Factory, &[]), PairStep::Revert(PairError::UnknownFunction));
    let data = call("swap(uint256,uint256,address,bytes)", &[
        encode_u256(w(0)), encode_u256(w(0)), encode_address(&BOB), encode_u256(w(128)), encode_u256(w(0)),
    ]);
    assert_eq!(p.begin_call(PairFunction::Swap, &data), PairStep::Revert(PairError::InsufficientOutputAmount));
    p.take_lock().unwrap();
    assert_eq!(p.begin_call(PairFunction::Sync, &call("sync()", &[])), PairStep::Revert(PairError::Locked));
}
