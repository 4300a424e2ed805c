//! Calldata of a pair: which function a call names, its arguments, and the calls that
//! complete without reaching another contract.

use vstd::prelude::*;
use vstd::string::StringSliceAdditionalSpecFns;
use crate::word::{U256, be_value};
use crate::bytes::{Address, be_bytes, address_word_bytes, extend_bytes};
use crate::keccak::{selector, has_selector, selector_of};
use crate::abi::{arg_word, has_args, arg_u256, arg_address, encode_u256, encode_address, encode_bool, encode_u256_words};
use crate::pair::{PairState, PairSlots, PairError, MINIMUM_LIQUIDITY, unpack_reserves, word_address, update_allowance, transfer_balances, transfer_from_effect};

verus! {

/// The functions a pair answers, in the order their selectors are tried.
#[derive(Clone, Copy, Debug, PartialEq, Eq)]
pub enum PairFunction {
    Factory,
    Token0,
    Token1,
    GetReserves,
    TotalSupply,
    BalanceOf,
    Allowance,
    MinimumLiquidity,
    Price0CumulativeLast,
    Price1CumulativeLast,
    KLast,
    Initialize,
    Mint,
    Burn,
    Swap,
    Skim,
    Sync,
    Approve,
    Transfer,
    TransferFrom,
}

/// The Solidity signature of a pair function.
pub open spec fn pair_signature_spec(f: PairFunction) -> &'static str {
    match f {
        PairFunction::Factory => "factory()",
        PairFunction::Token0 => "token0()",
        PairFunction::Token1 => "token1()",
        PairFunction::GetReserves => "getReserves()",
        PairFunction::TotalSupply => "totalSupply()",
        PairFunction::BalanceOf => "balanceOf(address)",
        PairFunction::Allowance => "allowance(address,address)",
        PairFunction::MinimumLiquidity => "MINIMUM_LIQUIDITY()",
        PairFunction::Price0CumulativeLast => "price0CumulativeLast()",
        PairFunction::Price1CumulativeLast => "price1CumulativeLast()",
        PairFunction::KLast => "kLast()",
        PairFunction::Initialize => "initialize(address,address)",
        PairFunction::Mint => "mint(address)",
        PairFunction::Burn => "burn(address)",
        PairFunction::Swap => "swap(uint256,uint256,address,bytes)",
        PairFunction::Skim => "skim(address)",
        PairFunction::Sync => "sync()",
        PairFunction::Approve => "approve(address,uint256)",
        PairFunction::Transfer => "transfer(address,uint256)",
        PairFunction::TransferFrom => "transferFrom(address,address,uint256)",
    }
}

/// The Solidity signature of a pair function.
pub fn pair_signature(f: PairFunction) -> (r: &'static str)
    ensures
        r == pair_signature_spec(f),
{
    match f {
        PairFunction::Factory => "factory()",
        PairFunction::Token0 => "token0()",
        PairFunction::Token1 => "token1()",
        PairFunction::GetReserves => "getReserves()",
        PairFunction::TotalSupply => "totalSupply()",
        PairFunction::BalanceOf => "balanceOf(address)",
        PairFunction::Allowance => "allowance(address,address)",
        PairFunction::MinimumLiquidity => "MINIMUM_LIQUIDITY()",
        PairFunction::Price0CumulativeLast => "price0CumulativeLast()",
        PairFunction::Price1CumulativeLast => "price1CumulativeLast()",
        PairFunction::KLast => "kLast()",
        PairFunction::Initialize => "initialize(address,address)",
        PairFunction::Mint => "mint(address)",
        PairFunction::Burn => "burn(address)",
        PairFunction::Swap => "swap(uint256,uint256,address,bytes)",
        PairFunction::Skim => "skim(address)",
        PairFunction::Sync => "sync()",
        PairFunction::Approve => "approve(address,uint256)",
        PairFunction::Transfer => "transfer(address,uint256)",
        PairFunction::TransferFrom => "transferFrom(address,address,uint256)",
    }
}

/// The pair functions in the order the dispatcher tries them.
pub open spec fn pair_functions() -> Seq<PairFunction> {
    seq![
        PairFunction::Factory, PairFunction::Token0, PairFunction::Token1, PairFunction::GetReserves,
        PairFunction::TotalSupply, PairFunction::BalanceOf, PairFunction::Allowance,
        PairFunction::MinimumLiquidity, PairFunction::Price0CumulativeLast,
        PairFunction::Price1CumulativeLast, PairFunction::KLast, PairFunction::Initialize,
        PairFunction::Mint, PairFunction::Burn, PairFunction::Swap, PairFunction::Skim,
        PairFunction::Sync, PairFunction::Approve, PairFunction::Transfer, PairFunction::TransferFrom,
    ]
}

/// Whether calldata starts with the selector of `f`.
pub open spec fn names(data: Seq<u8>, f: PairFunction) -> bool {
    data.len() >= 4 && data.subrange(0, 4) == selector_of(pair_signature_spec(f).spec_bytes())
}

/// The first function of `fs` whose selector starts the calldata.
pub open spec fn first_named(data: Seq<u8>, fs: Seq<PairFunction>) -> Option<PairFunction>
    decreases fs.len(),
{
    if fs.len() == 0 {
        None
    } else if names(data, fs[0]) {
        Some(fs[0])
    } else {
        first_named(data, fs.drop_first())
    }
}

/// A function found by `first_named` is named by the calldata.
pub proof fn lemma_first_named(data: Seq<u8>, fs: Seq<PairFunction>)
    ensures
        first_named(data, fs) matches Some(f) ==> names(data, f),
    decreases fs.len(),
{
    if fs.len() > 0 && !names(data, fs[0]) {
        lemma_first_named(data, fs.drop_first());
    }
}

/// The function a pair call names: the first whose selector starts the calldata.
/// `None` (a revert) for calldata shorter than 4 bytes or an unknown selector.
pub fn pair_function(calldata: &[u8]) -> (r: Option<PairFunction>)
    ensures
        r == first_named(calldata@, pair_functions()),
{
    let fs = [
        PairFunction::Factory, PairFunction::Token0, PairFunction::Token1, PairFunction::GetReserves,
        PairFunction::TotalSupply, PairFunction::BalanceOf, PairFunction::Allowance,
        PairFunction::MinimumLiquidity, PairFunction::Price0CumulativeLast,
        PairFunction::Price1CumulativeLast, PairFunction::KLast, PairFunction::Initialize,
        PairFunction::Mint, PairFunction::Burn, PairFunction::Swap, PairFunction::Skim,
        PairFunction::Sync, PairFunction::Approve, PairFunction::Transfer, PairFunction::TransferFrom,
    ];
    proof {
        assert(fs@ =~= pair_functions());
        assert(fs@.skip(0) =~= fs@);
    }
    let mut i: usize = 0;
    while i < 20
        invariant
            i <= 20,
            fs@ == pair_functions(),
            first_named(calldata@, pair_functions()) == first_named(calldata@, fs@.skip(i as int)),
        decreases 20 - i,
    {
        let f = fs[i];
        let sel = selector(pair_signature(f));
        proof {
            assert(fs@.skip(i as int)[0] == f);
            assert(fs@.skip(i as int).drop_first() =~= fs@.skip(i + 1));
        }
        if has_selector(calldata, &sel) {
            return Some(f);
        }
        i = i + 1;
    }
    proof {
        assert(fs@.skip(20).len() == 0);
    }
    None
}

/// Whether a function only reads the pair's state.
pub open spec fn is_view(f: PairFunction) -> bool {
    match f {
        PairFunction::Factory | PairFunction::Token0 | PairFunction::Token1 | PairFunction::GetReserves
        | PairFunction::TotalSupply | PairFunction::BalanceOf | PairFunction::Allowance
        | PairFunction::MinimumLiquidity | PairFunction::Price0CumulativeLast
        | PairFunction::Price1CumulativeLast | PairFunction::KLast => true,
        _ => false,
    }
}

/// Whether a function takes the reentrancy lock before it reads its arguments.
pub open spec fn takes_lock(f: PairFunction) -> bool {
    match f {
        PairFunction::Initialize | PairFunction::Mint | PairFunction::Burn | PairFunction::Swap
        | PairFunction::Skim | PairFunction::Sync => true,
        _ => false,
    }
}

/// Whether a function takes the reentrancy lock before it reads its arguments.
fn takes_lock_exec(f: PairFunction) -> (r: bool)
    ensures
        r == takes_lock(f),
{
    match f {
        PairFunction::Initialize | PairFunction::Mint | PairFunction::Burn | PairFunction::Swap
        | PairFunction::Skim | PairFunction::Sync => true,
        _ => false,
    }
}

/// The number of static argument words a function reads.
pub open spec fn arg_count(f: PairFunction) -> nat {
    match f {
        PairFunction::BalanceOf | PairFunction::Mint | PairFunction::Burn | PairFunction::Skim => 1,
        PairFunction::Allowance | PairFunction::Initialize | PairFunction::Approve | PairFunction::Transfer => 2,
        PairFunction::TransferFrom => 3,
        _ => 0,
    }
}

/// Argument `i` of the calldata read as an address.
pub open spec fn arg_addr(data: Seq<u8>, i: nat) -> Seq<u8> {
    arg_word(data, i).subrange(12, 32)
}

/// Argument `i` of the calldata read as a number.
pub open spec fn arg_num(data: Seq<u8>, i: nat) -> nat {
    be_value(arg_word(data, i))
}

/// The return data of a view function on a pair with slots `s`.
pub open spec fn view_return(s: PairSlots, f: PairFunction, data: Seq<u8>) -> Seq<u8> {
    match f {
        PairFunction::Factory => address_word_bytes(word_address(s.factory)),
        PairFunction::Token0 => address_word_bytes(word_address(s.token0)),
        PairFunction::Token1 => address_word_bytes(word_address(s.token1)),
        PairFunction::GetReserves => be_bytes(unpack_reserves(s.reserves).0, 32)
            + be_bytes(unpack_reserves(s.reserves).1, 32) + be_bytes(unpack_reserves(s.reserves).2, 32),
        PairFunction::TotalSupply => be_bytes(s.total_supply, 32),
        PairFunction::BalanceOf => be_bytes((s.balance)(arg_addr(data, 0)), 32),
        PairFunction::Allowance => be_bytes((s.allowance)(arg_addr(data, 0), arg_addr(data, 1)), 32),
        PairFunction::MinimumLiquidity => be_bytes(MINIMUM_LIQUIDITY as nat, 32),
        PairFunction::Price0CumulativeLast => be_bytes(s.price0_cumulative_last, 32),
        PairFunction::Price1CumulativeLast => be_bytes(s.price1_cumulative_last, 32),
        _ => be_bytes(s.k_last, 32),
    }
}

/// Decoded arguments of `swap(uint256,uint256,address,bytes)`.
pub struct SwapArgs {
    pub amount0_out: U256,
    pub amount1_out: U256,
    pub to: Address,
    pub data: Vec<u8>,
}

/// The most bytes a dynamic argument may take when decoded.
pub open spec fn decode_memory_limit() -> nat {
    0x4000_0000
}

/// A word read as an offset: `None` unless its high 24 bytes are zero; then the number in
/// its low 8 bytes.
pub open spec fn word_offset(w: Seq<u8>) -> Option<nat> {
    if w.subrange(0, 24) == crate::bytes::zeros(24) {
        Some(be_value(w.subrange(24, 32)))
    } else {
        None
    }
}

/// The `bytes` argument of a swap: the offset in head word 3 (counted from the end of the
/// selector) points at a length word followed by that many bytes, all inside the calldata.
pub open spec fn swap_data(d: Seq<u8>) -> Option<Seq<u8>> {
    let args = d.subrange(4, d.len() as int);
    match word_offset(args.subrange(96, 128)) {
        None => None,
        Some(off) => if off + 32 > args.len() {
            None
        } else {
            match word_offset(args.subrange(off as int, off as int + 32)) {
                None => None,
                Some(len) => if off + 32 + len > args.len() || len > decode_memory_limit() {
                    None
                } else {
                    Some(args.subrange(off as int + 32, off as int + 32 + len as int))
                },
            }
        },
    }
}

/// Reads a word as an offset.
fn read_offset(w: &[u8; 32]) -> (r: Option<u64>)
    ensures
        r matches Some(v) ==> word_offset(w@) == Some(v as nat),
        r is None ==> word_offset(w@) is None,
{
    let mut i: usize = 0;
    while i < 24
        invariant
            i <= 24,
            forall|j: int| 0 <= j < i ==> w@[j] == 0u8,
        decreases 24 - i,
    {
        if w[i] != 0 {
            proof {
                assert(w@.subrange(0, 24)[i as int] != crate::bytes::zeros(24)[i as int]);
            }
            return None;
        }
        i = i + 1;
    }
    proof {
        assert(w@.subrange(0, 24) =~= crate::bytes::zeros(24));
    }
    let mut acc: u64 = 0;
    let mut k: usize = 24;
    while k < 32
        invariant
            24 <= k <= 32,
            acc as nat == be_value(w@.subrange(24, k as int)),
        decreases 32 - k,
    {
        proof {
            crate::bytes::lemma_be_value_bound(w@.subrange(24, k as int));
            crate::bytes::lemma_byte_power_pos((k - 24) as nat);
            assert(w@.subrange(24, k + 1).drop_last() =~= w@.subrange(24, k as int));
            assert(crate::bytes::byte_power((k - 24) as nat) <= 0x100_0000_0000_0000nat) by {
                reveal_with_fuel(crate::bytes::byte_power, 8);
            }
        }
        acc = acc * 256 + w[k] as u64;
        k = k + 1;
    }
    Some(acc)
}

/// Decodes the arguments of a swap; `None` (a revert) where they do not decode.
pub fn decode_swap_args(calldata: &[u8]) -> (r: Option<SwapArgs>)
    ensures
        !has_args(calldata@, 4) ==> r is None,
        has_args(calldata@, 4) ==> match swap_data(calldata@) {
            None => r is None,
            Some(data) => r matches Some(a) && a.amount0_out@ == arg_num(calldata@, 0)
                && a.amount1_out@ == arg_num(calldata@, 1) && a.to@ == arg_addr(calldata@, 2)
                && a.data@ == data,
        },
{
    let n = calldata.len();
    if n < 132 {
        return None;
    }
    let amount0_out = arg_u256(calldata, 0);
    let amount1_out = arg_u256(calldata, 1);
    let to = arg_address(calldata, 2);
    let ghost d = calldata@;
    let ghost args = d.subrange(4, d.len() as int);
    let head = crate::bytes::bytes32_at(calldata, 100);
    proof {
        assert(head@ =~= args.subrange(96, 128));
    }
    let off = match read_offset(&head) {
        Some(v) => v,
        None => { return None; },
    };
    let args_len = (n - 4) as u64;
    if off > args_len || args_len - off < 32 {
        return None;
    }
    let start = (4 + off) as usize;
    let len_word = crate::bytes::bytes32_at(calldata, start);
    proof {
        assert(len_word@ =~= args.subrange(off as int, off as int + 32));
    }
    let len = match read_offset(&len_word) {
        Some(v) => v,
        None => { return None; },
    };
    if len > args_len - off - 32 || len > 0x4000_0000 {
        return None;
    }
    let first = start + 32;
    let count = len as usize;
    let mut data: Vec<u8> = Vec::new();
    let mut i: usize = 0;
    while i < count
        invariant
            i <= count,
            count == len,
            first == 4 + off + 32,
            first + count <= n,
            n == calldata@.len(),
            data@ == calldata@.subrange(first as int, first + i),
        decreases count - i,
    {
        data.push(calldata[first + i]);
        i = i + 1;
        proof {
            assert(data@ =~= calldata@.subrange(first as int, first + i));
        }
    }
    proof {
        assert(data@ =~= args.subrange(off as int + 32, off as int + 32 + len as int));
    }
    Some(SwapArgs { amount0_out, amount1_out, to, data })
}

/// The outcome of a pair call handled without reaching another contract.
#[derive(Debug)]
pub enum PairOutcome {
    /// The call returns this data.
    Return(Vec<u8>),
    /// The call fails; the state is unchanged.
    Failed(PairError),
    /// The call needs the pair's token balances or token transfers; the host continues it
    /// with [`PairState::begin_call`].
    NeedsHost(PairFunction),
}

/// The calldata a pair sends a token to pay out `value` to `to`: `transfer(to, value)`.
pub fn encode_transfer(to: &Address, value: U256) -> (r: Vec<u8>)
    ensures
        r@ == selector_of("transfer(address,uint256)".spec_bytes()) + address_word_bytes(to@) + be_bytes(value@, 32),
{
    let sel = selector("transfer(address,uint256)");
    let mut data: Vec<u8> = Vec::new();
    extend_bytes(&mut data, sel.as_slice());
    let a = encode_address(to);
    extend_bytes(&mut data, a.as_slice());
    let v = encode_u256(value);
    extend_bytes(&mut data, v.as_slice());
    data
}

/// The calldata a pair sends a token to read the balance of `account`: `balanceOf(account)`.
pub fn encode_balance_of(account: &Address) -> (r: Vec<u8>)
    ensures
        r@ == selector_of("balanceOf(address)".spec_bytes()) + address_word_bytes(account@),
{
    let sel = selector("balanceOf(address)");
    let mut data: Vec<u8> = Vec::new();
    extend_bytes(&mut data, sel.as_slice());
    let a = encode_address(account);
    extend_bytes(&mut data, a.as_slice());
    data
}

/// The balance a `balanceOf` call to a token gave: the number its 32-byte output buffer
/// (zero where the call wrote nothing) holds big-endian; `TokenCallFailed` (a revert) when the
/// call failed.
pub fn balance_of_result(call_ok: bool, output: &[u8; 32]) -> (r: Result<U256, PairError>)
    ensures
        call_ok ==> (r matches Ok(v) && v@ == be_value(output@)),
        !call_ok ==> r == Err::<U256, PairError>(PairError::TokenCallFailed),
{
    if call_ok {
        Ok(crate::bytes::word_from_bytes(output))
    } else {
        Err(PairError::TokenCallFailed)
    }
}

/// What a `transfer` call to a token means to the pair: nothing when it succeeded, and
/// `TokenCallFailed` (a revert) when it failed; its return data is not read.
pub fn transfer_result(call_ok: bool) -> (r: Result<(), PairError>)
    ensures
        call_ok <==> r is Ok,
        !call_ok ==> r == Err::<(), PairError>(PairError::TokenCallFailed),
{
    if call_ok {
        Ok(())
    } else {
        Err(PairError::TokenCallFailed)
    }
}

/// The block timestamp in seconds from the 32-byte big-endian word the host gives; `None`
/// (a trap) when it does not fit in 32 bits.
pub fn timestamp_from_word(word: &[u8; 32]) -> (r: Option<u32>)
    ensures
        be_value(word@) < 0x1_0000_0000 ==> r == Some(be_value(word@) as u32),
        be_value(word@) >= 0x1_0000_0000 ==> r is None,
{
    crate::word::U256::try_to_u32(&crate::bytes::word_from_bytes(word))
}

/// The data returned by a successful ERC-20 call: `true`.
pub open spec fn true_word() -> Seq<u8> {
    be_bytes(1, 32)
}

impl PairState {
    /// Handles a pair call from `caller` as far as it goes without another contract:
    /// the views, `initialize`, `approve`, `transfer` and `transferFrom`.
    pub fn call_local(&mut self, calldata: &[u8], caller: &Address) -> (r: PairOutcome)
        ensures
            ({
                let o = old(self)@;
                let d = calldata@;
                match first_named(d, pair_functions()) {
                    None => r == PairOutcome::Failed(PairError::UnknownFunction) && final(self)@ == o,
                    Some(f) => if takes_lock(f) && o.unlocked != 1 {
                        r == PairOutcome::Failed(PairError::Locked) && final(self)@ == o
                    } else if !has_args(d, arg_count(f)) && f != PairFunction::Swap {
                        r == PairOutcome::Failed(PairError::BadCalldata) && final(self)@ == o
                    } else if is_view(f) {
                        (r matches PairOutcome::Return(v) && v@ == view_return(o, f, d)) && final(self)@ == o
                    } else {
                        match f {
                            PairFunction::Initialize => if o.token0 != 0 {
                                r == PairOutcome::Failed(PairError::AlreadyInitialized) && final(self)@ == o
                            } else {
                                &&& r matches PairOutcome::Return(v) && v@ == Seq::<u8>::empty()
                                &&& final(self)@ == (PairSlots {
                                    token0: be_value(address_word_bytes(arg_addr(d, 0))),
                                    token1: be_value(address_word_bytes(arg_addr(d, 1))),
                                    ..o
                                })
                            },
                            PairFunction::Approve => {
                                &&& r matches PairOutcome::Return(v) && v@ == true_word()
                                &&& final(self)@ == (PairSlots {
                                    allowance: update_allowance(o.allowance, caller@, arg_addr(d, 0), arg_num(d, 1)),
                                    ..o
                                })
                            },
                            PairFunction::Transfer => {
                                let value = arg_num(d, 1);
                                let to = arg_addr(d, 0);
                                if (o.balance)(caller@) < value {
                                    r == PairOutcome::Failed(PairError::InsufficientBalance) && final(self)@ == o
                                } else {
                                    &&& r matches PairOutcome::Return(v) && v@ == true_word()
                                    &&& final(self)@ == (PairSlots { balance: transfer_balances(o.balance, caller@, to, value), ..o })
                                }
                            },
                            PairFunction::TransferFrom => match transfer_from_effect(o, caller@, arg_addr(d, 0), arg_addr(d, 1), arg_num(d, 2)) {
                                Ok(s2) => (r matches PairOutcome::Return(v) && v@ == true_word()) && final(self)@ == s2,
                                Err(e) => r == PairOutcome::Failed(e) && final(self)@ == o,
                            },
                            _ => r == PairOutcome::NeedsHost(f) && final(self)@ == o,
                        }
                    },
                }
            }),
    {
        proof {
            lemma_first_named(calldata@, pair_functions());
        }
        let f = match pair_function(calldata) {
            Some(f) => f,
            None => { return PairOutcome::Failed(PairError::UnknownFunction); },
        };
        if takes_lock_exec(f) && !self.unlocked.eq_word(&U256::from_u64(1)) {
            return PairOutcome::Failed(PairError::Locked);
        }
        let n = calldata.len();
        match f {
            PairFunction::Factory => PairOutcome::Return(encode_address(&self.get_factory())),
            PairFunction::Token0 => PairOutcome::Return(encode_address(&self.get_token0())),
            PairFunction::Token1 => PairOutcome::Return(encode_address(&self.get_token1())),
            PairFunction::GetReserves => {
                let (r0, r1, ts) = self.get_reserves();
                let words = [U256::from_u128(r0), U256::from_u128(r1), U256::from_u64(ts as u64)];
                let out = encode_u256_words(words.as_slice());
                proof {
                    assert(out@ =~= out@.subrange(0, 32) + out@.subrange(32, 64) + out@.subrange(64, 96));
                    assert(words@[0]@ == r0 && words@[1]@ == r1 && words@[2]@ == ts);
                    assert(out@.subrange(32 * 0int, 32 * 0int + 32) == be_bytes(words@[0]@, 32));
                    assert(out@.subrange(32 * 1int, 32 * 1int + 32) == be_bytes(words@[1]@, 32));
                    assert(out@.subrange(32 * 2int, 32 * 2int + 32) == be_bytes(words@[2]@, 32));
                }
                PairOutcome::Return(out)
            },
            PairFunction::TotalSupply => PairOutcome::Return(encode_u256(self.total_supply)),
            PairFunction::BalanceOf => {
                if n < 36 {
                    return PairOutcome::Failed(PairError::BadCalldata);
                }
                let owner = arg_address(calldata, 0);
                PairOutcome::Return(encode_u256(self.get_balance(&owner)))
            },
            PairFunction::Allowance => {
                if n < 68 {
                    return PairOutcome::Failed(PairError::BadCalldata);
                }
                let owner = arg_address(calldata, 0);
                let spender = arg_address(calldata, 1);
                PairOutcome::Return(encode_u256(self.get_allowance(&owner, &spender)))
            },
            PairFunction::MinimumLiquidity => PairOutcome::Return(encode_u256(U256::from_u64(MINIMUM_LIQUIDITY))),
            PairFunction::Price0CumulativeLast => PairOutcome::Return(encode_u256(self.price0_cumulative_last)),
            PairFunction::Price1CumulativeLast => PairOutcome::Return(encode_u256(self.price1_cumulative_last)),
            PairFunction::KLast => PairOutcome::Return(encode_u256(self.k_last)),
            PairFunction::Initialize => {
                if n < 68 {
                    return PairOutcome::Failed(PairError::BadCalldata);
                }
                let token0 = arg_address(calldata, 0);
                let token1 = arg_address(calldata, 1);
                match self.initialize(&token0, &token1) {
                    Ok(()) => PairOutcome::Return(Vec::new()),
                    Err(e) => PairOutcome::Failed(e),
                }
            },
            PairFunction::Approve => {
                if n < 68 {
                    return PairOutcome::Failed(PairError::BadCalldata);
                }
                let spender = arg_address(calldata, 0);
                let value = arg_u256(calldata, 1);
                let ok = self.approve(caller, &spender, value);
                PairOutcome::Return(encode_bool(ok))
            },
            PairFunction::Transfer => {
                if n < 68 {
                    return PairOutcome::Failed(PairError::BadCalldata);
                }
                let to = arg_address(calldata, 0);
                let value = arg_u256(calldata, 1);
                match self.transfer(caller, &to, value) {
                    Ok(ok) => PairOutcome::Return(encode_bool(ok)),
                    Err(e) => PairOutcome::Failed(e),
                }
            },
            PairFunction::TransferFrom => {
                if n < 100 {
                    return PairOutcome::Failed(PairError::BadCalldata);
                }
                let from = arg_address(calldata, 0);
                let to = arg_address(calldata, 1);
                let value = arg_u256(calldata, 2);
                match self.transfer_from(caller, &from, &to, value) {
                    Ok(ok) => PairOutcome::Return(encode_bool(ok)),
                    Err(e) => PairOutcome::Failed(e),
                }
            },
            PairFunction::Mint | PairFunction::Burn | PairFunction::Skim => {
                if n < 36 {
                    return PairOutcome::Failed(PairError::BadCalldata);
                }
                PairOutcome::NeedsHost(f)
            },
            _ => PairOutcome::NeedsHost(f),
        }
    }
}

/// `getReserves()` answers with the reserves as they were stored, by position: when the
/// reserves slot holds reserve0 = `r0`, reserve1 = `r1` and time `ts` (as `mint`, `burn`,
/// `swap` and `sync` store them, with reserves below 2^112), the answer is the word `r0`,
/// then the word `r1`, then the word `ts`.
pub proof fn lemma_get_reserves_reads_stored_reserves(s: PairSlots, r0: nat, r1: nat, ts: nat, data: Seq<u8>)
    requires
        s.reserves == crate::pair::pack_reserves(r0, r1, ts),
        r0 < 0x1_0000_0000_0000_0000_0000_0000_0000nat,
        r1 < 0x1_0000_0000_0000_0000_0000_0000_0000nat,
        ts < 0x1_0000_0000nat,
    ensures
        view_return(s, PairFunction::GetReserves, data) == be_bytes(r0, 32) + be_bytes(r1, 32) + be_bytes(ts, 32),
{
    crate::pair::lemma_reserves_read_back(r0, r1, ts);
}

/// After `sync` records balances below 2^112, `getReserves()` answers with balance0, then
/// balance1, then the kept timestamp.
pub proof fn lemma_get_reserves_after_settling(o: PairSlots, b0: nat, b1: nat, ts: nat, data: Seq<u8>)
    requires
        b0 < 0x1_0000_0000_0000_0000_0000_0000_0000nat,
        b1 < 0x1_0000_0000_0000_0000_0000_0000_0000nat,
        ts < 0x1_0000_0000nat,
    ensures
        view_return(crate::pair::settled(o, b0, b1, ts), PairFunction::GetReserves, data)
            == be_bytes(b0, 32) + be_bytes(b1, 32) + be_bytes(ts, 32),
{
    lemma_get_reserves_reads_stored_reserves(crate::pair::settled(o, b0, b1, ts), b0, b1, ts, data);
}

} // verus!
