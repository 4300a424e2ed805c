//! A Uniswap V2 style pair: an automated market maker for two tokens that is
//! itself an ERC-20 token of liquidity shares.
//!
//! Each storage slot of the pair is a field of [`PairState`]. A call that
//! fails leaves the state as it was: the host discards the writes of a
//! reverted call, and the operations here return an error before they write.

use vstd::prelude::*;
use vstd::arithmetic::power2::pow2;
use crate::word::{
    U256, word_modulus, bitor_nat, wrapping_add, wrapping_sub, wrapping_mul, div, shl,
    shr, bitand, bitor, lemma_word_bound, lemma_pow2_values, lemma_bitand_low_mask,
    lemma_bitor_disjoint, lemma_bitor_comm,
};
use crate::bytes::{Address, zeros, be_bytes, address_word_bytes, address_from_word, word_from_address};
use crate::word::be_value;
use crate::byte_map::ByteMap;
use crate::math::{sqrt_u256, isqrt, lemma_isqrt, lemma_isqrt_unique};

verus! {

/// Liquidity locked forever by the first mint.
pub const MINIMUM_LIQUIDITY: u64 = 1000;

/// Why a pair call failed. Every failure leaves the pair's state unchanged.
#[derive(Clone, Copy, Debug, PartialEq, Eq)]
pub enum PairError {
    /// A mutating call found the reentrancy lock taken.
    Locked,
    /// `initialize` on a pair whose token0 is already set.
    AlreadyInitialized,
    /// A mint that would create too little liquidity.
    InsufficientLiquidityMinted,
    /// A burn with no liquidity or a zero amount out.
    InsufficientLiquidityBurned,
    /// A swap asking for nothing.
    InsufficientOutputAmount,
    /// A swap asking for at least a whole reserve.
    InsufficientLiquidity,
    /// A swap paying out to one of the pair's tokens.
    InvalidTo,
    /// A swap into which nothing was paid.
    InsufficientInputAmount,
    /// A swap that would lower the product of the reserves.
    K,
    /// A transfer of more than the sender holds.
    InsufficientBalance,
    /// A transfer of more than the spender is allowed.
    InsufficientAllowance,
    /// A balance that does not fit in 128 bits where the reserves store it (a trap).
    ReserveOverflow,
    /// A division by a zero reserve or supply (a trap).
    DivisionByZero,
    /// Calldata whose arguments cannot be decoded.
    BadCalldata,
    /// Calldata naming no function of the pair.
    UnknownFunction,
    /// A call the pair made to one of its tokens failed.
    TokenCallFailed,
}

impl PairError {
    /// Whether the failure is a trap (a panic in the contract) rather than a revert.
    pub fn is_trap(&self) -> (r: bool)
        ensures
            r == (*self == PairError::ReserveOverflow || *self == PairError::DivisionByZero),
    {
        match self {
            PairError::ReserveOverflow => true,
            PairError::DivisionByZero => true,
            _ => false,
        }
    }
}

/// The storage of a pair, one field per slot.
pub struct PairState {
    /// Slot 0: the factory that deployed the pair, as an address word.
    pub factory: U256,
    /// Slot 1: the first token, as an address word.
    pub token0: U256,
    /// Slot 2: the second token, as an address word.
    pub token1: U256,
    /// Slot 3: reserve0 at bit 144, reserve1 at bit 32, the timestamp in the low 32 bits.
    pub reserves: U256,
    /// Slot 4.
    pub price0_cumulative_last: U256,
    /// Slot 5.
    pub price1_cumulative_last: U256,
    /// Slot 6.
    pub k_last: U256,
    /// Slot 7: 1 when no mutating call is in progress.
    pub unlocked: U256,
    /// Slot 8: the total supply of liquidity shares.
    pub total_supply: U256,
    /// Slot 9: share balances, keyed by owner address.
    pub balances: ByteMap<U256>,
    /// Slot 10: allowances, keyed by owner address followed by spender address.
    pub allowances: ByteMap<U256>,
}

/// The slots of a pair as numbers; balances and allowances read 0 where nothing is stored.
#[verifier::ext_equal]
pub struct PairSlots {
    pub factory: nat,
    pub token0: nat,
    pub token1: nat,
    pub reserves: nat,
    pub price0_cumulative_last: nat,
    pub price1_cumulative_last: nat,
    pub k_last: nat,
    pub unlocked: nat,
    pub total_supply: nat,
    pub balance: spec_fn(Seq<u8>) -> nat,
    pub allowance: spec_fn(Seq<u8>, Seq<u8>) -> nat,
}

impl View for PairState {
    type V = PairSlots;

    open spec fn view(&self) -> PairSlots {
        PairSlots {
            factory: self.factory@,
            token0: self.token0@,
            token1: self.token1@,
            reserves: self.reserves@,
            price0_cumulative_last: self.price0_cumulative_last@,
            price1_cumulative_last: self.price1_cumulative_last@,
            k_last: self.k_last@,
            unlocked: self.unlocked@,
            total_supply: self.total_supply@,
            balance: |k: Seq<u8>| stored(self.balances.view(), k),
            allowance: |o: Seq<u8>, s: Seq<u8>|
                if o.len() == 20 && s.len() == 20 {
                    stored(self.allowances.view(), allowance_key(o, s))
                } else {
                    0
                },
        }
    }
}

/// `f` with `k` mapped to `v`.
pub open spec fn update_balance(f: spec_fn(Seq<u8>) -> nat, k: Seq<u8>, v: nat) -> spec_fn(Seq<u8>) -> nat {
    |x: Seq<u8>| if x == k { v } else { f(x) }
}

/// `f` with `(o, s)` mapped to `v`.
pub open spec fn update_allowance(
    f: spec_fn(Seq<u8>, Seq<u8>) -> nat,
    o: Seq<u8>,
    s: Seq<u8>,
    v: nat,
) -> spec_fn(Seq<u8>, Seq<u8>) -> nat {
    |x: Seq<u8>, y: Seq<u8>| if x == o && y == s { v } else { f(x, y) }
}

/// Concatenated 20-byte keys determine both halves.
proof fn lemma_allowance_key_injective(o: Seq<u8>, s: Seq<u8>, x: Seq<u8>, y: Seq<u8>)
    requires
        o.len() == 20,
        s.len() == 20,
        x.len() == 20,
        y.len() == 20,
        allowance_key(o, s) == allowance_key(x, y),
    ensures
        o == x,
        s == y,
{
    assert(o =~= allowance_key(o, s).subrange(0, 20));
    assert(x =~= allowance_key(x, y).subrange(0, 20));
    assert(s =~= allowance_key(o, s).subrange(20, 40));
    assert(y =~= allowance_key(x, y).subrange(20, 40));
}

/// A value that fits in 128 bits, as a `u128`.
fn narrow_u128(w: U256) -> (r: u128)
    requires
        w@ < two_pow_128(),
    ensures
        r == w@,
{
    match w.try_to_u128() {
        Some(v) => v,
        None => 0,
    }
}

/// A value that fits in 32 bits, as a `u32`.
fn narrow_u32(w: U256) -> (r: u32)
    requires
        w@ <= u32::MAX,
    ensures
        r == w@,
{
    match w.try_to_u32() {
        Some(v) => v,
        None => 0,
    }
}

/// The packed reserves word for `(r0, r1, ts)`.
pub fn reserves_word(r0: u128, r1: u128, ts: u32) -> (r: U256)
    ensures
        r@ == pack_reserves(r0 as nat, r1 as nat, ts as nat),
{
    let hi = shl(U256::from_u128(r0), 144);
    let mid = shl(U256::from_u128(r1), 32);
    bitor(bitor(hi, mid), U256::from_u64(ts as u64))
}

/// The reserves and timestamp a packed word reads as.
pub fn read_reserves(packed: U256) -> (r: (u128, u128, u32))
    ensures
        (r.0 as nat, r.1 as nat, r.2 as nat) == unpack_reserves(packed@),
{
    proof {
        lemma_pow2_values();
        lemma_bitand_low_mask(packed@ / pow2(144), 112);
        lemma_bitand_low_mask(packed@ / pow2(32), 112);
        lemma_bitand_low_mask(packed@, 32);
    }
    let mask112 = U256::from_u128(0xffff_ffff_ffff_ffff_ffff_ffff_ffffu128);
    let r0 = bitand(shr(packed, 144), mask112);
    let r1 = bitand(shr(packed, 32), mask112);
    let t = bitand(packed, U256::from_u64(0xffff_ffffu64));
    (narrow_u128(r0), narrow_u128(r1), narrow_u32(t))
}

/// The amount in after an amount out: the balance above what the reserve keeps
/// (`reserve - out`, modulo 2^256), or 0.
pub open spec fn amount_in(balance: nat, reserve: nat, out: nat) -> nat {
    if balance > wsub(reserve, out) {
        wsub(balance, wsub(reserve, out))
    } else {
        0
    }
}

/// Share balances after `value` shares move from `from` to `to`: `from` loses them, then
/// `to` gains them (modulo 2^256).
pub open spec fn transfer_balances(b: spec_fn(Seq<u8>) -> nat, from: Seq<u8>, to: Seq<u8>, value: nat) -> spec_fn(Seq<u8>) -> nat {
    let mid = update_balance(b, from, (b(from) - value) as nat);
    update_balance(mid, to, wadd(mid(to), value))
}

/// The slots after `sender` moves `value` of `from`'s shares to `to`, or the failure.
pub open spec fn transfer_from_effect(o: PairSlots, sender: Seq<u8>, from: Seq<u8>, to: Seq<u8>, value: nat) -> Result<PairSlots, PairError> {
    let allow = (o.allowance)(from, sender);
    let bal = (o.balance)(from);
    let max = (word_modulus() - 1) as nat;
    if allow != max && allow < value {
        Err(PairError::InsufficientAllowance)
    } else if bal < value {
        Err(PairError::InsufficientBalance)
    } else {
        Ok(PairSlots {
            allowance: if allow != max {
                update_allowance(o.allowance, from, sender, (allow - value) as nat)
            } else {
                o.allowance
            },
            balance: transfer_balances(o.balance, from, to, value),
            ..o
        })
    }
}

/// What taking the reentrancy lock gives: `Locked` while it is taken, and otherwise the
/// state with the lock taken.
pub open spec fn take_lock_result(o: PairSlots) -> Result<PairSlots, PairError> {
    if o.unlocked != 1 {
        Err(PairError::Locked)
    } else {
        Ok(PairSlots { unlocked: 0, ..o })
    }
}

/// Why a swap's first half refuses the request, or `None`: the lock is taken, nothing is
/// asked for, an amount out is not below its reserve, or the recipient is one of the tokens.
pub open spec fn swap_begin_error(o: PairSlots, out0: nat, out1: nat, to: Seq<u8>) -> Option<PairError> {
    let rs = unpack_reserves(o.reserves);
    if o.unlocked != 1 {
        Some(PairError::Locked)
    } else if out0 == 0 && out1 == 0 {
        Some(PairError::InsufficientOutputAmount)
    } else if out0 >= rs.0 || out1 >= rs.1 {
        Some(PairError::InsufficientLiquidity)
    } else if to == word_address(o.token0) || to == word_address(o.token1) {
        Some(PairError::InvalidTo)
    } else {
        None
    }
}

/// Why a swap's second half refuses the balances after the payout, given the reserves it
/// reads, or `None`: nothing was paid in, or the product of the fee-adjusted balances is
/// below the product of the reserves (all modulo 2^256), or a balance does not fit in 128 bits.
pub open spec fn swap_error(r0: nat, r1: nat, out0: nat, out1: nat, balance0: nat, balance1: nat) -> Option<PairError> {
    let in0 = amount_in(balance0, r0, out0);
    let in1 = amount_in(balance1, r1, out1);
    let adj0 = wsub(wmul(balance0, 1000), wmul(in0, 3));
    let adj1 = wsub(wmul(balance1, 1000), wmul(in1, 3));
    let k_before = wmul(wmul(wmul(r0, r1), 1000), 1000);
    if in0 == 0 && in1 == 0 {
        Some(PairError::InsufficientInputAmount)
    } else if wmul(adj0, adj1) < k_before {
        Some(PairError::K)
    } else if balance0 >= two_pow_128() || balance1 >= two_pow_128() {
        Some(PairError::ReserveOverflow)
    } else {
        None
    }
}

/// The token amounts paid out for burning `liquidity` shares, or the failure.
pub open spec fn burn_result(liquidity: nat, total_supply: nat, balance0: nat, balance1: nat) -> Result<(nat, nat), PairError> {
    if liquidity == 0 {
        Err(PairError::InsufficientLiquidityBurned)
    } else if total_supply == 0 {
        Err(PairError::DivisionByZero)
    } else {
        let a0 = wmul(liquidity, balance0) / total_supply;
        let a1 = wmul(liquidity, balance1) / total_supply;
        if a0 == 0 || a1 == 0 {
            Err(PairError::InsufficientLiquidityBurned)
        } else {
            Ok((a0, a1))
        }
    }
}

/// The liquidity minted for the given pool values, or the failure.
pub open spec fn mint_result(reserves: nat, total_supply: nat, balance0: nat, balance1: nat) -> Result<nat, PairError> {
    let r0 = unpack_reserves(reserves).0;
    let r1 = unpack_reserves(reserves).1;
    let a0 = wsub(balance0, r0);
    let a1 = wsub(balance1, r1);
    if total_supply == 0 {
        let s = isqrt(wmul(a0, a1));
        if s <= MINIMUM_LIQUIDITY {
            Err(PairError::InsufficientLiquidityMinted)
        } else if balance0 >= two_pow_128() || balance1 >= two_pow_128() {
            Err(PairError::ReserveOverflow)
        } else {
            Ok((s - MINIMUM_LIQUIDITY) as nat)
        }
    } else if r0 == 0 || r1 == 0 {
        Err(PairError::DivisionByZero)
    } else {
        let l0 = wmul(a0, total_supply) / r0;
        let l1 = wmul(a1, total_supply) / r1;
        let liq = if l0 < l1 { l0 } else { l1 };
        if liq == 0 {
            Err(PairError::InsufficientLiquidityMinted)
        } else if balance0 >= two_pow_128() || balance1 >= two_pow_128() {
            Err(PairError::ReserveOverflow)
        } else {
            Ok(liq)
        }
    }
}

/// The slots after a mint of `liq` shares to `to`: the reserves become the balances at
/// time `now`, the lock is freed, and the first mint also gives `MINIMUM_LIQUIDITY` shares to
/// the zero address; the total supply counts every share issued.
pub open spec fn minted(o: PairSlots, to: Seq<u8>, balance0: nat, balance1: nat, now: nat, liq: nat) -> PairSlots {
    let mid = if o.total_supply == 0 {
        update_balance(o.balance, zeros(20), MINIMUM_LIQUIDITY as nat)
    } else {
        o.balance
    };
    PairSlots {
        reserves: pack_reserves(balance0, balance1, now),
        unlocked: 1,
        total_supply: if o.total_supply == 0 { MINIMUM_LIQUIDITY as nat + liq } else { wadd(o.total_supply, liq) },
        balance: update_balance(mid, to, wadd(mid(to), liq)),
        ..o
    }
}

/// The slots after the shares the pair holds of itself, at `pair`, are burned.
pub open spec fn burned(o: PairSlots, pair: Seq<u8>) -> PairSlots {
    PairSlots {
        total_supply: wsub(o.total_supply, (o.balance)(pair)),
        balance: update_balance(o.balance, pair, 0),
        ..o
    }
}

/// The slots after balances below 2^128 are recorded as the reserves at time `ts` and the
/// lock is freed.
pub open spec fn settled(o: PairSlots, balance0: nat, balance1: nat, ts: nat) -> PairSlots {
    PairSlots { reserves: pack_reserves(balance0, balance1, ts), unlocked: 1, ..o }
}

/// Sum modulo 2^256.
pub open spec fn wadd(a: nat, b: nat) -> nat {
    (a + b) % word_modulus()
}

/// Difference modulo 2^256.
pub open spec fn wsub(a: nat, b: nat) -> nat {
    ((a - b) % (word_modulus() as int)) as nat
}

/// Product modulo 2^256.
pub open spec fn wmul(a: nat, b: nat) -> nat {
    (a * b) % word_modulus()
}

/// 2^128.
pub open spec fn two_pow_128() -> nat {
    0x1_0000_0000_0000_0000_0000_0000_0000_0000nat
}

/// The packed reserves word that stores `(r0, r1, ts)`.
pub open spec fn pack_reserves(r0: nat, r1: nat, ts: nat) -> nat {
    bitor_nat(bitor_nat((r0 * pow2(144)) % word_modulus(), (r1 * pow2(32)) % word_modulus()), ts)
}

/// What a packed reserves word reads as: the `uint112` reserves at bits 144 and 32, and the
/// `uint32` timestamp in the low 32 bits.
pub open spec fn unpack_reserves(p: nat) -> (nat, nat, nat) {
    ((p / pow2(144)) % pow2(112), (p / pow2(32)) % pow2(112), p % pow2(32))
}

/// The value stored under `key`, 0 where nothing is.
pub open spec fn stored(m: Map<Seq<u8>, U256>, key: Seq<u8>) -> nat {
    if m.contains_key(key) {
        m[key]@
    } else {
        0
    }
}

/// The address stored under `key`, the zero address where nothing is.
pub open spec fn stored_address(m: Map<Seq<u8>, Address>, key: Seq<u8>) -> Seq<u8> {
    if m.contains_key(key) {
        m[key]@
    } else {
        zeros(20)
    }
}

/// The allowance key of an owner and a spender.
pub open spec fn allowance_key(owner: Seq<u8>, spender: Seq<u8>) -> Seq<u8> {
    owner + spender
}

/// The address held in the low 20 bytes of a word.
pub open spec fn word_address(w: nat) -> Seq<u8> {
    be_bytes(w, 32).subrange(12, 32)
}

/// The word that stores an address.
pub open spec fn address_value(a: Seq<u8>) -> nat {
    be_value(address_word_bytes(a))
}

impl PairState {
    /// The state a pair starts in when `caller` deploys it: the caller is the factory and
    /// the lock is free.
    pub fn deploy(caller: &Address) -> (r: PairState)
        ensures
            r@ == (PairSlots {
                factory: address_value(caller@),
                token0: 0,
                token1: 0,
                reserves: 0,
                price0_cumulative_last: 0,
                price1_cumulative_last: 0,
                k_last: 0,
                unlocked: 1,
                total_supply: 0,
                balance: |k: Seq<u8>| 0nat,
                allowance: |o: Seq<u8>, s: Seq<u8>| 0nat,
            }),
    {
        let r = PairState {
            factory: word_from_address(caller),
            token0: U256::zero(),
            token1: U256::zero(),
            reserves: U256::zero(),
            price0_cumulative_last: U256::zero(),
            price1_cumulative_last: U256::zero(),
            k_last: U256::zero(),
            unlocked: U256::from_u64(1),
            total_supply: U256::zero(),
            balances: ByteMap::new(),
            allowances: ByteMap::new(),
        };
        r
    }

    /// The factory address.
    pub fn get_factory(&self) -> (r: Address)
        ensures
            r@ == word_address(self.factory@),
    {
        address_from_word(self.factory)
    }

    /// The address of the first token.
    pub fn get_token0(&self) -> (r: Address)
        ensures
            r@ == word_address(self.token0@),
    {
        address_from_word(self.token0)
    }

    /// The address of the second token.
    pub fn get_token1(&self) -> (r: Address)
        ensures
            r@ == word_address(self.token1@),
    {
        address_from_word(self.token1)
    }

    /// The reserves and the timestamp of their last update.
    pub fn get_reserves(&self) -> (r: (u128, u128, u32))
        ensures
            (r.0 as nat, r.1 as nat, r.2 as nat) == unpack_reserves(self.reserves@),
    {
        read_reserves(self.reserves)
    }

    /// The share balance of `owner`.
    pub fn get_balance(&self, owner: &Address) -> (r: U256)
        ensures
            r@ == (self@.balance)(owner@),
    {
        match self.balances.get(owner.as_slice()) {
            Some(v) => v,
            None => U256::zero(),
        }
    }

    /// What `spender` may still move from `owner`'s shares.
    pub fn get_allowance(&self, owner: &Address, spender: &Address) -> (r: U256)
        ensures
            r@ == (self@.allowance)(owner@, spender@),
    {
        let mut key: Vec<u8> = Vec::new();
        crate::bytes::extend_bytes(&mut key, owner.as_slice());
        crate::bytes::extend_bytes(&mut key, spender.as_slice());
        match self.allowances.get(key.as_slice()) {
            Some(v) => v,
            None => U256::zero(),
        }
    }

    /// Stores the share balance of `owner`.
    fn set_balance(&mut self, owner: &Address, value: U256)
        ensures
            final(self)@ == (PairSlots { balance: update_balance(old(self)@.balance, owner@, value@), ..old(self)@ }),
    {
        let mut key: Vec<u8> = Vec::new();
        crate::bytes::extend_bytes(&mut key, owner.as_slice());
        self.balances.insert(key, value);
        proof {
            assert(self@.balance =~= update_balance(old(self)@.balance, owner@, value@));
            assert(self@.allowance =~= old(self)@.allowance);
        }
    }

    /// Stores what `spender` may move from `owner`'s shares.
    fn set_allowance(&mut self, owner: &Address, spender: &Address, value: U256)
        ensures
            final(self)@ == (PairSlots {
                allowance: update_allowance(old(self)@.allowance, owner@, spender@, value@),
                ..old(self)@
            }),
    {
        let mut key: Vec<u8> = Vec::new();
        crate::bytes::extend_bytes(&mut key, owner.as_slice());
        crate::bytes::extend_bytes(&mut key, spender.as_slice());
        self.allowances.insert(key, value);
        proof {
            assert forall|x: Seq<u8>, y: Seq<u8>| #[trigger] (self@.allowance)(x, y)
                == (update_allowance(old(self)@.allowance, owner@, spender@, value@))(x, y) by {
                if x.len() == 20 && y.len() == 20 && allowance_key(x, y) == allowance_key(owner@, spender@) {
                    lemma_allowance_key_injective(owner@, spender@, x, y);
                }
            }
            assert(self@.allowance =~= update_allowance(old(self)@.allowance, owner@, spender@, value@));
            assert(self@.balance =~= old(self)@.balance);
        }
    }

    /// ERC-20 `approve`: `sender` lets `spender` move up to `value` of its shares.
    pub fn approve(&mut self, sender: &Address, spender: &Address, value: U256) -> (r: bool)
        ensures
            r,
            final(self)@ == (PairSlots {
                allowance: update_allowance(old(self)@.allowance, sender@, spender@, value@),
                ..old(self)@
            }),
    {
        self.set_allowance(sender, spender, value);
        true
    }

    /// ERC-20 `transfer`: moves `value` shares from `sender` to `to`.
    pub fn transfer(&mut self, sender: &Address, to: &Address, value: U256) -> (r: Result<bool, PairError>)
        ensures
            (old(self)@.balance)(sender@) < value@ ==> r == Err::<bool, PairError>(PairError::InsufficientBalance)
                && final(self)@ == old(self)@,
            (old(self)@.balance)(sender@) >= value@ ==> r == Ok::<bool, PairError>(true) && final(self)@ == (PairSlots {
                balance: transfer_balances(old(self)@.balance, sender@, to@, value@),
                ..old(self)@
            }),
    {
        let bal = self.get_balance(sender);
        if bal.lt(&value) {
            return Err(PairError::InsufficientBalance);
        }
        proof { lemma_word_bound(bal); lemma_word_bound(value); }
        let rest = wrapping_sub(bal, value);
        proof { vstd::arithmetic::div_mod::lemma_small_mod((bal@ - value@) as nat, word_modulus()); }
        self.set_balance(sender, rest);
        let to_bal = self.get_balance(to);
        self.set_balance(to, wrapping_add(to_bal, value));
        Ok(true)
    }

    /// ERC-20 `transferFrom`: `sender` moves `value` of `from`'s shares to `to`, spending
    /// allowance unless the allowance is the largest word.
    pub fn transfer_from(&mut self, sender: &Address, from: &Address, to: &Address, value: U256) -> (r: Result<bool, PairError>)
        ensures
            match transfer_from_effect(old(self)@, sender@, from@, to@, value@) {
                Ok(s) => r == Ok::<bool, PairError>(true) && final(self)@ == s,
                Err(e) => r == Err::<bool, PairError>(e) && final(self)@ == old(self)@,
            },
    {
        let allow = self.get_allowance(from, sender);
        let is_max = allow.eq_word(&U256::max_value());
        if !is_max && allow.lt(&value) {
            return Err(PairError::InsufficientAllowance);
        }
        let bal = self.get_balance(from);
        if bal.lt(&value) {
            return Err(PairError::InsufficientBalance);
        }
        proof {
            lemma_word_bound(bal);
            lemma_word_bound(value);
            lemma_word_bound(allow);
            vstd::arithmetic::div_mod::lemma_small_mod((bal@ - value@) as nat, word_modulus());
            if !is_max {
                vstd::arithmetic::div_mod::lemma_small_mod((allow@ - value@) as nat, word_modulus());
            }
        }
        if !is_max {
            self.set_allowance(from, sender, wrapping_sub(allow, value));
        }
        self.set_balance(from, wrapping_sub(bal, value));
        let to_bal = self.get_balance(to);
        self.set_balance(to, wrapping_add(to_bal, value));
        Ok(true)
    }

    /// `initialize`: records the two tokens; only while token0 is unset.
    pub fn initialize(&mut self, token0: &Address, token1: &Address) -> (r: Result<(), PairError>)
        ensures
            old(self)@.unlocked != 1 ==> r == Err::<(), PairError>(PairError::Locked) && final(self)@ == old(self)@,
            old(self)@.unlocked == 1 && old(self)@.token0 != 0 ==> r == Err::<(), PairError>(PairError::AlreadyInitialized)
                && final(self)@ == old(self)@,
            old(self)@.unlocked == 1 && old(self)@.token0 == 0 ==> r == Ok::<(), PairError>(()) && final(self)@ == (PairSlots {
                token0: address_value(token0@),
                token1: address_value(token1@),
                ..old(self)@
            }),
    {
        if !self.unlocked.eq_word(&U256::from_u64(1)) {
            return Err(PairError::Locked);
        }
        if !self.token0.is_zero() {
            return Err(PairError::AlreadyInitialized);
        }
        self.token0 = word_from_address(token0);
        self.token1 = word_from_address(token1);
        Ok(())
    }

    /// A copy of the pair's storage, which a host keeps to restore when a call reverts.
    pub fn snapshot(&self) -> (r: PairState)
        ensures
            r@ == self@,
    {
        let r = PairState {
            factory: self.factory,
            token0: self.token0,
            token1: self.token1,
            reserves: self.reserves,
            price0_cumulative_last: self.price0_cumulative_last,
            price1_cumulative_last: self.price1_cumulative_last,
            k_last: self.k_last,
            unlocked: self.unlocked,
            total_supply: self.total_supply,
            balances: self.balances.copy(),
            allowances: self.allowances.copy(),
        };
        assert(r@ =~= self@);
        r
    }

    /// Takes the reentrancy lock at the start of a mutating call, before the pair reads
    /// or pays out tokens; `Locked`, with nothing changed, while it is taken.
    pub fn take_lock(&mut self) -> (r: Result<(), PairError>)
        ensures
            match take_lock_result(old(self)@) {
                Ok(s) => r == Ok::<(), PairError>(()) && final(self)@ == s,
                Err(e) => r == Err::<(), PairError>(e) && final(self)@ == old(self)@,
            },
    {
        if !self.unlocked.eq_word(&U256::from_u64(1)) {
            return Err(PairError::Locked);
        }
        self.unlocked = U256::zero();
        Ok(())
    }

    /// `mint`, with the lock taken and the pair's current token balances read: issues shares
    /// to `to` for the tokens paid in since the last update; the reserves become those
    /// balances and the lock is freed. The first mint also locks `MINIMUM_LIQUIDITY` shares
    /// at the zero address, and the total supply counts both, so that it stays the sum of all
    /// balances as in Uniswap V2. On a failure nothing changes (the call reverts).
    pub fn mint(&mut self, to: &Address, balance0: U256, balance1: U256, now: u32) -> (r: Result<U256, PairError>)
        requires
            old(self)@.unlocked == 0,
        ensures
            ({
                let o = old(self)@;
                match mint_result(o.reserves, o.total_supply, balance0@, balance1@) {
                    Ok(liq) => {
                        &&& r matches Ok(v) && v@ == liq
                        &&& final(self)@ == minted(o, to@, balance0@, balance1@, now as nat, liq)
                    },
                    Err(e) => r == Err::<U256, PairError>(e) && final(self)@ == o,
                }
            }),
    {
        let (reserve0, reserve1, _) = self.get_reserves();
        let amount0 = wrapping_sub(balance0, U256::from_u128(reserve0));
        let amount1 = wrapping_sub(balance1, U256::from_u128(reserve1));
        let total_supply = self.total_supply;
        let min_liq = U256::from_u64(MINIMUM_LIQUIDITY);
        let liquidity;
        if total_supply.is_zero() {
            let root = sqrt_u256(wrapping_mul(amount0, amount1));
            proof {
                lemma_isqrt(wmul(amount0@, amount1@));
                lemma_isqrt_unique(wmul(amount0@, amount1@), root@, isqrt(wmul(amount0@, amount1@)));
            }
            if !min_liq.lt(&root) {
                return Err(PairError::InsufficientLiquidityMinted);
            }
            proof {
                vstd::arithmetic::div_mod::lemma_small_mod((root@ - MINIMUM_LIQUIDITY) as nat, word_modulus());
            }
            liquidity = wrapping_sub(root, min_liq);
            proof {
                lemma_word_bound(root);
            }
            assert(liquidity@ + MINIMUM_LIQUIDITY < word_modulus());
        } else {
            if reserve0 == 0 || reserve1 == 0 {
                return Err(PairError::DivisionByZero);
            }
            let l0 = div(wrapping_mul(amount0, total_supply), U256::from_u128(reserve0));
            let l1 = div(wrapping_mul(amount1, total_supply), U256::from_u128(reserve1));
            liquidity = if l0.lt(&l1) { l0 } else { l1 };
            if liquidity.is_zero() {
                return Err(PairError::InsufficientLiquidityMinted);
            }
        }
        let b0 = match balance0.try_to_u128() {
            Some(v) => v,
            None => { return Err(PairError::ReserveOverflow); },
        };
        let b1 = match balance1.try_to_u128() {
            Some(v) => v,
            None => { return Err(PairError::ReserveOverflow); },
        };
        if total_supply.is_zero() {
            proof {
                vstd::arithmetic::div_mod::lemma_small_mod(MINIMUM_LIQUIDITY as nat + liquidity@, word_modulus());
            }
            self.total_supply = wrapping_add(min_liq, liquidity);
            let zero_address = [0u8; 20];
            proof { assert(zero_address@ =~= zeros(20)); }
            self.set_balance(&zero_address, min_liq);
        } else {
            self.total_supply = wrapping_add(total_supply, liquidity);
        }
        let to_balance = self.get_balance(to);
        self.set_balance(to, wrapping_add(to_balance, liquidity));
        self.reserves = reserves_word(b0, b1, now);
        self.unlocked = U256::from_u64(1);
        Ok(liquidity)
    }

    /// First half of `burn`, with the lock taken and the pair's token balances read: burns
    /// the shares the pair holds of itself and returns the token amounts to pay out. The host
    /// then transfers both amounts and calls [`PairState::burn_finish`]. On a failure nothing
    /// changes (the call reverts).
    pub fn burn_begin(&mut self, self_address: &Address, balance0: U256, balance1: U256) -> (r: Result<(U256, U256), PairError>)
        requires
            old(self)@.unlocked == 0,
        ensures
            ({
                let o = old(self)@;
                let liq = (o.balance)(self_address@);
                match burn_result(liq, o.total_supply, balance0@, balance1@) {
                    Ok(amounts) => {
                        &&& r matches Ok(v) && v.0@ == amounts.0 && v.1@ == amounts.1
                        &&& final(self)@ == burned(o, self_address@)
                    },
                    Err(e) => r == Err::<(U256, U256), PairError>(e) && final(self)@ == o,
                }
            }),
    {
        let liquidity = self.get_balance(self_address);
        if liquidity.is_zero() {
            return Err(PairError::InsufficientLiquidityBurned);
        }
        let total_supply = self.total_supply;
        if total_supply.is_zero() {
            return Err(PairError::DivisionByZero);
        }
        let amount0 = div(wrapping_mul(liquidity, balance0), total_supply);
        let amount1 = div(wrapping_mul(liquidity, balance1), total_supply);
        if amount0.is_zero() || amount1.is_zero() {
            return Err(PairError::InsufficientLiquidityBurned);
        }
        self.set_balance(self_address, U256::zero());
        self.total_supply = wrapping_sub(total_supply, liquidity);
        Ok((amount0, amount1))
    }

    /// Second half of `burn`: records the pair's token balances after the payout as the
    /// reserves and frees the lock.
    pub fn burn_finish(&mut self, balance0: U256, balance1: U256, now: u32) -> (r: Result<(), PairError>)
        ensures
            balance0@ >= two_pow_128() || balance1@ >= two_pow_128() ==> r == Err::<(), PairError>(PairError::ReserveOverflow)
                && final(self)@ == old(self)@,
            balance0@ < two_pow_128() && balance1@ < two_pow_128() ==> r == Ok::<(), PairError>(()) && final(self)@ == (PairSlots {
                reserves: pack_reserves(balance0@, balance1@, now as nat),
                unlocked: 1,
                ..old(self)@
            }),
    {
        self.settle_reserves(balance0, balance1, now)
    }

    /// Records balances below 2^128 as the reserves and frees the lock.
    fn settle_reserves(&mut self, balance0: U256, balance1: U256, ts: u32) -> (r: Result<(), PairError>)
        ensures
            balance0@ >= two_pow_128() || balance1@ >= two_pow_128() ==> r == Err::<(), PairError>(PairError::ReserveOverflow)
                && final(self)@ == old(self)@,
            balance0@ < two_pow_128() && balance1@ < two_pow_128() ==> r == Ok::<(), PairError>(()) && final(self)@ == (PairSlots {
                reserves: pack_reserves(balance0@, balance1@, ts as nat),
                unlocked: 1,
                ..old(self)@
            }),
    {
        let b0 = match balance0.try_to_u128() {
            Some(v) => v,
            None => { return Err(PairError::ReserveOverflow); },
        };
        let b1 = match balance1.try_to_u128() {
            Some(v) => v,
            None => { return Err(PairError::ReserveOverflow); },
        };
        self.reserves = reserves_word(b0, b1, ts);
        self.unlocked = U256::from_u64(1);
        Ok(())
    }

    /// First half of `swap`: takes the lock and checks the request. The host then pays out
    /// the nonzero amounts to `to`, reads the pair's balances and calls
    /// [`PairState::swap_finish`].
    pub fn swap_begin(&mut self, amount0_out: U256, amount1_out: U256, to: &Address) -> (r: Result<(), PairError>)
        ensures
            ({
                let o = old(self)@;
                match swap_begin_error(o, amount0_out@, amount1_out@, to@) {
                    Some(err) => r == Err::<(), PairError>(err) && final(self)@ == o,
                    None => r == Ok::<(), PairError>(()) && final(self)@ == (PairSlots { unlocked: 0, ..o }),
                }
            }),
    {
        if !self.unlocked.eq_word(&U256::from_u64(1)) {
            return Err(PairError::Locked);
        }
        if amount0_out.is_zero() && amount1_out.is_zero() {
            return Err(PairError::InsufficientOutputAmount);
        }
        let (reserve0, reserve1, _) = self.get_reserves();
        if !amount0_out.lt(&U256::from_u128(reserve0)) || !amount1_out.lt(&U256::from_u128(reserve1)) {
            return Err(PairError::InsufficientLiquidity);
        }
        let token0 = self.get_token0();
        let token1 = self.get_token1();
        if crate::bytes::address_eq(to, &token0) || crate::bytes::address_eq(to, &token1) {
            return Err(PairError::InvalidTo);
        }
        self.unlocked = U256::zero();
        Ok(())
    }

    /// Second half of `swap`: given the pair's balances after the payout, checks that enough
    /// was paid in to keep the product of the balances (less a 0.3% fee on the input) at
    /// least the product of the reserves, then records the balances as the reserves and
    /// frees the lock.
    pub fn swap_finish(&mut self, amount0_out: U256, amount1_out: U256, balance0: U256, balance1: U256, now: u32) -> (r: Result<(), PairError>)
        ensures
            ({
                let o = old(self)@;
                let rs = unpack_reserves(o.reserves);
                match swap_error(rs.0, rs.1, amount0_out@, amount1_out@, balance0@, balance1@) {
                    Some(err) => r == Err::<(), PairError>(err) && final(self)@ == o,
                    None => r == Ok::<(), PairError>(()) && final(self)@ == (PairSlots {
                        reserves: pack_reserves(balance0@, balance1@, now as nat),
                        unlocked: 1,
                        ..o
                    }),
                }
            }),
    {
        let (reserve0, reserve1, _) = self.get_reserves();
        let r0 = U256::from_u128(reserve0);
        let r1 = U256::from_u128(reserve1);
        let kept0 = wrapping_sub(r0, amount0_out);
        let amount0_in = if kept0.lt(&balance0) { wrapping_sub(balance0, kept0) } else { U256::zero() };
        let kept1 = wrapping_sub(r1, amount1_out);
        let amount1_in = if kept1.lt(&balance1) { wrapping_sub(balance1, kept1) } else { U256::zero() };
        if amount0_in.is_zero() && amount1_in.is_zero() {
            return Err(PairError::InsufficientInputAmount);
        }
        let thousand = U256::from_u64(1000);
        let three = U256::from_u64(3);
        let adj0 = wrapping_sub(wrapping_mul(balance0, thousand), wrapping_mul(amount0_in, three));
        let adj1 = wrapping_sub(wrapping_mul(balance1, thousand), wrapping_mul(amount1_in, three));
        let k_before = wrapping_mul(wrapping_mul(wrapping_mul(r0, r1), thousand), thousand);
        if wrapping_mul(adj0, adj1).lt(&k_before) {
            return Err(PairError::K);
        }
        self.settle_reserves(balance0, balance1, now)
    }

    /// `skim`, with the lock taken and the pair's token balances read: what each balance
    /// holds above its reserve (modulo 2^256). The host then transfers both amounts to the
    /// recipient and calls [`PairState::release_lock`].
    pub fn skim_amounts(&self, balance0: U256, balance1: U256) -> (r: (U256, U256))
        ensures
            r.0@ == wsub(balance0@, unpack_reserves(self@.reserves).0),
            r.1@ == wsub(balance1@, unpack_reserves(self@.reserves).1),
    {
        let (reserve0, reserve1, _) = self.get_reserves();
        let a0 = wrapping_sub(balance0, U256::from_u128(reserve0));
        let a1 = wrapping_sub(balance1, U256::from_u128(reserve1));
        (a0, a1)
    }

    /// Frees the lock at the end of a call whose outside transfers succeeded.
    pub fn release_lock(&mut self)
        ensures
            final(self)@ == (PairSlots { unlocked: 1, ..old(self)@ }),
    {
        self.unlocked = U256::from_u64(1);
    }

    /// `sync`, with the lock taken and the pair's token balances read: records the balances
    /// as the reserves, keeping the timestamp, and frees the lock. On a failure nothing
    /// changes (the call reverts).
    pub fn sync(&mut self, balance0: U256, balance1: U256) -> (r: Result<(), PairError>)
        requires
            old(self)@.unlocked == 0,
        ensures
            balance0@ >= two_pow_128() || balance1@ >= two_pow_128()
                ==> r == Err::<(), PairError>(PairError::ReserveOverflow) && final(self)@ == old(self)@,
            balance0@ < two_pow_128() && balance1@ < two_pow_128()
                ==> r == Ok::<(), PairError>(()) && final(self)@ == (PairSlots {
                reserves: pack_reserves(balance0@, balance1@, unpack_reserves(old(self)@.reserves).2),
                unlocked: 1,
                ..old(self)@
            }),
    {
        let (_, _, ts) = self.get_reserves();
        self.settle_reserves(balance0, balance1, ts)
    }
}

/// Reserves that fit in 112 bits read back exactly as they were stored, with the timestamp.
pub proof fn lemma_reserves_read_back(r0: nat, r1: nat, ts: nat)
    requires
        r0 < 0x1_0000_0000_0000_0000_0000_0000_0000nat,
        r1 < 0x1_0000_0000_0000_0000_0000_0000_0000nat,
        ts < 0x1_0000_0000nat,
    ensures
        unpack_reserves(pack_reserves(r0, r1, ts)) == (r0, r1, ts),
{
    lemma_pow2_values();
    let hi = r0 * 0x1_0000_0000_0000_0000_0000_0000_0000_0000_0000nat;
    let mid = r1 * 0x1_0000_0000nat;
    vstd::arithmetic::div_mod::lemma_small_mod(hi, word_modulus());
    vstd::arithmetic::div_mod::lemma_small_mod(mid, word_modulus());
    assert(hi % pow2(144) == 0) by {
        vstd::arithmetic::div_mod::lemma_mod_multiples_basic(r0 as int, pow2(144) as int);
    }
    lemma_bitor_disjoint(mid, hi, 144);
    lemma_bitor_comm(hi, mid);
    let s = hi + mid;
    assert(s % pow2(32) == 0) by {
        assert(s == (r0 * 0x1_0000_0000_0000_0000_0000_0000_0000nat + r1) * 0x1_0000_0000nat);
        vstd::arithmetic::div_mod::lemma_mod_multiples_basic(
            (r0 * 0x1_0000_0000_0000_0000_0000_0000_0000nat + r1) as int, pow2(32) as int);
    }
    lemma_bitor_disjoint(ts, s, 32);
    lemma_bitor_comm(s, ts);
    let p = s + ts;
    assert(pack_reserves(r0, r1, ts) == p);
    assert(p / pow2(144) == r0);
    assert(p / pow2(32) == r0 * 0x1_0000_0000_0000_0000_0000_0000_0000nat + r1);
    assert(p % pow2(32) == ts);
    vstd::arithmetic::div_mod::lemma_fundamental_div_mod_converse(
        (r0 * 0x1_0000_0000_0000_0000_0000_0000_0000nat + r1) as int,
        0x1_0000_0000_0000_0000_0000_0000_0000int,
        r0 as int,
        r1 as int,
    );
    vstd::arithmetic::div_mod::lemma_small_mod(r0, pow2(112));
}

/// Moving shares keeps them: for different accounts the two balances add up to what they did
/// before, a transfer to oneself changes nothing, and every other balance stays.
pub proof fn lemma_transfer_keeps_shares(
    b: spec_fn(Seq<u8>) -> nat,
    from: Seq<u8>,
    to: Seq<u8>,
    value: nat,
    other: Seq<u8>,
)
    requires
        value <= b(from),
        b(from) < word_modulus(),
        from != to ==> b(from) + b(to) < word_modulus(),
    ensures
        from != to ==> transfer_balances(b, from, to, value)(from) + transfer_balances(b, from, to, value)(to)
            == b(from) + b(to),
        from == to ==> transfer_balances(b, from, to, value)(from) == b(from),
        other != from && other != to ==> transfer_balances(b, from, to, value)(other) == b(other),
{
    if from == to {
        vstd::arithmetic::div_mod::lemma_small_mod(b(from), word_modulus());
    } else {
        vstd::arithmetic::div_mod::lemma_small_mod(b(to) + value, word_modulus());
    }
}

/// A swap that its second half accepts never lowers the product of the reserves: the new
/// balances multiply to at least what the old reserves did, where no product wraps around
/// 2^256 and the amounts out are below the reserves (as the first half checks).
pub proof fn lemma_swap_keeps_product(r0: nat, r1: nat, out0: nat, out1: nat, b0: nat, b1: nat)
    requires
        out0 < r0,
        out1 < r1,
        b0 * 1000 < word_modulus(),
        b1 * 1000 < word_modulus(),
        (b0 * 1000) * (b1 * 1000) < word_modulus(),
        r0 * r1 * 1000000 < word_modulus(),
        swap_error(r0, r1, out0, out1, b0, b1) is None,
    ensures
        b0 * b1 >= r0 * r1,
{
    let m = word_modulus();
    assert(r0 <= r0 * r1 * 1000000 && r1 <= r0 * r1 * 1000000) by (nonlinear_arith)
        requires
            r0 >= 1,
            r1 >= 1;
    vstd::arithmetic::div_mod::lemma_small_mod((r0 - out0) as nat, m);
    vstd::arithmetic::div_mod::lemma_small_mod((r1 - out1) as nat, m);
    let in0 = amount_in(b0, r0, out0);
    let in1 = amount_in(b1, r1, out1);
    if b0 > r0 - out0 {
        vstd::arithmetic::div_mod::lemma_small_mod((b0 - (r0 - out0)) as nat, m);
    }
    if b1 > r1 - out1 {
        vstd::arithmetic::div_mod::lemma_small_mod((b1 - (r1 - out1)) as nat, m);
    }
    assert(in0 <= b0 && in1 <= b1);
    vstd::arithmetic::div_mod::lemma_small_mod(b0 * 1000, m);
    vstd::arithmetic::div_mod::lemma_small_mod(b1 * 1000, m);
    vstd::arithmetic::div_mod::lemma_small_mod(in0 * 3, m);
    vstd::arithmetic::div_mod::lemma_small_mod(in1 * 3, m);
    let adj0 = (b0 * 1000 - in0 * 3) as nat;
    let adj1 = (b1 * 1000 - in1 * 3) as nat;
    vstd::arithmetic::div_mod::lemma_small_mod(adj0, m);
    vstd::arithmetic::div_mod::lemma_small_mod(adj1, m);
    assert(wsub(wmul(b0, 1000), wmul(in0, 3)) == adj0);
    assert(wsub(wmul(b1, 1000), wmul(in1, 3)) == adj1);
    assert(adj0 * adj1 <= (b0 * 1000) * (b1 * 1000)) by (nonlinear_arith)
        requires
            adj0 <= b0 * 1000,
            adj1 <= b1 * 1000;
    vstd::arithmetic::div_mod::lemma_small_mod(adj0 * adj1, m);
    assert(r0 * r1 <= r0 * r1 * 1000000) by (nonlinear_arith);
    assert(r0 * r1 * 1000 <= r0 * r1 * 1000000) by (nonlinear_arith);
    vstd::arithmetic::div_mod::lemma_small_mod(r0 * r1, m);
    vstd::arithmetic::div_mod::lemma_small_mod(r0 * r1 * 1000, m);
    vstd::arithmetic::div_mod::lemma_small_mod(r0 * r1 * 1000 * 1000, m);
    assert(wmul(wmul(wmul(r0, r1), 1000), 1000) == r0 * r1 * 1000000) by (nonlinear_arith)
        requires
            wmul(r0, r1) == r0 * r1,
            wmul(r0 * r1, 1000) == r0 * r1 * 1000,
            wmul(r0 * r1 * 1000, 1000) == r0 * r1 * 1000 * 1000;
    assert(adj0 * adj1 >= r0 * r1 * 1000000);
    assert(b0 * b1 >= r0 * r1) by (nonlinear_arith)
        requires
            adj0 * adj1 >= r0 * r1 * 1000000,
            adj0 * adj1 <= (b0 * 1000) * (b1 * 1000);
}


/// The tokens a swap takes in of one token: what its balance holds above what the reserve
/// keeps after the payout (exact arithmetic).
pub open spec fn exact_amount_in(balance: nat, reserve: nat, out: nat) -> int {
    if balance > reserve - out {
        balance - (reserve - out)
    } else {
        0
    }
}

/// When a whole swap succeeds, in Uniswap V2's terms: the lock is free, something is asked
/// for, each amount out is below its reserve, the recipient is neither token, something was
/// paid in, and the balances less a 0.3% fee on what was paid in keep the product of the
/// reserves.
pub open spec fn swap_succeeds(o: PairSlots, out0: nat, out1: nat, to: Seq<u8>, b0: nat, b1: nat) -> bool {
    let r0 = unpack_reserves(o.reserves).0;
    let r1 = unpack_reserves(o.reserves).1;
    let in0 = exact_amount_in(b0, r0, out0);
    let in1 = exact_amount_in(b1, r1, out1);
    &&& o.unlocked == 1
    &&& out0 > 0 || out1 > 0
    &&& out0 < r0 && out1 < r1
    &&& to != word_address(o.token0) && to != word_address(o.token1)
    &&& in0 > 0 || in1 > 0
    &&& (b0 * 1000 - in0 * 3) * (b1 * 1000 - in1 * 3) >= r0 * r1 * 1000 * 1000
}

/// The two halves of a swap together accept exactly the swaps Uniswap V2 accepts, for token
/// balances that fit the 112-bit reserves.
pub proof fn lemma_swap_halves_accept(o: PairSlots, out0: nat, out1: nat, to: Seq<u8>, b0: nat, b1: nat)
    requires
        b0 < 0x1_0000_0000_0000_0000_0000_0000_0000nat,
        b1 < 0x1_0000_0000_0000_0000_0000_0000_0000nat,
    ensures
        (swap_begin_error(o, out0, out1, to) is None
            && swap_error(unpack_reserves(o.reserves).0, unpack_reserves(o.reserves).1, out0, out1, b0, b1) is None)
            <==> swap_succeeds(o, out0, out1, to, b0, b1),
{
    lemma_pow2_values();
    let rs = unpack_reserves(o.reserves);
    let r0 = rs.0;
    let r1 = rs.1;
    let m = word_modulus();
    let p112 = 0x1_0000_0000_0000_0000_0000_0000_0000nat;
    assert(r0 < p112 && r1 < p112);
    if swap_begin_error(o, out0, out1, to) is None {
        vstd::arithmetic::div_mod::lemma_small_mod((r0 - out0) as nat, m);
        vstd::arithmetic::div_mod::lemma_small_mod((r1 - out1) as nat, m);
        let in0 = amount_in(b0, r0, out0);
        let in1 = amount_in(b1, r1, out1);
        if b0 > r0 - out0 {
            vstd::arithmetic::div_mod::lemma_small_mod((b0 - (r0 - out0)) as nat, m);
        }
        if b1 > r1 - out1 {
            vstd::arithmetic::div_mod::lemma_small_mod((b1 - (r1 - out1)) as nat, m);
        }
        assert(in0 == exact_amount_in(b0, r0, out0) && in1 == exact_amount_in(b1, r1, out1));
        assert(in0 <= b0 && in1 <= b1);
        vstd::arithmetic::div_mod::lemma_small_mod(b0 * 1000, m);
        vstd::arithmetic::div_mod::lemma_small_mod(b1 * 1000, m);
        vstd::arithmetic::div_mod::lemma_small_mod(in0 * 3, m);
        vstd::arithmetic::div_mod::lemma_small_mod(in1 * 3, m);
        let adj0 = (b0 * 1000 - in0 * 3) as nat;
        let adj1 = (b1 * 1000 - in1 * 3) as nat;
        vstd::arithmetic::div_mod::lemma_small_mod(adj0, m);
        vstd::arithmetic::div_mod::lemma_small_mod(adj1, m);
        assert(wsub(wmul(b0, 1000), wmul(in0, 3)) == adj0);
        assert(wsub(wmul(b1, 1000), wmul(in1, 3)) == adj1);
        assert(adj0 * adj1 < m) by (nonlinear_arith)
            requires
                adj0 <= b0 * 1000,
                adj1 <= b1 * 1000,
                b0 < p112,
                b1 < p112,
                p112 == 0x1_0000_0000_0000_0000_0000_0000_0000nat,
                m == word_modulus();
        vstd::arithmetic::div_mod::lemma_small_mod(adj0 * adj1, m);
        assert(r0 * r1 * 1000 * 1000 < m && r0 * r1 < m && r0 * r1 * 1000 < m) by (nonlinear_arith)
            requires
                r0 < p112,
                r1 < p112,
                p112 == 0x1_0000_0000_0000_0000_0000_0000_0000nat,
                m == word_modulus();
        vstd::arithmetic::div_mod::lemma_small_mod(r0 * r1, m);
        vstd::arithmetic::div_mod::lemma_small_mod(r0 * r1 * 1000, m);
        vstd::arithmetic::div_mod::lemma_small_mod(r0 * r1 * 1000 * 1000, m);
        assert(wmul(wmul(wmul(r0, r1), 1000), 1000) == r0 * r1 * 1000 * 1000);
        assert(b0 < two_pow_128() && b1 < two_pow_128());
    }
}

/// The reentrancy lock: while a pair's lock is taken, every operation that takes it refuses
/// with `Locked` and changes nothing: taking the lock (which `mint`, `burn`, `skim` and `sync`
/// begin with) and the first half of `swap`; `initialize` and calls through `call_local`
/// refuse alike by their contracts. A call that took the lock is refused so by any call that
/// reaches the pair again before it frees it.
pub proof fn lemma_locked_pair_refuses(o: PairSlots, out0: nat, out1: nat, to: Seq<u8>)
    requires
        o.unlocked != 1,
    ensures
        take_lock_result(o) == Err::<PairSlots, PairError>(PairError::Locked),
        swap_begin_error(o, out0, out1, to) == Some(PairError::Locked),
{
}

/// Taking the lock succeeds exactly when it is free, and a second take before it is freed
/// is refused.
pub proof fn lemma_lock_taken_once(o: PairSlots)
    ensures
        take_lock_result(o) is Ok <==> o.unlocked == 1,
        take_lock_result(o) matches Ok(s) ==> take_lock_result(s) == Err::<PairSlots, PairError>(PairError::Locked),
{
}

/// Minting issues no more than either deposit is worth: once shares exist, the liquidity
/// issued is the smaller of `amount_i * totalSupply / reserve_i` over both tokens (each amount
/// being what the balance holds above its reserve), so it never exceeds the proportional
/// share of either deposit. The first mint issues the integer square root of the product of
/// the two amounts, less `MINIMUM_LIQUIDITY`.
pub proof fn lemma_mint_issues_the_smaller_share(reserves: nat, total_supply: nat, balance0: nat, balance1: nat)
    ensures
        ({
            let r0 = unpack_reserves(reserves).0;
            let r1 = unpack_reserves(reserves).1;
            let a0 = wsub(balance0, r0);
            let a1 = wsub(balance1, r1);
            mint_result(reserves, total_supply, balance0, balance1) matches Ok(liq) ==> if total_supply > 0 {
                &&& r0 > 0 && r1 > 0
                &&& liq <= wmul(a0, total_supply) / r0
                &&& liq <= wmul(a1, total_supply) / r1
                &&& (liq == wmul(a0, total_supply) / r0 || liq == wmul(a1, total_supply) / r1)
            } else {
                &&& (liq + MINIMUM_LIQUIDITY) * (liq + MINIMUM_LIQUIDITY) <= wmul(a0, a1)
                &&& wmul(a0, a1) < (liq + MINIMUM_LIQUIDITY + 1) * (liq + MINIMUM_LIQUIDITY + 1)
            }
        }),
{
    let r0 = unpack_reserves(reserves).0;
    let r1 = unpack_reserves(reserves).1;
    let a0 = wsub(balance0, r0);
    let a1 = wsub(balance1, r1);
    lemma_isqrt(wmul(a0, a1));
}

/// A mint credits exactly the shares it issues: the recipient's balance grows by `liq`, the
/// total supply by `liq` (and by `MINIMUM_LIQUIDITY` more on the first mint, which the zero
/// address holds), every other balance is kept, the reserves become the balances at time
/// `now` and the lock is freed; nothing wraps while the supply stays below 2^256.
pub proof fn lemma_mint_credits_what_it_issues(o: PairSlots, to: Seq<u8>, b0: nat, b1: nat, now: nat, liq: nat, other: Seq<u8>)
    requires
        o.total_supply + liq + MINIMUM_LIQUIDITY < word_modulus(),
        (o.balance)(to) + liq + MINIMUM_LIQUIDITY < word_modulus(),
        to != zeros(20),
    ensures
        ({
            let s = minted(o, to, b0, b1, now, liq);
            &&& (s.balance)(to) == (o.balance)(to) + liq
            &&& o.total_supply > 0 ==> s.total_supply == o.total_supply + liq
            &&& o.total_supply == 0 ==> s.total_supply == MINIMUM_LIQUIDITY + liq
                && (s.balance)(zeros(20)) == MINIMUM_LIQUIDITY
            &&& other != to && (o.total_supply > 0 || other != zeros(20)) ==> (s.balance)(other) == (o.balance)(other)
            &&& s.reserves == pack_reserves(b0, b1, now)
            &&& s.unlocked == 1
            &&& s.token0 == o.token0 && s.token1 == o.token1 && s.allowance == o.allowance
        }),
{
    vstd::arithmetic::div_mod::lemma_small_mod(o.total_supply + liq, word_modulus());
    vstd::arithmetic::div_mod::lemma_small_mod((o.balance)(to) + liq, word_modulus());
}

/// A burn pays out no more than the pair holds: with at most the total supply burned and no
/// product wrapping, each amount is the burned share of that token's balance, at most the
/// whole balance; the burned shares leave the pair's balance and the total supply.
pub proof fn lemma_burn_pays_a_share(o: PairSlots, pair: Seq<u8>, b0: nat, b1: nat)
    requires
        (o.balance)(pair) <= o.total_supply,
        o.total_supply < word_modulus(),
        (o.balance)(pair) * b0 < word_modulus(),
        (o.balance)(pair) * b1 < word_modulus(),
    ensures
        burn_result((o.balance)(pair), o.total_supply, b0, b1) matches Ok(amounts) ==> {
            let liq = (o.balance)(pair);
            &&& amounts.0 == liq * b0 / o.total_supply && amounts.0 <= b0
            &&& amounts.1 == liq * b1 / o.total_supply && amounts.1 <= b1
            &&& burned(o, pair).total_supply == o.total_supply - liq
            &&& (burned(o, pair).balance)(pair) == 0
        },
{
    let liq = (o.balance)(pair);
    if burn_result(liq, o.total_supply, b0, b1) is Ok {
        vstd::arithmetic::div_mod::lemma_small_mod(liq * b0, word_modulus());
        vstd::arithmetic::div_mod::lemma_small_mod(liq * b1, word_modulus());
        vstd::arithmetic::div_mod::lemma_small_mod((o.total_supply - liq) as nat, word_modulus());
        let t = o.total_supply;
        assert(liq * b0 / t <= b0) by (nonlinear_arith)
            requires liq <= t, t > 0;
        assert(liq * b1 / t <= b1) by (nonlinear_arith)
            requires liq <= t, t > 0;
    }
}

} // verus!
