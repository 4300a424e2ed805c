//! The mutating pair calls that reach the tokens, as steps between the host's outside calls:
//! each step says what the pair asks of the host next (its token balances, a token transfer,
//! the block time) or how the call ends. The lock is taken before the first outside call and
//! held until the call returns; a call that reverts is undone by the host.

use vstd::prelude::*;
use crate::word::U256;
use crate::bytes::{Address, be_bytes};
use crate::abi::{has_args, arg_address, encode_u256, encode_u256_words};
use crate::pair::{
    PairState, PairSlots, PairError, unpack_reserves, swap_begin_error, swap_error, mint_result, burn_result,
    minted, burned, settled, wsub, two_pow_128, take_lock_result,
};
use crate::pair_calls::{PairFunction, arg_addr, arg_num, swap_data, decode_swap_args};

verus! {

/// What a pair call asks of the host.
#[derive(Clone, Copy, Debug, PartialEq, Eq)]
pub enum PairRequest {
    /// The pair's balance of each token: `balanceOf(pair)` on token0, then on token1.
    Balances,
    /// `transfer(to, value)` on token0 (`first`) or on token1.
    Transfer { first: bool, to: Address, value: U256 },
    /// The block timestamp.
    Now,
}

/// The host's answer to a request. A failed token call or a timestamp beyond 32 bits ends
/// the call on the host's side.
#[derive(Clone, Copy, Debug, PartialEq, Eq)]
pub enum PairReply {
    Balances(U256, U256),
    Transferred,
    Now(u32),
}

/// Where a pair call stands while it waits on the host, with what it has learned so far.
#[derive(Clone, Copy, Debug, PartialEq, Eq)]
pub enum PairStage {
    MintBalances { to: Address },
    MintNow { to: Address, b0: U256, b1: U256 },
    BurnBalances { to: Address },
    BurnPaid0 { to: Address, a0: U256, a1: U256 },
    BurnPaid1 { a0: U256, a1: U256 },
    BurnSettle { a0: U256, a1: U256 },
    BurnNow { a0: U256, a1: U256, b0: U256, b1: U256 },
    SwapPaid0 { out0: U256, out1: U256, to: Address },
    SwapPaid1 { out0: U256, out1: U256 },
    SwapBalances { out0: U256, out1: U256 },
    SwapNow { out0: U256, out1: U256, b0: U256, b1: U256 },
    SkimBalances { to: Address },
    SkimPaid0 { to: Address, e1: U256 },
    SkimPaid1,
    SyncBalances,
}

/// The next step of a pair call: a request and the stage that waits on its answer, or how
/// the call ends.
#[derive(Clone, Debug, PartialEq, Eq)]
pub enum PairStep {
    Ask(PairRequest, PairStage),
    Return(Vec<u8>),
    Revert(PairError),
}

/// Whether `reply` answers the request a call at `stage` waits on.
pub open spec fn reply_fits(stage: PairStage, reply: PairReply) -> bool {
    match stage {
        PairStage::MintBalances { .. } | PairStage::BurnBalances { .. } | PairStage::BurnSettle { .. }
        | PairStage::SwapBalances { .. } | PairStage::SkimBalances { .. } | PairStage::SyncBalances => reply is Balances,
        PairStage::MintNow { .. } | PairStage::BurnNow { .. } | PairStage::SwapNow { .. } => reply is Now,
        _ => reply is Transferred,
    }
}

/// Whether `reply` answers the request a call at `stage` waits on.
pub fn fits(stage: &PairStage, reply: &PairReply) -> (r: bool)
    ensures
        r == reply_fits(*stage, *reply),
{
    match stage {
        PairStage::MintBalances { .. } | PairStage::BurnBalances { .. } | PairStage::BurnSettle { .. }
        | PairStage::SwapBalances { .. } | PairStage::SkimBalances { .. } | PairStage::SyncBalances => {
            match reply {
                PairReply::Balances(_, _) => true,
                _ => false,
            }
        },
        PairStage::MintNow { .. } | PairStage::BurnNow { .. } | PairStage::SwapNow { .. } => {
            match reply {
                PairReply::Now(_) => true,
                _ => false,
            }
        },
        _ => match reply {
            PairReply::Transferred => true,
            _ => false,
        },
    }
}

/// Whether `req` is a transfer of `value` of token0 (`first`) or token1 to `to`.
pub open spec fn is_transfer(req: PairRequest, first: bool, to: Seq<u8>, value: nat) -> bool {
    req matches PairRequest::Transfer { first: f, to: t, value: v } && f == first && t@ == to && v@ == value
}

/// A swap's step once token0 was paid out (or nothing of it was asked): pay out token1 if
/// any of it is asked, else read the balances.
pub open spec fn after_token0_paid(r: PairStep, out0: U256, out1: U256, to: Address) -> bool {
    if out1@ != 0 {
        r matches PairStep::Ask(req, PairStage::SwapPaid1 { out0: x, out1: y })
            && is_transfer(req, false, to@, out1@) && x == out0 && y == out1
    } else {
        r == PairStep::Ask(PairRequest::Balances, PairStage::SwapBalances { out0, out1 })
    }
}

/// The stage that waits on the pair's balances for `f`, paying out to `to`.
pub open spec fn balances_stage(f: PairFunction, to: Address) -> PairStage {
    match f {
        PairFunction::Mint => PairStage::MintBalances { to },
        PairFunction::Burn => PairStage::BurnBalances { to },
        PairFunction::Skim => PairStage::SkimBalances { to },
        _ => PairStage::SyncBalances,
    }
}

/// What one step of a call waiting at `stage` does, given the host's `reply`: `o` and `s`
/// are the pair's slots before and after, `pair` its own address, `r` the next step. Mint,
/// burn, swap and sync end as `mint`, `burn_finish`, `swap_finish` and `sync` decide; burn
/// pays out what `burn_begin` computes and skim what the balances hold above the reserves.
pub open spec fn resumed(o: PairSlots, s: PairSlots, stage: PairStage, reply: PairReply, pair: Seq<u8>, r: PairStep) -> bool {
    let rs = unpack_reserves(o.reserves);
    match stage {
        PairStage::MintBalances { to } => match reply {
            PairReply::Balances(b0, b1) => r == PairStep::Ask(PairRequest::Now, PairStage::MintNow { to, b0, b1 }) && s == o,
            _ => true,
        },
        PairStage::MintNow { to, b0, b1 } => match reply {
            PairReply::Now(t) => match mint_result(o.reserves, o.total_supply, b0@, b1@) {
                Ok(liq) => (r matches PairStep::Return(v) && v@ == be_bytes(liq, 32)) && s == minted(o, to@, b0@, b1@, t as nat, liq),
                Err(e) => r == PairStep::Revert(e) && s == o,
            },
            _ => true,
        },
        PairStage::BurnBalances { to } => match reply {
            PairReply::Balances(b0, b1) => match burn_result((o.balance)(pair), o.total_supply, b0@, b1@) {
                Ok(amounts) => (r matches PairStep::Ask(req, PairStage::BurnPaid0 { to: t, a0, a1 })
                    && is_transfer(req, true, to@, amounts.0) && t == to && a0@ == amounts.0 && a1@ == amounts.1)
                    && s == burned(o, pair),
                Err(e) => r == PairStep::Revert(e) && s == o,
            },
            _ => true,
        },
        PairStage::BurnPaid0 { to, a0, a1 } =>
            r == PairStep::Ask(PairRequest::Transfer { first: false, to, value: a1 }, PairStage::BurnPaid1 { a0, a1 }) && s == o,
        PairStage::BurnPaid1 { a0, a1 } => r == PairStep::Ask(PairRequest::Balances, PairStage::BurnSettle { a0, a1 }) && s == o,
        PairStage::BurnSettle { a0, a1 } => match reply {
            PairReply::Balances(b0, b1) => r == PairStep::Ask(PairRequest::Now, PairStage::BurnNow { a0, a1, b0, b1 }) && s == o,
            _ => true,
        },
        PairStage::BurnNow { a0, a1, b0, b1 } => match reply {
            PairReply::Now(t) => if b0@ < two_pow_128() && b1@ < two_pow_128() {
                (r matches PairStep::Return(v) && v@ == be_bytes(a0@, 32) + be_bytes(a1@, 32)) && s == settled(o, b0@, b1@, t as nat)
            } else {
                r == PairStep::Revert(PairError::ReserveOverflow) && s == o
            },
            _ => true,
        },
        PairStage::SwapPaid0 { out0, out1, to } => after_token0_paid(r, out0, out1, to) && s == o,
        PairStage::SwapPaid1 { out0, out1 } => r == PairStep::Ask(PairRequest::Balances, PairStage::SwapBalances { out0, out1 }) && s == o,
        PairStage::SwapBalances { out0, out1 } => match reply {
            PairReply::Balances(b0, b1) => r == PairStep::Ask(PairRequest::Now, PairStage::SwapNow { out0, out1, b0, b1 }) && s == o,
            _ => true,
        },
        PairStage::SwapNow { out0, out1, b0, b1 } => match reply {
            PairReply::Now(t) => match swap_error(rs.0, rs.1, out0@, out1@, b0@, b1@) {
                Some(e) => r == PairStep::Revert(e) && s == o,
                None => (r matches PairStep::Return(v) && v@.len() == 0) && s == settled(o, b0@, b1@, t as nat),
            },
            _ => true,
        },
        PairStage::SkimBalances { to } => match reply {
            PairReply::Balances(b0, b1) => (r matches PairStep::Ask(req, PairStage::SkimPaid0 { to: t, e1 })
                && is_transfer(req, true, to@, wsub(b0@, rs.0)) && t == to && e1@ == wsub(b1@, rs.1)) && s == o,
            _ => true,
        },
        PairStage::SkimPaid0 { to, e1 } =>
            r == PairStep::Ask(PairRequest::Transfer { first: false, to, value: e1 }, PairStage::SkimPaid1) && s == o,
        PairStage::SkimPaid1 => (r matches PairStep::Return(v) && v@.len() == 0) && s == (PairSlots { unlocked: 1, ..o }),
        PairStage::SyncBalances => match reply {
            PairReply::Balances(b0, b1) => if b0@ < two_pow_128() && b1@ < two_pow_128() {
                (r matches PairStep::Return(v) && v@.len() == 0) && s == settled(o, b0@, b1@, rs.2)
            } else {
                r == PairStep::Revert(PairError::ReserveOverflow) && s == o
            },
            _ => true,
        },
    }
}

/// A swap's step once token0 was paid out (or nothing of it was asked).
fn token0_paid(out0: U256, out1: U256, to: Address) -> (r: PairStep)
    ensures
        after_token0_paid(r, out0, out1, to),
{
    if !out1.is_zero() {
        PairStep::Ask(PairRequest::Transfer { first: false, to, value: out1 }, PairStage::SwapPaid1 { out0, out1 })
    } else {
        PairStep::Ask(PairRequest::Balances, PairStage::SwapBalances { out0, out1 })
    }
}

impl PairState {
    /// The first step of a call of `f` (`mint`, `burn`, `swap`, `skim` or `sync`) that the pair
    /// could not answer by itself: the lock is taken (for `swap`, with the request checked),
    /// and the pair asks for its balances, or, for `swap`, pays out what is asked. A request
    /// that cannot go on reverts with nothing changed.
    pub fn begin_call(&mut self, f: PairFunction, calldata: &[u8]) -> (r: PairStep)
        ensures
            ({
                let o = old(self)@;
                let d = calldata@;
                match f {
                    PairFunction::Mint | PairFunction::Burn | PairFunction::Skim | PairFunction::Sync => {
                        if f != PairFunction::Sync && !has_args(d, 1) {
                            r == PairStep::Revert(PairError::BadCalldata) && final(self)@ == o
                        } else if o.unlocked != 1 {
                            r == PairStep::Revert(PairError::Locked) && final(self)@ == o
                        } else {
                            &&& r matches PairStep::Ask(PairRequest::Balances, stage)
                                && (f == PairFunction::Sync ==> stage == PairStage::SyncBalances)
                                && (f != PairFunction::Sync ==> exists|to: Address| to@ == arg_addr(d, 0) && stage == balances_stage(f, to))
                            &&& final(self)@ == (PairSlots { unlocked: 0, ..o })
                        }
                    },
                    PairFunction::Swap => {
                        if !has_args(d, 4) || swap_data(d) is None {
                            r == PairStep::Revert(PairError::BadCalldata) && final(self)@ == o
                        } else {
                            match swap_begin_error(o, arg_num(d, 0), arg_num(d, 1), arg_addr(d, 2)) {
                                Some(e) => r == PairStep::Revert(e) && final(self)@ == o,
                                None => {
                                    &&& final(self)@ == (PairSlots { unlocked: 0, ..o })
                                    &&& arg_num(d, 0) != 0 ==> (r matches PairStep::Ask(req, PairStage::SwapPaid0 { out0, out1, to })
                                        && is_transfer(req, true, arg_addr(d, 2), arg_num(d, 0))
                                        && out0@ == arg_num(d, 0) && out1@ == arg_num(d, 1) && to@ == arg_addr(d, 2))
                                    &&& arg_num(d, 0) == 0 ==> exists|out0: U256, out1: U256, to: Address|
                                        out0@ == 0 && out1@ == arg_num(d, 1) && to@ == arg_addr(d, 2)
                                        && after_token0_paid(r, out0, out1, to)
                                },
                            }
                        }
                    },
                    _ => r == PairStep::Revert(PairError::UnknownFunction) && final(self)@ == o,
                }
            }),
    {
        match f {
            PairFunction::Mint | PairFunction::Burn | PairFunction::Skim | PairFunction::Sync => {
                let mut to: Address = [0u8; 20];
                if !matches!(f, PairFunction::Sync) {
                    if calldata.len() < 36 {
                        return PairStep::Revert(PairError::BadCalldata);
                    }
                    to = arg_address(calldata, 0);
                }
                match self.take_lock() {
                    Err(e) => { return PairStep::Revert(e); },
                    Ok(()) => {},
                }
                let stage = match f {
                    PairFunction::Mint => PairStage::MintBalances { to },
                    PairFunction::Burn => PairStage::BurnBalances { to },
                    PairFunction::Skim => PairStage::SkimBalances { to },
                    _ => PairStage::SyncBalances,
                };
                PairStep::Ask(PairRequest::Balances, stage)
            },
            PairFunction::Swap => {
                let args = match decode_swap_args(calldata) {
                    Some(args) => args,
                    None => { return PairStep::Revert(PairError::BadCalldata); },
                };
                match self.swap_begin(args.amount0_out, args.amount1_out, &args.to) {
                    Err(e) => { return PairStep::Revert(e); },
                    Ok(()) => {},
                }
                if !args.amount0_out.is_zero() {
                    PairStep::Ask(
                        PairRequest::Transfer { first: true, to: args.to, value: args.amount0_out },
                        PairStage::SwapPaid0 { out0: args.amount0_out, out1: args.amount1_out, to: args.to },
                    )
                } else {
                    token0_paid(args.amount0_out, args.amount1_out, args.to)
                }
            },
            _ => PairStep::Revert(PairError::UnknownFunction),
        }
    }

    /// The next step of a call waiting at `stage`, given the host's answer to what it asked;
    /// `pair` is the pair's own address. The lock stays taken while the call goes on.
    pub fn resume(&mut self, stage: PairStage, reply: PairReply, pair: &Address) -> (r: PairStep)
        requires
            old(self)@.unlocked == 0,
            reply_fits(stage, reply),
        ensures
            resumed(old(self)@, final(self)@, stage, reply, pair@, r),
    {
        match (stage, reply) {
            (PairStage::MintBalances { to }, PairReply::Balances(b0, b1)) =>
                PairStep::Ask(PairRequest::Now, PairStage::MintNow { to, b0, b1 }),
            (PairStage::MintNow { to, b0, b1 }, PairReply::Now(t)) => match self.mint(&to, b0, b1, t) {
                Ok(liquidity) => PairStep::Return(encode_u256(liquidity)),
                Err(e) => PairStep::Revert(e),
            },
            (PairStage::BurnBalances { to }, PairReply::Balances(b0, b1)) => match self.burn_begin(pair, b0, b1) {
                Ok((a0, a1)) => PairStep::Ask(
                    PairRequest::Transfer { first: true, to, value: a0 },
                    PairStage::BurnPaid0 { to, a0, a1 },
                ),
                Err(e) => PairStep::Revert(e),
            },
            (PairStage::BurnPaid0 { to, a0, a1 }, _) =>
                PairStep::Ask(PairRequest::Transfer { first: false, to, value: a1 }, PairStage::BurnPaid1 { a0, a1 }),
            (PairStage::BurnPaid1 { a0, a1 }, _) => PairStep::Ask(PairRequest::Balances, PairStage::BurnSettle { a0, a1 }),
            (PairStage::BurnSettle { a0, a1 }, PairReply::Balances(b0, b1)) =>
                PairStep::Ask(PairRequest::Now, PairStage::BurnNow { a0, a1, b0, b1 }),
            (PairStage::BurnNow { a0, a1, b0, b1 }, PairReply::Now(t)) => match self.burn_finish(b0, b1, t) {
                Ok(()) => {
                    let words = [a0, a1];
                    let out = encode_u256_words(words.as_slice());
                    proof {
                        assert(out@.subrange(32 * 0int, 32 * 0int + 32) == be_bytes(words@[0]@, 32));
                        assert(out@.subrange(32 * 1int, 32 * 1int + 32) == be_bytes(words@[1]@, 32));
                        assert(out@ =~= be_bytes(a0@, 32) + be_bytes(a1@, 32));
                    }
                    PairStep::Return(out)
                },
                Err(e) => PairStep::Revert(e),
            },
            (PairStage::SwapPaid0 { out0, out1, to }, _) => token0_paid(out0, out1, to),
            (PairStage::SwapPaid1 { out0, out1 }, _) => PairStep::Ask(PairRequest::Balances, PairStage::SwapBalances { out0, out1 }),
            (PairStage::SwapBalances { out0, out1 }, PairReply::Balances(b0, b1)) =>
                PairStep::Ask(PairRequest::Now, PairStage::SwapNow { out0, out1, b0, b1 }),
            (PairStage::SwapNow { out0, out1, b0, b1 }, PairReply::Now(t)) => match self.swap_finish(out0, out1, b0, b1, t) {
                Ok(()) => PairStep::Return(Vec::new()),
                Err(e) => PairStep::Revert(e),
            },
            (PairStage::SkimBalances { to }, PairReply::Balances(b0, b1)) => {
                let (e0, e1) = self.skim_amounts(b0, b1);
                PairStep::Ask(PairRequest::Transfer { first: true, to, value: e0 }, PairStage::SkimPaid0 { to, e1 })
            },
            (PairStage::SkimPaid0 { to, e1 }, _) =>
                PairStep::Ask(PairRequest::Transfer { first: false, to, value: e1 }, PairStage::SkimPaid1),
            (PairStage::SkimPaid1, _) => {
                self.release_lock();
                PairStep::Return(Vec::new())
            },
            (PairStage::SyncBalances, PairReply::Balances(b0, b1)) => match self.sync(b0, b1) {
                Ok(()) => PairStep::Return(Vec::new()),
                Err(e) => PairStep::Revert(e),
            },
            _ => PairStep::Revert(PairError::UnknownFunction),
        }
    }
}

/// While a call waits on the host the reentrancy lock stays taken: a step that asks the host
/// for something leaves it taken, so any call that reaches the pair meanwhile and takes the
/// lock is refused with `Locked`.
pub proof fn lemma_waiting_call_holds_lock(o: PairSlots, s: PairSlots, stage: PairStage, reply: PairReply, pair: Seq<u8>, r: PairStep)
    requires
        o.unlocked == 0,
        reply_fits(stage, reply),
        resumed(o, s, stage, reply, pair, r),
        r is Ask,
    ensures
        s.unlocked == 0,
        take_lock_result(s) == Err::<PairSlots, PairError>(PairError::Locked),
{
}

/// A call that returns frees the reentrancy lock, and a step that reverts changes nothing
/// (the host then restores what the call's earlier steps changed).
pub proof fn lemma_call_end_frees_lock(o: PairSlots, s: PairSlots, stage: PairStage, reply: PairReply, pair: Seq<u8>, r: PairStep)
    requires
        o.unlocked == 0,
        reply_fits(stage, reply),
        resumed(o, s, stage, reply, pair, r),
    ensures
        r is Return ==> s.unlocked == 1,
        r is Revert ==> s == o,
{
}

} // verus!
