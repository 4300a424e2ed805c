//! A Uniswap V2 style factory: creates one pair per unordered token pair and lists them.

use vstd::prelude::*;
use vstd::string::StringSliceAdditionalSpecFns;
use crate::word::{U256, be_value};
use crate::bytes::{Address, zeros, be_bytes, address_word_bytes, address_at, address_eq, address_is_zero, address_from_word, word_from_address, extend_bytes, extend_zeros, bytes32_at};
use crate::byte_map::ByteMap;
use crate::keccak::{selector, selector_of, has_selector};
use crate::abi::{has_args, arg_u256, arg_address, encode_u256, encode_address};
use crate::pair::{word_address, stored_address};
use crate::pair_calls::{arg_addr, arg_num};

verus! {

/// Whether `a` comes before `b` in byte order (first differing byte decides).
pub open spec fn lex_lt(a: Seq<u8>, b: Seq<u8>) -> bool
    decreases a.len(),
{
    if a.len() == 0 || b.len() == 0 {
        a.len() < b.len()
    } else if a[0] != b[0] {
        a[0] < b[0]
    } else {
        lex_lt(a.drop_first(), b.drop_first())
    }
}

/// Byte order is total on sequences of one length: of two different ones, one comes first.
pub proof fn lemma_lex_total(a: Seq<u8>, b: Seq<u8>)
    requires
        a.len() == b.len(),
        a != b,
    ensures
        lex_lt(a, b) || lex_lt(b, a),
    decreases a.len(),
{
    if a.len() == 0 {
        assert(a =~= b);
    }
    if a.len() > 0 && a[0] == b[0] {
        if a.drop_first() == b.drop_first() {
            assert(a =~= seq![a[0]] + a.drop_first());
            assert(b =~= seq![b[0]] + b.drop_first());
        }
        lemma_lex_total(a.drop_first(), b.drop_first());
    }
}

/// Byte order is asymmetric.
pub proof fn lemma_lex_asymmetric(a: Seq<u8>, b: Seq<u8>)
    ensures
        !(lex_lt(a, b) && lex_lt(b, a)),
    decreases a.len(),
{
    if a.len() > 0 && b.len() > 0 && a[0] == b[0] {
        lemma_lex_asymmetric(a.drop_first(), b.drop_first());
    }
}

/// Whether address `a` is below address `b`.
pub fn address_lt(a: &Address, b: &Address) -> (r: bool)
    ensures
        r == lex_lt(a@, b@),
{
    let mut i: usize = 0;
    proof {
        assert(a@.skip(0) =~= a@);
        assert(b@.skip(0) =~= b@);
    }
    while i < 20
        invariant
            i <= 20,
            lex_lt(a@, b@) == lex_lt(a@.skip(i as int), b@.skip(i as int)),
        decreases 20 - i,
    {
        proof {
            assert(a@.skip(i as int).drop_first() =~= a@.skip(i + 1));
            assert(b@.skip(i as int).drop_first() =~= b@.skip(i + 1));
        }
        if a[i] != b[i] {
            return a[i] < b[i];
        }
        i = i + 1;
    }
    false
}

/// Orders two token addresses: the lower one first.
pub fn sort_tokens(a: &Address, b: &Address) -> (r: (Address, Address))
    ensures
        lex_lt(a@, b@) ==> r.0@ == a@ && r.1@ == b@,
        !lex_lt(a@, b@) ==> r.0@ == b@ && r.1@ == a@,
{
    if address_lt(a, b) {
        (*a, *b)
    } else {
        (*b, *a)
    }
}

/// For two different tokens, the order they are given in does not change the sorted
/// pair, and the lower token comes first.
pub proof fn lemma_sort_tokens_symmetric(a: Seq<u8>, b: Seq<u8>)
    requires
        a.len() == 20,
        b.len() == 20,
        a != b,
    ensures
        lex_lt(a, b) <==> !lex_lt(b, a),
{
    lemma_lex_total(a, b);
    lemma_lex_asymmetric(a, b);
}

/// Whether a pair lookup gives the same pair for both orders of its tokens.
pub open spec fn pairs_symmetric(pair: spec_fn(Seq<u8>, Seq<u8>) -> Seq<u8>) -> bool {
    forall|a: Seq<u8>, b: Seq<u8>| #[trigger] pair(a, b) == pair(b, a)
}

/// Creating a pair keeps pair lookups symmetric: a factory's lookup starts symmetric (all
/// zero) and `create_pair_finish` records the new pair under both orders, so `getPair(a, b)`
/// and `getPair(b, a)` always agree.
pub proof fn lemma_create_pair_keeps_symmetry(
    pair: spec_fn(Seq<u8>, Seq<u8>) -> Seq<u8>,
    token0: Seq<u8>,
    token1: Seq<u8>,
    p: Seq<u8>,
)
    requires
        pairs_symmetric(pair),
    ensures
        pairs_symmetric(update_pair(update_pair(pair, token0, token1, p), token1, token0, p)),
        pairs_symmetric(|a: Seq<u8>, b: Seq<u8>| zeros(20)),
{
    let after = update_pair(update_pair(pair, token0, token1, p), token1, token0, p);
    assert forall|a: Seq<u8>, b: Seq<u8>| #[trigger] after(a, b) == after(b, a) by {
        assert(pair(a, b) == pair(b, a));
    }
}

/// The functions a factory answers, in the order their selectors are tried.
#[derive(Clone, Copy, Debug, PartialEq, Eq)]
pub enum FactoryFunction {
    FeeTo,
    FeeToSetter,
    GetPair,
    AllPairs,
    AllPairsLength,
    CreatePair,
    SetFeeTo,
    SetFeeToSetter,
}

/// The Solidity signature of a factory function.
pub open spec fn factory_signature_spec(f: FactoryFunction) -> &'static str {
    match f {
        FactoryFunction::FeeTo => "feeTo()",
        FactoryFunction::FeeToSetter => "feeToSetter()",
        FactoryFunction::GetPair => "getPair(address,address)",
        FactoryFunction::AllPairs => "allPairs(uint256)",
        FactoryFunction::AllPairsLength => "allPairsLength()",
        FactoryFunction::CreatePair => "createPair(address,address)",
        FactoryFunction::SetFeeTo => "setFeeTo(address)",
        FactoryFunction::SetFeeToSetter => "setFeeToSetter(address)",
    }
}

/// The Solidity signature of a factory function.
pub fn factory_signature(f: FactoryFunction) -> (r: &'static str)
    ensures
        r == factory_signature_spec(f),
{
    match f {
        FactoryFunction::FeeTo => "feeTo()",
        FactoryFunction::FeeToSetter => "feeToSetter()",
        FactoryFunction::GetPair => "getPair(address,address)",
        FactoryFunction::AllPairs => "allPairs(uint256)",
        FactoryFunction::AllPairsLength => "allPairsLength()",
        FactoryFunction::CreatePair => "createPair(address,address)",
        FactoryFunction::SetFeeTo => "setFeeTo(address)",
        FactoryFunction::SetFeeToSetter => "setFeeToSetter(address)",
    }
}

/// The factory functions in the order the dispatcher tries them.
pub open spec fn factory_functions() -> Seq<FactoryFunction> {
    seq![
        FactoryFunction::FeeTo, FactoryFunction::FeeToSetter, FactoryFunction::GetPair,
        FactoryFunction::AllPairs, FactoryFunction::AllPairsLength, FactoryFunction::CreatePair,
        FactoryFunction::SetFeeTo, FactoryFunction::SetFeeToSetter,
    ]
}

/// Whether calldata starts with the selector of `f`.
pub open spec fn factory_names(data: Seq<u8>, f: FactoryFunction) -> bool {
    data.len() >= 4 && data.subrange(0, 4) == selector_of(factory_signature_spec(f).spec_bytes())
}

/// The first function of `fs` whose selector starts the calldata.
pub open spec fn first_factory_named(data: Seq<u8>, fs: Seq<FactoryFunction>) -> Option<FactoryFunction>
    decreases fs.len(),
{
    if fs.len() == 0 {
        None
    } else if factory_names(data, fs[0]) {
        Some(fs[0])
    } else {
        first_factory_named(data, fs.drop_first())
    }
}

/// A function found by `first_factory_named` is named by the calldata.
pub proof fn lemma_first_factory_named(data: Seq<u8>, fs: Seq<FactoryFunction>)
    ensures
        first_factory_named(data, fs) matches Some(f) ==> factory_names(data, f),
    decreases fs.len(),
{
    if fs.len() > 0 && !factory_names(data, fs[0]) {
        lemma_first_factory_named(data, fs.drop_first());
    }
}

/// The function a factory call names; `None` (a revert) for calldata shorter than 4 bytes
/// or an unknown selector.
pub fn factory_function(calldata: &[u8]) -> (r: Option<FactoryFunction>)
    ensures
        r == first_factory_named(calldata@, factory_functions()),
{
    let fs = [
        FactoryFunction::FeeTo, FactoryFunction::FeeToSetter, FactoryFunction::GetPair,
        FactoryFunction::AllPairs, FactoryFunction::AllPairsLength, FactoryFunction::CreatePair,
        FactoryFunction::SetFeeTo, FactoryFunction::SetFeeToSetter,
    ];
    proof {
        assert(fs@ =~= factory_functions());
        assert(fs@.skip(0) =~= fs@);
    }
    let mut i: usize = 0;
    while i < 8
        invariant
            i <= 8,
            fs@ == factory_functions(),
            first_factory_named(calldata@, factory_functions()) == first_factory_named(calldata@, fs@.skip(i as int)),
        decreases 8 - i,
    {
        let f = fs[i];
        let sel = selector(factory_signature(f));
        proof {
            assert(fs@.skip(i as int)[0] == f);
            assert(fs@.skip(i as int).drop_first() =~= fs@.skip(i + 1));
        }
        if has_selector(calldata, &sel) {
            return Some(f);
        }
        i = i + 1;
    }
    proof {
        assert(fs@.skip(8).len() == 0);
    }
    None
}

/// The outcome of a factory call handled without reaching another contract.
#[derive(Debug)]
pub enum FactoryOutcome {
    /// The call returns this data.
    Return(Vec<u8>),
    /// The call fails; the state is unchanged.
    Failed(FactoryError),
    /// `createPair` passed its checks: the host instantiates and initializes the pair.
    CreatePair(CreatePairPlan),
}

/// Why a factory call failed. Every failure leaves the factory's state unchanged.
#[derive(Clone, Copy, Debug, PartialEq, Eq)]
pub enum FactoryError {
    /// `createPair` with the same token twice.
    IdenticalAddresses,
    /// `createPair` with the zero address as the lower token.
    ZeroAddress,
    /// `createPair` for a token pair that already has a pair.
    PairExists,
    /// `createPair` before the pair code hash was set.
    NoPairCode,
    /// A fee setting from an account other than the fee setter.
    Forbidden,
    /// Calldata whose arguments cannot be decoded.
    BadCalldata,
    /// Calldata naming no function of the factory.
    UnknownFunction,
    /// The host could not instantiate the new pair.
    InstantiateFailed,
    /// The new pair's `initialize` call failed.
    InitializeFailed,
}

/// The storage of a factory.
pub struct FactoryState {
    /// Slot 0: the fee recipient, as a word.
    pub fee_to: U256,
    /// Slot 1: the account allowed to change the fee settings, as a word.
    pub fee_to_setter: U256,
    /// Slot 2: the pair of each ordered token pair, keyed by token0 followed by token1.
    pub pairs: ByteMap<Address>,
    /// Slot 3: every pair created, in order.
    pub all_pairs: Vec<Address>,
    /// Slot 4: the code hash new pairs are instantiated from.
    pub pair_code_hash: [u8; 32],
}

/// The slots of a factory; a pair lookup reads the zero address where nothing is stored.
#[verifier::ext_equal]
pub struct FactorySlots {
    pub fee_to: nat,
    pub fee_to_setter: nat,
    pub pair: spec_fn(Seq<u8>, Seq<u8>) -> Seq<u8>,
    pub all_pairs: Seq<Seq<u8>>,
    pub pair_code_hash: Seq<u8>,
}

impl View for FactoryState {
    type V = FactorySlots;

    open spec fn view(&self) -> FactorySlots {
        FactorySlots {
            fee_to: self.fee_to@,
            fee_to_setter: self.fee_to_setter@,
            pair: |a: Seq<u8>, b: Seq<u8>|
                if a.len() == 20 && b.len() == 20 {
                    stored_address(self.pairs.view(), a + b)
                } else {
                    zeros(20)
                },
            all_pairs: self.all_pairs@.map_values(|p: Address| p@),
            pair_code_hash: self.pair_code_hash@,
        }
    }
}

/// `f` with the pair of `(a, b)` set to `p`.
pub open spec fn update_pair(f: spec_fn(Seq<u8>, Seq<u8>) -> Seq<u8>, a: Seq<u8>, b: Seq<u8>, p: Seq<u8>) -> spec_fn(Seq<u8>, Seq<u8>) -> Seq<u8> {
    |x: Seq<u8>, y: Seq<u8>| if x == a && y == b { p } else { f(x, y) }
}

/// The calldata for `initialize(token0, token1)` on a new pair.
pub open spec fn initialize_calldata(token0: Seq<u8>, token1: Seq<u8>) -> Seq<u8> {
    selector_of("initialize(address,address)".spec_bytes()) + zeros(12) + token0 + zeros(12) + token1
}

/// The calldata that initializes a new pair with its two tokens.
pub fn encode_initialize(token0: &Address, token1: &Address) -> (r: Vec<u8>)
    ensures
        r@ == initialize_calldata(token0@, token1@),
{
    let sel = selector("initialize(address,address)");
    let mut data: Vec<u8> = Vec::new();
    extend_bytes(&mut data, sel.as_slice());
    extend_zeros(&mut data, 12);
    extend_bytes(&mut data, token0.as_slice());
    extend_zeros(&mut data, 12);
    extend_bytes(&mut data, token1.as_slice());
    proof {
        assert(data@ =~= initialize_calldata(token0@, token1@));
    }
    data
}

/// What `createPair` hands the host: the sorted tokens and the code to instantiate.
#[derive(Debug)]
pub struct CreatePairPlan {
    pub token0: Address,
    pub token1: Address,
    pub code_hash: [u8; 32],
}

/// What `createPair` asks of the host next, or how the call ends.
#[derive(Debug)]
pub enum CreatePairAction {
    /// Call the new pair with `data` (its `initialize`), then answer with
    /// [`FactoryState::create_pair_initialized`].
    CallPair { pair: Address, data: Vec<u8> },
    /// The call returns `data`: the new pair's address as a word.
    Return(Vec<u8>),
    /// The call reverts; the factory is unchanged.
    Revert(FactoryError),
}

/// The factory's slots after a pair of `token0` and `token1` was created at `pair`: it is
/// recorded under both orders of the tokens and appended to the list of pairs.
pub open spec fn with_pair(o: FactorySlots, token0: Seq<u8>, token1: Seq<u8>, pair: Seq<u8>) -> FactorySlots {
    FactorySlots {
        pair: update_pair(update_pair(o.pair, token0, token1, pair), token1, token0, pair),
        all_pairs: o.all_pairs.push(pair),
        ..o
    }
}

/// A new pair is found under both orders of its tokens, and last in the list of pairs,
/// which grew by one; every other lookup and every earlier pair is kept.
pub proof fn lemma_created_pair_recorded(o: FactorySlots, token0: Seq<u8>, token1: Seq<u8>, pair: Seq<u8>, a: Seq<u8>, b: Seq<u8>)
    ensures
        (with_pair(o, token0, token1, pair).pair)(token0, token1) == pair,
        (with_pair(o, token0, token1, pair).pair)(token1, token0) == pair,
        with_pair(o, token0, token1, pair).all_pairs.len() == o.all_pairs.len() + 1,
        with_pair(o, token0, token1, pair).all_pairs[o.all_pairs.len() as int] == pair,
        forall|i: int| 0 <= i < o.all_pairs.len() ==> #[trigger] with_pair(o, token0, token1, pair).all_pairs[i] == o.all_pairs[i],
        !((a == token0 && b == token1) || (a == token1 && b == token0))
            ==> (with_pair(o, token0, token1, pair).pair)(a, b) == (o.pair)(a, b),
{
}

impl FactoryState {
    /// The state after deployment with the given constructor input: the fee setter from
    /// the first word and the pair code hash from the second; with fewer than 64 bytes of
    /// input nothing is stored.
    pub fn deploy(input: &[u8]) -> (r: FactoryState)
        ensures
            r@.fee_to == 0,
            r@.all_pairs == Seq::<Seq<u8>>::empty(),
            forall|a: Seq<u8>, b: Seq<u8>| #[trigger] (r@.pair)(a, b) == zeros(20),
            input@.len() < 64 ==> r@.fee_to_setter == 0 && r@.pair_code_hash == zeros(32),
            input@.len() >= 64 ==> r@.fee_to_setter == be_value(address_word_bytes(input@.subrange(12, 32)))
                && r@.pair_code_hash == input@.subrange(32, 64),
    {
        let zero_hash = [0u8; 32];
        proof {
            assert(zero_hash@ =~= zeros(32));
        }
        if input.len() < 64 {
            let r = FactoryState {
                fee_to: U256::zero(),
                fee_to_setter: U256::zero(),
                pairs: ByteMap::new(),
                all_pairs: Vec::new(),
                pair_code_hash: zero_hash,
            };
            proof { assert(r@.all_pairs =~= Seq::<Seq<u8>>::empty()); }
            return r;
        }
        let setter = address_at(input, 12);
        let hash = bytes32_at(input, 32);
        let r = FactoryState {
            fee_to: U256::zero(),
            fee_to_setter: word_from_address(&setter),
            pairs: ByteMap::new(),
            all_pairs: Vec::new(),
            pair_code_hash: hash,
        };
        proof { assert(r@.all_pairs =~= Seq::<Seq<u8>>::empty()); }
        r
    }

    /// The pair created for the ordered tokens `(token0, token1)`, or the zero address.
    pub fn get_pair_internal(&self, token0: &Address, token1: &Address) -> (r: Address)
        ensures
            r@ == (self@.pair)(token0@, token1@),
    {
        let mut key: Vec<u8> = Vec::new();
        extend_bytes(&mut key, token0.as_slice());
        extend_bytes(&mut key, token1.as_slice());
        match self.pairs.get(key.as_slice()) {
            Some(p) => p,
            None => {
                let z = [0u8; 20];
                proof { assert(z@ =~= zeros(20)); }
                z
            },
        }
    }

    /// Records `pair` for the ordered tokens `(token0, token1)`.
    fn set_pair(&mut self, token0: &Address, token1: &Address, pair: &Address)
        ensures
            final(self)@ == (FactorySlots { pair: update_pair(old(self)@.pair, token0@, token1@, pair@), ..old(self)@ }),
    {
        let mut key: Vec<u8> = Vec::new();
        extend_bytes(&mut key, token0.as_slice());
        extend_bytes(&mut key, token1.as_slice());
        self.pairs.insert(key, *pair);
        proof {
            assert forall|x: Seq<u8>, y: Seq<u8>| #[trigger] (self@.pair)(x, y)
                == (update_pair(old(self)@.pair, token0@, token1@, pair@))(x, y) by {
                if x.len() == 20 && y.len() == 20 && x + y == token0@ + token1@ {
                    assert(x =~= (x + y).subrange(0, 20));
                    assert(token0@ =~= (token0@ + token1@).subrange(0, 20));
                    assert(y =~= (x + y).subrange(20, 40));
                    assert(token1@ =~= (token0@ + token1@).subrange(20, 40));
                }
            }
            assert(self@.pair =~= update_pair(old(self)@.pair, token0@, token1@, pair@));
        }
    }

    /// The number of pairs created.
    pub fn all_pairs_length(&self) -> (r: U256)
        ensures
            r@ == self@.all_pairs.len(),
    {
        U256::from_u64(self.all_pairs.len() as u64)
    }

    /// The pair created `index`-th, or the zero address past the end.
    pub fn all_pairs_get(&self, index: U256) -> (r: Address)
        ensures
            index@ < self@.all_pairs.len() ==> r@ == self@.all_pairs[index@ as int],
            index@ >= self@.all_pairs.len() ==> r@ == zeros(20),
    {
        let n = U256::from_u64(self.all_pairs.len() as u64);
        if index.lt(&n) {
            let i = index.limbs[0] as usize;
            self.all_pairs[i]
        } else {
            let z = [0u8; 20];
            proof { assert(z@ =~= zeros(20)); }
            z
        }
    }

    /// First half of `createPair`: checks the request and returns the sorted tokens and the
    /// pair code to instantiate. The host instantiates the pair, calls `initialize` on it
    /// with [`encode_initialize`], and then calls [`FactoryState::create_pair_finish`].
    pub fn create_pair_begin(&self, token_a: &Address, token_b: &Address) -> (r: Result<CreatePairPlan, FactoryError>)
        ensures
            ({
                let t0 = if lex_lt(token_a@, token_b@) { token_a@ } else { token_b@ };
                let t1 = if lex_lt(token_a@, token_b@) { token_b@ } else { token_a@ };
                if token_a@ == token_b@ {
                    r == Err::<CreatePairPlan, FactoryError>(FactoryError::IdenticalAddresses)
                } else if t0 == zeros(20) {
                    r == Err::<CreatePairPlan, FactoryError>(FactoryError::ZeroAddress)
                } else if (self@.pair)(t0, t1) != zeros(20) {
                    r == Err::<CreatePairPlan, FactoryError>(FactoryError::PairExists)
                } else if self@.pair_code_hash == zeros(32) {
                    r == Err::<CreatePairPlan, FactoryError>(FactoryError::NoPairCode)
                } else {
                    r matches Ok(p) && p.token0@ == t0 && p.token1@ == t1 && p.code_hash@ == self@.pair_code_hash
                }
            }),
    {
        if address_eq(token_a, token_b) {
            return Err(FactoryError::IdenticalAddresses);
        }
        let (token0, token1) = sort_tokens(token_a, token_b);
        if address_is_zero(&token0) {
            return Err(FactoryError::ZeroAddress);
        }
        let existing = self.get_pair_internal(&token0, &token1);
        if !address_is_zero(&existing) {
            return Err(FactoryError::PairExists);
        }
        let mut hash_zero = true;
        let mut i: usize = 0;
        while i < 32
            invariant
                i <= 32,
                hash_zero == (forall|j: int| 0 <= j < i ==> self.pair_code_hash@[j] == 0u8),
            decreases 32 - i,
        {
            if self.pair_code_hash[i] != 0 {
                hash_zero = false;
            }
            i = i + 1;
        }
        proof {
            if hash_zero {
                assert(self.pair_code_hash@ =~= zeros(32));
            } else {
                if self.pair_code_hash@ == zeros(32) {
                    let j = choose|j: int| 0 <= j < 32 && self.pair_code_hash@[j] != 0u8;
                    assert(zeros(32)[j] == 0u8);
                }
            }
        }
        if hash_zero {
            return Err(FactoryError::NoPairCode);
        }
        Ok(CreatePairPlan { token0, token1, code_hash: self.pair_code_hash })
    }

    /// `createPair` once the host tried to instantiate the pair of `plan`: with the new
    /// pair's address, the call to make on it (`initialize` with the sorted tokens); when
    /// instantiation failed, a revert.
    pub fn create_pair_instantiated(plan: &CreatePairPlan, instantiated: Option<Address>) -> (r: CreatePairAction)
        ensures
            match instantiated {
                Some(p) => r matches CreatePairAction::CallPair { pair, data }
                    && pair == p && data@ == initialize_calldata(plan.token0@, plan.token1@),
                None => r matches CreatePairAction::Revert(FactoryError::InstantiateFailed),
            },
    {
        match instantiated {
            Some(pair) => CreatePairAction::CallPair { pair, data: encode_initialize(&plan.token0, &plan.token1) },
            None => CreatePairAction::Revert(FactoryError::InstantiateFailed),
        }
    }

    /// `createPair` once the host made the `initialize` call on the new `pair`: when it
    /// succeeded, the pair is recorded and the call returns its address as a word; when it
    /// failed, the call reverts and nothing changes.
    pub fn create_pair_initialized(&mut self, plan: &CreatePairPlan, pair: &Address, call_ok: bool) -> (r: CreatePairAction)
        requires
            old(self)@.all_pairs.len() < u64::MAX,
        ensures
            call_ok ==> (r matches CreatePairAction::Return(v) && v@ == address_word_bytes(pair@))
                && final(self)@ == with_pair(old(self)@, plan.token0@, plan.token1@, pair@),
            !call_ok ==> (r matches CreatePairAction::Revert(FactoryError::InitializeFailed))
                && final(self)@ == old(self)@,
    {
        if !call_ok {
            return CreatePairAction::Revert(FactoryError::InitializeFailed);
        }
        self.create_pair_finish(&plan.token0, &plan.token1, pair);
        CreatePairAction::Return(encode_address(pair))
    }

    /// Second half of `createPair`: records the new pair under both token orders and
    /// appends it to the list of pairs.
    pub fn create_pair_finish(&mut self, token0: &Address, token1: &Address, pair: &Address)
        requires
            old(self)@.all_pairs.len() < u64::MAX,
        ensures
            final(self)@ == with_pair(old(self)@, token0@, token1@, pair@),
    {
        self.set_pair(token0, token1, pair);
        self.set_pair(token1, token0, pair);
        self.all_pairs.push(*pair);
        proof {
            assert(self@.all_pairs =~= old(self)@.all_pairs.push(pair@));
        }
    }

    /// The fee setter's address: the low 20 bytes of its slot.
    pub fn fee_to_setter_address(&self) -> (r: Address)
        ensures
            r@ == word_address(self@.fee_to_setter),
    {
        address_from_word(self.fee_to_setter)
    }

    /// `setFeeTo` from `caller`, with the new recipient in the calldata.
    pub fn set_fee_to(&mut self, caller: &Address, calldata: &[u8]) -> (r: Result<(), FactoryError>)
        ensures
            caller@ != word_address(old(self)@.fee_to_setter) ==> r == Err::<(), FactoryError>(FactoryError::Forbidden)
                && final(self)@ == old(self)@,
            caller@ == word_address(old(self)@.fee_to_setter) && !has_args(calldata@, 1)
                ==> r == Err::<(), FactoryError>(FactoryError::BadCalldata) && final(self)@ == old(self)@,
            caller@ == word_address(old(self)@.fee_to_setter) && has_args(calldata@, 1) ==> r == Ok::<(), FactoryError>(())
                && final(self)@ == (FactorySlots { fee_to: be_value(address_word_bytes(arg_addr(calldata@, 0))), ..old(self)@ }),
    {
        let setter = self.fee_to_setter_address();
        if !address_eq(caller, &setter) {
            return Err(FactoryError::Forbidden);
        }
        if calldata.len() < 36 {
            return Err(FactoryError::BadCalldata);
        }
        let new_fee_to = arg_address(calldata, 0);
        self.fee_to = word_from_address(&new_fee_to);
        Ok(())
    }

    /// `setFeeToSetter` from `caller`, with the new setter in the calldata.
    pub fn set_fee_to_setter(&mut self, caller: &Address, calldata: &[u8]) -> (r: Result<(), FactoryError>)
        ensures
            caller@ != word_address(old(self)@.fee_to_setter) ==> r == Err::<(), FactoryError>(FactoryError::Forbidden)
                && final(self)@ == old(self)@,
            caller@ == word_address(old(self)@.fee_to_setter) && !has_args(calldata@, 1)
                ==> r == Err::<(), FactoryError>(FactoryError::BadCalldata) && final(self)@ == old(self)@,
            caller@ == word_address(old(self)@.fee_to_setter) && has_args(calldata@, 1) ==> r == Ok::<(), FactoryError>(())
                && final(self)@ == (FactorySlots { fee_to_setter: be_value(address_word_bytes(arg_addr(calldata@, 0))), ..old(self)@ }),
    {
        let setter = self.fee_to_setter_address();
        if !address_eq(caller, &setter) {
            return Err(FactoryError::Forbidden);
        }
        if calldata.len() < 36 {
            return Err(FactoryError::BadCalldata);
        }
        let new_setter = arg_address(calldata, 0);
        self.fee_to_setter = word_from_address(&new_setter);
        Ok(())
    }

    /// Handles a factory call from `caller` as far as it goes without another contract.
    pub fn call_local(&mut self, calldata: &[u8], caller: &Address) -> (r: FactoryOutcome)
        ensures
            ({
                let o = old(self)@;
                let d = calldata@;
                match first_factory_named(d, factory_functions()) {
                    None => r == FactoryOutcome::Failed(FactoryError::UnknownFunction) && final(self)@ == o,
                    Some(FactoryFunction::FeeTo) => (r matches FactoryOutcome::Return(v) && v@ == be_bytes(o.fee_to, 32))
                        && final(self)@ == o,
                    Some(FactoryFunction::FeeToSetter) => (r matches FactoryOutcome::Return(v) && v@ == be_bytes(o.fee_to_setter, 32))
                        && final(self)@ == o,
                    Some(FactoryFunction::AllPairsLength) => (r matches FactoryOutcome::Return(v) && v@ == be_bytes(o.all_pairs.len(), 32))
                        && final(self)@ == o,
                    Some(FactoryFunction::GetPair) => final(self)@ == o && if !has_args(d, 2) {
                        r == FactoryOutcome::Failed(FactoryError::BadCalldata)
                    } else {
                        let a = arg_addr(d, 0);
                        let b = arg_addr(d, 1);
                        let t0 = if lex_lt(a, b) { a } else { b };
                        let t1 = if lex_lt(a, b) { b } else { a };
                        r matches FactoryOutcome::Return(v) && v@ == address_word_bytes((o.pair)(t0, t1))
                    },
                    Some(FactoryFunction::AllPairs) => final(self)@ == o && if !has_args(d, 1) {
                        r == FactoryOutcome::Failed(FactoryError::BadCalldata)
                    } else {
                        let i = arg_num(d, 0);
                        r matches FactoryOutcome::Return(v) && v@ == address_word_bytes(
                            if i < o.all_pairs.len() { o.all_pairs[i as int] } else { zeros(20) })
                    },
                    Some(FactoryFunction::CreatePair) => final(self)@ == o && if !has_args(d, 2) {
                        r == FactoryOutcome::Failed(FactoryError::BadCalldata)
                    } else {
                        let a = arg_addr(d, 0);
                        let b = arg_addr(d, 1);
                        let t0 = if lex_lt(a, b) { a } else { b };
                        let t1 = if lex_lt(a, b) { b } else { a };
                        if a == b {
                            r == FactoryOutcome::Failed(FactoryError::IdenticalAddresses)
                        } else if t0 == zeros(20) {
                            r == FactoryOutcome::Failed(FactoryError::ZeroAddress)
                        } else if (o.pair)(t0, t1) != zeros(20) {
                            r == FactoryOutcome::Failed(FactoryError::PairExists)
                        } else if o.pair_code_hash == zeros(32) {
                            r == FactoryOutcome::Failed(FactoryError::NoPairCode)
                        } else {
                            r matches FactoryOutcome::CreatePair(p) && p.token0@ == t0 && p.token1@ == t1
                                && p.code_hash@ == o.pair_code_hash
                        }
                    },
                    Some(f) => {
                        let setter_ok = caller@ == word_address(o.fee_to_setter);
                        if !setter_ok {
                            r == FactoryOutcome::Failed(FactoryError::Forbidden) && final(self)@ == o
                        } else if !has_args(d, 1) {
                            r == FactoryOutcome::Failed(FactoryError::BadCalldata) && final(self)@ == o
                        } else {
                            let w = be_value(address_word_bytes(arg_addr(d, 0)));
                            &&& r matches FactoryOutcome::Return(v) && v@ == Seq::<u8>::empty()
                            &&& final(self)@ == if f == FactoryFunction::SetFeeTo {
                                FactorySlots { fee_to: w, ..o }
                            } else {
                                FactorySlots { fee_to_setter: w, ..o }
                            }
                        }
                    },
                }
            }),
    {
        proof {
            lemma_first_factory_named(calldata@, factory_functions());
        }
        let f = match factory_function(calldata) {
            Some(f) => f,
            None => { return FactoryOutcome::Failed(FactoryError::UnknownFunction); },
        };
        let n = calldata.len();
        match f {
            FactoryFunction::FeeTo => FactoryOutcome::Return(encode_u256(self.fee_to)),
            FactoryFunction::FeeToSetter => FactoryOutcome::Return(encode_u256(self.fee_to_setter)),
            FactoryFunction::GetPair => {
                if n < 68 {
                    return FactoryOutcome::Failed(FactoryError::BadCalldata);
                }
                let a = arg_address(calldata, 0);
                let b = arg_address(calldata, 1);
                let (t0, t1) = sort_tokens(&a, &b);
                FactoryOutcome::Return(encode_address(&self.get_pair_internal(&t0, &t1)))
            },
            FactoryFunction::AllPairs => {
                if n < 36 {
                    return FactoryOutcome::Failed(FactoryError::BadCalldata);
                }
                let i = arg_u256(calldata, 0);
                FactoryOutcome::Return(encode_address(&self.all_pairs_get(i)))
            },
            FactoryFunction::AllPairsLength => FactoryOutcome::Return(encode_u256(self.all_pairs_length())),
            FactoryFunction::CreatePair => {
                if n < 68 {
                    return FactoryOutcome::Failed(FactoryError::BadCalldata);
                }
                let a = arg_address(calldata, 0);
                let b = arg_address(calldata, 1);
                match self.create_pair_begin(&a, &b) {
                    Ok(plan) => FactoryOutcome::CreatePair(plan),
                    Err(e) => FactoryOutcome::Failed(e),
                }
            },
            FactoryFunction::SetFeeTo => match self.set_fee_to(caller, calldata) {
                Ok(()) => FactoryOutcome::Return(Vec::new()),
                Err(e) => FactoryOutcome::Failed(e),
            },
            FactoryFunction::SetFeeToSetter => match self.set_fee_to_setter(caller, calldata) {
                Ok(()) => FactoryOutcome::Return(Vec::new()),
                Err(e) => FactoryOutcome::Failed(e),
            },
        }
    }
}

} // verus!
