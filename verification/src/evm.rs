//! The EVM benchmark executor on revm: the transactions it sends, and what their results mean:
//! the gas used and returned data of a call, the address a deployment created, or why either failed.

use vstd::prelude::*;
use crate::bytes::Address;
use revm::context::result::ExecutionResult;
use revm::context_interface::ContextTr;
use revm::handler::{ExecuteCommitEvm, MainBuilder, MainContext};

verus! {

/// Gas limit of every transaction the executor sends.
pub const EVM_GAS_LIMIT: u64 = 300_000_000;

/// The address runtime code is deployed at.
pub open spec fn contract_address_spec() -> Seq<u8> {
    Seq::new(20, |i: int| 0x42u8)
}

/// The address runtime code is deployed at: twenty 0x42 bytes.
pub fn contract_address() -> (r: Address)
    ensures
        r@ == contract_address_spec(),
{
    let r = [0x42u8; 20];
    assert(r@ =~= contract_address_spec());
    r
}

/// The account that sends every transaction.
pub open spec fn caller_address_spec() -> Seq<u8> {
    Seq::new(20, |i: int| 0x01u8)
}

/// The account that sends every transaction: twenty 0x01 bytes.
pub fn caller_address() -> (r: Address)
    ensures
        r@ == caller_address_spec(),
{
    let r = [0x01u8; 20];
    assert(r@ =~= caller_address_spec());
    r
}

/// The result of an executed transaction, as the EVM reports it.
#[derive(Clone, Debug, PartialEq, Eq)]
pub enum EvmResult {
    /// The transaction succeeded; `created` is the address a deployment created.
    Success { gas_used: u64, output: Vec<u8>, created: Option<Address> },
    /// The transaction reverted with `output`.
    Revert { gas_used: u64, output: Vec<u8> },
    /// The transaction halted for `reason`.
    Halt { gas_used: u64, reason: String },
}

/// Why a transaction did not give what was asked of it.
#[derive(Clone, Debug, PartialEq, Eq)]
pub enum EvmError {
    /// The transaction reverted.
    Reverted { gas_used: u64, output: Vec<u8> },
    /// The transaction halted.
    Halted { gas_used: u64, reason: String },
    /// A deployment succeeded without creating an address.
    NoCreatedAddress,
    /// The EVM refused the transaction itself, for the given reason.
    Transaction(String),
}

/// The failure a reverted or halted transaction gives.
pub open spec fn failure_of(r: EvmResult) -> EvmError {
    match r {
        EvmResult::Revert { gas_used, output } => EvmError::Reverted { gas_used, output },
        EvmResult::Halt { gas_used, reason } => EvmError::Halted { gas_used, reason },
        EvmResult::Success { .. } => EvmError::NoCreatedAddress,
    }
}

/// A call's gas used and returned data; the failure when it reverted or halted.
pub fn call_result(result: EvmResult) -> (r: Result<(u64, Vec<u8>), EvmError>)
    ensures
        match result {
            EvmResult::Success { gas_used, output, .. } => r == Ok::<(u64, Vec<u8>), EvmError>((gas_used, output)),
            _ => r == Err::<(u64, Vec<u8>), EvmError>(failure_of(result)),
        },
{
    match result {
        EvmResult::Success { gas_used, output, created: _ } => Ok((gas_used, output)),
        EvmResult::Revert { gas_used, output } => Err(EvmError::Reverted { gas_used, output }),
        EvmResult::Halt { gas_used, reason } => Err(EvmError::Halted { gas_used, reason }),
    }
}

/// The address a deployment created; `NoCreatedAddress` for a success without one, and
/// the failure when it reverted or halted.
pub fn create_result(result: EvmResult) -> (r: Result<Address, EvmError>)
    ensures
        match result {
            EvmResult::Success { created: Some(a), .. } => r == Ok::<Address, EvmError>(a),
            EvmResult::Success { created: None, .. } => r == Err::<Address, EvmError>(EvmError::NoCreatedAddress),
            _ => r == Err::<Address, EvmError>(failure_of(result)),
        },
{
    match result {
        EvmResult::Success { gas_used: _, output: _, created } => match created {
            Some(a) => Ok(a),
            None => Err(EvmError::NoCreatedAddress),
        },
        EvmResult::Revert { gas_used, output } => Err(EvmError::Reverted { gas_used, output }),
        EvmResult::Halt { gas_used, reason } => Err(EvmError::Halted { gas_used, reason }),
    }
}


/// What a call gives for what sending its transaction returned: the EVM's refusal, or the
/// gas used and returned data of a success, or the failure of a revert or halt.
pub open spec fn call_outcome(sent: Result<EvmResult, String>) -> Result<(u64, Vec<u8>), EvmError> {
    match sent {
        Err(reason) => Err(EvmError::Transaction(reason)),
        Ok(EvmResult::Success { gas_used, output, .. }) => Ok((gas_used, output)),
        Ok(result) => Err(failure_of(result)),
    }
}

/// What a deployment gives for what sending its transaction returned: the EVM's refusal, or
/// the created address, or why none was created.
pub open spec fn create_outcome(sent: Result<EvmResult, String>) -> Result<Address, EvmError> {
    match sent {
        Err(reason) => Err(EvmError::Transaction(reason)),
        Ok(EvmResult::Success { created: Some(a), .. }) => Ok(a),
        Ok(EvmResult::Success { created: None, .. }) => Err(EvmError::NoCreatedAddress),
        Ok(result) => Err(failure_of(result)),
    }
}

/// A call's result from what sending its transaction returned.
pub fn call_step(sent: Result<EvmResult, String>) -> (r: Result<(u64, Vec<u8>), EvmError>)
    ensures
        r == call_outcome(sent),
{
    match sent {
        Err(reason) => Err(EvmError::Transaction(reason)),
        Ok(result) => call_result(result),
    }
}

/// A deployment's result from what sending its transaction returned.
pub fn create_step(sent: Result<EvmResult, String>) -> (r: Result<Address, EvmError>)
    ensures
        r == create_outcome(sent),
{
    match sent {
        Err(reason) => Err(EvmError::Transaction(reason)),
        Ok(result) => create_result(result),
    }
}

/// A transaction the executor sends.
#[derive(Clone, Debug, PartialEq, Eq)]
pub struct Transaction {
    pub from: Address,
    /// The called account; `None` creates a contract from `data`.
    pub to: Option<Address>,
    pub data: Vec<u8>,
    pub gas_limit: u64,
    pub gas_price: u128,
    pub max_fee_per_blob_gas: u128,
}

/// The transaction the executor sends to `to` (or to create a contract) with `data`: from the
/// caller, with `EVM_GAS_LIMIT` gas at price 1, value 0, nonce 0 and chain 1.
pub fn transaction(to: Option<Address>, data: &[u8]) -> (r: Transaction)
    ensures
        r.from@ == caller_address_spec(),
        r.to == to,
        r.data@ == data@,
        r.gas_limit == EVM_GAS_LIMIT,
        r.gas_price == 1,
        r.max_fee_per_blob_gas == 1,
{
    Transaction {
        from: caller_address(),
        to,
        data: vstd::slice::slice_to_vec(data),
        gas_limit: EVM_GAS_LIMIT,
        gas_price: 1,
        max_fee_per_blob_gas: 1,
    }
}

/// revm's mainnet EVM over an in-memory database. Verus sees nothing inside it but what
/// `evm_accounts` and `evm_gas_cap` name.
#[verifier::external_body]
pub struct Evm {
    inner: revm::handler::MainnetEvm<revm::context::Context<revm::context::BlockEnv, revm::context::TxEnv, revm::context::CfgEnv, revm::database::InMemoryDB, revm::context::Journal<revm::database::InMemoryDB>, ()>>,
}

/// An account as the EVM's in-memory database holds it: its balance in wei, its nonce, the
/// bytes of its code (`None` where it holds no code object) and its storage, slot to value.
pub ghost struct AccountModel {
    pub balance: nat,
    pub nonce: u64,
    pub code: Option<Seq<u8>>,
    pub storage: Map<nat, nat>,
}

/// The accounts the EVM's database holds, by address.
pub uninterp spec fn evm_accounts(evm: Evm) -> Map<Seq<u8>, AccountModel>;

/// The most gas a transaction may ask of the EVM (`tx_gas_limit_cap`).
pub uninterp spec fn evm_gas_cap(evm: Evm) -> u64;

/// The storage the account at `address` holds; none where there is no account.
pub open spec fn storage_of(accounts: Map<Seq<u8>, AccountModel>, address: Seq<u8>) -> Map<nat, nat> {
    if accounts.dom().contains(address) {
        accounts[address].storage
    } else {
        Map::empty()
    }
}

/// The accounts after code is placed at `address` with `nonce` and no balance: the account's
/// storage is kept, every other account is unchanged.
pub open spec fn with_code(
    accounts: Map<Seq<u8>, AccountModel>,
    address: Seq<u8>,
    code: Seq<u8>,
    nonce: u64,
) -> Map<Seq<u8>, AccountModel> {
    accounts.insert(address, AccountModel { balance: 0, nonce, code: Some(code), storage: storage_of(accounts, address) })
}

/// The accounts after the storage of the account at `address`, if there is one, is emptied;
/// everything else is unchanged.
pub open spec fn storage_cleared(accounts: Map<Seq<u8>, AccountModel>, address: Seq<u8>) -> Map<Seq<u8>, AccountModel> {
    if accounts.dom().contains(address) {
        let a = accounts[address];
        accounts.insert(address, AccountModel { balance: a.balance, nonce: a.nonce, code: a.code, storage: Map::empty() })
    } else {
        accounts
    }
}

/// Whether runtime code can be placed as it is: code that starts with the EIP-7702 marker
/// 0xEF 0x01 must be a whole 23-byte delegation of version 0.
pub open spec fn raw_code_accepted(code: Seq<u8>) -> bool {
    !(code.len() >= 2 && code[0] == 0xEFu8 && code[1] == 0x01u8) || (code.len() == 23 && code[2] == 0u8)
}

/// `Context::mainnet` with `tx_gas_limit_cap` set to `gas_cap` (`modify_cfg_chained`), over an
/// `InMemoryDB` where `insert_account_info` gave `funded` `balance` wei, nonce 0 and no code,
/// built with `build_mainnet`: the database holds that one account, with empty storage.
#[verifier::external_body]
fn new_evm(funded: &Address, balance: u128, gas_cap: u64) -> (r: Evm)
    ensures
        evm_accounts(r) == map![funded@ => AccountModel { balance: balance as nat, nonce: 0, code: None, storage: Map::empty() }],
        evm_gas_cap(r) == gas_cap,
{
    let mut db = revm::database::InMemoryDB::default();
    let info = revm::state::AccountInfo {
        balance: revm::primitives::U256::from(balance),
        nonce: 0,
        code_hash: Default::default(),
        account_id: Default::default(),
        code: None,
    };
    db.insert_account_info(revm::primitives::Address::new(*funded), info);
    let ctx = revm::context::Context::mainnet().modify_cfg_chained(|cfg| cfg.tx_gas_limit_cap = Some(gas_cap));
    Evm { inner: ctx.with_db(db).build_mainnet() }
}

/// `insert_account_info` on the EVM's database: the account at `address` holds `code`
/// (`Bytecode::new_raw`, hashed with `hash_slow`), with balance 0 and the given nonce; the
/// account's storage is kept and no other account changes. `Bytecode::new_raw` panics on
/// code that `raw_code_accepted` refuses.
#[verifier::external_body]
fn install_code(evm: &mut Evm, address: &Address, code: &[u8], nonce: u64)
    requires
        raw_code_accepted(code@),
    ensures
        evm_accounts(*final(evm)) == with_code(evm_accounts(*old(evm)), address@, code@, nonce),
        evm_gas_cap(*final(evm)) == evm_gas_cap(*old(evm)),
{
    let code = revm::state::Bytecode::new_raw(revm::primitives::Bytes::copy_from_slice(code));
    let info = revm::state::AccountInfo {
        balance: revm::primitives::U256::ZERO,
        nonce,
        code_hash: code.hash_slow(),
        code: Some(code),
        account_id: Default::default(),
    };
    evm.inner.db_mut().insert_account_info(revm::primitives::Address::new(*address), info);
}

/// Clears the cached storage of the account at `address` in the EVM's database, where the
/// database holds the account; nothing else changes.
#[verifier::external_body]
fn clear_account_storage(evm: &mut Evm, address: &Address)
    ensures
        evm_accounts(*final(evm)) == storage_cleared(evm_accounts(*old(evm)), address@),
        evm_gas_cap(*final(evm)) == evm_gas_cap(*old(evm)),
{
    if let Some(account) = evm.inner.db_mut().cache.accounts.get_mut(&revm::primitives::Address::new(*address)) {
        account.storage.clear();
    }
}

#[verifier::external_type_specification]
#[verifier::external_body]
pub struct ExTxEnv(revm::context::TxEnv);

/// A `revm::context::TxEnv` with the transaction's fields, moved one for one (`Create` where
/// `to` is `None`), and `TxEnv::default()` for the rest (nonce 0, value 0, chain 1).
#[verifier::external_body]
fn tx_env(tx: &Transaction) -> (r: revm::context::TxEnv) {
    let kind = tx.to.map_or(revm::primitives::TxKind::Create, |a| revm::primitives::TxKind::Call(a.into()));
    revm::context::TxEnv {
        caller: tx.from.into(),
        kind,
        gas_limit: tx.gas_limit,
        gas_price: tx.gas_price,
        data: tx.data.clone().into(),
        max_fee_per_blob_gas: tx.max_fee_per_blob_gas,
        ..Default::default()
    }
}

/// `ExecuteCommitEvm::transact_commit` of the transaction: the result mapped one for one to
/// `EvmResult`, or the EVM's error as its debug text. The configuration, and so the gas cap,
/// is kept; nothing is claimed of which result comes or of the accounts it commits.
#[verifier::external_body]
fn transact(evm: &mut Evm, env: revm::context::TxEnv) -> (r: Result<EvmResult, String>)
    ensures
        evm_gas_cap(*final(evm)) == evm_gas_cap(*old(evm)),
{
    match evm.inner.transact_commit(env) {
        Ok(ExecutionResult::Success { gas, output, .. }) => Ok(EvmResult::Success {
            gas_used: gas.used(),
            created: output.address().map(|a| a.0 .0),
            output: output.into_data().to_vec(),
        }),
        Ok(ExecutionResult::Revert { gas, output, .. }) => Ok(EvmResult::Revert { gas_used: gas.used(), output: output.to_vec() }),
        Ok(ExecutionResult::Halt { reason, gas, .. }) => Ok(EvmResult::Halt { gas_used: gas.used(), reason: format!("{:?}", reason) }),
        Err(e) => Err(format!("{:?}", e)),
    }
}

/// Runs EVM bytecode for benchmarking: one contract account, called by a funded caller.
pub struct RevmExecutor {
    evm: Evm,
    contract_address: Address,
    last_transaction: Option<Transaction>,
}

/// Whether `t` is the transaction the executor sends to `to` (or, with `None`, to create a
/// contract) with `data`: from the caller, carrying exactly `data`, with `EVM_GAS_LIMIT` gas at
/// price 1.
pub open spec fn sends(t: Transaction, to: Option<Address>, data: Seq<u8>) -> bool {
    &&& t.from@ == caller_address_spec()
    &&& t.to == to
    &&& t.data@ == data
    &&& t.gas_limit == EVM_GAS_LIMIT
    &&& t.gas_price == 1
    &&& t.max_fee_per_blob_gas == 1
}

/// The caller's account as a new executor holds it: 1 ether, nonce 0, no code and no storage.
pub open spec fn funded_caller() -> AccountModel {
    AccountModel { balance: 1_000_000_000_000_000_000nat, nonce: 0, code: None, storage: Map::empty() }
}

impl RevmExecutor {
    /// The account calls go to.
    pub closed spec fn target(&self) -> Address {
        self.contract_address
    }

    /// The accounts the EVM holds, by address.
    pub closed spec fn accounts(&self) -> Map<Seq<u8>, AccountModel> {
        evm_accounts(self.evm)
    }

    /// The most gas a transaction may use.
    pub closed spec fn gas_cap(&self) -> u64 {
        evm_gas_cap(self.evm)
    }

    /// The transaction the executor handed the EVM last, if any.
    pub closed spec fn last_sent(&self) -> Option<Transaction> {
        self.last_transaction
    }

    /// An EVM that holds only the caller's account, with 1 ether, and whose transactions may
    /// use `EVM_GAS_LIMIT` gas; calls go to the deployment address.
    pub fn new() -> (r: Self)
        ensures
            r.target()@ == contract_address_spec(),
            r.accounts() == map![caller_address_spec() => funded_caller()],
            r.gas_cap() == EVM_GAS_LIMIT,
            r.last_sent() is None,
    {
        let evm = new_evm(&caller_address(), 1_000_000_000_000_000_000u128, EVM_GAS_LIMIT);
        RevmExecutor { evm, contract_address: contract_address(), last_transaction: None }
    }

    /// The account calls go to.
    pub fn contract_address(&self) -> (r: Address)
        ensures
            r == self.target(),
    {
        self.contract_address
    }

    /// Places runtime code directly at the deployment address, which calls then go to: the
    /// account there holds the code, with nonce 1 and no balance, and keeps its storage.
    pub fn deploy(&mut self, bytecode: &[u8]) -> (r: Result<(), EvmError>)
        requires
            raw_code_accepted(bytecode@),
        ensures
            r is Ok,
            final(self).target()@ == contract_address_spec(),
            final(self).accounts() == with_code(old(self).accounts(), contract_address_spec(), bytecode@, 1),
            final(self).gas_cap() == old(self).gas_cap(),
            final(self).last_sent() == old(self).last_sent(),
    {
        let address = contract_address();
        install_code(&mut self.evm, &address, bytecode, 1);
        self.contract_address = address;
        Ok(())
    }

    /// Deploys init code through a creating transaction, which carries exactly `init`; calls
    /// then go to the created address. A failed deployment keeps the address calls go to.
    pub fn deploy_create(&mut self, init: &[u8]) -> (r: Result<Address, EvmError>)
        ensures
            exists|sent: Result<EvmResult, String>| r == create_outcome(sent),
            r matches Ok(a) ==> final(self).target()@ == a@,
            r is Err ==> final(self).target() == old(self).target(),
            final(self).gas_cap() == old(self).gas_cap(),
            final(self).last_sent() matches Some(t) && sends(t, None, init@),
    {
        let tx = transaction(None, init);
        let env = tx_env(&tx);
        self.last_transaction = Some(tx);
        let sent = transact(&mut self.evm, env);
        let ghost g = sent;
        let r = create_step(sent);
        if let Ok(a) = r {
            self.contract_address = a;
        }
        assert(r == create_outcome(g));
        r
    }

    /// Calls the contract with `calldata`: the gas used and the returned data. The transaction
    /// goes to the account calls go to and carries exactly `calldata`.
    pub fn call(&mut self, calldata: &[u8]) -> (r: Result<(u64, Vec<u8>), EvmError>)
        ensures
            exists|sent: Result<EvmResult, String>| r == call_outcome(sent),
            final(self).target() == old(self).target(),
            final(self).gas_cap() == old(self).gas_cap(),
            final(self).last_sent() matches Some(t) && sends(t, Some(old(self).target()), calldata@),
    {
        let tx = transaction(Some(self.contract_address), calldata);
        let env = tx_env(&tx);
        self.last_transaction = Some(tx);
        let sent = transact(&mut self.evm, env);
        let ghost g = sent;
        let r = call_step(sent);
        assert(r == call_outcome(g));
        r
    }

    /// Clears the contract's storage between benchmark runs: the account calls go to, if the
    /// EVM holds it, has empty storage afterwards; its code, balance and nonce, every other
    /// account, and the account calls go to are kept.
    pub fn reset_storage(&mut self)
        ensures
            final(self).target() == old(self).target(),
            final(self).accounts() == storage_cleared(old(self).accounts(), old(self).target()@),
            final(self).gas_cap() == old(self).gas_cap(),
            final(self).last_sent() == old(self).last_sent(),
    {
        clear_account_storage(&mut self.evm, &self.contract_address);
    }
}

} // verus!
