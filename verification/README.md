# pvm

Host and contract logic for running Solidity-style contracts on PolkaVM, written in Verus.

## Layout

- `src/` — the verified library.
  - `word.rs`, `math.rs`, `bytes.rs`, `abi.rs`, `keccak.rs`: 256-bit words, integer square
    root, big-endian bytes, ABI words and function selectors.
  - `byte_map.rs`, `storage_keys.rs`: maps keyed by bytes, storage slots and Solidity mapping
    and array keys.
  - `pair.rs`, `pair_calls.rs`, `pair_host.rs`, `factory.rs`: a Uniswap V2 style pair and
    factory: their storage, the checks and arithmetic of every operation, the calldata they
    answer, and the steps of the calls that reach other contracts (token balances and
    transfers, instantiating and initializing a new pair).
  - `fibonacci.rs`, `arithmetic.rs`, `uart.rs`: the Fibonacci contract, the arithmetic
    benchmark's calldata, and the console of a bare-metal RISC-V greeting program.
  - `syscall.rs`: the syscalls a revive-compiled contract imports, the host's contract
    storage, and what each syscall does to storage, guest memory and the call.
  - `polkavm_api.rs`, `executor.rs`, `vm.rs`: PolkaVM engines and modules (the settings
    they are made with), the interrupt handling of a contract call, and plain program
    execution.
  - `bytecode.rs`, `evm.rs`: loading PolkaVM and hex-encoded EVM bytecode, and the revm
    executor: the transactions it sends, what their results mean, and the accounts its
    database holds.
- `tests/` — tests of the library, including whole calls run on the PolkaVM interpreter.
- `app/` — the host program: file reading, the run loop of a contract call, the pair and
  factory calls run against a host that makes their outside calls, and the benchmarks.

Outside crates: `alloy-primitives` (256-bit arithmetic, Keccak-256, hex), `polkavm`,
`revm`, and `anyhow` (in `app/`).
