//! The Fibonacci contract: `fibonacci(uint32) returns (uint32)`.

use vstd::prelude::*;
use vstd::string::StringSliceAdditionalSpecFns;
use crate::word::U256;
use crate::bytes::{be_bytes, zeros};
use crate::keccak::{selector, has_selector, selector_of};
use crate::abi::{arg_word, has_args, encode_u256};

verus! {

/// The Fibonacci numbers: 0, 1, 1, 2, 3, 5, ...
pub open spec fn fib(n: nat) -> nat
    decreases n,
{
    if n == 0 {
        0
    } else if n == 1 {
        1
    } else {
        fib((n - 1) as nat) + fib((n - 2) as nat)
    }
}

/// The `n`-th Fibonacci number, computed by the defining recursion.
pub fn _fibonacci(n: u32) -> (r: u32)
    requires
        fib(n as nat) <= u32::MAX,
    ensures
        r == fib(n as nat),
    decreases n,
{
    if n == 0 {
        0
    } else if n == 1 {
        1
    } else {
        _fibonacci(n - 1) + _fibonacci(n - 2)
    }
}

/// The Fibonacci numbers do not decrease.
pub proof fn lemma_fib_monotonic(i: nat, j: nat)
    requires
        i <= j,
    ensures
        fib(i) <= fib(j),
    decreases j - i,
{
    if i < j {
        lemma_fib_monotonic(i, (j - 1) as nat);
        if j >= 2 {
            assert(fib(j) == fib((j - 1) as nat) + fib((j - 2) as nat));
        }
    }
}

/// fib(47) is the last Fibonacci number that fits in 32 bits.
pub proof fn lemma_fib_u32_limit()
    ensures
        fib(47) == 2971215073,
        fib(48) == 4807526976,
{
    assert(fib(0) == 0);
    assert(fib(1) == 1);
    assert(fib(2) == 1);
    assert(fib(3) == 2);
    assert(fib(4) == 3);
    assert(fib(5) == 5);
    assert(fib(6) == 8);
    assert(fib(7) == 13);
    assert(fib(8) == 21);
    assert(fib(9) == 34);
    assert(fib(10) == 55);
    assert(fib(11) == 89);
    assert(fib(12) == 144);
    assert(fib(13) == 233);
    assert(fib(14) == 377);
    assert(fib(15) == 610);
    assert(fib(16) == 987);
    assert(fib(17) == 1597);
    assert(fib(18) == 2584);
    assert(fib(19) == 4181);
    assert(fib(20) == 6765);
    assert(fib(21) == 10946);
    assert(fib(22) == 17711);
    assert(fib(23) == 28657);
    assert(fib(24) == 46368);
    assert(fib(25) == 75025);
    assert(fib(26) == 121393);
    assert(fib(27) == 196418);
    assert(fib(28) == 317811);
    assert(fib(29) == 514229);
    assert(fib(30) == 832040);
    assert(fib(31) == 1346269);
    assert(fib(32) == 2178309);
    assert(fib(33) == 3524578);
    assert(fib(34) == 5702887);
    assert(fib(35) == 9227465);
    assert(fib(36) == 14930352);
    assert(fib(37) == 24157817);
    assert(fib(38) == 39088169);
    assert(fib(39) == 63245986);
    assert(fib(40) == 102334155);
    assert(fib(41) == 165580141);
    assert(fib(42) == 267914296);
    assert(fib(43) == 433494437);
    assert(fib(44) == 701408733);
    assert(fib(45) == 1134903170);
    assert(fib(46) == 1836311903);
    assert(fib(47) == 2971215073);
    assert(fib(48) == 4807526976);
}

/// Whether the `n`-th Fibonacci number fits in 32 bits.
pub proof fn lemma_fib_fits(n: nat)
    ensures
        fib(n) <= u32::MAX <==> n <= 47,
{
    lemma_fib_u32_limit();
    if n <= 47 {
        lemma_fib_monotonic(n, 47);
    } else {
        lemma_fib_monotonic(48, n);
    }
}

/// How a contract call ends.
#[derive(Debug)]
pub enum CallOutcome {
    /// The call returns this data.
    Return(Vec<u8>),
    /// The call reverts.
    Revert,
    /// The contract panicked and the virtual machine trapped.
    Trap,
}

/// The argument word of `fibonacci(uint32)` when it decodes: its high 28 bytes zero.
pub open spec fn fibonacci_arg(d: Seq<u8>) -> Option<nat> {
    if has_args(d, 1) && arg_word(d, 0).subrange(0, 28) == zeros(28) {
        Some(crate::word::be_value(arg_word(d, 0).subrange(28, 32)))
    } else {
        None
    }
}

/// The Fibonacci contract's entry point: a call of `fibonacci(n)` returns fib(n) as a word.
/// Any other calldata, an argument that is not a valid `uint32`, or an `n` whose Fibonacci
/// number overflows 32 bits makes the contract panic.
pub fn fibonacci_call(calldata: &[u8]) -> (r: CallOutcome)
    ensures
        ({
            let d = calldata@;
            if d.len() >= 4 && d.subrange(0, 4) == selector_of("fibonacci(uint32)".spec_bytes()) {
                match fibonacci_arg(d) {
                    Some(n) => if n <= 47 {
                        r matches CallOutcome::Return(v) && v@ == be_bytes(fib(n), 32)
                    } else {
                        r is Trap
                    },
                    None => r is Trap,
                }
            } else {
                r is Trap
            }
        }),
{
    if calldata.len() < 4 {
        return CallOutcome::Trap;
    }
    let sel = selector("fibonacci(uint32)");
    if !has_selector(calldata, &sel) {
        return CallOutcome::Trap;
    }
    if calldata.len() < 36 {
        return CallOutcome::Trap;
    }
    let mut i: usize = 4;
    while i < 32
        invariant
            4 <= i <= 32,
            calldata@.len() >= 36,
            forall|j: int| 4 <= j < i ==> calldata@[j] == 0u8,
        decreases 32 - i,
    {
        if calldata[i] != 0 {
            proof {
                assert(arg_word(calldata@, 0).subrange(0, 28)[i - 4] != zeros(28)[i - 4]);
            }
            return CallOutcome::Trap;
        }
        i = i + 1;
    }
    proof {
        assert(arg_word(calldata@, 0).subrange(0, 28) =~= zeros(28));
    }
    let n: u32 = (calldata[32] as u32) * 0x100_0000 + (calldata[33] as u32) * 0x1_0000
        + (calldata[34] as u32) * 0x100 + (calldata[35] as u32);
    proof {
        let w = arg_word(calldata@, 0).subrange(28, 32);
        reveal_with_fuel(crate::word::be_value, 5);
        assert(w.drop_last().drop_last().drop_last().drop_last() =~= Seq::<u8>::empty());
        assert(n as nat == crate::word::be_value(w));
        lemma_fib_fits(n as nat);
    }
    if n > 47 {
        return CallOutcome::Trap;
    }
    let result = _fibonacci(n);
    CallOutcome::Return(encode_u256(U256::from_u64(result as u64)))
}

} // verus!
