//! Loading contract bytecode: raw PolkaVM blobs, and hex-encoded EVM deployment code split
//! into its init and runtime parts.

use vstd::prelude::*;
use vstd::string::StringSliceAdditionalSpecFns;
use vstd::slice::{slice_subrange, slice_to_vec};

verus! {

/// Where the arithmetic benchmark's PolkaVM blob is read from.
pub const POLKAVM_BYTECODE_PATH: &'static str = "bytecode/polkavm/arithmetic.polkavm";

/// Where the arithmetic benchmark's hex-encoded EVM code is read from.
pub const EVM_BYTECODE_PATH: &'static str = "bytecode/evm/arithmetic.bin";

/// Why bytecode could not be loaded.
#[derive(Debug, PartialEq, Eq)]
pub enum LoadError {
    /// The file at `path` could not be read, for the given reason.
    Read { path: String, reason: String },
    /// The EVM file is not valid hex.
    InvalidHex(String),
}

/// The bytes read from the file at `path`, or the read failure naming the path.
pub fn load_raw_bytecode(path: &str, read: Result<Vec<u8>, String>) -> (r: Result<Vec<u8>, LoadError>)
    ensures
        match read {
            Ok(bytes) => r == Ok::<Vec<u8>, LoadError>(bytes),
            Err(reason) => r matches Err(LoadError::Read { path: p, reason: e }) && p@ == path@ && e == reason,
        },
{
    match read {
        Ok(bytes) => Ok(bytes),
        Err(reason) => Err(LoadError::Read { path: path.to_owned(), reason }),
    }
}

/// The arithmetic benchmark's PolkaVM blob, given what reading its file gave.
pub fn load_polkavm_bytecode(read: Result<Vec<u8>, String>) -> (r: Result<Vec<u8>, LoadError>)
    ensures
        match read {
            Ok(bytes) => r == Ok::<Vec<u8>, LoadError>(bytes),
            Err(reason) => r matches Err(LoadError::Read { path: p, reason: e }) && p@ == POLKAVM_BYTECODE_PATH@
                && e == reason,
        },
{
    load_raw_bytecode(POLKAVM_BYTECODE_PATH, read)
}

/// The benchmark contracts built for PolkaVM.
#[derive(Clone, Copy, Debug, PartialEq, Eq)]
pub enum WarpContract {
    Arithmetic,
    Loop,
    Storage,
    Keccak256,
}

/// Where a benchmark contract's PolkaVM blob is read from: `bytecode/polkavm/`, the
/// contract's name in lower case, and `.polkavm`.
pub open spec fn polkavm_bytecode_path_spec(contract: WarpContract) -> &'static str {
    match contract {
        WarpContract::Arithmetic => POLKAVM_BYTECODE_PATH,
        WarpContract::Loop => "bytecode/polkavm/loop.polkavm",
        WarpContract::Storage => "bytecode/polkavm/storage.polkavm",
        WarpContract::Keccak256 => "bytecode/polkavm/keccak256.polkavm",
    }
}

/// Where a benchmark contract's PolkaVM blob is read from.
pub fn polkavm_bytecode_path(contract: WarpContract) -> (r: &'static str)
    ensures
        r == polkavm_bytecode_path_spec(contract),
{
    match contract {
        WarpContract::Arithmetic => POLKAVM_BYTECODE_PATH,
        WarpContract::Loop => "bytecode/polkavm/loop.polkavm",
        WarpContract::Storage => "bytecode/polkavm/storage.polkavm",
        WarpContract::Keccak256 => "bytecode/polkavm/keccak256.polkavm",
    }
}

/// A benchmark contract's PolkaVM blob, given what reading its file gave; the read failure
/// names the contract's path.
pub fn load_contract_bytecode(contract: WarpContract, read: Result<Vec<u8>, String>) -> (r: Result<Vec<u8>, LoadError>)
    ensures
        match read {
            Ok(bytes) => r == Ok::<Vec<u8>, LoadError>(bytes),
            Err(reason) => r matches Err(LoadError::Read { path: p, reason: e })
                && p@ == polkavm_bytecode_path_spec(contract)@ && e == reason,
        },
{
    load_raw_bytecode(polkavm_bytecode_path(contract), read)
}

/// The value of an ASCII hex digit.
pub open spec fn hex_value(c: u8) -> Option<nat> {
    if 48 <= c <= 57 {
        Some((c - 48) as nat)
    } else if 97 <= c <= 102 {
        Some((c - 87) as nat)
    } else if 65 <= c <= 70 {
        Some((c - 55) as nat)
    } else {
        None
    }
}

/// The bytes written by pairs of hex digits; `None` for an odd count or a non-digit.
pub open spec fn decode_hex_digits(s: Seq<u8>) -> Option<Seq<u8>>
    decreases s.len(),
{
    if s.len() == 0 {
        Some(Seq::empty())
    } else if s.len() == 1 {
        None
    } else {
        match (hex_value(s[0]), hex_value(s[1]), decode_hex_digits(s.subrange(2, s.len() as int))) {
            (Some(h), Some(l), Some(rest)) => Some(seq![(h * 16 + l) as u8] + rest),
            _ => None,
        }
    }
}

/// Hex decoding as `alloy_primitives::hex::decode` documents it: an optional `0x` (or `0X`)
/// prefix, then an even number of hex digits of either case.
pub open spec fn hex_decoded(s: Seq<u8>) -> Option<Seq<u8>> {
    if s.len() >= 2 && s[0] == 48 && (s[1] == 120 || s[1] == 88) {
        decode_hex_digits(s.subrange(2, s.len() as int))
    } else {
        decode_hex_digits(s)
    }
}

/// `alloy_primitives::hex::decode`: the bytes written by a hex string, or the decoder's error
/// as its display text. Nothing is claimed of that text.
#[verifier::external_body]
fn decode_hex(s: &[u8]) -> (r: Result<Vec<u8>, String>)
    ensures
        r is Ok <==> hex_decoded(s@) is Some,
        r matches Ok(v) ==> v@ == hex_decoded(s@).unwrap(),
{
    match alloy_primitives::hex::decode(s) {
        Ok(v) => Ok(v),
        Err(e) => Err(format!("{}", e)),
    }
}

/// Whether `c` has the Unicode `White_Space` property, the whitespace of `str::trim`.
pub open spec fn is_unicode_whitespace(c: char) -> bool {
    let v = c as u32;
    (0x09 <= v <= 0x0d) || v == 0x20 || v == 0x85 || v == 0xa0 || v == 0x1680
        || (0x2000 <= v <= 0x200a) || v == 0x2028 || v == 0x2029 || v == 0x202f
        || v == 0x205f || v == 0x3000
}

/// `s` without its leading whitespace.
pub open spec fn trim_front(s: Seq<char>) -> Seq<char>
    decreases s.len(),
{
    if s.len() > 0 && is_unicode_whitespace(s[0]) {
        trim_front(s.drop_first())
    } else {
        s
    }
}

/// `s` without its trailing whitespace.
pub open spec fn trim_back(s: Seq<char>) -> Seq<char>
    decreases s.len(),
{
    if s.len() > 0 && is_unicode_whitespace(s.last()) {
        trim_back(s.drop_last())
    } else {
        s
    }
}

/// A string with leading and trailing whitespace removed, as `str::trim` documents it.
pub open spec fn trimmed(s: Seq<char>) -> Seq<char> {
    trim_back(trim_front(s))
}

/// `str::trim`: the string without leading and trailing whitespace.
#[verifier::external_body]
fn trim(s: &str) -> (r: &str)
    ensures
        r@ == trimmed(s@),
{
    s.trim()
}

/// The index of the first `b` in `s`.
pub open spec fn first_index_of(s: Seq<u8>, b: u8) -> Option<nat>
    decreases s.len(),
{
    if s.len() == 0 {
        None
    } else if s[0] == b {
        Some(0)
    } else {
        match first_index_of(s.drop_first(), b) {
            Some(i) => Some(i + 1),
            None => None,
        }
    }
}

/// Where the init code of Solidity deployment code ends: just after the first RETURN
/// (0xf3), one byte further when the next byte is 0xf3 or 0x90; 0 without a RETURN.
pub open spec fn evm_init_len(full: Seq<u8>) -> nat {
    let first = match first_index_of(full, 0xf3) {
        Some(i) => i + 1,
        None => 0,
    };
    if first > 0 && first < full.len() && (full[first as int] == 0xf3 || full[first as int] == 0x90) {
        first + 1
    } else {
        first
    }
}

/// Deployment code split into init and runtime code; all of it is init code when the
/// split leaves no runtime code.
pub open spec fn evm_split(full: Seq<u8>) -> (Seq<u8>, Seq<u8>) {
    let n = evm_init_len(full);
    if full.len() > n && n > 0 {
        (full.subrange(0, n as int), full.subrange(n as int, full.len() as int))
    } else {
        (full, Seq::empty())
    }
}

/// Splitting loses and adds nothing: init code followed by runtime code is the whole
/// deployment code, and the init code ends with a RETURN whenever there is runtime code.
pub proof fn lemma_evm_split_concat(full: Seq<u8>)
    ensures
        evm_split(full).0 + evm_split(full).1 == full,
        evm_split(full).1.len() > 0 ==> evm_split(full).0.contains(0xf3),
{
    let n = evm_init_len(full);
    if full.len() > n && n > 0 {
        assert(full.subrange(0, n as int) + full.subrange(n as int, full.len() as int) =~= full);
        lemma_first_index(full, 0xf3);
        let i = first_index_of(full, 0xf3).unwrap();
        assert(full.subrange(0, n as int)[i as int] == 0xf3);
    } else {
        assert(full + Seq::<u8>::empty() =~= full);
    }
}

/// A found index holds the byte and lies inside the sequence.
pub proof fn lemma_first_index(s: Seq<u8>, b: u8)
    ensures
        first_index_of(s, b) matches Some(i) ==> i < s.len() && s[i as int] == b,
    decreases s.len(),
{
    if s.len() > 0 && s[0] != b {
        lemma_first_index(s.drop_first(), b);
    }
}

/// The first occurrence of `b` is found: a found index holds `b` and no earlier byte does,
/// and nothing is found exactly when no byte is `b`.
pub proof fn lemma_first_index_is_first(s: Seq<u8>, b: u8)
    ensures
        match first_index_of(s, b) {
            Some(i) => i < s.len() && s[i as int] == b && forall|j: int| 0 <= j < i ==> s[j] != b,
            None => forall|j: int| 0 <= j < s.len() ==> s[j] != b,
        },
    decreases s.len(),
{
    if s.len() > 0 && s[0] != b {
        lemma_first_index_is_first(s.drop_first(), b);
        match first_index_of(s.drop_first(), b) {
            Some(i) => {
                assert forall|j: int| 0 <= j < i + 1 implies s[j] != b by {
                    if j > 0 {
                        assert(s[j] == s.drop_first()[j - 1]);
                    }
                }
            },
            None => {
                assert forall|j: int| 0 <= j < s.len() implies s[j] != b by {
                    if j > 0 {
                        assert(s[j] == s.drop_first()[j - 1]);
                    }
                }
            },
        }
    }
}

/// The init code ends at the first RETURN (0xf3): when byte `i` is a RETURN and none comes
/// before it, the init code is the first `i + 1` bytes, one more when the next byte is 0xf3 or
/// 0x90; without a RETURN there is no init code to split off.
pub proof fn lemma_init_ends_at_first_return(full: Seq<u8>, i: int)
    ensures
        0 <= i < full.len() && full[i] == 0xf3u8 && (forall|j: int| 0 <= j < i ==> full[j] != 0xf3u8)
            ==> evm_init_len(full) == if i + 1 < full.len() && (full[i + 1] == 0xf3u8 || full[i + 1] == 0x90u8) {
                i + 2
            } else {
                i + 1
            },
        (forall|j: int| 0 <= j < full.len() ==> full[j] != 0xf3u8) ==> evm_init_len(full) == 0,
{
    lemma_first_index_is_first(full, 0xf3);
    if 0 <= i < full.len() && full[i] == 0xf3u8 && (forall|j: int| 0 <= j < i ==> full[j] != 0xf3u8) {
        match first_index_of(full, 0xf3) {
            Some(k) => {
                if (k as int) < i {
                    assert(full[k as int] != 0xf3u8);
                }
                if (k as int) > i {
                    assert(full[i] != 0xf3u8);
                }
            },
            None => {
                assert(full[i] != 0xf3u8);
            },
        }
    }
    if forall|j: int| 0 <= j < full.len() ==> full[j] != 0xf3u8 {
        if let Some(k) = first_index_of(full, 0xf3) {
            assert(full[k as int] == 0xf3u8);
        }
    }
}

/// Finds the first RETURN opcode.
fn find_return(full: &[u8]) -> (r: Option<usize>)
    ensures
        match r {
            Some(j) => first_index_of(full@, 0xf3) == Some(j as nat) && j < full@.len(),
            None => first_index_of(full@, 0xf3) is None,
        },
        match r {
            Some(j) => full@[j as int] == 0xf3 && forall|k: int| 0 <= k < j ==> full@[k] != 0xf3,
            None => forall|k: int| 0 <= k < full@.len() ==> full@[k] != 0xf3,
        },
{
    let n = full.len();
    let mut i: usize = 0;
    proof {
        assert(full@.subrange(0, n as int) =~= full@);
    }
    while i < n
        invariant
            i <= n,
            n == full@.len(),
            forall|j: int| 0 <= j < i ==> full@[j] != 0xf3,
            first_index_of(full@, 0xf3) == match first_index_of(full@.subrange(i as int, n as int), 0xf3) {
                Some(k) => Some((k + i) as nat),
                None => None::<nat>,
            },
        decreases n - i,
    {
        proof {
            assert(full@.subrange(i as int, n as int).drop_first() =~= full@.subrange(i + 1, n as int));
        }
        if full[i] == 0xf3 {
            return Some(i);
        }
        i = i + 1;
    }
    None
}

/// Splits deployment code into init and runtime code.
pub fn split_evm_bytecode(full: &[u8]) -> (r: (Vec<u8>, Vec<u8>))
    ensures
        r.0@ == evm_split(full@).0,
        r.1@ == evm_split(full@).1,
{
    let n = full.len();
    let found = find_return(full);
    let first: usize = match found {
        Some(i) => i + 1,
        None => 0,
    };
    let init_len = if first > 0 && first < n && (full[first] == 0xf3 || full[first] == 0x90) {
        first + 1
    } else {
        first
    };
    if n > init_len && init_len > 0 {
        let init = slice_subrange(full, 0, init_len);
        let runtime = slice_subrange(full, init_len, n);
        (slice_to_vec(init), slice_to_vec(runtime))
    } else {
        (slice_to_vec(full), Vec::new())
    }
}

/// The text of a hex EVM file after trimming and one optional `0x` prefix.
pub open spec fn hex_body(text: Seq<char>) -> Seq<u8> {
    let t = trimmed_bytes(text);
    if t.len() >= 2 && t[0] == 48 && t[1] == 120 {
        t.subrange(2, t.len() as int)
    } else {
        t
    }
}

/// The UTF-8 bytes of the trimmed text.
pub open spec fn trimmed_bytes(text: Seq<char>) -> Seq<u8> {
    vstd::utf8::encode_utf8(trimmed(text))
}

/// EVM deployment code from the text of a hex file: trimmed, stripped of one `0x` prefix,
/// hex-decoded, and split into init and runtime code.
pub fn parse_evm_bytecode(text: &str) -> (r: Result<(Vec<u8>, Vec<u8>), LoadError>)
    ensures
        match hex_decoded(hex_body(text@)) {
            None => r matches Err(LoadError::InvalidHex(_)),
            Some(full) => r matches Ok(p) && p.0@ == evm_split(full).0 && p.1@ == evm_split(full).1,
        },
{
    let t = trim(text);
    let tb = t.as_bytes();
    let body = if tb.len() >= 2 && tb[0] == 48 && tb[1] == 120 {
        slice_subrange(tb, 2, tb.len())
    } else {
        tb
    };
    match decode_hex(body) {
        Err(detail) => Err(LoadError::InvalidHex(detail)),
        Ok(full) => Ok(split_evm_bytecode(full.as_slice())),
    }
}

} // verus!
