//! The Solidity library of Merkle-tree zero values: the hash of the leaf
//! preimage, and the contract text around the zero values of each height.

use vstd::prelude::*;
use vstd::string::StringSliceAdditionalSpecFns;
use tiny_keccak::{Hasher, Keccak};

verus! {

/// The name of the Solidity library.
pub const CONTRACT_NAME: &'static str = "MerkleZeros";

/// The string whose Keccak-256 hash is the zero value of a leaf.
pub const LEAF_KECCAK_PREIMAGE: &'static str = "renegade";

/// The height of the Merkle tree.
pub const MERKLE_HEIGHT: usize = 32;

pub const CONTRACT_PREAMBLE: &'static str = "// SPDX-License-Identifier: MIT\npragma solidity ^0.8.0;\n\nlibrary ";

pub const CONTRACT_OPEN: &'static str = " {\n\t// LEAF_ZERO_VALUE is the keccak256 hash of the string \"";

pub const PREIMAGE_CLOSE: &'static str = "\"\n\n";

pub const CONSTANT_PREFIX: &'static str = "\tuint256 constant public ZERO_VALUE_";

pub const ASSIGN: &'static str = " = ";

pub const LINE_END: &'static str = ";\n";

pub const ROOT_PREFIX: &'static str = "\tuint256 constant public ZERO_VALUE_ROOT = ";

pub const GETTER_HEAD: &'static str = "\n\t/// @notice Get zero value for a given height\n\t/// @param height The height in the Merkle tree\n\t/// @return The zero value for the given height\n\tfunction getZeroValue(uint256 height) internal pure returns (uint256) {\n\t\t// Require height to be within valid range\n\t\trequire(height <= 31, \"MerkleZeros: height must be <= 31\");\n\n\t\tuint256 result;\n\t\tassembly {\n\t\t\tswitch height\n";

pub const CASE_PREFIX: &'static str = "\t\t\tcase ";

pub const CASE_MIDDLE: &'static str = " { result := ZERO_VALUE_";

pub const CASE_END: &'static str = " }\n";

pub const CONTRACT_CLOSE: &'static str = "\t\t}\n\t}\n}\n";

/// The Keccak-256 digest of a byte string.
pub uninterp spec fn keccak256_of(input: Seq<u8>) -> Seq<u8>;

/// Relies on tiny_keccak's `Keccak::v256`, `update` and `finalize`: the
/// 32-byte Keccak-256 digest of the input.
#[verifier::external_body]
fn keccak256(input: &[u8]) -> (r: [u8; 32])
    ensures
        r@ == keccak256_of(input@),
{
    let mut hasher = Keccak::v256();
    hasher.update(input);
    let mut output = [0u8; 32];
    hasher.finalize(&mut output);
    output
}

/// The Keccak-256 digest of the leaf preimage, whose big-endian reading
/// reduced into the field is the zero value of a leaf.
pub fn leaf_zero_digest() -> (r: [u8; 32])
    ensures
        r@ == keccak256_of(LEAF_KECCAK_PREIMAGE.spec_bytes()),
{
    keccak256(LEAF_KECCAK_PREIMAGE.as_bytes())
}

/// The decimal digits of `n`.
pub open spec fn decimal_spec(n: nat) -> Seq<u8>
    decreases n,
{
    if n < 10 {
        seq![(48 + n) as u8]
    } else {
        decimal_spec(n / 10).push((48 + n % 10) as u8)
    }
}

/// The line that declares the constant of height `i`.
pub open spec fn value_line(i: nat, value: Seq<u8>) -> Seq<u8> {
    CONSTANT_PREFIX.spec_bytes() + decimal_spec(i) + ASSIGN.spec_bytes() + value
        + LINE_END.spec_bytes()
}

/// The constants of heights below `n`; the constant of height `i` holds the
/// zero value `MERKLE_HEIGHT - 1 - i`.
pub open spec fn value_lines(values: Seq<Seq<u8>>, n: nat) -> Seq<u8>
    decreases n,
{
    if n == 0 {
        Seq::empty()
    } else {
        value_lines(values, (n - 1) as nat) + value_line(
            (n - 1) as nat,
            values[MERKLE_HEIGHT - n],
        )
    }
}

/// The switch case of height `i`.
pub open spec fn case_line(i: nat) -> Seq<u8> {
    CASE_PREFIX.spec_bytes() + decimal_spec(i) + CASE_MIDDLE.spec_bytes() + decimal_spec(i)
        + CASE_END.spec_bytes()
}

/// The switch cases of heights below `n`.
pub open spec fn case_lines(n: nat) -> Seq<u8>
    decreases n,
{
    if n == 0 {
        Seq::empty()
    } else {
        case_lines((n - 1) as nat) + case_line((n - 1) as nat)
    }
}

/// The contract text for the zero values of heights `0 ..= MERKLE_HEIGHT`,
/// each given in decimal, the last being the root.
pub open spec fn contract_spec(values: Seq<Seq<u8>>) -> Seq<u8> {
    CONTRACT_PREAMBLE.spec_bytes() + CONTRACT_NAME.spec_bytes() + CONTRACT_OPEN.spec_bytes()
        + LEAF_KECCAK_PREIMAGE.spec_bytes() + PREIMAGE_CLOSE.spec_bytes() + value_lines(
        values,
        MERKLE_HEIGHT as nat,
    ) + ROOT_PREFIX.spec_bytes() + values[MERKLE_HEIGHT as int] + LINE_END.spec_bytes()
        + GETTER_HEAD.spec_bytes() + case_lines(MERKLE_HEIGHT as nat)
        + CONTRACT_CLOSE.spec_bytes()
}

/// Appends `s` to `out`.
fn push_bytes(out: &mut Vec<u8>, s: &[u8])
    ensures
        final(out)@ == old(out)@ + s@,
{
    let mut i: usize = 0;
    while i < s.len()
        invariant
            i <= s@.len(),
            out@ == old(out)@ + s@.take(i as int),
        decreases s@.len() - i,
    {
        out.push(s[i]);
        i = i + 1;
        assert(out@ =~= old(out)@ + s@.take(i as int));
    }
    assert(s@.take(s@.len() as int) == s@);
}

/// Appends the decimal digits of `n` to `out`.
fn push_decimal(out: &mut Vec<u8>, n: usize)
    ensures
        final(out)@ == old(out)@ + decimal_spec(n as nat),
    decreases n,
{
    if n >= 10 {
        push_decimal(out, n / 10);
    }
    out.push((48 + n % 10) as u8);
    assert(final(out)@ =~= old(out)@ + decimal_spec(n as nat)) by {
        if n >= 10 {
            assert(decimal_spec(n as nat) == decimal_spec((n / 10) as nat).push(
                (48 + n % 10) as u8,
            ));
        }
    }
}

/// The text of the Solidity library that holds the zero value of each
/// height, given in decimal: `values[h]` is the zero value at height `h`,
/// and `values[MERKLE_HEIGHT]` is the root.
pub fn generate_solidity_contract(values: &Vec<Vec<u8>>) -> (r: Vec<u8>)
    requires
        values@.len() == MERKLE_HEIGHT + 1,
    ensures
        r@ == contract_spec(values@.map_values(|v: Vec<u8>| v@)),
{
    let ghost vs = values@.map_values(|v: Vec<u8>| v@);
    let mut out: Vec<u8> = Vec::new();
    push_bytes(&mut out, CONTRACT_PREAMBLE.as_bytes());
    push_bytes(&mut out, CONTRACT_NAME.as_bytes());
    push_bytes(&mut out, CONTRACT_OPEN.as_bytes());
    push_bytes(&mut out, LEAF_KECCAK_PREIMAGE.as_bytes());
    push_bytes(&mut out, PREIMAGE_CLOSE.as_bytes());
    let ghost head = out@;
    let mut i: usize = 0;
    while i < MERKLE_HEIGHT
        invariant
            values@.len() == MERKLE_HEIGHT + 1,
            vs == values@.map_values(|v: Vec<u8>| v@),
            i <= MERKLE_HEIGHT,
            out@ == head + value_lines(vs, i as nat),
        decreases MERKLE_HEIGHT - i,
    {
        push_bytes(&mut out, CONSTANT_PREFIX.as_bytes());
        push_decimal(&mut out, i);
        push_bytes(&mut out, ASSIGN.as_bytes());
        push_bytes(&mut out, values[MERKLE_HEIGHT - 1 - i].as_slice());
        push_bytes(&mut out, LINE_END.as_bytes());
        i = i + 1;
        assert(out@ =~= head + value_lines(vs, i as nat));
    }
    push_bytes(&mut out, ROOT_PREFIX.as_bytes());
    push_bytes(&mut out, values[MERKLE_HEIGHT].as_slice());
    push_bytes(&mut out, LINE_END.as_bytes());
    push_bytes(&mut out, GETTER_HEAD.as_bytes());
    let ghost mid = out@;
    let mut i: usize = 0;
    while i < MERKLE_HEIGHT
        invariant
            i <= MERKLE_HEIGHT,
            out@ == mid + case_lines(i as nat),
        decreases MERKLE_HEIGHT - i,
    {
        push_bytes(&mut out, CASE_PREFIX.as_bytes());
        push_decimal(&mut out, i);
        push_bytes(&mut out, CASE_MIDDLE.as_bytes());
        push_decimal(&mut out, i);
        push_bytes(&mut out, CASE_END.as_bytes());
        i = i + 1;
        assert(out@ =~= mid + case_lines(i as nat));
    }
    push_bytes(&mut out, CONTRACT_CLOSE.as_bytes());
    assert(out@ =~= contract_spec(vs));
    out
}

} // verus!
