//! Numeric semantics of the binary arithmetic opcodes: wrapping addition,
//! subtraction and multiplication, checked division, and wrapping
//! exponentiation, each within the byte width of the operand tag.

use vstd::prelude::*;

use vstd::arithmetic::div_mod::{
    lemma_mod_multiples_vanish, lemma_mul_mod_noop_general, lemma_small_mod,
};
use vstd::arithmetic::power::{
    lemma_pow0, lemma_pow1, lemma_pow_adds, lemma_pow_mod_noop, lemma_pow_multiplies, pow,
};

use crate::big_endian::{lemma_pow256_values, pow256};
use crate::h_type::{width, HType};
use crate::opcode::AluOp;

verus! {

/// The value an arithmetic opcode produces from the values of its two
/// operands, within a width of `w` bytes. Addition, subtraction,
/// multiplication and exponentiation wrap modulo `pow256(w)`; division is
/// exact and defined for a nonzero divisor.
pub open spec fn alu_result(op: AluOp, w: nat, v1: nat, v2: nat) -> nat
    recommends
        op == AluOp::Div ==> v2 > 0,
{
    let m = pow256(w) as int;
    match op {
        AluOp::Add => (((v1 + v2) as int % m) as nat),
        AluOp::Sub => (((v1 - v2) % m) as nat),
        AluOp::Mul => (((v1 * v2) as int % m) as nat),
        AluOp::Div => v1 / v2,
        AluOp::Pwr => (pow(v1 as int, v2) % m) as nat,
    }
}

/// The wrapping modulus of a tag, as a machine integer.
pub fn mod_of(t: HType) -> (m: u128)
    ensures
        m == pow256(width(t)),
        0x100 <= m <= 0x1_0000_0000_0000_0000,
{
    proof {
        lemma_pow256_values();
    }
    match t {
        HType::Bool => 0x100,
        HType::U8 => 0x100,
        HType::U16 => 0x10000,
        HType::U32 => 0x1_0000_0000,
        HType::U64 => 0x1_0000_0000_0000_0000,
    }
}

/// Computes `pow(base, exp) % m` by binary exponentiation, wrapping at `m`.
pub fn pow_mod(base: u64, exp: u64, m: u128) -> (r: u64)
    requires
        1 < m <= 0x1_0000_0000_0000_0000,
    ensures
        r as int == pow(base as int, exp as nat) % (m as int),
        r < m,
{
    let mut result: u128 = 1;
    let mut b: u128 = (base as u128) % m;
    let mut e: u64 = exp;
    proof {
        lemma_pow_mod_noop(base as int, exp as nat, m as int);
        lemma_pow0(b as int);
        lemma_small_mod(1nat, m as nat);
    }
    while e > 0
        invariant
            1 < m <= 0x1_0000_0000_0000_0000,
            b < m,
            result < m,
            (result as int * pow(b as int, e as nat)) % (m as int) == pow(base as int, exp as nat)
                % (m as int),
        decreases e,
    {
        let ghost res0 = result as int;
        let ghost b0 = b as int;
        let ghost e0 = e as nat;
        let ghost mi = m as int;
        let ghost k = (e / 2) as nat;
        proof {
            assert((result as int) * (b as int) <= (m - 1) * (m - 1)) by (nonlinear_arith)
                requires
                    result <= m - 1,
                    b <= m - 1,
                    m > 1,
            ;
            assert((b as int) * (b as int) <= (m - 1) * (m - 1)) by (nonlinear_arith)
                requires
                    b <= m - 1,
                    m > 1,
            ;
            assert((m - 1) * (m - 1) < 0x1_0000_0000_0000_0000_0000_0000_0000_0000)
                by (nonlinear_arith)
                requires
                    1 < m <= 0x1_0000_0000_0000_0000,
            ;
        }
        if e % 2 == 1 {
            result = ((result * b) % m) as u128;
        }
        b = ((b * b) % m) as u128;
        e = e / 2;
        proof {
            // pow(b0 * b0 % m, k) % m == pow(b0, 2k) % m
            lemma_pow_mod_noop(b0 * b0, k, mi);
            lemma_pow_multiplies(b0, 2, k);
            assert(pow(b0, 2) == b0 * b0) by {
                lemma_pow1(b0);
                lemma_pow_adds(b0, 1, 1);
            }
            assert(pow(b as int, e as nat) % mi == pow(b0, (2 * k) as nat) % mi);
            if e0 % 2 == 1 {
                assert(e0 == 2 * k + 1);
                assert(pow(b0, e0) == b0 * pow(b0, (2 * k) as nat)) by {
                    lemma_pow1(b0);
                    lemma_pow_adds(b0, 1, (2 * k) as nat);
                }
                // result = res0 * b0 % m; goal: (result * pow(b_new, k)) % m unchanged
                assert((((res0 * b0) % mi) * (pow(b as int, e as nat) % mi)) % mi == ((res0 * b0)
                    * pow(b0, (2 * k) as nat)) % mi) by {
                    lemma_mul_mod_noop_general(res0 * b0, pow(b0, (2 * k) as nat), mi);
                    lemma_mul_mod_noop_general((res0 * b0) % mi, pow(b0, (2 * k) as nat), mi);
                }
                assert((res0 * b0) * pow(b0, (2 * k) as nat) == res0 * pow(b0, e0))
                    by (nonlinear_arith)
                    requires
                        pow(b0, e0) == b0 * pow(b0, (2 * k) as nat),
                ;
                assert((result as int * pow(b as int, e as nat)) % mi == (res0 * pow(b0, e0))
                    % mi) by {
                    lemma_mul_mod_noop_general(result as int, pow(b as int, e as nat), mi);
                }
            } else {
                assert(e0 == 2 * k);
                assert((result as int * pow(b as int, e as nat)) % mi == (res0 * pow(b0, e0))
                    % mi) by {
                    lemma_mul_mod_noop_general(result as int, pow(b as int, e as nat), mi);
                    lemma_mul_mod_noop_general(res0, pow(b0, (2 * k) as nat), mi);
                }
            }
        }
    }
    proof {
        lemma_pow0(b as int);
        lemma_small_mod(result as nat, m as nat);
    }
    result as u64
}

/// Computes the arithmetic opcode's value within the width of the tag.
pub fn alu_exec(op: AluOp, t: HType, v1: u64, v2: u64) -> (r: u64)
    requires
        v1 < pow256(width(t)),
        v2 < pow256(width(t)),
        op == AluOp::Div ==> v2 != 0,
    ensures
        r == alu_result(op, width(t), v1 as nat, v2 as nat),
        r < pow256(width(t)),
{
    proof {
        lemma_pow256_values();
    }
    let m = mod_of(t);
    let ghost mi = m as int;
    match op {
        AluOp::Add => (((v1 as u128) + (v2 as u128)) % m) as u64,
        AluOp::Sub => {
            let r = (((v1 as u128) + m - (v2 as u128)) % m) as u64;
            proof {
                lemma_mod_multiples_vanish(1, v1 - v2, mi);
            }
            r
        },
        AluOp::Mul => {
            proof {
                assert((v1 as int) * (v2 as int) < 0x1_0000_0000_0000_0000_0000_0000_0000_0000)
                    by (nonlinear_arith)
                    requires
                        v1 <= 0xffff_ffff_ffff_ffff,
                        v2 <= 0xffff_ffff_ffff_ffff,
                ;
            }
            (((v1 as u128) * (v2 as u128)) % m) as u64
        },
        AluOp::Div => v1 / v2,
        AluOp::Pwr => pow_mod(v1, v2, m),
    }
}

} // verus!
