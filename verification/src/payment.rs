//! The payment gate: an extension whose type args carry a 33rd byte demands
//! that its own lock receive at least ten to that byte's power more capacity
//! among the outputs than among the inputs.

use vstd::prelude::*;

use crate::model::sum_capacity;
use crate::model::capacity_sum;
use crate::model::Transaction;

verus! {

/// Ten to the `e`.
pub open spec fn pow10(e: nat) -> nat
    decreases e,
{
    if e == 0 {
        1
    } else {
        10 * pow10((e - 1) as nat)
    }
}

/// Powers of ten are positive.
pub proof fn lemma_pow10_pos(e: nat)
    ensures
        pow10(e) >= 1,
    decreases e,
{
    if e > 0 {
        lemma_pow10_pos((e - 1) as nat);
    }
}

/// Powers of ten grow with the exponent.
pub proof fn lemma_pow10_mono(a: nat, b: nat)
    requires
        a <= b,
    ensures
        pow10(a) <= pow10(b),
    decreases b,
{
    if a < b {
        lemma_pow10_mono(a, (b - 1) as nat);
        lemma_pow10_pos((b - 1) as nat);
    }
}

/// Decides whether `diff` reaches ten to the `e`, without materializing a
/// power that could exceed the machine's integers.
fn at_least_pow10(diff: u128, e: u8) -> (r: bool)
    ensures
        r == (diff as int >= pow10(e as nat)),
{
    let mut p: u128 = 1;
    let mut k: u8 = 0;
    while k < e
        invariant
            k <= e,
            p == pow10(k as nat),
        decreases e - k,
    {
        let q = diff / 10;
        if p > q {
            proof {
                vstd::arithmetic::div_mod::lemma_fundamental_div_mod(diff as int, 10);
                vstd::arithmetic::div_mod::lemma_mod_bound(diff as int, 10);
                assert((diff as int) < 10 * (p as int));
                assert(pow10((k + 1) as nat) == 10 * pow10(k as nat));
                lemma_pow10_mono((k + 1) as nat, e as nat);
            }
            return false;
        }
        proof {
            vstd::arithmetic::div_mod::lemma_fundamental_div_mod(diff as int, 10);
            vstd::arithmetic::div_mod::lemma_mod_bound(diff as int, 10);
            assert(10 * (p as int) <= diff as int);
        }
        p = p * 10;
        k += 1;
    }
    diff >= p
}

/// The payment demand of the extension dependency at `pos` is met: either
/// its type args are no longer than 32 bytes (no demand), or the outputs pay
/// its lock at least ten to the 33rd byte's power more than the inputs do.
pub open spec fn spec_payment_ok(tx: Transaction, pos: int) -> bool {
    let ext = tx.cell_deps@[pos];
    match ext.type_script {
        None => true,
        Some(t) => if t.args@.len() <= 32 {
            true
        } else {
            sum_capacity(tx.outputs@, ext.lock_hash@) >= sum_capacity(tx.inputs@, ext.lock_hash@)
                + pow10(t.args@[32] as nat)
        },
    }
}

/// Decides the payment gate for the extension dependency at `pos`.
pub fn check_payment(tx: &Transaction, pos: usize) -> (r: bool)
    requires
        pos < tx.cell_deps@.len(),
    ensures
        r == spec_payment_ok(*tx, pos as int),
{
    let ext = &tx.cell_deps[pos];
    match &ext.type_script {
        None => true,
        Some(t) => {
            if t.args.len() <= 32 {
                true
            } else {
                let e = t.args[32];
                let in_sum = capacity_sum(&tx.inputs, &ext.lock_hash);
                let out_sum = capacity_sum(&tx.outputs, &ext.lock_hash);
                if out_sum < in_sum {
                    proof {
                        lemma_pow10_pos(e as nat);
                    }
                    false
                } else {
                    at_least_pow10(out_sum - in_sum, e)
                }
            }
        },
    }
}

} // verus!
