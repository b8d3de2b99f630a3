//! The in-circuit side of a FRI-based proof system, modelled over plain
//! values so that its logic can be verified: a Fiat-Shamir transcript that
//! packs small-field elements into native-field entries, a sponge tree
//! hasher built on an algebraic permutation, and the verifier that sequences
//! challenge derivation, quotient-consistency checks, and FRI folding into a
//! single validity flag.

pub mod challenges;
pub mod extension;
pub mod field;
pub mod fri;
pub mod native;
pub mod sponge;
pub mod traits;
pub mod transcript;
pub mod tree_hasher;
pub mod verifier_main;
pub mod verifier_structs;

use vstd::prelude::*;

verus! {

/// Combines a list of validity flags into one boolean without short-circuiting:
/// the result is true exactly when every flag is true.
pub fn smart_and(flags: &Vec<bool>) -> (r: bool)
    requires
        flags@.len() > 0,
    ensures
        r == (forall|i: int| 0 <= i < flags@.len() ==> flags@[i]),
{
    let mut all_true: bool = true;
    let mut idx: usize = 0;
    while idx < flags.len()
        invariant
            0 <= idx <= flags@.len(),
            all_true == (forall|i: int| 0 <= i < idx ==> flags@[i]),
        decreases flags@.len() - idx,
    {
        all_true = all_true && flags[idx];
        idx += 1;
    }
    all_true
}

} // verus!
