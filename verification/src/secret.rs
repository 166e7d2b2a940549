//! The proof that a handle to a component state was made by the runtime and not by a script.
use crate::text;
use std::hash::BuildHasher;
use std::hash::RandomState;
use vstd::prelude::*;
use vstd::string::*;

verus! {

/// Fresh keys, from `std::hash::RandomState::new`. The operating system seeds them, so nothing is
/// claimed of them.
#[verifier::external_body]
fn random_keys() -> (r: RandomState) {
    RandomState::new()
}

/// What the keys make of a number, from `std::hash::BuildHasher::hash_one`. It depends on keys that
/// are not known, so nothing is claimed of it.
#[verifier::external_body]
fn hashed(keys: &RandomState, round: u64) -> (r: u64) {
    keys.hash_one(round)
}

/// The proof that two random numbers make.
pub open spec fn proof_text(first: u64, second: u64) -> Seq<char> {
    "gpui-shell-state-"@ + text::hex_text(first as nat, 16) + text::hex_text(second as nat, 16)
}

/// The proof that two random numbers make.
pub fn component_state_proof(first: u64, second: u64) -> (r: String)
    ensures
        r@ == proof_text(first, second),
{
    let left = text::hex(first, 16);
    let right = text::hex(second, 16);
    text::join3("gpui-shell-state-", left.as_str(), right.as_str())
}

/// A proof that no script can make up.
pub fn random_component_state_proof() -> (r: String)
    ensures
        exists|first: u64, second: u64| r@ == #[trigger] proof_text(first, second),
{
    let first: u64 = hashed(&random_keys(), 0);
    let second: u64 = hashed(&random_keys(), 1);
    component_state_proof(first, second)
}

/// Two proofs are alike only where the random numbers they were made of are.
pub proof fn law_different_numbers_make_different_proofs(a: u64, b: u64, c: u64, d: u64)
    ensures
        proof_text(a, b) == proof_text(c, d) ==> a == c && b == d,
{
    if proof_text(a, b) == proof_text(c, d) {
        let front = "gpui-shell-state-"@;
        let n = front.len() as int;
        text::law_hexadecimal_digits_tell_numbers_apart(a, c);
        text::law_hexadecimal_digits_tell_numbers_apart(b, d);
        text::law_hexadecimal_digits_tell_numbers_apart(c, a);
        text::law_hexadecimal_digits_tell_numbers_apart(d, b);
        let left = proof_text(a, b);
        let right = proof_text(c, d);
        assert(left.subrange(n, n + 16) =~= text::hex_text(a as nat, 16));
        assert(right.subrange(n, n + 16) =~= text::hex_text(c as nat, 16));
        assert(left.subrange(n + 16, n + 32) =~= text::hex_text(b as nat, 16));
        assert(right.subrange(n + 16, n + 32) =~= text::hex_text(d as nat, 16));
    }
}

} // verus!
