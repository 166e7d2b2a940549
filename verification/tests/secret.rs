use gpui_shell::secret::{component_state_proof, random_component_state_proof};

#[test]
fn a_proof_spells_two_numbers_in_sixteen_digits_each() {
    assert_eq!(
        component_state_proof(0x1f, u64::MAX),
        "gpui-shell-state-000000000000001fffffffffffffffff"
    );
}

#[test]
fn no_two_runtimes_have_the_same_proof() {
    let first = random_component_state_proof();
    let second = random_component_state_proof();
    assert_eq!(first.len(), "gpui-shell-state-".len() + 32);
    assert!(first.starts_with("gpui-shell-state-"));
    assert_ne!(first, second);
}
