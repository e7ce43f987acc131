use koharu::damage::Damage;

#[test]
fn presenting_coalesces_all_damage_sources() {
    let mut damage = Damage::default();
    damage.canvas();
    damage.ui();
    damage.surface();
    assert!(damage.pending());
    damage.clear_presented();
    assert!(!damage.pending());
}

#[test]
fn initial_damage_is_pending_and_none_is_not() {
    assert!(Damage::initial().pending());
    assert!(!Damage::none().pending());
    let mut damage = Damage::none();
    damage.ui();
    damage.ui();
    assert!(damage.pending());
}
