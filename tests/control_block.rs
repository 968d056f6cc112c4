use fast_stm::control_block::ControlBlock;

#[test]
fn wait_after_change() {
    let ctrl = ControlBlock::new();
    ctrl.set_changed();
    assert!(ctrl.wait());
    assert!(!ctrl.is_live());
}

#[test]
fn wait_after_multiple_changes() {
    let ctrl = ControlBlock::new();
    ctrl.set_changed();
    ctrl.set_changed();
    ctrl.set_changed();
    ctrl.set_changed();
    assert!(ctrl.wait());
    assert!(!ctrl.is_live());
}
