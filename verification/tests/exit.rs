use game_core::exit::ExitStatus;

#[test]
fn exit_is_idempotent() {
    let mut status = ExitStatus::default();
    assert!(!status.is_exit());
    status.exit();
    assert!(status.is_exit());
    status.exit();
    assert!(status.is_exit());
}
