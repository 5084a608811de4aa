use timetrack::checkpoint::Checkpoint;
use timetrack::time::Timestamp;

#[test]
fn a_fresh_checkpoint_is_blank_and_unregistered() {
    let c = Checkpoint::new();
    assert!(c.id.is_none());
    assert!(c.project.is_none());
    assert!(c.message.is_none());
    assert!(!c.registered);
}

#[test]
fn rounded_time_uses_the_quantum_rule() {
    let c = Checkpoint::at_time(Timestamp { secs: 9 * 3600 + 23 * 60 });
    assert_eq!(c.rounded_time().secs, 9 * 3600 + 30 * 60);
    let d = Checkpoint::at_time(Timestamp { secs: 9 * 3600 + 7 * 60 + 42 });
    assert_eq!(d.rounded_time().secs, 9 * 3600);
}

#[test]
fn duplicate_copies_every_field() {
    let mut c = Checkpoint::at_time(Timestamp { secs: 1234 * 60 });
    c.id = Some("doc-17".to_string());
    c.project = Some("alpha".to_string());
    c.message = Some("wrap up".to_string());
    c.registered = true;
    let d = c.duplicate();
    assert_eq!(d.id.as_deref(), Some("doc-17"));
    assert_eq!(d.time.secs, 1234 * 60);
    assert_eq!(d.project.as_deref(), Some("alpha"));
    assert_eq!(d.message.as_deref(), Some("wrap up"));
    assert!(d.registered);
}
