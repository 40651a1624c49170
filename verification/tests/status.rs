//! Status message tests: the generation counter and the stale-clear rule.

use uicolors::status::StatusMessage;

#[test]
fn generations_count_up_from_one() {
    let mut m = StatusMessage::new();
    assert!(m.current.is_none());
    let id1 = m.set(String::from("copied"));
    assert_eq!(id1, 1);
    let id2 = m.set(String::from("copied again"));
    assert_eq!(id2, 2);
    match &m.current {
        Some((id, msg)) => {
            assert_eq!(*id, 2);
            assert_eq!(msg, "copied again");
        }
        None => panic!("expected a message"),
    }
}

#[test]
fn stale_clear_is_a_no_op() {
    let mut m = StatusMessage::new();
    let id1 = m.set(String::from("first"));
    let id2 = m.set(String::from("second"));
    // The delayed clear of the superseded message must not act.
    m.expire(id1);
    match &m.current {
        Some((id, msg)) => {
            assert_eq!(*id, id2);
            assert_eq!(msg, "second");
        }
        None => panic!("the superseded clear must not remove the message"),
    }
    // The clear for the current message acts.
    m.expire(id2);
    assert!(m.current.is_none());
    // Clearing when nothing is shown stays a no-op.
    m.expire(id2);
    assert!(m.current.is_none());
}
