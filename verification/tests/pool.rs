use simple_webrtc_channel::{plan_keep, retain_marked, PollStatus};

#[test]
fn ready_connection_and_earlier_failures_leave() {
    let keep = plan_keep(
        &vec![PollStatus::Pending, PollStatus::Failed, PollStatus::Ready],
        &vec![true, true, true, true, false],
    );
    assert_eq!(keep, vec![true, false, false, true, true]);
}

#[test]
fn failures_alone_keep_expired_connections() {
    let keep = plan_keep(
        &vec![PollStatus::Failed, PollStatus::Pending, PollStatus::Pending],
        &vec![false, true, true],
    );
    assert_eq!(keep, vec![false, true, true]);
}

#[test]
fn all_pending_drops_expired() {
    let keep = plan_keep(
        &vec![PollStatus::Pending, PollStatus::Pending, PollStatus::Pending],
        &vec![true, false, true],
    );
    assert_eq!(keep, vec![false, true, false]);
}

#[test]
fn empty_pool_keeps_nothing() {
    assert!(plan_keep(&vec![], &vec![]).is_empty());
}

#[test]
fn retain_marked_keeps_order() {
    let kept = retain_marked(vec!["a", "b", "c", "d"], &vec![true, false, true, true]);
    assert_eq!(kept, vec!["a", "c", "d"]);
    let none: Vec<&str> = retain_marked(vec!["a"], &vec![false]);
    assert!(none.is_empty());
}
