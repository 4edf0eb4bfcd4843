use vamq::queues::{ingress_enabled, next_backoff_secs, Backoff, INITIAL_BACKOFF_SECS, MAX_BACKOFF_SECS};

#[test]
fn backoff_doubles_up_to_a_minute() {
    let mut b = INITIAL_BACKOFF_SECS;
    let mut seen = vec![b];
    for _ in 0..8 {
        b = next_backoff_secs(b);
        seen.push(b);
    }
    assert_eq!(seen, vec![1, 2, 4, 8, 16, 32, 60, 60, 60]);
    assert_eq!(next_backoff_secs(MAX_BACKOFF_SECS), 60);
    assert_eq!(next_backoff_secs(30), 60);
}

#[test]
fn ingress_is_bound_only_at_an_address() {
    assert!(!ingress_enabled(""));
    assert!(ingress_enabled("tcp://127.0.0.1:5555"));
}

#[test]
fn schedule_resets_after_a_connection() {
    let mut s = Backoff::new();
    let waits: Vec<u64> = [false, false, false, true, false, false]
        .iter()
        .map(|c| s.wait_after(*c))
        .collect();
    assert_eq!(waits, vec![1, 2, 4, 1, 2, 4]);
    let mut s = Backoff::new();
    let waits: Vec<u64> = (0..9).map(|_| s.wait_after(false)).collect();
    assert_eq!(waits, vec![1, 2, 4, 8, 16, 32, 60, 60, 60]);
}
