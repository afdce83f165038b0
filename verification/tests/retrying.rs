use idlemail::hub::HubMessage;
use idlemail::lifecycle::run_lifecycle;
use idlemail::mail::Mail;
use idlemail::retry::{RetryAgentState, RetryEntry, RetryMode};
use idlemail::scenario::{run_shutdown_flush_scenario, run_transient_retry_scenario};

fn mail(data: &[u8]) -> Mail {
    Mail::from_rfc822("src".to_string(), data.to_vec())
}

fn entry(due_time: u64, tag: &[u8]) -> RetryEntry {
    RetryEntry {
        due_time,
        dstname: "dst".to_string(),
        mail: mail(tag),
        file_path: None,
    }
}

#[test]
fn enqueue_sets_due_time_after_the_delay() {
    let mut agent = RetryAgentState::new_empty(60);
    agent.enqueue("dst".to_string(), mail(b"m"), None, 1000);
    assert_eq!(agent.queue.len(), 1);
    assert_eq!(agent.queue[0].due_time, 1060);
    assert_eq!(agent.queue[0].dstname, "dst");
}

#[test]
fn scan_before_the_due_time_emits_nothing() {
    let mut agent = RetryAgentState::new_empty(60);
    agent.enqueue("dst".to_string(), mail(b"m"), None, 1000);
    let due = agent.collect_due(1059);
    assert!(due.is_empty());
    assert_eq!(agent.queue.len(), 1);
}

#[test]
fn scan_at_the_due_time_emits_the_entry() {
    let mut agent = RetryAgentState::new_empty(60);
    agent.enqueue("dst".to_string(), mail(b"m"), None, 1000);
    let due = agent.collect_due(1060);
    assert_eq!(due.len(), 1);
    assert_eq!(due[0].dstname, "dst");
    assert_eq!(due[0].mail.data, b"m".to_vec());
    assert!(agent.queue.is_empty());
}

#[test]
fn scan_emits_only_the_due_head_in_order() {
    let mut agent = RetryAgentState::new_empty(10);
    agent.enqueue("dst".to_string(), mail(b"first"), None, 0);
    agent.enqueue("dst".to_string(), mail(b"second"), None, 5);
    agent.enqueue("dst".to_string(), mail(b"third"), None, 50);
    let due = agent.collect_due(15);
    assert_eq!(due.len(), 2);
    assert_eq!(due[0].mail.data, b"first".to_vec());
    assert_eq!(due[1].mail.data, b"second".to_vec());
    assert_eq!(agent.queue.len(), 1);
    assert_eq!(agent.queue[0].mail.data, b"third".to_vec());
}

#[test]
fn suspension_acknowledges_at_once_and_halts_emission() {
    let mut agent = RetryAgentState::new_empty(1);
    agent.enqueue("dst".to_string(), mail(b"m"), None, 0);
    let ack = agent.suspend();
    assert!(matches!(ack, HubMessage::RetryAgentSuspended));
    // Long past due, a suspended agent still emits nothing...
    let due = agent.collect_due(1_000_000);
    assert!(due.is_empty());
    assert_eq!(agent.queue.len(), 1);
    // ...but keeps accepting intake.
    agent.enqueue("dst".to_string(), mail(b"late"), None, 1_000_000);
    assert_eq!(agent.queue.len(), 2);
}

#[test]
fn restored_entries_are_ordered_by_due_time() {
    let restored = vec![entry(300, b"c"), entry(100, b"a"), entry(200, b"b")];
    let agent = RetryAgentState::from_restored(60, restored);
    assert_eq!(agent.queue.len(), 3);
    assert_eq!(agent.queue[0].due_time, 100);
    assert_eq!(agent.queue[1].due_time, 200);
    assert_eq!(agent.queue[2].due_time, 300);
}

#[test]
fn happy_path_delivers_in_one_attempt() {
    let outcome = run_transient_retry_scenario(0, 1, b"mail".to_vec());
    assert_eq!(outcome.attempts, 1);
    assert_eq!(outcome.failures_reported, 0);
    assert_eq!(outcome.retries_emitted, 0);
}

#[test]
fn two_transient_failures_take_exactly_three_attempts() {
    let outcome = run_transient_retry_scenario(2, 1, b"mail".to_vec());
    assert_eq!(outcome.attempts, 3);
    assert_eq!(outcome.failures_reported, 2);
    assert_eq!(outcome.retries_emitted, 2);
}

#[test]
fn many_transient_failures_still_converge() {
    let outcome = run_transient_retry_scenario(25, 7, b"mail".to_vec());
    assert_eq!(outcome.attempts, 26);
    assert_eq!(outcome.failures_reported, 25);
    assert_eq!(outcome.retries_emitted, 25);
}

#[test]
fn lifecycle_accounts_for_every_routed_mail() {
    // src fans out to d1 and d2; src2 routes to d1 alone.  d1 fails
    // its first delivery, so of the three routed deliveries exactly
    // one waits in the retry queue when the daemon stops.
    let mappings = vec![
        ("src".to_string(), vec!["d1".to_string(), "d2".to_string()]),
        ("src2".to_string(), vec!["d1".to_string()]),
    ];
    let destinations = vec![("d1".to_string(), 1u16), ("d2".to_string(), 0u16)];
    let emissions = vec![
        ("src".to_string(), b"first".to_vec()),
        ("src2".to_string(), b"second".to_vec()),
    ];
    let outcome = run_lifecycle(mappings, destinations, emissions, 60);
    assert!(matches!(outcome.agent.mode, RetryMode::Suspended));
    assert_eq!(outcome.delivered.len(), 2);
    assert_eq!(outcome.agent.queue.len(), 1);
    assert_eq!(outcome.agent.queue[0].mail.data, b"first".to_vec());
    assert_eq!(outcome.agent.queue[0].dstname, "d1");
}

#[test]
fn shutdown_flush_lands_the_failure_in_the_suspended_agent() {
    let agent = run_shutdown_flush_scenario(60, 1_000_000, b"late mail".to_vec());
    assert_eq!(agent.queue.len(), 1);
    assert_eq!(agent.queue[0].mail.data, b"late mail".to_vec());
    assert_eq!(agent.queue[0].dstname, "dst");
}
