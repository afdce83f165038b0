use idlemail::config::{
    AuthMethod, Encryption, ExecDestinationConfig, SmtpDestinationConfig, TestDestinationConfig,
};
use idlemail::dest::{
    exec_plan, exec_report_failure, report_failed_delivery, smtp_plan, ChildRun,
    SmtpAuthMechanism, SmtpPlanError, TestDestinationState,
};
use idlemail::mail::Mail;
use idlemail::source::{
    imap_retry_decision, mailbox_path, process_unseen, sequence_set_string, ImapRetryDecision,
    MailPath,
};

fn smtp_config(recipient: &str, auth: Option<AuthMethod>) -> SmtpDestinationConfig {
    SmtpDestinationConfig {
        server: "mail.example.org".to_string(),
        port: 587,
        encryption: Encryption::Starttls,
        auth,
        recipient: recipient.to_string(),
    }
}

#[test]
fn test_destination_fails_then_accepts() {
    let mail = Mail::from_rfc822("src".to_string(), b"m".to_vec());
    let mut dst = TestDestinationState::new(&TestDestinationConfig { fail_n_first: 2 });
    assert!(!dst.deliver(&mail));
    assert!(!dst.deliver(&mail));
    assert!(dst.deliver(&mail));
    assert!(dst.deliver(&mail));
}

#[test]
fn permanent_failures_are_dropped_not_retried() {
    assert!(!report_failed_delivery(true));
    assert!(report_failed_delivery(false));
}

#[test]
fn smtp_plan_accepts_a_valid_recipient() {
    let plan = smtp_plan(&smtp_config("user@example.org", None)).expect("recipient is valid");
    assert_eq!(plan.server, "mail.example.org");
    assert_eq!(plan.port, 587);
    assert!(matches!(plan.encryption, Encryption::Starttls));
    assert!(plan.credentials.is_none());
    assert!(plan.mechanism.is_none());
    assert_eq!(plan.recipient.to_string(), "user@example.org");
}

#[test]
fn smtp_plan_rejects_an_invalid_recipient() {
    let r = smtp_plan(&smtp_config("not an address", None));
    assert!(matches!(r, Err(SmtpPlanError::InvalidRecipient)));
    let r = smtp_plan(&smtp_config("", None));
    assert!(matches!(r, Err(SmtpPlanError::InvalidRecipient)));
}

#[test]
fn smtp_plan_carries_the_configured_credentials() {
    let auth = Some(AuthMethod::Login {
        user: "login-user".to_string(),
        password: "SECRET-REDACTED".to_string(),
    });
    let plan = smtp_plan(&smtp_config("user@example.org", auth)).unwrap();
    let (user, _) = plan.credentials.expect("credentials configured");
    assert_eq!(user, "login-user");
    assert!(matches!(plan.mechanism, Some(SmtpAuthMechanism::Login)));

    let auth = Some(AuthMethod::Plain {
        user: "plain-user".to_string(),
        password: "SECRET-REDACTED".to_string(),
    });
    let plan = smtp_plan(&smtp_config("user@example.org", auth)).unwrap();
    assert!(matches!(plan.mechanism, Some(SmtpAuthMechanism::Plain)));

    let plan = smtp_plan(&smtp_config("user@example.org", Some(AuthMethod::NoAuth))).unwrap();
    assert!(plan.credentials.is_none());
    assert!(plan.mechanism.is_none());
}

#[test]
fn exec_plan_binds_arguments_environment_and_stdin() {
    let config = ExecDestinationConfig {
        executable: "/usr/local/bin/deliver".to_string(),
        arguments: Some(vec!["ARG0".to_string(), "ARG1".to_string()]),
        environment: Some(vec![(
            "ENV_IDLEMAIL_TESTARG".to_string(),
            "the correct testvalue".to_string(),
        )]),
    };
    let mail = Mail::from_rfc822("unit-test source 0".to_string(), b"body bytes".to_vec());
    let plan = exec_plan(&"unit-test exec dst".to_string(), &config, &mail);
    assert_eq!(plan.executable, "/usr/local/bin/deliver");
    assert_eq!(plan.args, vec!["ARG0".to_string(), "ARG1".to_string()]);
    assert_eq!(plan.env.len(), 3);
    assert_eq!(
        plan.env[0],
        ("ENV_IDLEMAIL_TESTARG".to_string(), "the correct testvalue".to_string())
    );
    assert_eq!(
        plan.env[1],
        ("IDLEMAIL_DESTINATION".to_string(), "unit-test exec dst".to_string())
    );
    assert_eq!(
        plan.env[2],
        ("IDLEMAIL_SOURCE".to_string(), "unit-test source 0".to_string())
    );
    assert_eq!(plan.stdin_bytes, b"body bytes".to_vec());
}

#[test]
fn exec_plan_without_options_is_bare() {
    let config = ExecDestinationConfig {
        executable: "bin".to_string(),
        arguments: None,
        environment: None,
    };
    let mail = Mail::from_rfc822("s".to_string(), b"x".to_vec());
    let plan = exec_plan(&"d".to_string(), &config, &mail);
    assert!(plan.args.is_empty());
    assert_eq!(plan.env.len(), 2);
}

#[test]
fn only_a_zero_exit_counts_as_delivered() {
    assert!(!exec_report_failure(&ChildRun::Exited { success: true }));
    assert!(exec_report_failure(&ChildRun::Exited { success: false }));
    assert!(exec_report_failure(&ChildRun::SpawnFailed));
    assert!(exec_report_failure(&ChildRun::PipeFailed));
    assert!(exec_report_failure(&ChildRun::WaitFailed));
}

#[test]
fn fetched_messages_become_tagged_mails() {
    let fetched = vec![(7u32, b"first".to_vec()), (9u32, b"second".to_vec())];
    let (mails, to_delete) = process_unseen(&"inbox".to_string(), false, fetched);
    assert_eq!(mails.len(), 2);
    assert_eq!(mails[0].from_src, "inbox");
    assert_eq!(mails[0].data, b"first".to_vec());
    assert_eq!(mails[1].data, b"second".to_vec());
    assert_eq!(to_delete, vec![7, 9]);
}

#[test]
fn kept_messages_are_not_deleted() {
    let fetched = vec![(7u32, b"first".to_vec())];
    let (mails, to_delete) = process_unseen(&"inbox".to_string(), true, fetched);
    assert_eq!(mails.len(), 1);
    assert!(to_delete.is_empty());
}

#[test]
fn sequence_sets_join_ids_with_commas() {
    assert_eq!(sequence_set_string(&vec![]), "");
    assert_eq!(sequence_set_string(&vec![42]), "42");
    assert_eq!(sequence_set_string(&vec![1, 2, 30]), "1,2,30");
}

struct FlatMailbox {
    name: String,
    delimiter: Option<String>,
}

impl MailPath for FlatMailbox {
    fn path(&self) -> String {
        mailbox_path(&self.name, self.delimiter.as_deref())
    }
}

#[test]
fn mailbox_paths_replace_the_hierarchy_delimiter() {
    assert_eq!(mailbox_path("INBOX.Sub.Folder", Some(".")), "INBOX/Sub/Folder");
    assert_eq!(mailbox_path("INBOX", Some(".")), "INBOX");
    assert_eq!(mailbox_path("INBOX.Sub", None), "INBOX.Sub");
    assert_eq!(mailbox_path("a--b--c", Some("--")), "a/b/c");
    assert_eq!(mailbox_path(".leading", Some(".")), "/leading");
    assert_eq!(mailbox_path("", Some(".")), "");
    let mb = FlatMailbox { name: "Work.Reports".to_string(), delimiter: Some(".".to_string()) };
    assert_eq!(mb.path(), "Work/Reports");
}

#[test]
fn imap_call_failures_follow_the_retry_rule() {
    assert!(matches!(imap_retry_decision(true, 0), ImapRetryDecision::ResetSession));
    assert!(matches!(imap_retry_decision(true, 5), ImapRetryDecision::ResetSession));
    assert!(matches!(imap_retry_decision(false, 0), ImapRetryDecision::RetryCall));
    assert!(matches!(imap_retry_decision(false, 1), ImapRetryDecision::RetryCall));
    assert!(matches!(imap_retry_decision(false, 2), ImapRetryDecision::GiveUp));
}
