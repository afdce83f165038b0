use idlemail::config::{
    AuthMethod, ConfigContainer, ConfigError, DestinationConfig, Encryption,
    FilesystemRetryAgentConfig, MemoryRetryAgentConfig, RetryAgentConfig, SmtpDestinationConfig,
    SourceConfig, TestDestinationConfig, TestSourceConfig,
};
use idlemail::digits::u64_to_dec_string;
use idlemail::hub::{HubAction, HubMessage, MailHub, ShutdownStep};
use idlemail::mail::Mail;

fn test_source() -> SourceConfig {
    SourceConfig::Test(TestSourceConfig { delay: 0, interval: 10 })
}

fn test_destination(fail_n_first: u16) -> DestinationConfig {
    DestinationConfig::Test(TestDestinationConfig { fail_n_first })
}

fn two_dest_config() -> ConfigContainer {
    ConfigContainer {
        destinations: vec![
            ("d1".to_string(), test_destination(0)),
            ("d2".to_string(), test_destination(0)),
        ],
        sources: vec![("src".to_string(), test_source())],
        retryagent: Some(RetryAgentConfig::Memory(MemoryRetryAgentConfig { delay: 1 })),
        mappings: vec![("src".to_string(), vec!["d1".to_string(), "d2".to_string()])],
    }
}

#[test]
fn dec_string_renders_zero_and_max() {
    assert_eq!(u64_to_dec_string(0), "0");
    assert_eq!(u64_to_dec_string(1234567890), "1234567890");
    assert_eq!(u64_to_dec_string(u64::MAX), "18446744073709551615");
}

#[test]
fn mail_carries_source_data_and_fingerprint() {
    let mail = Mail::from_rfc822("inbox-a".to_string(), b"Subject: hi\r\n\r\nbody".to_vec());
    assert_eq!(mail.from_src, "inbox-a");
    assert_eq!(mail.data, b"Subject: hi\r\n\r\nbody".to_vec());
    // FNV-1a 64 of the empty input is the offset basis.
    let empty = Mail::from_rfc822("s".to_string(), Vec::new());
    assert_eq!(empty.hash, "14695981039346656037");
    // Known FNV-1a 64 value of the single byte "a".
    let a = Mail::from_rfc822("s".to_string(), vec![b'a']);
    assert_eq!(a.hash, "12638187200555641996");
    // The fingerprint depends on the bytes alone.
    let again = Mail::from_rfc822("other".to_string(), vec![b'a']);
    assert_eq!(a.hash, again.hash);
    let b = Mail::from_rfc822("s".to_string(), vec![b'b']);
    assert_ne!(a.hash, b.hash);
}

#[test]
fn validate_accepts_closed_routing_table() {
    let config = two_dest_config();
    assert!(config.validate().is_ok());
}

#[test]
fn validate_rejects_unknown_mapping_source() {
    let mut config = two_dest_config();
    config.mappings.push(("ghost".to_string(), vec!["d1".to_string()]));
    match config.validate() {
        Err(ConfigError::UnknownMappingSource { name }) => assert_eq!(name, "ghost"),
        other => panic!("expected UnknownMappingSource, got {:?}", other.is_ok()),
    }
}

#[test]
fn validate_rejects_unknown_mapping_destination() {
    let mut config = two_dest_config();
    config.mappings[0].1.push("nowhere".to_string());
    match config.validate() {
        Err(ConfigError::UnknownMappingDestination { name }) => assert_eq!(name, "nowhere"),
        other => panic!("expected UnknownMappingDestination, got {:?}", other.is_ok()),
    }
}

#[test]
fn validate_rejects_unmapped_source() {
    let mut config = two_dest_config();
    config.sources.push(("lonely".to_string(), test_source()));
    match config.validate() {
        Err(ConfigError::UnmappedSource { name }) => assert_eq!(name, "lonely"),
        other => panic!("expected UnmappedSource, got {:?}", other.is_ok()),
    }
}

#[test]
fn filesystem_retry_path_is_surfaced() {
    let mut config = two_dest_config();
    assert!(config.filesystem_retry_path().is_none());
    config.retryagent = Some(RetryAgentConfig::Filesystem(FilesystemRetryAgentConfig {
        delay: 60,
        path: "/var/spool/idlemail".to_string(),
    }));
    assert_eq!(config.filesystem_retry_path().unwrap(), "/var/spool/idlemail");
}

#[test]
fn smtp_config_round_trips_through_validate() {
    let config = ConfigContainer {
        destinations: vec![(
            "relay".to_string(),
            DestinationConfig::Smtp(SmtpDestinationConfig {
                server: "mail.example.org".to_string(),
                port: 465,
                encryption: Encryption::Ssl,
                auth: Some(AuthMethod::Plain {
                    user: "u".to_string(),
                    password: "SECRET-REDACTED".to_string(),
                }),
                recipient: "box@example.org".to_string(),
            }),
        )],
        sources: vec![("src".to_string(), test_source())],
        retryagent: None,
        mappings: vec![("src".to_string(), vec!["relay".to_string()])],
    };
    assert!(config.validate().is_ok());
}

#[test]
fn hub_fans_one_mail_out_to_both_destinations() {
    let hub = MailHub::from_config(two_dest_config());
    let mail = Mail::from_rfc822("src".to_string(), b"one".to_vec());
    let (actions, exits) = hub.handle_message(HubMessage::NewMail {
        srcname: "src".to_string(),
        mail,
    });
    assert!(!exits);
    assert_eq!(actions.len(), 2);
    match &actions[0] {
        HubAction::Deliver { dstname, mail } => {
            assert_eq!(dstname, "d1");
            assert_eq!(mail.data, b"one".to_vec());
        }
        _ => panic!("expected a delivery"),
    }
    match &actions[1] {
        HubAction::Deliver { dstname, mail } => {
            assert_eq!(dstname, "d2");
            assert_eq!(mail.data, b"one".to_vec());
        }
        _ => panic!("expected a delivery"),
    }
}

#[test]
fn hub_drops_mail_of_unmapped_source() {
    let hub = MailHub::from_config(two_dest_config());
    let mail = Mail::from_rfc822("stranger".to_string(), b"x".to_vec());
    let (actions, exits) = hub.handle_message(HubMessage::NewMail {
        srcname: "stranger".to_string(),
        mail,
    });
    assert!(!exits);
    assert!(actions.is_empty());
}

#[test]
fn hub_forwards_failures_to_the_retry_agent() {
    let hub = MailHub::from_config(two_dest_config());
    let mail = Mail::from_rfc822("src".to_string(), b"x".to_vec());
    let (actions, exits) = hub.handle_message(HubMessage::SendingMailFailed {
        dstname: "d1".to_string(),
        mail,
    });
    assert!(!exits);
    assert_eq!(actions.len(), 1);
    match &actions[0] {
        HubAction::QueueRetry { dstname, .. } => assert_eq!(dstname, "d1"),
        _ => panic!("expected a retry"),
    }
}

#[test]
fn hub_drops_failures_without_retry_agent() {
    let mut config = two_dest_config();
    config.retryagent = None;
    let hub = MailHub::from_config(config);
    let mail = Mail::from_rfc822("src".to_string(), b"x".to_vec());
    let (actions, _) = hub.handle_message(HubMessage::SendingMailFailed {
        dstname: "d1".to_string(),
        mail,
    });
    assert!(actions.is_empty());
}

#[test]
fn hub_redispatches_retries_unconditionally() {
    let hub = MailHub::from_config(two_dest_config());
    let mail = Mail::from_rfc822("src".to_string(), b"x".to_vec());
    let (actions, exits) = hub.handle_message(HubMessage::RetryMail {
        dstname: "d2".to_string(),
        mail,
    });
    assert!(!exits);
    assert_eq!(actions.len(), 1);
    match &actions[0] {
        HubAction::Deliver { dstname, .. } => assert_eq!(dstname, "d2"),
        _ => panic!("expected a delivery"),
    }
}

#[test]
fn hub_exits_on_shutdown_and_on_suspension_ack() {
    let hub = MailHub::from_config(two_dest_config());
    let (actions, exits) = hub.handle_message(HubMessage::Shutdown);
    assert!(exits);
    assert!(actions.is_empty());
    let (actions, exits) = hub.handle_message(HubMessage::RetryAgentSuspended);
    assert!(exits);
    assert!(actions.is_empty());
}

#[test]
fn shutdown_sequence_is_ordered() {
    let steps = idlemail::hub::shutdown_sequence();
    assert_eq!(steps.len(), 5);
    assert!(matches!(steps[0], ShutdownStep::StopSources));
    assert!(matches!(steps[1], ShutdownStep::SuspendRetryAgent));
    assert!(matches!(steps[2], ShutdownStep::StopDestinations));
    assert!(matches!(steps[3], ShutdownStep::FlushInbox));
    assert!(matches!(steps[4], ShutdownStep::StopRetryAgent));
}
