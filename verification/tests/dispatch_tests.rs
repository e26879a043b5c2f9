//! The record-command dispatcher's decisions.

use voxtype_ctl::dispatch::{DaemonSignal, LockStatus, Mailbox, MailboxKind, OutputModeOverride,
    RecordAction, RecordOverrides, RecordPlan, mailbox_file_name, mode_text, plan_action,
    read_lock, toggle_signal};

fn no_overrides() -> RecordOverrides {
    RecordOverrides { output_mode: None, file_path: None, model: None, profile: None }
}

fn mailbox_pairs(mailboxes: &[Mailbox]) -> Vec<(MailboxKind, String)> {
    mailboxes.iter().map(|m| (m.kind, m.content.clone())).collect()
}

#[test]
fn toggle_sends_stop_exactly_on_recording() {
    assert_eq!(toggle_signal(Some("recording")), DaemonSignal::Stop);
    assert_eq!(toggle_signal(Some("recording\n")), DaemonSignal::Stop);
    assert_eq!(toggle_signal(Some("idle")), DaemonSignal::Start);
    assert_eq!(toggle_signal(Some("transcribing")), DaemonSignal::Start);
    assert_eq!(toggle_signal(Some("")), DaemonSignal::Start);
    assert_eq!(toggle_signal(Some("recording now")), DaemonSignal::Start);
    assert_eq!(toggle_signal(None), DaemonSignal::Start);
}

#[test]
fn toggle_while_recording_delivers_stop_without_mailboxes() {
    // record toggle while the persisted state is recording: a stop signal
    // and nothing written
    let action = RecordAction::Toggle(no_overrides());
    let profiles: Vec<String> = vec![];
    match plan_action(&action, true, Some("recording"), true, &profiles) {
        RecordPlan::Go { mailboxes, signal } => {
            assert_eq!(signal, Some(DaemonSignal::Stop));
            assert!(mailboxes.is_empty());
        },
        _ => panic!("an alive daemon with a configured state file must act"),
    }
}

#[test]
fn stale_lock_means_no_signal_and_no_mailbox() {
    // a dead process behind the lock: delete the lock, report not running,
    // send nothing — whatever the command asked for
    let action = RecordAction::Start(RecordOverrides {
        output_mode: Some(OutputModeOverride::Clipboard),
        file_path: None,
        model: Some("base".to_string()),
        profile: None,
    });
    let profiles: Vec<String> = vec![];
    match plan_action(&action, false, None, false, &profiles) {
        RecordPlan::StaleLock => {},
        _ => panic!("a dead process must read as a stale lock"),
    }
}

#[test]
fn unknown_profile_reports_the_configured_names() {
    // record start --profile foo where foo is not configured: the plan
    // carries the valid names, and neither mailboxes nor a signal
    let action = RecordAction::Start(RecordOverrides {
        output_mode: None,
        file_path: None,
        model: None,
        profile: Some("foo".to_string()),
    });
    let profiles = vec!["work".to_string(), "notes".to_string()];
    match plan_action(&action, true, None, true, &profiles) {
        RecordPlan::UnknownProfile { available } => {
            assert_eq!(available, profiles);
        },
        _ => panic!("an unconfigured profile must be rejected before any write"),
    }
}

#[test]
fn known_profile_is_written_after_validation() {
    let action = RecordAction::Start(RecordOverrides {
        output_mode: None,
        file_path: None,
        model: None,
        profile: Some("work".to_string()),
    });
    let profiles = vec!["work".to_string()];
    match plan_action(&action, true, None, true, &profiles) {
        RecordPlan::Go { mailboxes, signal } => {
            assert_eq!(signal, Some(DaemonSignal::Start));
            assert_eq!(
                mailbox_pairs(&mailboxes),
                vec![(MailboxKind::Profile, "work".to_string())]
            );
        },
        _ => panic!("a configured profile goes through"),
    }
}

#[test]
fn cancel_writes_only_its_trigger() {
    let profiles: Vec<String> = vec![];
    match plan_action(&RecordAction::Cancel, true, None, false, &profiles) {
        RecordPlan::Go { mailboxes, signal } => {
            assert_eq!(signal, None);
            assert_eq!(
                mailbox_pairs(&mailboxes),
                vec![(MailboxKind::Cancel, "cancel".to_string())]
            );
        },
        _ => panic!("cancel on a live daemon goes through"),
    }
}

#[test]
fn toggle_without_state_file_is_refused() {
    let profiles: Vec<String> = vec![];
    match plan_action(&RecordAction::Toggle(no_overrides()), true, None, false, &profiles) {
        RecordPlan::ToggleNeedsStateFile => {},
        _ => panic!("a toggle cannot act without the persisted state"),
    }
}

#[test]
fn overrides_become_mailboxes_in_order() {
    let action = RecordAction::Stop(RecordOverrides {
        output_mode: Some(OutputModeOverride::File),
        file_path: Some("/tmp/out.txt".to_string()),
        model: Some("large-v3".to_string()),
        profile: None,
    });
    let profiles: Vec<String> = vec![];
    match plan_action(&action, true, None, true, &profiles) {
        RecordPlan::Go { mailboxes, signal } => {
            assert_eq!(signal, Some(DaemonSignal::Stop));
            assert_eq!(
                mailbox_pairs(&mailboxes),
                vec![
                    (MailboxKind::OutputMode, "file:/tmp/out.txt".to_string()),
                    (MailboxKind::Model, "large-v3".to_string()),
                ]
            );
        },
        _ => panic!("a stop with overrides goes through"),
    }
}

#[test]
fn mode_text_names_each_mode() {
    assert_eq!(mode_text(OutputModeOverride::Type, None), "type");
    assert_eq!(mode_text(OutputModeOverride::Clipboard, None), "clipboard");
    assert_eq!(mode_text(OutputModeOverride::Paste, None), "paste");
    assert_eq!(mode_text(OutputModeOverride::File, None), "file");
    assert_eq!(mode_text(OutputModeOverride::File, Some("")), "file");
    assert_eq!(mode_text(OutputModeOverride::File, Some("/p/q")), "file:/p/q");
}

#[test]
fn mailbox_files_have_fixed_names() {
    assert_eq!(mailbox_file_name(MailboxKind::OutputMode), "output_mode_override");
    assert_eq!(mailbox_file_name(MailboxKind::Model), "model_override");
    assert_eq!(mailbox_file_name(MailboxKind::Profile), "profile_override");
    assert_eq!(mailbox_file_name(MailboxKind::Cancel), "cancel");
}

#[test]
fn lock_file_text_resolves_to_a_pid_or_not() {
    assert_eq!(read_lock(None), LockStatus::Absent);
    assert_eq!(read_lock(Some("1234")), LockStatus::Pid(1234));
    assert_eq!(read_lock(Some(" 987\n")), LockStatus::Pid(987));
    assert_eq!(read_lock(Some("2147483647")), LockStatus::Pid(2147483647));
    assert_eq!(read_lock(Some("2147483648")), LockStatus::Invalid);
    assert_eq!(read_lock(Some("12a4")), LockStatus::Invalid);
    assert_eq!(read_lock(Some("")), LockStatus::Invalid);
    assert_eq!(read_lock(Some("-5")), LockStatus::Invalid);
}
