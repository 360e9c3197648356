use simple_wkd::confirmation::{confirm_step_at, ConfirmCommand, ConfirmEvent, ConfirmState};
use simple_wkd::errors::{CompatErr, SpecialErrors};
use simple_wkd::management::{clean_stale, is_stale, stale_tokens, Action, Pending, PendingRead, ScannedEntry};
use simple_wkd::settings::Variant;

fn entry(name: &str, read: PendingRead) -> ScannedEntry {
    ScannedEntry { name: name.to_string(), read }
}

fn content(created: i64) -> PendingRead {
    PendingRead::Content(Pending::new(Action::Add, "PEM".to_string(), created).serialize())
}

#[test]
fn staleness_boundary() {
    let p = Pending::new(Action::Add, String::new(), 100);
    assert!(!is_stale(&p, 160, 60));
    assert!(is_stale(&p, 161, 60));
    let q = Pending::new(Action::Add, String::new(), i64::MIN);
    assert!(is_stale(&q, i64::MAX, 0));
}

#[test]
fn sweep_reaps_only_stale_readable_records() {
    let entries = vec![
        entry("fresh", content(1000)),
        entry("old", content(100)),
        entry("corrupt", PendingRead::Content("not a record".to_string())),
        entry("unreadable", PendingRead::Unreadable),
        entry("older", content(-5)),
        entry("gone", PendingRead::Missing),
    ];
    assert_eq!(stale_tokens(&entries, 1000, 500), vec!["old".to_string(), "older".to_string()]);
    assert!(stale_tokens(&Vec::new(), 1000, 500).is_empty());
}

#[test]
fn swept_token_can_no_longer_be_confirmed() {
    let now = chrono::Utc::now().timestamp();
    let entries = vec![entry("tok", content(now - 7200)), entry("new", content(now))];
    assert_eq!(clean_stale(&entries, 3600), vec!["tok".to_string()]);
    let (_, cmd) = confirm_step_at(
        ConfirmState::Reading,
        ConfirmEvent::Read(PendingRead::Missing),
        now,
        3600,
        Variant::Direct,
    );
    assert!(matches!(
        cmd,
        ConfirmCommand::Finish(Err(CompatErr::SpecialErr(SpecialErrors::MissingPending)))
    ));
}
