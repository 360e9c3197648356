use simple_wkd::confirmation::{
    confirm_step, confirm_step_at, ConfirmCommand, ConfirmEvent, ConfirmState,
};
use simple_wkd::errors::{CompatErr, ServiceError, SpecialErrors};
use simple_wkd::management::{Action, Pending, PendingRead};
use simple_wkd::settings::Variant;
use simple_wkd::utils::{email_to_file_path, policy_file_path};

const NOW: i64 = 1_700_000_000;
const MAX_AGE: i64 = 3600;

fn step(state: ConfirmState, event: ConfirmEvent) -> (ConfirmState, ConfirmCommand) {
    confirm_step_at(state, event, NOW, MAX_AGE, Variant::Advanced)
}

fn stored(action: Action, data: &str, created: i64) -> PendingRead {
    PendingRead::Content(Pending::new(action, data.to_string(), created).serialize())
}

fn failure(cmd: &ConfirmCommand) -> Option<CompatErr> {
    match cmd {
        ConfirmCommand::Finish(Err(e)) => Some(*e),
        _ => None,
    }
}

#[test]
fn confirming_an_unknown_token_reports_missing_pending() {
    let (next, cmd) = step(ConfirmState::Reading, ConfirmEvent::Read(PendingRead::Missing));
    assert!(matches!(next, ConfirmState::Finished));
    assert_eq!(failure(&cmd), Some(CompatErr::SpecialErr(SpecialErrors::MissingPending)));
}

#[test]
fn unreadable_and_corrupt_entries() {
    let (_, cmd) = step(ConfirmState::Reading, ConfirmEvent::Read(PendingRead::Unreadable));
    assert_eq!(failure(&cmd), Some(CompatErr::Internal(ServiceError::Inaccessible)));
    let (_, cmd) = step(
        ConfirmState::Reading,
        ConfirmEvent::Read(PendingRead::Content("garbage".to_string())),
    );
    assert_eq!(failure(&cmd), Some(CompatErr::Internal(ServiceError::DeserializeData)));
}

#[test]
fn expired_request_is_removed_and_reported() {
    let read = stored(Action::Add, "PEM", NOW - (MAX_AGE + 1));
    let (next, cmd) = step(ConfirmState::Reading, ConfirmEvent::Read(read));
    assert!(matches!(next, ConfirmState::Expiring));
    assert!(matches!(cmd, ConfirmCommand::RemovePending));
    let (next, cmd) = step(next, ConfirmEvent::Done(true));
    assert!(matches!(next, ConfirmState::Finished));
    assert_eq!(failure(&cmd), Some(CompatErr::SpecialErr(SpecialErrors::ExpiredRequest)));
}

#[test]
fn expiry_is_reported_even_if_removal_fails() {
    let (next, _) = step(
        ConfirmState::Reading,
        ConfirmEvent::Read(stored(Action::Delete, "a@example.org", NOW - MAX_AGE - 100)),
    );
    let (_, cmd) = step(next, ConfirmEvent::Done(false));
    assert_eq!(failure(&cmd), Some(CompatErr::SpecialErr(SpecialErrors::ExpiredRequest)));
}

#[test]
fn request_exactly_max_age_old_is_still_valid() {
    let (next, _) = step(
        ConfirmState::Reading,
        ConfirmEvent::Read(stored(Action::Add, "PEM", NOW - MAX_AGE)),
    );
    assert!(matches!(next, ConfirmState::Checking));
}

#[test]
fn expiry_against_the_clock() {
    let created = chrono::Utc::now().timestamp() - (MAX_AGE + 1);
    let (next, cmd) = confirm_step(
        ConfirmState::Reading,
        ConfirmEvent::Read(stored(Action::Add, "PEM", created)),
        MAX_AGE,
        Variant::Direct,
    );
    assert!(matches!(next, ConfirmState::Expiring));
    assert!(matches!(cmd, ConfirmCommand::RemovePending));
}

#[test]
fn addition_round_trip_writes_once_at_the_resolved_path() {
    let email = "alice@example.org";
    let (next, cmd) = step(
        ConfirmState::Reading,
        ConfirmEvent::Read(stored(Action::Add, "PEM TEXT", NOW - 10)),
    );
    assert!(matches!(next, ConfirmState::Checking));
    match &cmd {
        ConfirmCommand::CheckCertificate(pem) => assert_eq!(pem, "PEM TEXT"),
        other => panic!("unexpected {other:?}"),
    }
    let (next, cmd) = step(next, ConfirmEvent::Checked(Ok(email.to_string())));
    match &cmd {
        ConfirmCommand::PublishKey { key_path, policy_path } => {
            assert_eq!(*key_path, email_to_file_path(email, Variant::Advanced).unwrap());
            assert_eq!(*policy_path, policy_file_path(email, Variant::Advanced).unwrap());
        },
        other => panic!("unexpected {other:?}"),
    }
    let (next, cmd) = step(next, ConfirmEvent::Done(true));
    assert!(matches!(cmd, ConfirmCommand::RemovePending));
    let (next, cmd) = step(next, ConfirmEvent::Done(true));
    assert!(matches!(next, ConfirmState::Finished));
    match cmd {
        ConfirmCommand::Finish(Ok((action, subject))) => {
            assert_eq!(action, Action::Add);
            assert_eq!(subject, email);
        },
        other => panic!("unexpected {other:?}"),
    }
}

#[test]
fn deletion_consumes_the_token_once() {
    let email = "bob@example.org";
    let (next, cmd) = step(
        ConfirmState::Reading,
        ConfirmEvent::Read(stored(Action::Delete, email, NOW)),
    );
    match &cmd {
        ConfirmCommand::WithdrawKey(path) => {
            assert_eq!(*path, email_to_file_path(email, Variant::Advanced).unwrap())
        },
        other => panic!("unexpected {other:?}"),
    }
    let (next, cmd) = step(next, ConfirmEvent::Done(true));
    assert!(matches!(cmd, ConfirmCommand::RemovePending));
    let (_, cmd) = step(next, ConfirmEvent::Done(true));
    assert!(matches!(cmd, ConfirmCommand::Finish(Ok((Action::Delete, ref s))) if s == email));
    // The entry is gone now: a second confirmation finds nothing.
    let (_, cmd) = step(ConfirmState::Reading, ConfirmEvent::Read(PendingRead::Missing));
    assert_eq!(failure(&cmd), Some(CompatErr::SpecialErr(SpecialErrors::MissingPending)));
}

#[test]
fn directory_failures() {
    let (_, cmd) = step(
        ConfirmState::Publishing { subject: "a@example.org".to_string() },
        ConfirmEvent::Done(false),
    );
    assert_eq!(failure(&cmd), Some(CompatErr::Internal(ServiceError::AddingKey)));
    let (_, cmd) = step(
        ConfirmState::Withdrawing { subject: "a@example.org".to_string() },
        ConfirmEvent::Done(false),
    );
    assert_eq!(failure(&cmd), Some(CompatErr::Internal(ServiceError::RemovingKey)));
}

#[test]
fn leftover_pending_entry_is_reported() {
    let (_, cmd) = step(
        ConfirmState::Consuming { action: Action::Add, subject: "a@example.org".to_string() },
        ConfirmEvent::Done(false),
    );
    assert_eq!(failure(&cmd), Some(CompatErr::Internal(ServiceError::Inaccessible)));
}

#[test]
fn certificate_failures_and_bad_addresses() {
    let (_, cmd) = step(
        ConfirmState::Checking,
        ConfirmEvent::Checked(Err(CompatErr::SpecialErr(SpecialErrors::MalformedCert))),
    );
    assert_eq!(failure(&cmd), Some(CompatErr::SpecialErr(SpecialErrors::MalformedCert)));
    let (_, cmd) = step(ConfirmState::Checking, ConfirmEvent::Checked(Ok("no-at".to_string())));
    assert_eq!(failure(&cmd), Some(CompatErr::SpecialErr(SpecialErrors::MalformedEmail)));
    let (_, cmd) = step(
        ConfirmState::Reading,
        ConfirmEvent::Read(stored(Action::Delete, "not-an-email", NOW)),
    );
    assert_eq!(failure(&cmd), Some(CompatErr::SpecialErr(SpecialErrors::MalformedEmail)));
}

#[test]
fn out_of_order_events_are_refused() {
    let (next, cmd) = step(ConfirmState::Reading, ConfirmEvent::Done(true));
    assert!(matches!(next, ConfirmState::Finished));
    assert_eq!(failure(&cmd), Some(CompatErr::Internal(ServiceError::UnexpectedEvent)));
    let (_, cmd) = step(ConfirmState::Finished, ConfirmEvent::Read(PendingRead::Missing));
    assert_eq!(failure(&cmd), Some(CompatErr::Internal(ServiceError::UnexpectedEvent)));
}
