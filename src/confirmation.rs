//! The confirmation of a staged request as a state machine: each step
//! takes what the caller observed and names the next file operation.

use vstd::prelude::*;

use crate::errors::{CompatErr, ServiceError, SpecialErrors};
use crate::management::{
    current_timestamp, is_stale, lemma_record_round_trip, lemma_sweep_reaps_stale, parse_record,
    reaped, record_text, stale, stale_names, Action, Pending, PendingRead, PendingView,
    ScannedEntry,
};
use crate::settings::Variant;
use crate::utils::{
    email_to_file_path, key_path, policy_file_path, policy_path, resolve, split_address,
};

verus! {

/// Where a confirmation stands.
#[derive(Debug)]
pub enum ConfirmState {
    /// The pending entry of the token is being read.
    Reading,
    /// The entry was stale and is being removed. The removal is best
    /// effort, and the confirmation ends in `ExpiredRequest` either way,
    /// told apart from a token that has no entry (`MissingPending`).
    Expiring,
    /// The submitted key block is being checked.
    Checking,
    /// The key of `subject` is being written to the directory.
    Publishing { subject: String },
    /// The key of `subject` is being removed from the directory.
    Withdrawing { subject: String },
    /// The directory has changed; the pending entry is being removed.
    Consuming { action: Action, subject: String },
    /// The confirmation is over.
    Finished,
}

/// What the caller reports back after carrying out a command.
#[derive(Debug)]
pub enum ConfirmEvent {
    /// What reading the pending entry of the token gave: the first event of
    /// every confirmation.
    Read(PendingRead),
    /// The outcome of `CheckCertificate`: the address of the certificate.
    Checked(Result<String, CompatErr>),
    /// Whether the requested change of a file succeeded.
    Done(bool),
}

/// What the caller has to do next.
#[derive(Debug)]
pub enum ConfirmCommand {
    /// Remove the pending entry of the token, then report `Done`.
    RemovePending,
    /// Check this key block and report `Checked` with its address.
    CheckCertificate(String),
    /// Write the checked certificate to `key_path`, create `policy_path`,
    /// then report `Done`.
    PublishKey { key_path: String, policy_path: String },
    /// Remove the file at this path, then report `Done`.
    WithdrawKey(String),
    /// The confirmation ends with this outcome.
    Finish(Result<(Action, String), CompatErr>),
}

/// `cmd` ends a confirmation with the failure `e`.
pub open spec fn ends_with(cmd: ConfirmCommand, e: CompatErr) -> bool {
    cmd == ConfirmCommand::Finish(Err(e))
}

/// One step of a confirmation: from `state`, on `event`, at time `now`, the
/// confirmation moves to `next` and asks for `cmd`.
pub open spec fn confirm_transition(
    state: ConfirmState,
    event: ConfirmEvent,
    now: i64,
    max_age: i64,
    variant: Variant,
    next: ConfirmState,
    cmd: ConfirmCommand,
) -> bool {
    match (state, event) {
        (ConfirmState::Reading, ConfirmEvent::Read(read)) => match read {
            PendingRead::Missing => next is Finished && ends_with(
                cmd,
                CompatErr::SpecialErr(SpecialErrors::MissingPending),
            ),
            PendingRead::Unreadable => next is Finished && ends_with(
                cmd,
                CompatErr::Internal(ServiceError::Inaccessible),
            ),
            PendingRead::Content(c) => match parse_record(c@) {
                None => next is Finished && ends_with(
                    cmd,
                    CompatErr::Internal(ServiceError::DeserializeData),
                ),
                Some(p) => if stale(p, now, max_age) {
                    next is Expiring && cmd is RemovePending
                } else {
                    match p.action {
                        Action::Add => {
                            &&& next is Checking
                            &&& cmd matches ConfirmCommand::CheckCertificate(pem) && pem@ == p.data
                        },
                        Action::Delete => match resolve(p.data, variant) {
                            None => next is Finished && ends_with(
                                cmd,
                                CompatErr::SpecialErr(SpecialErrors::MalformedEmail),
                            ),
                            Some(path) => {
                                &&& next matches ConfirmState::Withdrawing { subject }
                                    && subject@ == p.data
                                &&& cmd matches ConfirmCommand::WithdrawKey(k) && k@ == path
                            },
                        },
                    }
                },
            },
        },
        (ConfirmState::Expiring, ConfirmEvent::Done(_)) => next is Finished && ends_with(
            cmd,
            CompatErr::SpecialErr(SpecialErrors::ExpiredRequest),
        ),
        (ConfirmState::Checking, ConfirmEvent::Checked(checked)) => match checked {
            Err(e) => next is Finished && ends_with(cmd, e),
            Ok(email) => match split_address(email@) {
                None => next is Finished && ends_with(
                    cmd,
                    CompatErr::SpecialErr(SpecialErrors::MalformedEmail),
                ),
                Some((local, domain)) => {
                    &&& next matches ConfirmState::Publishing { subject } && subject@ == email@
                    &&& cmd matches ConfirmCommand::PublishKey { key_path: k, policy_path: q }
                        && k@ == key_path(local, domain, variant) && q@ == policy_path(
                        domain,
                        variant,
                    )
                },
            },
        },
        (ConfirmState::Publishing { subject }, ConfirmEvent::Done(ok)) => if ok {
            &&& next matches ConfirmState::Consuming { action, subject: s } && action
                == Action::Add && s@ == subject@
            &&& cmd is RemovePending
        } else {
            next is Finished && ends_with(cmd, CompatErr::Internal(ServiceError::AddingKey))
        },
        (ConfirmState::Withdrawing { subject }, ConfirmEvent::Done(ok)) => if ok {
            &&& next matches ConfirmState::Consuming { action, subject: s } && action
                == Action::Delete && s@ == subject@
            &&& cmd is RemovePending
        } else {
            next is Finished && ends_with(cmd, CompatErr::Internal(ServiceError::RemovingKey))
        },
        (ConfirmState::Consuming { action, subject }, ConfirmEvent::Done(ok)) => if ok {
            &&& next is Finished
            &&& cmd matches ConfirmCommand::Finish(Ok((a, s))) && a == action && s@ == subject@
        } else {
            next is Finished && ends_with(cmd, CompatErr::Internal(ServiceError::Inaccessible))
        },
        _ => next is Finished && ends_with(cmd, CompatErr::Internal(ServiceError::UnexpectedEvent)),
    }
}

fn finish_with(e: CompatErr) -> (r: (ConfirmState, ConfirmCommand))
    ensures
        r.0 is Finished,
        ends_with(r.1, e),
{
    (ConfirmState::Finished, ConfirmCommand::Finish(Err(e)))
}

/// One step of a confirmation, with `now` as the current time.
pub fn confirm_step_at(
    state: ConfirmState,
    event: ConfirmEvent,
    now: i64,
    max_age: i64,
    variant: Variant,
) -> (r: (ConfirmState, ConfirmCommand))
    ensures
        confirm_transition(state, event, now, max_age, variant, r.0, r.1),
{
    match (state, event) {
        (ConfirmState::Reading, ConfirmEvent::Read(read)) => match read {
            PendingRead::Missing => finish_with(
                CompatErr::SpecialErr(SpecialErrors::MissingPending),
            ),
            PendingRead::Unreadable => finish_with(CompatErr::Internal(ServiceError::Inaccessible)),
            PendingRead::Content(c) => match Pending::deserialize(c.as_str()) {
                Err(_) => finish_with(CompatErr::Internal(ServiceError::DeserializeData)),
                Ok(p) => {
                    if is_stale(&p, now, max_age) {
                        (ConfirmState::Expiring, ConfirmCommand::RemovePending)
                    } else {
                        match p.action() {
                            Action::Add => (
                                ConfirmState::Checking,
                                ConfirmCommand::CheckCertificate(String::from_str(p.data())),
                            ),
                            Action::Delete => match email_to_file_path(p.data(), variant) {
                                Err(e) => finish_with(e),
                                Ok(path) => (
                                    ConfirmState::Withdrawing {
                                        subject: String::from_str(p.data()),
                                    },
                                    ConfirmCommand::WithdrawKey(path),
                                ),
                            },
                        }
                    }
                },
            },
        },
        (ConfirmState::Expiring, ConfirmEvent::Done(_)) => finish_with(
            CompatErr::SpecialErr(SpecialErrors::ExpiredRequest),
        ),
        (ConfirmState::Checking, ConfirmEvent::Checked(checked)) => match checked {
            Err(e) => finish_with(e),
            Ok(email) => {
                let key = email_to_file_path(email.as_str(), variant);
                let policy = policy_file_path(email.as_str(), variant);
                match (key, policy) {
                    (Ok(k), Ok(q)) => (
                        ConfirmState::Publishing { subject: email },
                        ConfirmCommand::PublishKey { key_path: k, policy_path: q },
                    ),
                    _ => finish_with(CompatErr::SpecialErr(SpecialErrors::MalformedEmail)),
                }
            },
        },
        (ConfirmState::Publishing { subject }, ConfirmEvent::Done(ok)) => {
            if ok {
                (
                    ConfirmState::Consuming { action: Action::Add, subject },
                    ConfirmCommand::RemovePending,
                )
            } else {
                finish_with(CompatErr::Internal(ServiceError::AddingKey))
            }
        },
        (ConfirmState::Withdrawing { subject }, ConfirmEvent::Done(ok)) => {
            if ok {
                (
                    ConfirmState::Consuming { action: Action::Delete, subject },
                    ConfirmCommand::RemovePending,
                )
            } else {
                finish_with(CompatErr::Internal(ServiceError::RemovingKey))
            }
        },
        (ConfirmState::Consuming { action, subject }, ConfirmEvent::Done(ok)) => {
            if ok {
                (ConfirmState::Finished, ConfirmCommand::Finish(Ok((action, subject))))
            } else {
                finish_with(CompatErr::Internal(ServiceError::Inaccessible))
            }
        },
        _ => finish_with(CompatErr::Internal(ServiceError::UnexpectedEvent)),
    }
}

/// One step of a confirmation at the current time.
pub fn confirm_step(state: ConfirmState, event: ConfirmEvent, max_age: i64, variant: Variant) -> (r: (
    ConfirmState,
    ConfirmCommand,
))
    ensures
        exists|now: i64| confirm_transition(state, event, now, max_age, variant, r.0, r.1),
{
    let now = current_timestamp();
    confirm_step_at(state, event, now, max_age, variant)
}


/// A confirmation of a token whose pending entry is gone ends in
/// `MissingPending`.
pub open spec fn confirming_missing_fails(now: i64, max_age: i64, variant: Variant) -> bool {
    forall|next: ConfirmState, cmd: ConfirmCommand|
        #![trigger confirm_transition(ConfirmState::Reading, ConfirmEvent::Read(PendingRead::Missing), now, max_age, variant, next, cmd)]
        confirm_transition(
            ConfirmState::Reading,
            ConfirmEvent::Read(PendingRead::Missing),
            now,
            max_age,
            variant,
            next,
            cmd,
        ) ==> ends_with(cmd, CompatErr::SpecialErr(SpecialErrors::MissingPending))
}

/// Storing a request and confirming it before it goes stale consumes the
/// token once: the stored text reads back as the request, which the first
/// step acts on; a confirmation succeeds only once the removal of the
/// pending entry has been reported done; and a confirmation of the token
/// after that, which finds no entry, ends in `MissingPending`.
pub proof fn lemma_confirm_consumes_token(
    request: PendingView,
    stored: String,
    now: i64,
    max_age: i64,
    variant: Variant,
)
    requires
        stored@ == record_text(request),
        !stale(request, now, max_age),
    ensures
        forall|next: ConfirmState, cmd: ConfirmCommand|
            #![trigger confirm_transition(ConfirmState::Reading, ConfirmEvent::Read(PendingRead::Content(stored)), now, max_age, variant, next, cmd)]
            confirm_transition(
                ConfirmState::Reading,
                ConfirmEvent::Read(PendingRead::Content(stored)),
                now,
                max_age,
                variant,
                next,
                cmd,
            ) ==> {
                &&& request.action == Action::Add ==> next is Checking
                &&& request.action == Action::Delete ==> next is Withdrawing || ends_with(
                    cmd,
                    CompatErr::SpecialErr(SpecialErrors::MalformedEmail),
                )
            },
        forall|
            state: ConfirmState,
            event: ConfirmEvent,
            t: i64,
            next: ConfirmState,
            cmd: ConfirmCommand,
        |
            #![trigger confirm_transition(state, event, t, max_age, variant, next, cmd)]
            confirm_transition(state, event, t, max_age, variant, next, cmd) && (
            cmd matches ConfirmCommand::Finish(Ok(_))) ==> state is Consuming && event
                == ConfirmEvent::Done(true),
        forall|t: i64| #[trigger] confirming_missing_fails(t, max_age, variant),
{
    lemma_record_round_trip(request);
}

/// A sweep at `now` removes every entry that holds a request stale at that
/// time; afterwards a confirmation of its token finds no entry and ends in
/// `MissingPending`, and where the entry still stands, a confirmation at a
/// later time removes it and ends in `ExpiredRequest`.
pub proof fn lemma_swept_token_is_dead(
    entries: Seq<ScannedEntry>,
    k: int,
    now: i64,
    later: i64,
    max_age: i64,
    variant: Variant,
)
    requires
        0 <= k < entries.len(),
        reaped(entries[k].read, now, max_age),
        now <= later,
    ensures
        stale_names(entries, now, max_age).contains(entries[k].name@),
        confirming_missing_fails(later, max_age, variant),
        forall|next: ConfirmState, cmd: ConfirmCommand|
            #![trigger confirm_transition(ConfirmState::Reading, ConfirmEvent::Read(entries[k].read), later, max_age, variant, next, cmd)]
            confirm_transition(
                ConfirmState::Reading,
                ConfirmEvent::Read(entries[k].read),
                later,
                max_age,
                variant,
                next,
                cmd,
            ) ==> next is Expiring && cmd is RemovePending,
        forall|removed: bool, next: ConfirmState, cmd: ConfirmCommand|
            #![trigger confirm_transition(ConfirmState::Expiring, ConfirmEvent::Done(removed), later, max_age, variant, next, cmd)]
            confirm_transition(
                ConfirmState::Expiring,
                ConfirmEvent::Done(removed),
                later,
                max_age,
                variant,
                next,
                cmd,
            ) ==> ends_with(cmd, CompatErr::SpecialErr(SpecialErrors::ExpiredRequest)),
{
    lemma_sweep_reaps_stale(entries, now, max_age, k);
}

/// Confirming a stored addition before it goes stale writes the key exactly
/// once, at the key path of the address that the certificate carries, and
/// then ends in success for that address.
pub proof fn lemma_addition_round_trip(
    request: PendingView,
    stored: String,
    email: String,
    now: i64,
    max_age: i64,
    variant: Variant,
)
    requires
        stored@ == record_text(request),
        request.action == Action::Add,
        !stale(request, now, max_age),
        resolve(email@, variant) is Some,
    ensures
        forall|next: ConfirmState, cmd: ConfirmCommand|
            #![trigger confirm_transition(ConfirmState::Reading, ConfirmEvent::Read(PendingRead::Content(stored)), now, max_age, variant, next, cmd)]
            confirm_transition(
                ConfirmState::Reading,
                ConfirmEvent::Read(PendingRead::Content(stored)),
                now,
                max_age,
                variant,
                next,
                cmd,
            ) ==> {
                &&& next is Checking
                &&& cmd matches ConfirmCommand::CheckCertificate(pem) && pem@ == request.data
            },
        forall|t: i64, next: ConfirmState, cmd: ConfirmCommand|
            #![trigger confirm_transition(ConfirmState::Checking, ConfirmEvent::Checked(Ok(email)), t, max_age, variant, next, cmd)]
            confirm_transition(
                ConfirmState::Checking,
                ConfirmEvent::Checked(Ok(email)),
                t,
                max_age,
                variant,
                next,
                cmd,
            ) ==> {
                &&& next matches ConfirmState::Publishing { subject } && subject@ == email@
                &&& cmd matches ConfirmCommand::PublishKey { key_path: k, .. } && k@ == resolve(
                    email@,
                    variant,
                )->0
            },
        forall|t: i64, next: ConfirmState, cmd: ConfirmCommand|
            #![trigger confirm_transition(ConfirmState::Publishing { subject: email }, ConfirmEvent::Done(true), t, max_age, variant, next, cmd)]
            confirm_transition(
                ConfirmState::Publishing { subject: email },
                ConfirmEvent::Done(true),
                t,
                max_age,
                variant,
                next,
                cmd,
            ) ==> {
                &&& cmd is RemovePending
                &&& next matches ConfirmState::Consuming { action, subject } && action
                    == Action::Add && subject@ == email@
            },
        forall|t: i64, next: ConfirmState, cmd: ConfirmCommand|
            #![trigger confirm_transition(ConfirmState::Consuming { action: Action::Add, subject: email }, ConfirmEvent::Done(true), t, max_age, variant, next, cmd)]
            confirm_transition(
                ConfirmState::Consuming { action: Action::Add, subject: email },
                ConfirmEvent::Done(true),
                t,
                max_age,
                variant,
                next,
                cmd,
            ) ==> {
                &&& next is Finished
                &&& cmd matches ConfirmCommand::Finish(Ok((a, s))) && a == Action::Add && s@
                    == email@
            },
{
    lemma_record_round_trip(request);
}

} // verus!
