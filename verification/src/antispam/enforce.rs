//! The course of a sanction: the deadline of the timeout, the member, the
//! timeout, the cleanup of the user's messages and the alert, and which
//! failure ends it.
use vstd::prelude::*;

use super::cleanup::{timeout_deadline, TIMEOUT_SECONDS};
use crate::deleted_messages::timestamp_in_range;

verus! {

/// Where a sanction stands.
#[derive(Clone, Copy, Debug, PartialEq, Eq, Structural)]
pub enum EnforceStage {
    /// Nothing done yet.
    Idle,
    /// Waiting for the sanctioned member.
    FetchingMember,
    /// Waiting for the timeout to be applied.
    TimingOut,
    /// Waiting for the user's messages to be deleted; whether the timeout
    /// failed.
    Deleting { timeout_failed: bool },
    /// Waiting for the alert; whether the timeout failed.
    Alerting { timeout_failed: bool },
    /// Nothing more to do.
    Finished,
}

/// What happened.
#[derive(Clone, Copy, Debug, PartialEq, Eq, Structural)]
pub enum EnforceEvent {
    /// The sanction starts at `now`, in seconds since the Unix epoch.
    Begin { now: i64 },
    /// The member was fetched, or the fetch failed.
    MemberFetched { ok: bool },
    /// The timeout was applied, or applying it failed.
    TimeoutApplied { ok: bool },
    /// This many of the user's messages were deleted.
    MessagesDeleted { count: usize },
    /// The alert was sent (or there is no alert channel), or sending failed.
    AlertSent { ok: bool },
}

/// Which failure ends a sanction.
#[derive(Clone, Copy, Debug, PartialEq, Eq, Structural)]
pub enum EnforceFailure {
    /// The end of the timeout is no valid timestamp.
    InvalidDeadline,
    /// The member could not be fetched.
    Member,
    /// The alert could not be sent.
    Alert,
    /// The timeout could not be applied.
    Timeout,
}

/// What to do next.
#[derive(Clone, Copy, Debug, PartialEq, Eq, Structural)]
pub enum EnforceAction {
    /// Fetch the member, whose timeout will end at `until`.
    FetchMember { until: i64 },
    /// Apply the timeout.
    ApplyTimeout,
    /// Delete the user's messages.
    DeleteMessages,
    /// Send the alert, which reports `deleted` deleted messages.
    SendAlert { deleted: usize },
    /// Stop with this failure.
    Fail(EnforceFailure),
    /// Stop: the sanction succeeded.
    Done,
    /// The event does not belong to this stage; nothing changes.
    Ignored,
}

/// One step of a sanction. It starts by computing the end of a week's
/// timeout, which must be a valid timestamp, and fetching the member; a
/// failed fetch ends it. The timeout is then applied, and whether or not
/// that worked the user's messages are deleted and the alert is sent. A
/// failed alert is the failure reported; else a failed timeout; else the
/// sanction succeeded.
pub open spec fn enforce_spec(stage: EnforceStage, event: EnforceEvent) -> (
    EnforceStage,
    EnforceAction,
) {
    match (stage, event) {
        (EnforceStage::Idle, EnforceEvent::Begin { now }) => if timestamp_in_range(
            (now + TIMEOUT_SECONDS) as i64,
        ) {
            (EnforceStage::FetchingMember, EnforceAction::FetchMember { until: (now + TIMEOUT_SECONDS) as i64 })
        } else {
            (EnforceStage::Finished, EnforceAction::Fail(EnforceFailure::InvalidDeadline))
        },
        (EnforceStage::FetchingMember, EnforceEvent::MemberFetched { ok }) => if ok {
            (EnforceStage::TimingOut, EnforceAction::ApplyTimeout)
        } else {
            (EnforceStage::Finished, EnforceAction::Fail(EnforceFailure::Member))
        },
        (EnforceStage::TimingOut, EnforceEvent::TimeoutApplied { ok }) => (
            EnforceStage::Deleting { timeout_failed: !ok },
            EnforceAction::DeleteMessages,
        ),
        (EnforceStage::Deleting { timeout_failed }, EnforceEvent::MessagesDeleted { count }) => (
            EnforceStage::Alerting { timeout_failed },
            EnforceAction::SendAlert { deleted: count },
        ),
        (EnforceStage::Alerting { timeout_failed }, EnforceEvent::AlertSent { ok }) => if !ok {
            (EnforceStage::Finished, EnforceAction::Fail(EnforceFailure::Alert))
        } else if timeout_failed {
            (EnforceStage::Finished, EnforceAction::Fail(EnforceFailure::Timeout))
        } else {
            (EnforceStage::Finished, EnforceAction::Done)
        },
        _ => (stage, EnforceAction::Ignored),
    }
}

/// A whole sanction whose member is found: the timeout ends a week after
/// `now`; the messages are deleted and the alert is sent whether or not the
/// timeout worked; it ends in a failed alert, else a failed timeout, else
/// success. A timeout that was applied never makes the sanction fail.
pub proof fn lemma_sanction_course(now: i64, timeout_ok: bool, count: usize, alert_ok: bool)
    requires
        -9223372036854775 <= now + 604800 <= 9223372036854775,
        timestamp_in_range((now + 604800) as i64),
    ensures
        ({
            let s1 = enforce_spec(EnforceStage::Idle, EnforceEvent::Begin { now });
            let s2 = enforce_spec(s1.0, EnforceEvent::MemberFetched { ok: true });
            let s3 = enforce_spec(s2.0, EnforceEvent::TimeoutApplied { ok: timeout_ok });
            let s4 = enforce_spec(s3.0, EnforceEvent::MessagesDeleted { count });
            let s5 = enforce_spec(s4.0, EnforceEvent::AlertSent { ok: alert_ok });
            &&& s1.1 == EnforceAction::FetchMember { until: (now + 604800) as i64 }
            &&& s2.1 == EnforceAction::ApplyTimeout
            &&& s3.1 == EnforceAction::DeleteMessages
            &&& s4.1 == EnforceAction::SendAlert { deleted: count }
            &&& s5.0 == EnforceStage::Finished
            &&& !alert_ok ==> s5.1 == EnforceAction::Fail(EnforceFailure::Alert)
            &&& alert_ok && !timeout_ok ==> s5.1 == EnforceAction::Fail(EnforceFailure::Timeout)
            &&& alert_ok && timeout_ok ==> s5.1 == EnforceAction::Done
        }),
{
}

/// A sanction whose member cannot be fetched stops there, before any
/// timeout, cleanup or alert; one whose deadline is no valid timestamp
/// stops before fetching anyone.
pub proof fn lemma_sanction_stops_early(now: i64)
    ensures
        ({
            let s1 = enforce_spec(EnforceStage::Idle, EnforceEvent::Begin { now });
            &&& !timestamp_in_range((now + 604800) as i64) ==> s1 == (
                EnforceStage::Finished,
                EnforceAction::Fail(EnforceFailure::InvalidDeadline),
            )
            &&& timestamp_in_range((now + 604800) as i64) ==> enforce_spec(
                s1.0,
                EnforceEvent::MemberFetched { ok: false },
            ) == (EnforceStage::Finished, EnforceAction::Fail(EnforceFailure::Member))
        }),
{
}

/// A failed timeout is reported only when applying the timeout failed:
/// the sanction is marked so by a failed `TimeoutApplied` and by nothing
/// else, and `Fail(Timeout)` comes only from a sanction so marked.
pub proof fn lemma_timeout_failure_needs_a_failed_timeout(stage: EnforceStage, event: EnforceEvent)
    ensures
        enforce_spec(stage, event).1 == EnforceAction::Fail(EnforceFailure::Timeout) ==> stage
            == (EnforceStage::Alerting { timeout_failed: true }),
        (enforce_spec(stage, event).0 == (EnforceStage::Alerting { timeout_failed: true })
            && stage != (EnforceStage::Alerting { timeout_failed: true })) ==> stage
            == (EnforceStage::Deleting { timeout_failed: true }),
        (enforce_spec(stage, event).0 == (EnforceStage::Deleting { timeout_failed: true })
            && stage != (EnforceStage::Deleting { timeout_failed: true })) ==> event
            == (EnforceEvent::TimeoutApplied { ok: false }),
        (enforce_spec(stage, event).0 == (EnforceStage::Deleting { timeout_failed: false })
            && stage != (EnforceStage::Deleting { timeout_failed: false })) ==> event
            == (EnforceEvent::TimeoutApplied { ok: true }),
{
}

/// The next stage of a sanction and what to do, for `event`.
pub fn enforce_step(stage: EnforceStage, event: EnforceEvent) -> (r: (EnforceStage, EnforceAction))
    requires
        event matches EnforceEvent::Begin { now } ==> -9223372036854775 <= now + TIMEOUT_SECONDS
            <= 9223372036854775,
    ensures
        r == enforce_spec(stage, event),
{
    match (stage, event) {
        (EnforceStage::Idle, EnforceEvent::Begin { now }) => match timeout_deadline(now) {
            Some(until) => (EnforceStage::FetchingMember, EnforceAction::FetchMember { until }),
            None => (EnforceStage::Finished, EnforceAction::Fail(EnforceFailure::InvalidDeadline)),
        },
        (EnforceStage::FetchingMember, EnforceEvent::MemberFetched { ok }) => if ok {
            (EnforceStage::TimingOut, EnforceAction::ApplyTimeout)
        } else {
            (EnforceStage::Finished, EnforceAction::Fail(EnforceFailure::Member))
        },
        (EnforceStage::TimingOut, EnforceEvent::TimeoutApplied { ok }) => (
            EnforceStage::Deleting { timeout_failed: !ok },
            EnforceAction::DeleteMessages,
        ),
        (EnforceStage::Deleting { timeout_failed }, EnforceEvent::MessagesDeleted { count }) => (
            EnforceStage::Alerting { timeout_failed },
            EnforceAction::SendAlert { deleted: count },
        ),
        (EnforceStage::Alerting { timeout_failed }, EnforceEvent::AlertSent { ok }) => if !ok {
            (EnforceStage::Finished, EnforceAction::Fail(EnforceFailure::Alert))
        } else if timeout_failed {
            (EnforceStage::Finished, EnforceAction::Fail(EnforceFailure::Timeout))
        } else {
            (EnforceStage::Finished, EnforceAction::Done)
        },
        _ => (stage, EnforceAction::Ignored),
    }
}

} // verus!
