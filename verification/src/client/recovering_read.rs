//! Reads that restore their connection.

use crate::client::error::ClientError;
use crate::client::reconnect::is_retryable_client_error;
use crate::client::reconnect::retryable;
use crate::client::reconnect::ReconnectError;
use crate::clock::nanos_of;
use crate::clock::span_from_millis;
use crate::clock::span_nanos;
use std::time::Duration;
use vstd::prelude::*;

verus! {

/// Controls how aggressively one recovery episode tries to re-establish the SMB connection.
///
/// `max_connect_attempts` does not increase the number of READ replays. Once a connection is
/// restored, the original idempotent READ is still replayed at most once. A value of zero disables
/// automatic recovery after a retryable READ failure.
#[derive(Debug, Clone, Copy, PartialEq, Eq)]
pub struct ReadReconnectPolicy {
    pub max_connect_attempts: usize,
    /// Delay before the second and later connection attempts within one recovery episode.
    pub backoff: Duration,
}

impl Default for ReadReconnectPolicy {
    fn default() -> (r: Self)
        ensures
            r.max_connect_attempts == 1,
            nanos_of(r.backoff) == 0,
    {
        ReadReconnectPolicy { max_connect_attempts: 1, backoff: span_from_millis(0) }
    }
}

/// Whether an error of a connection attempt calls for another one.
pub open spec fn reconnect_retryable(error: ReconnectError) -> bool {
    match error {
        ReconnectError::Client(client) => retryable(client),
        _ => false,
    }
}

/// Whether an error of a connection attempt calls for another one.
pub fn is_retryable_reconnect_error(error: &ReconnectError) -> (r: bool)
    ensures
        r == reconnect_retryable(*error),
{
    match error {
        ReconnectError::Client(client) => is_retryable_client_error(client),
        ReconnectError::Cancelled => false,
        ReconnectError::RandomSource => false,
    }
}

/// What a failed read is reported as.
pub open spec fn mapped_error(error: ClientError) -> ReconnectError {
    match error {
        ClientError::Cancelled => ReconnectError::Cancelled,
        other => ReconnectError::Client(other),
    }
}

/// Reports a failed read.
pub fn map_client_error(error: ClientError) -> (r: ReconnectError)
    ensures
        r == mapped_error(error),
{
    match error {
        ClientError::Cancelled => ReconnectError::Cancelled,
        other => ReconnectError::Client(other),
    }
}

/// A read that may restore its connection once.
#[derive(Debug, Clone, Copy)]
pub struct ReadRecovery {
    pub policy: ReadReconnectPolicy,
    /// How many connection attempts were begun.
    pub attempts: usize,
    /// Whether the connection was restored and the read is replayed.
    pub replaying: bool,
}

/// What to do next in a read that may restore its connection.
#[derive(Debug)]
pub enum RecoveryStep {
    /// Read and hand the outcome back.
    Read(ReadRecovery),
    /// Restore the connection and hand the outcome back.
    Connect(ReadRecovery),
    /// Wait for the backoff and say when it is over.
    Backoff(ReadRecovery),
    Done(Vec<u8>),
    Fail(ReconnectError),
}

impl ReadRecovery {
    /// Whether an error of the read calls for a recovery episode.
    pub open spec fn recovers(self, error: ClientError) -> bool {
        !self.replaying && self.policy.max_connect_attempts > 0 && retryable(error)
    }

    /// The recovery after one more connection attempt was begun.
    pub open spec fn attempted(self) -> ReadRecovery {
        ReadRecovery { attempts: (self.attempts + 1) as usize, ..self }
    }

    /// Whether the attempts are within what the policy allows.
    pub open spec fn wf(self) -> bool {
        self.attempts <= self.policy.max_connect_attempts
    }
}

/// The step that a read begins with.
pub open spec fn begin_step(policy: ReadReconnectPolicy, current: bool) -> RecoveryStep {
    if current {
        RecoveryStep::Read(ReadRecovery { policy, attempts: 0, replaying: false })
    } else {
        RecoveryStep::Fail(ReconnectError::Cancelled)
    }
}

/// The step that the outcome of a read calls for.
pub open spec fn read_step(
    recovery: ReadRecovery,
    outcome: Result<Vec<u8>, ClientError>,
    current: bool,
) -> RecoveryStep {
    match outcome {
        Ok(data) => RecoveryStep::Done(data),
        Err(error) => if !recovery.recovers(error) {
            RecoveryStep::Fail(mapped_error(error))
        } else if !current {
            RecoveryStep::Fail(ReconnectError::Cancelled)
        } else {
            RecoveryStep::Connect(ReadRecovery { attempts: 1, ..recovery })
        },
    }
}

/// The step that the outcome of a connection attempt calls for.
pub open spec fn connect_step(
    recovery: ReadRecovery,
    outcome: Result<(), ReconnectError>,
    current: bool,
) -> RecoveryStep {
    match outcome {
        Ok(()) => RecoveryStep::Read(ReadRecovery { replaying: true, ..recovery }),
        Err(error) => if !reconnect_retryable(error) || recovery.attempts
            >= recovery.policy.max_connect_attempts {
            RecoveryStep::Fail(error)
        } else if !current {
            RecoveryStep::Fail(ReconnectError::Cancelled)
        } else if nanos_of(recovery.policy.backoff) > 0 {
            RecoveryStep::Backoff(recovery)
        } else {
            RecoveryStep::Connect(recovery.attempted())
        },
    }
}

/// The step that the end of a backoff calls for.
pub open spec fn backoff_step(recovery: ReadRecovery, current: bool) -> RecoveryStep {
    if current {
        RecoveryStep::Connect(recovery.attempted())
    } else {
        RecoveryStep::Fail(ReconnectError::Cancelled)
    }
}

impl ReadRecovery {
    /// Begins a read. `current` says whether its generation still is; a read that cannot be
    /// cancelled is always current.
    pub fn begin(policy: ReadReconnectPolicy, current: bool) -> (r: RecoveryStep)
        ensures
            r == begin_step(policy, current),
    {
        if current {
            RecoveryStep::Read(ReadRecovery { policy, attempts: 0, replaying: false })
        } else {
            RecoveryStep::Fail(ReconnectError::Cancelled)
        }
    }

    /// Whether an error of the read calls for a recovery episode.
    pub fn should_recover(&self, error: &ClientError) -> (r: bool)
        ensures
            r == self.recovers(*error),
    {
        !self.replaying && self.policy.max_connect_attempts > 0 && is_retryable_client_error(error)
    }

    /// Takes the outcome of the read.
    pub fn on_read(self, outcome: Result<Vec<u8>, ClientError>, current: bool) -> (r: RecoveryStep)
        ensures
            r == read_step(self, outcome, current),
    {
        match outcome {
            Ok(data) => RecoveryStep::Done(data),
            Err(error) => {
                if !self.should_recover(&error) {
                    return RecoveryStep::Fail(map_client_error(error));
                }
                if !current {
                    return RecoveryStep::Fail(ReconnectError::Cancelled);
                }
                RecoveryStep::Connect(
                    ReadRecovery { policy: self.policy, attempts: 1, replaying: self.replaying },
                )
            },
        }
    }

    /// Begins one more connection attempt.
    fn attempt_again(self) -> (r: RecoveryStep)
        requires
            self.attempts < self.policy.max_connect_attempts,
        ensures
            r == RecoveryStep::Connect(self.attempted()),
    {
        RecoveryStep::Connect(
            ReadRecovery {
                policy: self.policy,
                attempts: self.attempts + 1,
                replaying: self.replaying,
            },
        )
    }

    /// Takes the outcome of a connection attempt.
    pub fn on_connect(self, outcome: Result<(), ReconnectError>, current: bool) -> (r: RecoveryStep)
        ensures
            r == connect_step(self, outcome, current),
    {
        match outcome {
            Ok(()) => RecoveryStep::Read(
                ReadRecovery { policy: self.policy, attempts: self.attempts, replaying: true },
            ),
            Err(error) => {
                if !is_retryable_reconnect_error(&error) || self.attempts
                    >= self.policy.max_connect_attempts {
                    return RecoveryStep::Fail(error);
                }
                if !current {
                    return RecoveryStep::Fail(ReconnectError::Cancelled);
                }
                if span_nanos(self.policy.backoff) > 0 {
                    return RecoveryStep::Backoff(self);
                }
                self.attempt_again()
            },
        }
    }

    /// Goes on after a backoff.
    pub fn on_backoff_over(self, current: bool) -> (r: RecoveryStep)
        requires
            self.attempts < self.policy.max_connect_attempts,
        ensures
            r == backoff_step(self, current),
    {
        if current {
            self.attempt_again()
        } else {
            RecoveryStep::Fail(ReconnectError::Cancelled)
        }
    }
}

/// The recovery that a step goes on with.
pub open spec fn continued(step: RecoveryStep) -> Option<ReadRecovery> {
    match step {
        RecoveryStep::Read(next) => Some(next),
        RecoveryStep::Connect(next) => Some(next),
        RecoveryStep::Backoff(next) => Some(next),
        RecoveryStep::Done(_) => None,
        RecoveryStep::Fail(_) => None,
    }
}

/// The read is replayed at most once: a second read happens only as a replay, and the outcome of a
/// replay ends it.
pub proof fn law_read_is_replayed_at_most_once(
    recovery: ReadRecovery,
    read: Result<Vec<u8>, ClientError>,
    connected: Result<(), ReconnectError>,
    current: bool,
)
    ensures
        !(read_step(recovery, read, current) is Read),
        recovery.replaying ==> continued(read_step(recovery, read, current)) is None,
        connect_step(recovery, connected, current) is Read ==> continued(
            connect_step(recovery, connected, current),
        )->0.replaying,
        !(backoff_step(recovery, current) is Read),
{
}

/// There are never more connection attempts than the policy allows, whatever happens.
pub proof fn law_attempts_stay_within_policy(
    recovery: ReadRecovery,
    read: Result<Vec<u8>, ClientError>,
    connected: Result<(), ReconnectError>,
    current: bool,
)
    requires
        recovery.wf(),
    ensures
        continued(read_step(recovery, read, current)) is Some ==> continued(
            read_step(recovery, read, current),
        )->0.wf(),
        continued(connect_step(recovery, connected, current)) is Some ==> continued(
            connect_step(recovery, connected, current),
        )->0.wf(),
        connect_step(recovery, connected, current) is Backoff ==> recovery.attempts
            < recovery.policy.max_connect_attempts,
        recovery.attempts < recovery.policy.max_connect_attempts && current ==> continued(
            backoff_step(recovery, current),
        )->0.wf(),
{
}

/// A failure that does not say that the connection or the session is gone is never retried, and a
/// cancellation is never turned into a retry.
pub proof fn law_other_failures_are_not_retried(
    recovery: ReadRecovery,
    error: ClientError,
    current: bool,
)
    requires
        !retryable(error),
    ensures
        read_step(recovery, Err(error), current) == RecoveryStep::Fail(mapped_error(error)),
        connect_step(recovery, Err(ReconnectError::Client(error)), current) == RecoveryStep::Fail(
            ReconnectError::Client(error),
        ),
        connect_step(recovery, Err(ReconnectError::Cancelled), current) == RecoveryStep::Fail(
            ReconnectError::Cancelled,
        ),
{
}

} // verus!
