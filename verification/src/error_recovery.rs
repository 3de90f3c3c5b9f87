//! Choosing how to react to an error, and the bookkeeping of reconnection attempts
//! with an exponential backoff.
//!
//! Waiting out a backoff is left to the caller: the functions here decide, and say how
//! long to wait before the operation is run again.
use vstd::prelude::*;

use crate::error::{needs_reconnection, recoverable, Result, Uac2Error, UsbError};

verus! {

/// How many reconnection attempts are made before giving up.
pub const MAX_RECONNECT_ATTEMPTS: usize = 5;

/// The backoff before the first reconnection attempt, in milliseconds.
pub const INITIAL_BACKOFF_MS: u64 = 100;

/// The longest backoff, in milliseconds.
pub const MAX_BACKOFF_MS: u64 = 5000;

/// The factor by which the backoff grows with each attempt.
pub const BACKOFF_MULTIPLIER: u64 = 2;

/// `std::time::Instant`, held as an opaque value.
#[verifier::external_type_specification]
#[verifier::external_body]
pub struct ExInstant(std::time::Instant);

/// Reads the clock with `std::time::Instant::now`. Trusted, and nothing is claimed of the
/// instant returned: it depends on the time.
#[verifier::external_body]
fn instant_now() -> std::time::Instant {
    std::time::Instant::now()
}

/// The time elapsed since `instant`, by `std::time::Instant::elapsed`. Trusted, and
/// nothing is claimed of the duration returned: it depends on the time.
#[verifier::external_body]
fn instant_elapsed(instant: &std::time::Instant) -> core::time::Duration {
    instant.elapsed()
}

/// What to do about an error.
#[derive(Debug, Clone, Copy, PartialEq, Eq, Structural)]
pub enum RecoveryStrategy {
    Retry,
    Reconnect,
    Fallback,
    Abort,
}

/// The state of an [`ErrorRecovery`]: the reconnection attempts made since the last
/// reset, the backoff to wait before the next attempt, and whether an error was recorded.
pub struct RecoveryState {
    pub attempts: nat,
    pub backoff_ms: nat,
    pub error_seen: bool,
}

/// The backoff after `n` reconnection attempts: it starts at the initial backoff and
/// is multiplied with each attempt, up to the longest backoff.
pub open spec fn backoff_after(n: nat) -> nat
    decreases n,
{
    if n == 0 {
        INITIAL_BACKOFF_MS as nat
    } else {
        let doubled = backoff_after((n - 1) as nat) * (BACKOFF_MULTIPLIER as nat);
        if doubled < MAX_BACKOFF_MS {
            doubled
        } else {
            MAX_BACKOFF_MS as nat
        }
    }
}

/// The state of a new or reset recovery.
pub open spec fn fresh_state() -> RecoveryState {
    RecoveryState { attempts: 0, backoff_ms: INITIAL_BACKOFF_MS as nat, error_seen: false }
}

/// The state after one more reconnection attempt.
pub open spec fn after_attempt(s: RecoveryState) -> RecoveryState {
    let doubled = s.backoff_ms * (BACKOFF_MULTIPLIER as nat);
    RecoveryState {
        attempts: s.attempts + 1,
        backoff_ms: if doubled < MAX_BACKOFF_MS { doubled } else { MAX_BACKOFF_MS as nat },
        error_seen: s.error_seen,
    }
}

/// The state after an error is recorded.
pub open spec fn after_error(s: RecoveryState) -> RecoveryState {
    RecoveryState { error_seen: true, ..s }
}

/// The strategy for `e` after `attempts` reconnection attempts.
pub open spec fn strategy_for(attempts: nat, e: Uac2Error) -> RecoveryStrategy {
    if needs_reconnection(e) {
        if attempts < MAX_RECONNECT_ATTEMPTS {
            RecoveryStrategy::Reconnect
        } else {
            RecoveryStrategy::Fallback
        }
    } else if recoverable(e) {
        RecoveryStrategy::Retry
    } else {
        RecoveryStrategy::Abort
    }
}

/// Bookkeeping of errors and reconnection attempts.
pub struct ErrorRecovery {
    reconnect_attempts: usize,
    last_error: Option<std::time::Instant>,
    backoff_ms: u64,
}

impl View for ErrorRecovery {
    type V = RecoveryState;

    closed spec fn view(&self) -> RecoveryState {
        RecoveryState {
            attempts: self.reconnect_attempts as nat,
            backoff_ms: self.backoff_ms as nat,
            error_seen: self.last_error is Some,
        }
    }
}

impl ErrorRecovery {
    /// The backoff is the one that the attempts made so far lead to.
    #[verifier::type_invariant]
    closed spec fn inv(self) -> bool {
        self.backoff_ms == backoff_after(self.reconnect_attempts as nat)
    }

    /// A recovery with no attempts made and no error recorded.
    pub fn new() -> (r: Self)
        ensures
            r@ == fresh_state(),
    {
        ErrorRecovery { reconnect_attempts: 0, last_error: None, backoff_ms: INITIAL_BACKOFF_MS }
    }

    /// Reconnects while attempts remain for errors that need it, retries transient
    /// errors, and gives up on the others.
    pub fn determine_strategy(&self, error: &Uac2Error) -> (r: RecoveryStrategy)
        ensures
            r == strategy_for(self@.attempts, *error),
    {
        if error.requires_reconnection() {
            if self.reconnect_attempts < MAX_RECONNECT_ATTEMPTS {
                RecoveryStrategy::Reconnect
            } else {
                RecoveryStrategy::Fallback
            }
        } else if error.is_recoverable() {
            RecoveryStrategy::Retry
        } else {
            RecoveryStrategy::Abort
        }
    }

    /// Records the time of an error.
    pub fn record_error(&mut self)
        ensures
            final(self)@ == after_error(old(self)@),
    {
        proof {
            use_type_invariant(&*self);
        }
        self.last_error = Some(instant_now());
    }

    /// Counts one more reconnection attempt and grows the backoff.
    pub fn record_reconnect_attempt(&mut self)
        requires
            old(self)@.attempts < usize::MAX,
        ensures
            final(self)@ == after_attempt(old(self)@),
    {
        proof {
            use_type_invariant(&*self);
            law_backoff_bounded(self@.attempts);
        }
        let doubled = self.backoff_ms * BACKOFF_MULTIPLIER;
        *self = ErrorRecovery {
            reconnect_attempts: self.reconnect_attempts + 1,
            last_error: self.last_error,
            backoff_ms: if doubled < MAX_BACKOFF_MS { doubled } else { MAX_BACKOFF_MS },
        };
    }

    /// Forgets the attempts and the recorded error, and restores the initial backoff.
    pub fn reset(&mut self)
        ensures
            final(self)@ == fresh_state(),
    {
        *self = ErrorRecovery::new();
    }

    /// The reconnection attempts made since the last reset.
    pub fn reconnect_attempts(&self) -> (r: usize)
        ensures
            r == self@.attempts,
    {
        self.reconnect_attempts
    }

    /// Whether another reconnection attempt may be made.
    pub fn can_reconnect(&self) -> (r: bool)
        ensures
            r == (self@.attempts < MAX_RECONNECT_ATTEMPTS),
    {
        self.reconnect_attempts < MAX_RECONNECT_ATTEMPTS
    }

    /// The backoff to wait before the next operation, in milliseconds.
    pub fn backoff_ms(&self) -> (r: u64)
        ensures
            r == self@.backoff_ms,
            r == backoff_after(self@.attempts),
    {
        proof {
            use_type_invariant(self);
        }
        self.backoff_ms
    }
}

impl Default for ErrorRecovery {
    fn default() -> (r: Self)
        ensures
            r@ == fresh_state(),
    {
        Self::new()
    }
}

/// What the caller of [`Recoverable::with_recovery`] does next.
pub enum RecoveryAction<T> {
    /// Hand this result back.
    Return(Result<T>),
    /// Run the operation again at once.
    RunOperation,
    /// Wait this many milliseconds, then run the operation again.
    WaitThenRunOperation(u64),
}

/// Results that can be recovered from by running the operation that gave them again.
pub trait Recoverable<T>: Sized {
    /// Decides, from this result and the recovery's state, what to do next, and
    /// updates the recovery's bookkeeping.
    fn with_recovery(self, recovery: &mut ErrorRecovery) -> RecoveryAction<T>
    ;
}

/// What [`Recoverable::with_recovery`] decides for `result` when the recovery is in `s`.
pub open spec fn recovery_action<T>(result: Result<T>, s: RecoveryState) -> RecoveryAction<T> {
    match result {
        Ok(value) => RecoveryAction::Return(Ok(value)),
        Err(error) => match strategy_for(s.attempts, error) {
            RecoveryStrategy::Retry => RecoveryAction::RunOperation,
            RecoveryStrategy::Reconnect => RecoveryAction::WaitThenRunOperation(
                after_attempt(s).backoff_ms as u64,
            ),
            RecoveryStrategy::Fallback => RecoveryAction::Return(
                Err(Uac2Error::ReconnectionFailed(s.attempts as usize)),
            ),
            RecoveryStrategy::Abort => RecoveryAction::Return(Err(error)),
        },
    }
}

/// The recovery's state after [`Recoverable::with_recovery`] dealt with `result` in `s`.
pub open spec fn recovery_after<T>(result: Result<T>, s: RecoveryState) -> RecoveryState {
    match result {
        Ok(_) => fresh_state(),
        Err(error) => if strategy_for(s.attempts, error) == RecoveryStrategy::Reconnect {
            after_attempt(after_error(s))
        } else {
            after_error(s)
        },
    }
}

impl<T> Recoverable<T> for Result<T> {
    /// A success resets the recovery and is handed back. An error is recorded, then:
    /// a transient one has the operation run again; one that needs a reconnection, while
    /// attempts remain, counts an attempt and has the operation run again after the
    /// backoff; once the attempts are used up it becomes `ReconnectionFailed`; any other
    /// error is handed back as it is.
    fn with_recovery(self, recovery: &mut ErrorRecovery) -> (r: RecoveryAction<T>)
        ensures
            r == recovery_action(self, old(recovery)@),
            final(recovery)@ == recovery_after(self, old(recovery)@),
    {
        match self {
            Ok(value) => {
                recovery.reset();
                RecoveryAction::Return(Ok(value))
            },
            Err(error) => {
                recovery.record_error();
                let strategy = recovery.determine_strategy(&error);
                match strategy {
                    RecoveryStrategy::Retry => RecoveryAction::RunOperation,
                    RecoveryStrategy::Reconnect => {
                        recovery.record_reconnect_attempt();
                        RecoveryAction::WaitThenRunOperation(recovery.backoff_ms())
                    },
                    RecoveryStrategy::Fallback => RecoveryAction::Return(
                        Err(Uac2Error::ReconnectionFailed(recovery.reconnect_attempts())),
                    ),
                    RecoveryStrategy::Abort => RecoveryAction::Return(Err(error)),
                }
            },
        }
    }
}

/// The state of a [`ReconnectionManager`]: that of its recovery, and whether a
/// successful connection was recorded.
pub struct ReconnectionState {
    pub recovery: RecoveryState,
    pub connected: bool,
}

/// Reconnection attempts with a bounded budget and a growing backoff.
pub struct ReconnectionManager {
    recovery: ErrorRecovery,
    last_successful_connection: Option<std::time::Instant>,
}

impl View for ReconnectionManager {
    type V = ReconnectionState;

    closed spec fn view(&self) -> ReconnectionState {
        ReconnectionState {
            recovery: self.recovery@,
            connected: self.last_successful_connection is Some,
        }
    }
}

impl ReconnectionManager {
    /// A manager with no attempts made and no connection recorded.
    pub fn new() -> (r: Self)
        ensures
            r@ == (ReconnectionState { recovery: fresh_state(), connected: false }),
    {
        ReconnectionManager { recovery: ErrorRecovery::new(), last_successful_connection: None }
    }

    /// Begins a reconnection attempt. Once the attempts are used up it is refused with
    /// `ReconnectionFailed` and the number of attempts made, and nothing changes.
    /// Otherwise the attempt is counted and the backoff to wait before reconnecting is
    /// returned, in milliseconds; the caller then reconnects and hands the outcome to
    /// [`ReconnectionManager::complete_reconnect`].
    pub fn attempt_reconnect(&mut self) -> (r: Result<u64>)
        ensures
            old(self)@.recovery.attempts >= MAX_RECONNECT_ATTEMPTS ==> {
                &&& r matches Err(Uac2Error::ReconnectionFailed(n))
                &&& n == old(self)@.recovery.attempts
                &&& final(self)@ == old(self)@
            },
            old(self)@.recovery.attempts < MAX_RECONNECT_ATTEMPTS ==> {
                &&& final(self)@ == (ReconnectionState {
                    recovery: after_attempt(old(self)@.recovery),
                    ..old(self)@
                })
                &&& r == Ok::<u64, Uac2Error>(final(self)@.recovery.backoff_ms as u64)
            },
    {
        if !self.recovery.can_reconnect() {
            return Err(Uac2Error::ReconnectionFailed(self.recovery.reconnect_attempts()));
        }
        self.recovery.record_reconnect_attempt();
        Ok(self.recovery.backoff_ms())
    }

    /// Takes the outcome of a reconnection. A success resets the recovery and records
    /// the time of the connection; a failure is handed back and changes nothing.
    pub fn complete_reconnect(&mut self, outcome: Result<()>) -> (r: Result<()>)
        ensures
            outcome is Ok ==> r is Ok && final(self)@ == (ReconnectionState {
                recovery: fresh_state(),
                connected: true,
            }),
            outcome is Err ==> r == outcome && final(self)@ == old(self)@,
    {
        match outcome {
            Ok(()) => {
                self.recovery.reset();
                self.last_successful_connection = Some(instant_now());
                Ok(())
            },
            Err(e) => Err(e),
        }
    }

    /// Forgets the attempts and records the current time as the last connection.
    pub fn reset(&mut self)
        ensures
            final(self)@ == (ReconnectionState { recovery: fresh_state(), connected: true }),
    {
        self.recovery.reset();
        self.last_successful_connection = Some(instant_now());
    }

    /// The reconnection attempts made since the last success or reset.
    pub fn reconnect_attempts(&self) -> (r: usize)
        ensures
            r == self@.recovery.attempts,
    {
        self.recovery.reconnect_attempts()
    }

    /// The time since the last successful connection, if one was recorded.
    pub fn time_since_last_connection(&self) -> (r: Option<core::time::Duration>)
        ensures
            r is Some == self@.connected,
    {
        match &self.last_successful_connection {
            Some(instant) => Some(instant_elapsed(instant)),
            None => None,
        }
    }
}

impl Default for ReconnectionManager {
    fn default() -> (r: Self)
        ensures
            r@ == (ReconnectionState { recovery: fresh_state(), connected: false }),
    {
        Self::new()
    }
}

/// The backoff lies between the initial and the longest backoff and never shrinks as
/// attempts are made; from the sixth attempt on it is the longest backoff.
pub proof fn law_backoff_bounded(n: nat)
    ensures
        INITIAL_BACKOFF_MS <= backoff_after(n) <= MAX_BACKOFF_MS,
        backoff_after(n) <= backoff_after(n + 1),
        n >= 6 ==> backoff_after(n) == MAX_BACKOFF_MS,
    decreases n,
{
    if n > 0 {
        law_backoff_bounded((n - 1) as nat);
    }
    if n == 6 {
        reveal_with_fuel(backoff_after, 7);
    }
}

/// Each reconnection attempt keeps the backoff on its schedule: the backoff after an
/// attempt is the one that the new number of attempts leads to.
pub proof fn law_attempt_follows_schedule(s: RecoveryState)
    requires
        s.backoff_ms == backoff_after(s.attempts),
    ensures
        after_attempt(s).backoff_ms == backoff_after(after_attempt(s).attempts),
        after_attempt(s).attempts == s.attempts + 1,
{
}

/// Reconnection is bounded: for an error that needs a reconnection, a recovery with
/// attempts left counts one more and asks to wait the next backoff before running the
/// operation again; once the attempts are used up it hands back `ReconnectionFailed`
/// with their number, and counts no more.
pub proof fn law_reconnection_bounded<T>(e: Uac2Error, s: RecoveryState)
    requires
        needs_reconnection(e),
    ensures
        s.attempts < MAX_RECONNECT_ATTEMPTS ==> {
            &&& recovery_after(Err::<T, Uac2Error>(e), s).attempts == s.attempts + 1
            &&& recovery_action(Err::<T, Uac2Error>(e), s)
                == RecoveryAction::<T>::WaitThenRunOperation(after_attempt(s).backoff_ms as u64)
        },
        s.attempts >= MAX_RECONNECT_ATTEMPTS ==> {
            &&& recovery_after(Err::<T, Uac2Error>(e), s).attempts == s.attempts
            &&& recovery_action(Err::<T, Uac2Error>(e), s) == RecoveryAction::<T>::Return(
                Err(Uac2Error::ReconnectionFailed(s.attempts as usize)),
            )
        },
{
}

/// A success always restores the fresh state and is handed back unchanged; an error
/// that is neither transient nor in need of a reconnection is handed back unchanged.
pub proof fn law_recovery_passes_results<T>(result: Result<T>, s: RecoveryState)
    ensures
        result is Ok ==> recovery_after(result, s) == fresh_state() && recovery_action(result, s)
            == RecoveryAction::Return(result),
        result matches Err(e) && !recoverable(e) && !needs_reconnection(e) ==> recovery_action(
            result,
            s,
        ) == RecoveryAction::Return(result),
{
}

/// The strategy for each error: a disconnected device (or a USB `NoDevice`) is reconnected
/// while fewer than the maximum attempts were made and falls back afterwards; a buffer
/// underflow or overflow, a failed transfer and a busy device are retried whatever the
/// attempts; any other error aborts. Only the first kind ever reconnects or falls back.
pub proof fn law_strategy_by_error(e: Uac2Error, attempts: nat)
    ensures
        (e is DeviceDisconnected || e == Uac2Error::Usb(UsbError::NoDevice)) ==> strategy_for(
            attempts,
            e,
        ) == if attempts < 5 {
            RecoveryStrategy::Reconnect
        } else {
            RecoveryStrategy::Fallback
        },
        (e is BufferUnderflow || e is BufferOverflow || e is TransferFailed || e is DeviceBusy)
            ==> strategy_for(attempts, e) == RecoveryStrategy::Retry,
        !(e is DeviceDisconnected || e == Uac2Error::Usb(UsbError::NoDevice) || e is BufferUnderflow
            || e is BufferOverflow || e is TransferFailed || e is DeviceBusy) ==> strategy_for(
            attempts,
            e,
        ) == RecoveryStrategy::Abort,
        (strategy_for(attempts, e) == RecoveryStrategy::Reconnect || strategy_for(attempts, e)
            == RecoveryStrategy::Fallback) ==> (e is DeviceDisconnected || e == Uac2Error::Usb(
            UsbError::NoDevice,
        )),
{
}

/// What is done after each kind of error. A buffer underflow or overflow, a failed
/// transfer or a busy device has the operation run again at once, with no attempt counted
/// and the backoff kept. A lost device, while attempts remain, has one more attempt
/// counted and the operation run again after the doubled backoff (at most the longest
/// one); once they are used up, `ReconnectionFailed` with their number is handed back.
/// Any other error is handed back unchanged.
pub proof fn law_action_by_error<T>(e: Uac2Error, s: RecoveryState)
    ensures
        (e is BufferUnderflow || e is BufferOverflow || e is TransferFailed || e is DeviceBusy)
            ==> {
            &&& recovery_action(Err::<T, Uac2Error>(e), s) == RecoveryAction::<T>::RunOperation
            &&& recovery_after(Err::<T, Uac2Error>(e), s).attempts == s.attempts
            &&& recovery_after(Err::<T, Uac2Error>(e), s).backoff_ms == s.backoff_ms
        },
        (e is DeviceDisconnected || e == Uac2Error::Usb(UsbError::NoDevice)) && s.attempts < 5
            ==> {
            &&& recovery_action(Err::<T, Uac2Error>(e), s)
                == RecoveryAction::<T>::WaitThenRunOperation(
                if 2 * s.backoff_ms < 5000 {
                    (2 * s.backoff_ms) as u64
                } else {
                    5000u64
                },
            )
            &&& recovery_after(Err::<T, Uac2Error>(e), s).attempts == s.attempts + 1
        },
        (e is DeviceDisconnected || e == Uac2Error::Usb(UsbError::NoDevice)) && s.attempts >= 5
            ==> {
            &&& recovery_action(Err::<T, Uac2Error>(e), s) == RecoveryAction::<T>::Return(
                Err(Uac2Error::ReconnectionFailed(s.attempts as usize)),
            )
            &&& recovery_after(Err::<T, Uac2Error>(e), s).attempts == s.attempts
        },
        !(e is DeviceDisconnected || e == Uac2Error::Usb(UsbError::NoDevice) || e is BufferUnderflow
            || e is BufferOverflow || e is TransferFailed || e is DeviceBusy) ==> {
            &&& recovery_action(Err::<T, Uac2Error>(e), s) == RecoveryAction::<T>::Return(Err(e))
            &&& recovery_after(Err::<T, Uac2Error>(e), s).attempts == s.attempts
        },
{
}

/// The backoff starts at 100 ms and each attempt doubles it, up to 5000 ms.
pub proof fn law_backoff_doubles(n: nat)
    ensures
        backoff_after(0) == 100,
        backoff_after(n + 1) == if 2 * backoff_after(n) < 5000 {
            2 * backoff_after(n)
        } else {
            5000
        },
{
}

} // verus!
