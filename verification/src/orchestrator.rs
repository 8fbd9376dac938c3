//! Starting, draining and stopping the engine.
use vstd::prelude::*;

verus! {

/// Seconds between two ticks of the sagas.
pub const DEFAULT_TICK: u64 = 5;

/// Boots the engine.
#[derive(Debug, Clone, Copy, PartialEq, Eq, Structural)]
pub struct Orchestrator;

/// The steps of a boot, in order. What was running when the process died is ended
/// before any actor is rebuilt, so that no attempt is resumed, and the position is
/// read before that, so that no event is missed.
#[derive(Debug, Clone, Copy, PartialEq, Eq, Structural)]
pub enum BootStep {
    /// Remember where the event bus stands.
    ReadPosition,
    /// Read every recorded event.
    ReadEvents,
    /// End the attempts that were running.
    EndAttempts,
    /// Make an actor for every run that goes on.
    RebuildActors,
    /// Follow the bus from the remembered position.
    Subscribe,
    Ready,
}

/// The steps of a shutdown, in order.
#[derive(Debug, Clone, Copy, PartialEq, Eq, Structural)]
pub enum ShutdownStep {
    /// Admit no more runs, start no more attempts.
    Drain,
    /// Let running attempts finish, for a while.
    AwaitIdle,
    /// End the actors, and with them their attempts.
    StopActors,
    /// Cancel everything else.
    Cancel,
    Stopped,
}

impl BootStep {
    /// The step after this one; the last one stays.
    pub open spec fn next(self) -> BootStep {
        match self {
            BootStep::ReadPosition => BootStep::ReadEvents,
            BootStep::ReadEvents => BootStep::EndAttempts,
            BootStep::EndAttempts => BootStep::RebuildActors,
            BootStep::RebuildActors => BootStep::Subscribe,
            BootStep::Subscribe => BootStep::Ready,
            BootStep::Ready => BootStep::Ready,
        }
    }
}

impl ShutdownStep {
    /// The step after this one; the last one stays.
    pub open spec fn next(self) -> ShutdownStep {
        match self {
            ShutdownStep::Drain => ShutdownStep::AwaitIdle,
            ShutdownStep::AwaitIdle => ShutdownStep::StopActors,
            ShutdownStep::StopActors => ShutdownStep::Cancel,
            ShutdownStep::Cancel => ShutdownStep::Stopped,
            ShutdownStep::Stopped => ShutdownStep::Stopped,
        }
    }
}

impl Orchestrator {
    /// The step of a boot after `step`.
    pub fn boot(step: BootStep) -> (r: BootStep)
        ensures
            r == step.next(),
    {
        match step {
            BootStep::ReadPosition => BootStep::ReadEvents,
            BootStep::ReadEvents => BootStep::EndAttempts,
            BootStep::EndAttempts => BootStep::RebuildActors,
            BootStep::RebuildActors => BootStep::Subscribe,
            BootStep::Subscribe => BootStep::Ready,
            BootStep::Ready => BootStep::Ready,
        }
    }

    /// The step of a shutdown after `step`.
    pub fn shutdown(step: ShutdownStep) -> (r: ShutdownStep)
        ensures
            r == step.next(),
    {
        match step {
            ShutdownStep::Drain => ShutdownStep::AwaitIdle,
            ShutdownStep::AwaitIdle => ShutdownStep::StopActors,
            ShutdownStep::StopActors => ShutdownStep::Cancel,
            ShutdownStep::Cancel => ShutdownStep::Stopped,
            ShutdownStep::Stopped => ShutdownStep::Stopped,
        }
    }
}

/// Actors are rebuilt only once the attempts that were running are ended, and the
/// bus is followed only once the actors are there.
pub proof fn law_no_attempt_is_resumed(step: BootStep)
    ensures
        step.next() == BootStep::RebuildActors ==> step == BootStep::EndAttempts,
        step.next() == BootStep::Subscribe ==> step == BootStep::RebuildActors,
{
}

/// The position from which the bus is followed is read before the recorded
/// events are: an event past it comes over the bus, and any other is among those
/// that are read, which are read before the actors are made from them.
pub proof fn law_no_event_is_missed(step: BootStep)
    ensures
        step.next() == BootStep::ReadEvents ==> step == BootStep::ReadPosition,
        step.next() == BootStep::EndAttempts ==> step == BootStep::ReadEvents,
{
}

/// Actors are stopped only after they had their time to finish, and that begins
/// with draining.
pub proof fn law_attempts_get_their_grace(step: ShutdownStep)
    ensures
        step.next() == ShutdownStep::StopActors ==> step == ShutdownStep::AwaitIdle,
        step.next() == ShutdownStep::AwaitIdle ==> step == ShutdownStep::Drain,
{
}

/// A boot ends: from reading the position on every step is taken, one behind the
/// other, and then the engine is ready and stays so.
pub proof fn law_a_boot_takes_every_step()
    ensures
        BootStep::ReadPosition.next() == BootStep::ReadEvents,
        BootStep::ReadPosition.next().next() == BootStep::EndAttempts,
        BootStep::ReadPosition.next().next().next() == BootStep::RebuildActors,
        BootStep::ReadPosition.next().next().next().next() == BootStep::Subscribe,
        BootStep::ReadPosition.next().next().next().next().next() == BootStep::Ready,
        BootStep::Ready.next() == BootStep::Ready,
{
}

/// A shutdown ends: every step is taken, one behind the other, and then the engine
/// is stopped and stays so.
pub proof fn law_a_shutdown_takes_every_step()
    ensures
        ShutdownStep::Drain.next() == ShutdownStep::AwaitIdle,
        ShutdownStep::Drain.next().next() == ShutdownStep::StopActors,
        ShutdownStep::Drain.next().next().next() == ShutdownStep::Cancel,
        ShutdownStep::Drain.next().next().next().next() == ShutdownStep::Stopped,
        ShutdownStep::Stopped.next() == ShutdownStep::Stopped,
{
}

} // verus!
