//! The self-update state machine.
//!
//! The machine decides; its owner acts.  The owner performs the action that
//! [`SelfUpdater::step`] returns (sleeping, asking the release source,
//! downloading to a temporary file, checking the download, renaming it over
//! the running binary, restarting) and reports what happened as the next
//! [`UpdateEvent`].  The running binary is touched by one action only,
//! [`UpdateAction::Swap`], which the machine issues for a download that was
//! reported as verified and for nothing else.

use crate::error::UpdateCheckError;
use crate::version::Version;
use vstd::prelude::*;

verus! {

/// What the updater knows about versions.
#[derive(Clone, Copy, Debug)]
pub struct UpdateCheck {
    /// The version of the running binary.
    pub current_version: Version,
    /// The latest version the release source reported, if it ever answered.
    pub latest_version: Option<Version>,
    /// Seconds between two checks.
    pub poll_interval_secs: u64,
}

/// Where the updater stands.
#[derive(Clone, Copy, Debug)]
pub enum UpdatePhase {
    /// Waiting for the next interval.
    Idle,
    /// Asking the release source for the latest version.
    Checking,
    /// Fetching the given version to a temporary location.
    Downloading(Version),
    /// Checking the integrity of the fetched file.
    Verifying(Version),
    /// Renaming the fetched file over the running binary.
    Swapping(Version),
    /// The new binary is in place and the process is being restarted.
    Restarting,
}

/// What the owner reports to the machine.
#[derive(Clone, Copy, Debug)]
pub enum UpdateEvent {
    /// The poll interval has passed.
    IntervalElapsed,
    /// The release source named its latest version.
    LatestVersion(Version),
    /// The release source could not be asked.
    CheckFailed(UpdateCheckError),
    /// The download is complete.
    Downloaded,
    /// The download broke off.
    DownloadFailed,
    /// The downloaded file passed the integrity check.
    Verified,
    /// The downloaded file failed the integrity check.
    VerificationFailed,
    /// The downloaded file now is the running binary's file.
    Swapped,
    /// The rename did not happen.
    SwapFailed,
    /// The process is shutting down.
    ShutdownRequested,
}

/// What the machine asks its owner to do next.
#[derive(Clone, Copy, Debug)]
pub enum UpdateAction {
    /// Sleep, then report `IntervalElapsed`.
    Wait { seconds: u64 },
    /// Remove whatever was downloaded, sleep, then report `IntervalElapsed`.
    Abandon { seconds: u64 },
    /// Ask the release source for its latest version.
    CheckLatest,
    /// Fetch this version to a temporary location.
    Download(Version),
    /// Check the integrity of the fetched file.
    Verify(Version),
    /// Rename the fetched file over the running binary.
    Swap(Version),
    /// Restart the process.
    Restart,
    /// Remove whatever was downloaded and end the update task.
    Stop,
    /// The event does not concern the current phase: do nothing.
    Ignore,
}

impl UpdateEvent {
    /// The events that report a failed step.
    pub open spec fn is_failure(self) -> bool {
        self is CheckFailed || self is DownloadFailed || self is VerificationFailed
            || self is SwapFailed
    }
}

impl UpdatePhase {
    /// The phases in which a download may lie in the temporary location.
    pub open spec fn has_staged(self) -> bool {
        self is Downloading || self is Verifying || self is Swapping
    }

    /// The version being fetched or installed, if any.
    pub open spec fn target(self) -> Option<Version> {
        match self {
            UpdatePhase::Downloading(v) => Some(v),
            UpdatePhase::Verifying(v) => Some(v),
            UpdatePhase::Swapping(v) => Some(v),
            _ => None,
        }
    }
}

/// A phase fits what is known about versions when the version it works on is
/// the latest one reported and newer than the running one.
pub open spec fn coherent(check: UpdateCheck, phase: UpdatePhase) -> bool {
    phase.target() matches Some(v) ==> v.newer_than(check.current_version)
        && check.latest_version == Some(v)
}

/// The machine's answer to one event: what is then known about versions, the
/// next phase, and the action asked of the owner.
pub open spec fn transition(check: UpdateCheck, phase: UpdatePhase, event: UpdateEvent) -> (
    UpdateCheck,
    UpdatePhase,
    UpdateAction,
) {
    let seconds = check.poll_interval_secs;
    if phase is Restarting {
        (check, phase, UpdateAction::Ignore)
    } else if event is ShutdownRequested {
        (check, UpdatePhase::Idle, UpdateAction::Stop)
    } else if event.is_failure() {
        if phase.has_staged() {
            (check, UpdatePhase::Idle, UpdateAction::Abandon { seconds })
        } else {
            (check, UpdatePhase::Idle, UpdateAction::Wait { seconds })
        }
    } else {
        match (phase, event) {
            (UpdatePhase::Idle, UpdateEvent::IntervalElapsed) => (
                check,
                UpdatePhase::Checking,
                UpdateAction::CheckLatest,
            ),
            (UpdatePhase::Checking, UpdateEvent::LatestVersion(v)) => {
                let seen = UpdateCheck { latest_version: Some(v), ..check };
                if v.newer_than(check.current_version) {
                    (seen, UpdatePhase::Downloading(v), UpdateAction::Download(v))
                } else {
                    (seen, UpdatePhase::Idle, UpdateAction::Wait { seconds })
                }
            },
            (UpdatePhase::Downloading(v), UpdateEvent::Downloaded) => (
                check,
                UpdatePhase::Verifying(v),
                UpdateAction::Verify(v),
            ),
            (UpdatePhase::Verifying(v), UpdateEvent::Verified) => (
                check,
                UpdatePhase::Swapping(v),
                UpdateAction::Swap(v),
            ),
            (UpdatePhase::Swapping(v), UpdateEvent::Swapped) => (
                UpdateCheck { current_version: v, ..check },
                UpdatePhase::Restarting,
                UpdateAction::Restart,
            ),
            _ => (check, phase, UpdateAction::Ignore),
        }
    }
}

/// What is known about versions, and the phase, after the machine has
/// answered each of `events` in order.
pub open spec fn run(check: UpdateCheck, phase: UpdatePhase, events: Seq<UpdateEvent>) -> (
    UpdateCheck,
    UpdatePhase,
)
    decreases events.len(),
{
    if events.len() == 0 {
        (check, phase)
    } else {
        let (c, p) = run(check, phase, events.drop_last());
        let (c2, p2, _) = transition(c, p, events.last());
        (c2, p2)
    }
}

/// The background task that keeps the running binary up to date.
pub struct SelfUpdater {
    check: UpdateCheck,
    phase: UpdatePhase,
}

impl SelfUpdater {
    /// What the updater knows about versions.
    pub closed spec fn check_spec(&self) -> UpdateCheck {
        self.check
    }

    /// Where the updater stands.
    pub closed spec fn phase_spec(&self) -> UpdatePhase {
        self.phase
    }

    /// The phase fits what is known about versions.
    pub open spec fn wf(&self) -> bool {
        coherent(self.check_spec(), self.phase_spec())
    }

    /// An idle updater for a binary of version `current_version` that checks
    /// for a release every `poll_interval_secs` seconds.
    pub fn new(current_version: Version, poll_interval_secs: u64) -> (updater: SelfUpdater)
        ensures
            updater.wf(),
            updater.phase_spec() is Idle,
            updater.check_spec() == (UpdateCheck {
                current_version,
                latest_version: None,
                poll_interval_secs,
            }),
    {
        SelfUpdater {
            check: UpdateCheck { current_version, latest_version: None, poll_interval_secs },
            phase: UpdatePhase::Idle,
        }
    }

    /// What the updater knows about versions.
    pub fn check(&self) -> (check: UpdateCheck)
        ensures
            check == self.check_spec(),
    {
        self.check
    }

    /// Where the updater stands.
    pub fn phase(&self) -> (phase: UpdatePhase)
        ensures
            phase == self.phase_spec(),
    {
        self.phase
    }

    /// Answers one event: moves to the next phase and returns the action the
    /// owner is to perform.
    pub fn step(&mut self, event: UpdateEvent) -> (action: UpdateAction)
        requires
            old(self).wf(),
        ensures
            final(self).wf(),
            (final(self).check_spec(), final(self).phase_spec(), action) == transition(
                old(self).check_spec(),
                old(self).phase_spec(),
                event,
            ),
    {
        let seconds = self.check.poll_interval_secs;
        if let UpdatePhase::Restarting = self.phase {
            return UpdateAction::Ignore;
        }
        match event {
            UpdateEvent::ShutdownRequested => {
                self.phase = UpdatePhase::Idle;
                UpdateAction::Stop
            },
            UpdateEvent::CheckFailed(_)
            | UpdateEvent::DownloadFailed
            | UpdateEvent::VerificationFailed
            | UpdateEvent::SwapFailed => {
                let staged = match self.phase {
                    UpdatePhase::Downloading(_)
                    | UpdatePhase::Verifying(_)
                    | UpdatePhase::Swapping(_) => true,
                    _ => false,
                };
                self.phase = UpdatePhase::Idle;
                if staged {
                    UpdateAction::Abandon { seconds }
                } else {
                    UpdateAction::Wait { seconds }
                }
            },
            UpdateEvent::IntervalElapsed => match self.phase {
                UpdatePhase::Idle => {
                    self.phase = UpdatePhase::Checking;
                    UpdateAction::CheckLatest
                },
                _ => UpdateAction::Ignore,
            },
            UpdateEvent::LatestVersion(v) => match self.phase {
                UpdatePhase::Checking => {
                    self.check.latest_version = Some(v);
                    if v.is_newer_than(&self.check.current_version) {
                        self.phase = UpdatePhase::Downloading(v);
                        UpdateAction::Download(v)
                    } else {
                        self.phase = UpdatePhase::Idle;
                        UpdateAction::Wait { seconds }
                    }
                },
                _ => UpdateAction::Ignore,
            },
            UpdateEvent::Downloaded => match self.phase {
                UpdatePhase::Downloading(v) => {
                    self.phase = UpdatePhase::Verifying(v);
                    UpdateAction::Verify(v)
                },
                _ => UpdateAction::Ignore,
            },
            UpdateEvent::Verified => match self.phase {
                UpdatePhase::Verifying(v) => {
                    self.phase = UpdatePhase::Swapping(v);
                    UpdateAction::Swap(v)
                },
                _ => UpdateAction::Ignore,
            },
            UpdateEvent::Swapped => match self.phase {
                UpdatePhase::Swapping(v) => {
                    self.check.current_version = v;
                    self.phase = UpdatePhase::Restarting;
                    UpdateAction::Restart
                },
                _ => UpdateAction::Ignore,
            },
        }
    }
}

/// A failed step sends the machine back to idle from whatever it was doing,
/// and leaves what is known about versions as it was.
pub proof fn lemma_failure_returns_to_idle(
    check: UpdateCheck,
    phase: UpdatePhase,
    event: UpdateEvent,
)
    requires
        event.is_failure(),
        !(phase is Restarting),
    ensures
        transition(check, phase, event).0 == check,
        transition(check, phase, event).1 is Idle,
        transition(check, phase, event).2 == if phase.has_staged() {
            UpdateAction::Abandon { seconds: check.poll_interval_secs }
        } else {
            UpdateAction::Wait { seconds: check.poll_interval_secs }
        },
{
}

/// The swap is asked for in one case only: the version to install was being
/// verified and the verification is reported as passed.
pub proof fn lemma_swap_only_after_verification(
    check: UpdateCheck,
    phase: UpdatePhase,
    event: UpdateEvent,
)
    ensures
        transition(check, phase, event).2 matches UpdateAction::Swap(v) ==> phase
            == UpdatePhase::Verifying(v) && event is Verified,
        transition(check, phase, event).2 is Restart ==> phase is Swapping && event is Swapped,
{
}

/// The running version changes in one case only: the swap to that version was
/// under way and is reported as done.
pub proof fn lemma_version_changes_only_by_swap(
    check: UpdateCheck,
    phase: UpdatePhase,
    event: UpdateEvent,
)
    ensures
        transition(check, phase, event).0.current_version != check.current_version ==> phase
            == UpdatePhase::Swapping(transition(check, phase, event).0.current_version)
            && event is Swapped,
        transition(check, phase, event).0.poll_interval_secs == check.poll_interval_secs,
{
}

/// Every answer of the machine leaves the phase fitting what is known about
/// versions.
pub proof fn lemma_transition_keeps_coherence(
    check: UpdateCheck,
    phase: UpdatePhase,
    event: UpdateEvent,
)
    requires
        coherent(check, phase),
    ensures
        coherent(transition(check, phase, event).0, transition(check, phase, event).1),
{
}

/// However an update is interrupted, as long as no swap is reported as done
/// the running version stays what it was and no restart is reached.
pub proof fn lemma_interrupted_update_keeps_version(
    check: UpdateCheck,
    phase: UpdatePhase,
    events: Seq<UpdateEvent>,
)
    requires
        !(phase is Restarting),
        forall|i: int| 0 <= i < events.len() ==> !(#[trigger] events[i] is Swapped),
    ensures
        run(check, phase, events).0.current_version == check.current_version,
        !(run(check, phase, events).1 is Restarting),
    decreases events.len(),
{
    if events.len() > 0 {
        lemma_interrupted_update_keeps_version(check, phase, events.drop_last());
        assert(!(events[events.len() - 1] is Swapped));
    }
}

/// Whatever is reported, in whatever order, the running version is never
/// replaced by an older one.
pub proof fn lemma_version_never_regresses(
    check: UpdateCheck,
    phase: UpdatePhase,
    events: Seq<UpdateEvent>,
)
    requires
        coherent(check, phase),
    ensures
        coherent(run(check, phase, events).0, run(check, phase, events).1),
        run(check, phase, events).0.current_version.at_least(check.current_version),
    decreases events.len(),
{
    if events.len() > 0 {
        lemma_version_never_regresses(check, phase, events.drop_last());
        let (c, p) = run(check, phase, events.drop_last());
        lemma_transition_keeps_coherence(c, p, events.last());
    }
}

/// An update that meets no failure goes from idle through checking,
/// downloading, verifying and swapping to restarting, asks for each step in
/// turn, and ends with the new version as the running one.
pub proof fn lemma_update_runs_to_restart(check: UpdateCheck, v: Version)
    requires
        v.newer_than(check.current_version),
    ensures
        ({
            let (c1, p1, a1) = transition(check, UpdatePhase::Idle, UpdateEvent::IntervalElapsed);
            let (c2, p2, a2) = transition(c1, p1, UpdateEvent::LatestVersion(v));
            let (c3, p3, a3) = transition(c2, p2, UpdateEvent::Downloaded);
            let (c4, p4, a4) = transition(c3, p3, UpdateEvent::Verified);
            let (c5, p5, a5) = transition(c4, p4, UpdateEvent::Swapped);
            &&& a1 == UpdateAction::CheckLatest && p1 is Checking
            &&& a2 == UpdateAction::Download(v) && p2 == UpdatePhase::Downloading(v)
            &&& a3 == UpdateAction::Verify(v) && p3 == UpdatePhase::Verifying(v)
            &&& a4 == UpdateAction::Swap(v) && p4 == UpdatePhase::Swapping(v)
            &&& a5 == UpdateAction::Restart && p5 is Restarting
            &&& c4.current_version == check.current_version
            &&& c5 == (UpdateCheck { current_version: v, latest_version: Some(v), ..check })
        }),
{
}

/// A check that finds nothing newer, or that fails, leads back to idle.
pub proof fn lemma_check_without_update_returns_to_idle(check: UpdateCheck, v: Version)
    requires
        !v.newer_than(check.current_version),
    ensures
        transition(check, UpdatePhase::Checking, UpdateEvent::LatestVersion(v)).1 is Idle,
        transition(check, UpdatePhase::Checking, UpdateEvent::LatestVersion(v)).2
            == (UpdateAction::Wait { seconds: check.poll_interval_secs }),
        transition(check, UpdatePhase::Checking, UpdateEvent::LatestVersion(v)).0
            == (UpdateCheck { latest_version: Some(v), ..check }),
{
}

} // verus!
