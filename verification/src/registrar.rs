//! Publishing a miner's endpoint on chain.
//!
//! The registration machine decides; its owner talks to the chain.  The owner
//! performs the action that [`Registration::step`] returns (connecting,
//! submitting the signed transaction and waiting for inclusion, each after
//! the delay the action names) and reports what happened as the next
//! [`ChainEvent`].  An unreachable chain and a missed inclusion are tried
//! again a bounded number of times with growing delays; a refusal by the
//! chain ends the registration at once.

use crate::endpoint::AccountId;
use crate::endpoint::AxonCall;
use crate::endpoint::NetworkEndpoint;
use crate::error::ChainError;
use crate::wallet::Signer;
use crate::wallet::account_id;
use vstd::prelude::*;

verus! {

/// How often and how patiently failed steps are tried again.
#[derive(Clone, Copy, Debug, PartialEq, Eq, Structural)]
pub struct RetryPolicy {
    /// How many times a connection is tried again after the first attempt.
    pub max_connect_retries: u32,
    /// How many times a submission is repeated after a missed inclusion.
    pub max_timeout_retries: u32,
    /// Delay before the first retry, in milliseconds.
    pub base_delay_ms: u64,
    /// No delay is longer than this, in milliseconds.
    pub max_delay_ms: u64,
}

/// The delay before retry number `attempt` (counted from zero): `base`
/// doubled `attempt` times, and never more than `cap`.
pub open spec fn backoff(base: nat, cap: nat, attempt: nat) -> nat
    decreases attempt,
{
    if attempt == 0 {
        if base <= cap {
            base
        } else {
            cap
        }
    } else {
        let doubled = 2 * backoff(base, cap, (attempt - 1) as nat);
        if doubled <= cap {
            doubled
        } else {
            cap
        }
    }
}

/// Two to the power `n`.
pub open spec fn two_to(n: nat) -> nat
    decreases n,
{
    if n == 0 {
        1
    } else {
        2 * two_to((n - 1) as nat)
    }
}

/// The delay before retry number `attempt` is `base * 2^attempt`, capped.
pub proof fn lemma_backoff_closed_form(base: nat, cap: nat, attempt: nat)
    ensures
        backoff(base, cap, attempt) == if base * two_to(attempt) <= cap {
            base * two_to(attempt)
        } else {
            cap
        },
    decreases attempt,
{
    if attempt > 0 {
        let prev = (attempt - 1) as nat;
        lemma_backoff_closed_form(base, cap, prev);
        assert(base * two_to(attempt) == 2 * (base * two_to(prev))) by (nonlinear_arith)
            requires
                two_to(attempt) == 2 * two_to(prev),
        ;
    } else {
        assert(base * two_to(0) == base) by (nonlinear_arith)
            requires
                two_to(0) == 1,
        ;
    }
}

/// Once the delay has reached the cap, or is zero, it stays there.
pub proof fn lemma_backoff_settles(base: nat, cap: nat, from: nat, attempt: nat)
    requires
        from <= attempt,
        backoff(base, cap, from) == cap || backoff(base, cap, from) == 0,
    ensures
        backoff(base, cap, attempt) == backoff(base, cap, from),
    decreases attempt,
{
    if from < attempt {
        lemma_backoff_settles(base, cap, from, (attempt - 1) as nat);
    }
}

impl RetryPolicy {
    /// The delay before retry number `attempt`, in milliseconds.
    pub open spec fn delay_spec(self, attempt: nat) -> nat {
        backoff(self.base_delay_ms as nat, self.max_delay_ms as nat, attempt)
    }

    /// The delay before retry number `attempt` (counted from zero), in
    /// milliseconds.
    pub fn delay_ms(&self, attempt: u32) -> (delay: u64)
        ensures
            delay == self.delay_spec(attempt as nat),
            delay <= self.max_delay_ms,
    {
        let cap = self.max_delay_ms;
        let mut delay: u64 = if self.base_delay_ms <= cap {
            self.base_delay_ms
        } else {
            cap
        };
        let mut done: u32 = 0;
        while done < attempt && 0 < delay && delay < cap
            invariant
                done <= attempt,
                cap == self.max_delay_ms,
                delay <= cap,
                delay == self.delay_spec(done as nat),
            decreases attempt - done,
        {
            delay = if delay <= cap - delay {
                delay + delay
            } else {
                cap
            };
            done = done + 1;
        }
        proof {
            if done < attempt {
                lemma_backoff_settles(
                    self.base_delay_ms as nat,
                    cap as nat,
                    done as nat,
                    attempt as nat,
                );
            }
        }
        delay
    }
}

/// Where a registration stands.
#[derive(Clone, Copy, Debug, PartialEq, Eq, Structural)]
pub enum RegistrationPhase {
    /// Waiting for the connection to the chain.
    Connecting,
    /// The transaction is submitted; waiting for its inclusion.
    Submitting,
    /// The chain holds the endpoint.
    Registered,
    /// The registration was given up.
    Failed,
}

/// Phase and retry counts of a registration.
#[derive(Clone, Copy, Debug, PartialEq, Eq, Structural)]
pub struct Progress {
    pub phase: RegistrationPhase,
    /// Connection attempts that found the chain unreachable.
    pub connect_failures: u32,
    /// Submissions that were not included in time.
    pub timeouts: u32,
}

/// What the owner reports to the machine.
#[derive(Clone, Debug)]
pub enum ChainEvent {
    /// The connection stands.
    Connected,
    /// The chain could not be reached, or the connection broke.
    Unavailable,
    /// The transaction is included.
    Included,
    /// The chain refused the transaction, with these words.
    Rejected(String),
    /// The transaction was not included within the waiting window.
    TimedOut,
}

/// What the machine asks its owner to do next.
#[derive(Clone, Debug)]
pub enum RegistrationAction {
    /// Wait `delay_ms`, then connect to the chain.
    Connect { delay_ms: u64 },
    /// Wait `delay_ms`, then sign and submit the transaction with this
    /// content and wait for its inclusion.
    Submit { delay_ms: u64, call: AxonCall },
    /// The endpoint is registered: end with success.
    Finish,
    /// The registration failed for good: end with this error.
    Fail(ChainError),
    /// The event does not concern the current phase: do nothing.
    Ignore,
}

impl Progress {
    /// A registration that has not met the chain yet.
    pub open spec fn initial() -> Progress {
        Progress { phase: RegistrationPhase::Connecting, connect_failures: 0, timeouts: 0 }
    }

    /// A registration that is over, one way or the other.
    pub open spec fn is_over(self) -> bool {
        self.phase is Registered || self.phase is Failed
    }

    /// No more retries are counted than the policy grants.
    pub open spec fn within(self, policy: RetryPolicy) -> bool {
        self.connect_failures <= policy.max_connect_retries && self.timeouts
            <= policy.max_timeout_retries
    }
}

/// The machine's answer to an unreachable chain: another connection attempt
/// after a delay while the policy grants one, failure after that.
pub open spec fn reconnect(policy: RetryPolicy, progress: Progress) -> (
    Progress,
    RegistrationAction,
) {
    if progress.connect_failures < policy.max_connect_retries {
        (
            Progress {
                phase: RegistrationPhase::Connecting,
                connect_failures: (progress.connect_failures + 1) as u32,
                ..progress
            },
            RegistrationAction::Connect {
                delay_ms: policy.delay_spec(progress.connect_failures as nat) as u64,
            },
        )
    } else {
        (
            Progress { phase: RegistrationPhase::Failed, ..progress },
            RegistrationAction::Fail(ChainError::ChainUnavailable),
        )
    }
}

/// The machine's answer to one event: the progress made and the action asked
/// of the owner.
pub open spec fn advance(
    call: AxonCall,
    policy: RetryPolicy,
    progress: Progress,
    event: ChainEvent,
) -> (Progress, RegistrationAction) {
    match (progress.phase, event) {
        (RegistrationPhase::Connecting, ChainEvent::Connected) => (
            Progress { phase: RegistrationPhase::Submitting, ..progress },
            RegistrationAction::Submit { delay_ms: 0, call },
        ),
        (RegistrationPhase::Connecting, ChainEvent::Unavailable) => reconnect(policy, progress),
        (RegistrationPhase::Submitting, ChainEvent::Unavailable) => reconnect(policy, progress),
        (RegistrationPhase::Submitting, ChainEvent::Included) => (
            Progress { phase: RegistrationPhase::Registered, ..progress },
            RegistrationAction::Finish,
        ),
        (RegistrationPhase::Submitting, ChainEvent::Rejected(reason)) => (
            Progress { phase: RegistrationPhase::Failed, ..progress },
            RegistrationAction::Fail(ChainError::ExtrinsicRejected(reason)),
        ),
        (RegistrationPhase::Submitting, ChainEvent::TimedOut) => {
            if progress.timeouts < policy.max_timeout_retries {
                (
                    Progress { timeouts: (progress.timeouts + 1) as u32, ..progress },
                    RegistrationAction::Submit {
                        delay_ms: policy.delay_spec(progress.timeouts as nat) as u64,
                        call,
                    },
                )
            } else {
                (
                    Progress { phase: RegistrationPhase::Failed, ..progress },
                    RegistrationAction::Fail(ChainError::Timeout),
                )
            }
        },
        _ => (progress, RegistrationAction::Ignore),
    }
}

/// One registration of an endpoint under an identity.
pub struct Registration {
    call: AxonCall,
    policy: RetryPolicy,
    progress: Progress,
}

impl Registration {
    /// The content of the transaction to submit.
    pub closed spec fn call_spec(&self) -> AxonCall {
        self.call
    }

    /// The retry policy in force.
    pub closed spec fn policy_spec(&self) -> RetryPolicy {
        self.policy
    }

    /// Phase and retry counts.
    pub closed spec fn progress_spec(&self) -> Progress {
        self.progress
    }

    /// No more retries are counted than the policy grants.
    pub open spec fn wf(&self) -> bool {
        self.progress_spec().within(self.policy_spec())
    }

    /// Begins the registration of `endpoint` under the identity of `signer`.
    /// The first action is to connect, at once.
    pub fn start(signer: &Signer, endpoint: NetworkEndpoint, policy: RetryPolicy) -> (started: (
        Registration,
        RegistrationAction,
    ))
        ensures
            started.0.wf(),
            started.0.call_spec() == endpoint.call_spec(signer.account_spec()),
            started.0.policy_spec() == policy,
            started.0.progress_spec() == Progress::initial(),
            started.1 == (RegistrationAction::Connect { delay_ms: 0 }),
    {
        let registration = Registration {
            call: endpoint.call(account_id(signer)),
            policy,
            progress: Progress {
                phase: RegistrationPhase::Connecting,
                connect_failures: 0,
                timeouts: 0,
            },
        };
        (registration, RegistrationAction::Connect { delay_ms: 0 })
    }

    /// Phase and retry counts.
    pub fn progress(&self) -> (progress: Progress)
        ensures
            progress == self.progress_spec(),
    {
        self.progress
    }

    /// The content of the transaction to submit.
    pub fn call(&self) -> (call: AxonCall)
        ensures
            call == self.call_spec(),
    {
        self.call
    }

    fn retry_connection(&mut self) -> (action: RegistrationAction)
        requires
            old(self).wf(),
        ensures
            final(self).wf(),
            final(self).call_spec() == old(self).call_spec(),
            final(self).policy_spec() == old(self).policy_spec(),
            (final(self).progress_spec(), action) == reconnect(
                old(self).policy_spec(),
                old(self).progress_spec(),
            ),
    {
        if self.progress.connect_failures < self.policy.max_connect_retries {
            let delay_ms = self.policy.delay_ms(self.progress.connect_failures);
            self.progress.phase = RegistrationPhase::Connecting;
            self.progress.connect_failures = self.progress.connect_failures + 1;
            RegistrationAction::Connect { delay_ms }
        } else {
            self.progress.phase = RegistrationPhase::Failed;
            RegistrationAction::Fail(ChainError::ChainUnavailable)
        }
    }

    /// Answers one event: records the progress and returns the action the
    /// owner is to perform.
    pub fn step(&mut self, event: ChainEvent) -> (action: RegistrationAction)
        requires
            old(self).wf(),
        ensures
            final(self).wf(),
            final(self).call_spec() == old(self).call_spec(),
            final(self).policy_spec() == old(self).policy_spec(),
            (final(self).progress_spec(), action) == advance(
                old(self).call_spec(),
                old(self).policy_spec(),
                old(self).progress_spec(),
                event,
            ),
    {
        match self.progress.phase {
            RegistrationPhase::Connecting => match event {
                ChainEvent::Connected => {
                    self.progress.phase = RegistrationPhase::Submitting;
                    RegistrationAction::Submit { delay_ms: 0, call: self.call }
                },
                ChainEvent::Unavailable => self.retry_connection(),
                _ => RegistrationAction::Ignore,
            },
            RegistrationPhase::Submitting => match event {
                ChainEvent::Unavailable => self.retry_connection(),
                ChainEvent::Included => {
                    self.progress.phase = RegistrationPhase::Registered;
                    RegistrationAction::Finish
                },
                ChainEvent::Rejected(reason) => {
                    self.progress.phase = RegistrationPhase::Failed;
                    RegistrationAction::Fail(ChainError::ExtrinsicRejected(reason))
                },
                ChainEvent::TimedOut => {
                    if self.progress.timeouts < self.policy.max_timeout_retries {
                        let delay_ms = self.policy.delay_ms(self.progress.timeouts);
                        self.progress.timeouts = self.progress.timeouts + 1;
                        RegistrationAction::Submit { delay_ms, call: self.call }
                    } else {
                        self.progress.phase = RegistrationPhase::Failed;
                        RegistrationAction::Fail(ChainError::Timeout)
                    }
                },
                ChainEvent::Connected => RegistrationAction::Ignore,
            },
            _ => RegistrationAction::Ignore,
        }
    }
}

/// The progress made, and the transactions the owner was asked to submit,
/// while the machine answered each of `events` in order.
pub open spec fn submitted(
    call: AxonCall,
    policy: RetryPolicy,
    progress: Progress,
    events: Seq<ChainEvent>,
) -> (Progress, Seq<AxonCall>)
    decreases events.len(),
{
    if events.len() == 0 {
        (progress, Seq::empty())
    } else {
        let (before, calls) = submitted(call, policy, progress, events.drop_last());
        let (after, action) = advance(call, policy, before, events.last());
        match action {
            RegistrationAction::Submit { call: sent, .. } => (after, calls.push(sent)),
            _ => (after, calls),
        }
    }
}

/// How many more submissions a registration can still ask for.
pub open spec fn submissions_left(policy: RetryPolicy, progress: Progress) -> int {
    match progress.phase {
        RegistrationPhase::Connecting => 1 + (policy.max_connect_retries
            - progress.connect_failures) + (policy.max_timeout_retries - progress.timeouts),
        RegistrationPhase::Submitting => (policy.max_connect_retries - progress.connect_failures)
            + (policy.max_timeout_retries - progress.timeouts),
        _ => 0,
    }
}

/// On a chain that accepts the connection and includes the transaction at
/// once, exactly one transaction is submitted, without delay; it declares
/// the endpoint's netuid, address, port and protocol under the signer's
/// account; and the registration ends with success.
pub proof fn lemma_successful_chain_gets_one_submission(
    account: AccountId,
    endpoint: NetworkEndpoint,
    policy: RetryPolicy,
)
    ensures
        ({
            let call = endpoint.call_spec(account);
            let events = seq![ChainEvent::Connected, ChainEvent::Included];
            let (connected, first) = advance(
                call,
                policy,
                Progress::initial(),
                ChainEvent::Connected,
            );
            let (included, second) = advance(
                call,
                policy,
                connected,
                ChainEvent::Included,
            );
            &&& first == (RegistrationAction::Submit { delay_ms: 0, call })
            &&& second == RegistrationAction::Finish
            &&& included.phase is Registered
            &&& submitted(call, policy, Progress::initial(), events) == (included, seq![call])
            &&& call.netuid == endpoint.netuid && call.ip == endpoint.ip && call.port
                == endpoint.port && call.protocol == endpoint.protocol && call.account == account
        }),
{
    let call = endpoint.call_spec(account);
    let events = seq![ChainEvent::Connected, ChainEvent::Included];
    let one = seq![ChainEvent::Connected];
    assert(events.drop_last() =~= one);
    assert(one.drop_last() =~= Seq::<ChainEvent>::empty());
    assert(submitted(call, policy, Progress::initial(), one.drop_last()) == (
        Progress::initial(),
        Seq::<AxonCall>::empty(),
    ));
    let connected = advance(call, policy, Progress::initial(), ChainEvent::Connected).0;
    assert(submitted(call, policy, Progress::initial(), one) == (
        connected,
        Seq::<AxonCall>::empty().push(call),
    ));
    assert(Seq::<AxonCall>::empty().push(call) =~= seq![call]);
}

/// Whatever the chain does, every transaction the machine asks to submit is
/// the one declared at the start.
pub proof fn lemma_every_submission_is_the_call(
    call: AxonCall,
    policy: RetryPolicy,
    progress: Progress,
    events: Seq<ChainEvent>,
)
    ensures
        forall|i: int|
            0 <= i < submitted(call, policy, progress, events).1.len() ==> #[trigger] submitted(
                call,
                policy,
                progress,
                events,
            ).1[i] == call,
    decreases events.len(),
{
    if events.len() > 0 {
        lemma_every_submission_is_the_call(call, policy, progress, events.drop_last());
    }
}

/// A registration that is over stays as it is and asks for nothing more.
pub proof fn lemma_nothing_follows_the_end(
    call: AxonCall,
    policy: RetryPolicy,
    progress: Progress,
    events: Seq<ChainEvent>,
)
    requires
        progress.is_over(),
    ensures
        submitted(call, policy, progress, events) == (progress, Seq::<AxonCall>::empty()),
    decreases events.len(),
{
    if events.len() > 0 {
        lemma_nothing_follows_the_end(call, policy, progress, events.drop_last());
    }
}

/// A refusal by the chain is passed on word for word and is never retried:
/// the registration fails at once, and whatever is reported afterwards no
/// further transaction is submitted.
pub proof fn lemma_rejection_is_never_retried(
    call: AxonCall,
    policy: RetryPolicy,
    progress: Progress,
    reason: String,
    later: Seq<ChainEvent>,
)
    requires
        progress.phase is Submitting,
    ensures
        ({
            let (failed, action) = advance(call, policy, progress, ChainEvent::Rejected(reason));
            &&& failed.phase is Failed
            &&& action == RegistrationAction::Fail(ChainError::ExtrinsicRejected(reason))
            &&& submitted(call, policy, failed, later) == (failed, Seq::<AxonCall>::empty())
        }),
{
    let failed = advance(call, policy, progress, ChainEvent::Rejected(reason)).0;
    lemma_nothing_follows_the_end(call, policy, failed, later);
}

/// Retries are bounded: whatever the chain does, a registration submits at
/// most one transaction more than the policy grants retries.
pub proof fn lemma_submissions_are_bounded(
    call: AxonCall,
    policy: RetryPolicy,
    progress: Progress,
    events: Seq<ChainEvent>,
)
    requires
        progress.within(policy),
    ensures
        submitted(call, policy, progress, events).0.within(policy),
        submitted(call, policy, progress, events).1.len() + submissions_left(
            policy,
            submitted(call, policy, progress, events).0,
        ) <= submissions_left(policy, progress),
        submissions_left(policy, Progress::initial()) == 1 + policy.max_connect_retries
            + policy.max_timeout_retries,
    decreases events.len(),
{
    if events.len() > 0 {
        lemma_submissions_are_bounded(call, policy, progress, events.drop_last());
    }
}

} // verus!
