use neuron_core::endpoint::AxonProtocol;
use neuron_core::endpoint::IpAddress;
use neuron_core::endpoint::NetworkEndpoint;
use neuron_core::error::exit_status;
use neuron_core::error::ChainError;
use neuron_core::error::InvalidSeedError;
use neuron_core::error::KeyLoadError;
use neuron_core::error::NodeError;
use neuron_core::error::Propagation;
use neuron_core::error::TelemetryServerBindError;
use neuron_core::error::UpdateCheckError;
use neuron_core::registrar::ChainEvent;
use neuron_core::registrar::Progress;
use neuron_core::registrar::Registration;
use neuron_core::registrar::RegistrationAction;
use neuron_core::registrar::RegistrationPhase;
use neuron_core::registrar::RetryPolicy;
use neuron_core::wallet::account_id;
use neuron_core::wallet;

fn policy() -> RetryPolicy {
    RetryPolicy {
        max_connect_retries: 3,
        max_timeout_retries: 2,
        base_delay_ms: 100,
        max_delay_ms: 1000,
    }
}

fn endpoint() -> NetworkEndpoint {
    NetworkEndpoint::new(39, IpAddress::V4(0xc0a8_0105), Some(8091), 9000, AxonProtocol::Tcp)
}

fn started() -> Registration {
    let signer = wallet::derive(&[5u8; 32]).unwrap();
    let (registration, first) = Registration::start(&signer, endpoint(), policy());
    assert!(matches!(first, RegistrationAction::Connect { delay_ms: 0 }));
    registration
}

#[test]
fn endpoint_takes_the_given_port_or_the_default() {
    let given = NetworkEndpoint::new(1, IpAddress::V6(1), Some(4000), 9000, AxonProtocol::Udp);
    assert_eq!(given.port, 4000);
    assert_eq!(given.netuid, 1);
    assert_eq!(given.ip, IpAddress::V6(1));
    assert_eq!(given.protocol, AxonProtocol::Udp);
    let defaulted = NetworkEndpoint::new(1, IpAddress::V4(7), None, 9000, AxonProtocol::Tcp);
    assert_eq!(defaulted.port, 9000);
    assert_eq!(IpAddress::all_interfaces(), IpAddress::V4(0));
}

#[test]
fn call_carries_the_endpoint_and_the_account() {
    let call = endpoint().call([4u8; 32]);
    assert_eq!(call.account, [4u8; 32]);
    assert_eq!(call.netuid, 39);
    assert_eq!(call.ip, IpAddress::V4(0xc0a8_0105));
    assert_eq!(call.port, 8091);
    assert_eq!(call.protocol, AxonProtocol::Tcp);
}

#[test]
fn backoff_doubles_up_to_the_cap() {
    let p = policy();
    assert_eq!(p.delay_ms(0), 100);
    assert_eq!(p.delay_ms(1), 200);
    assert_eq!(p.delay_ms(2), 400);
    assert_eq!(p.delay_ms(3), 800);
    assert_eq!(p.delay_ms(4), 1000);
    assert_eq!(p.delay_ms(5), 1000);
    assert_eq!(p.delay_ms(u32::MAX), 1000);
}

#[test]
fn backoff_edge_cases() {
    let zero = RetryPolicy { base_delay_ms: 0, ..policy() };
    assert_eq!(zero.delay_ms(0), 0);
    assert_eq!(zero.delay_ms(u32::MAX), 0);
    let above = RetryPolicy { base_delay_ms: 5000, ..policy() };
    assert_eq!(above.delay_ms(0), 1000);
    assert_eq!(above.delay_ms(9), 1000);
    let wide = RetryPolicy { base_delay_ms: 1, max_delay_ms: u64::MAX, ..policy() };
    assert_eq!(wide.delay_ms(10), 1024);
    assert_eq!(wide.delay_ms(63), 1u64 << 63);
    assert_eq!(wide.delay_ms(64), u64::MAX);
}

#[test]
fn successful_chain_gets_exactly_one_submission() {
    let signer = wallet::derive(&[5u8; 32]).unwrap();
    let (mut registration, first) = Registration::start(&signer, endpoint(), policy());
    let mut actions = vec![first];
    actions.push(registration.step(ChainEvent::Connected));
    actions.push(registration.step(ChainEvent::Included));
    let mut submitted = 0;
    for action in &actions {
        if let RegistrationAction::Submit { delay_ms, call } = action {
            submitted += 1;
            assert_eq!(*delay_ms, 0);
            assert_eq!(call.account, account_id(&signer));
            assert_eq!(call.netuid, 39);
            assert_eq!(call.ip, IpAddress::V4(0xc0a8_0105));
            assert_eq!(call.port, 8091);
            assert_eq!(call.protocol, AxonProtocol::Tcp);
        }
    }
    assert_eq!(submitted, 1);
    assert!(matches!(
        actions[2],
        RegistrationAction::Finish
    ));
    assert_eq!(registration.progress().phase, RegistrationPhase::Registered);
    assert_eq!(registration.call().port, 8091);
}

#[test]
fn rejection_is_passed_on_and_never_retried() {
    let mut registration = started();
    registration.step(ChainEvent::Connected);
    let action = registration.step(ChainEvent::Rejected("netuid 39 does not exist".to_string()));
    match action {
        RegistrationAction::Fail(ChainError::ExtrinsicRejected(reason)) => {
            assert_eq!(reason, "netuid 39 does not exist")
        }
        other => panic!("unexpected action {:?}", other),
    }
    assert_eq!(registration.progress().phase, RegistrationPhase::Failed);
    assert!(matches!(registration.step(ChainEvent::Connected), RegistrationAction::Ignore));
    assert!(matches!(registration.step(ChainEvent::TimedOut), RegistrationAction::Ignore));
    assert!(matches!(registration.step(ChainEvent::Unavailable), RegistrationAction::Ignore));
    assert_eq!(registration.progress().phase, RegistrationPhase::Failed);
}

#[test]
fn unreachable_chain_is_retried_with_growing_delays() {
    let mut registration = started();
    let mut delays = Vec::new();
    for _ in 0..3 {
        match registration.step(ChainEvent::Unavailable) {
            RegistrationAction::Connect { delay_ms } => delays.push(delay_ms),
            other => panic!("unexpected action {:?}", other),
        }
    }
    assert_eq!(delays, vec![100, 200, 400]);
    assert_eq!(
        registration.progress(),
        Progress { phase: RegistrationPhase::Connecting, connect_failures: 3, timeouts: 0 }
    );
    assert!(matches!(
        registration.step(ChainEvent::Unavailable),
        RegistrationAction::Fail(ChainError::ChainUnavailable)
    ));
    assert_eq!(registration.progress().phase, RegistrationPhase::Failed);
}

#[test]
fn missed_inclusion_is_retried_twice() {
    let mut registration = started();
    registration.step(ChainEvent::Connected);
    let mut delays = Vec::new();
    for _ in 0..2 {
        match registration.step(ChainEvent::TimedOut) {
            RegistrationAction::Submit { delay_ms, call } => {
                assert_eq!(call.port, 8091);
                delays.push(delay_ms)
            }
            other => panic!("unexpected action {:?}", other),
        }
    }
    assert_eq!(delays, vec![100, 200]);
    assert!(matches!(
        registration.step(ChainEvent::TimedOut),
        RegistrationAction::Fail(ChainError::Timeout)
    ));
    assert_eq!(registration.progress().phase, RegistrationPhase::Failed);
}

#[test]
fn broken_connection_is_made_again_before_resubmitting() {
    let mut registration = started();
    registration.step(ChainEvent::Connected);
    assert!(matches!(
        registration.step(ChainEvent::Unavailable),
        RegistrationAction::Connect { delay_ms: 100 }
    ));
    assert_eq!(registration.progress().phase, RegistrationPhase::Connecting);
    assert!(matches!(
        registration.step(ChainEvent::Connected),
        RegistrationAction::Submit { delay_ms: 0, .. }
    ));
    assert!(matches!(
        registration.step(ChainEvent::Included),
        RegistrationAction::Finish
    ));
}

#[test]
fn events_out_of_turn_are_ignored() {
    let mut registration = started();
    assert!(matches!(registration.step(ChainEvent::TimedOut), RegistrationAction::Ignore));
    assert!(matches!(
        registration.step(ChainEvent::Included),
        RegistrationAction::Ignore
    ));
    assert!(matches!(
        registration.step(ChainEvent::Rejected("no".to_string())),
        RegistrationAction::Ignore
    ));
    assert_eq!(
        registration.progress(),
        Progress { phase: RegistrationPhase::Connecting, connect_failures: 0, timeouts: 0 }
    );
    registration.step(ChainEvent::Connected);
    assert!(matches!(registration.step(ChainEvent::Connected), RegistrationAction::Ignore));
    assert_eq!(registration.progress().phase, RegistrationPhase::Submitting);
}

#[test]
fn no_retries_allowed_fails_at_once() {
    let signer = wallet::derive(&[5u8; 32]).unwrap();
    let none = RetryPolicy { max_connect_retries: 0, max_timeout_retries: 0, ..policy() };
    let (mut registration, _) = Registration::start(&signer, endpoint(), none);
    assert!(matches!(
        registration.step(ChainEvent::Unavailable),
        RegistrationAction::Fail(ChainError::ChainUnavailable)
    ));
    let (mut second, _) = Registration::start(&signer, endpoint(), none);
    second.step(ChainEvent::Connected);
    assert!(matches!(
        second.step(ChainEvent::TimedOut),
        RegistrationAction::Fail(ChainError::Timeout)
    ));
}

#[test]
fn errors_propagate_by_kind() {
    let fatal = [
        NodeError::KeyLoad(KeyLoadError::Missing),
        NodeError::KeyLoad(KeyLoadError::Unreadable),
        NodeError::KeyLoad(KeyLoadError::InvalidEncoding),
        NodeError::InvalidSeed(InvalidSeedError::WrongLength { found: 3 }),
        NodeError::Chain(ChainError::ExtrinsicRejected("insufficient stake".to_string())),
        NodeError::TelemetryServerBind(TelemetryServerBindError { port: 80 }),
    ];
    for error in &fatal {
        assert_eq!(error.propagation(), Propagation::Fatal);
    }
    assert_eq!(
        NodeError::Chain(ChainError::ChainUnavailable).propagation(),
        Propagation::Retryable
    );
    assert_eq!(NodeError::Chain(ChainError::Timeout).propagation(), Propagation::Retryable);
    assert_eq!(
        NodeError::UpdateCheck(UpdateCheckError::Network).propagation(),
        Propagation::NonFatal
    );
    assert_eq!(
        NodeError::UpdateCheck(UpdateCheckError::Parse).propagation(),
        Propagation::NonFatal
    );
    assert!(ChainError::ChainUnavailable.is_retryable());
    assert!(ChainError::Timeout.is_retryable());
    assert!(!ChainError::ExtrinsicRejected(String::new()).is_retryable());
}

#[test]
fn messages_name_the_failure() {
    let rejected = NodeError::Chain(ChainError::ExtrinsicRejected("insufficient stake".to_string()));
    assert_eq!(rejected.message(), "insufficient stake");
    assert_eq!(
        NodeError::KeyLoad(KeyLoadError::Missing).message(),
        "wallet seed file is missing"
    );
    assert_eq!(
        NodeError::KeyLoad(KeyLoadError::Unreadable).message(),
        "wallet seed file cannot be read"
    );
    assert_eq!(
        NodeError::KeyLoad(KeyLoadError::InvalidEncoding).message(),
        "wallet seed file holds no seed"
    );
    assert_eq!(
        NodeError::InvalidSeed(InvalidSeedError::WrongLength { found: 1 }).message(),
        "seed must be exactly 32 bytes"
    );
    assert_eq!(
        NodeError::Chain(ChainError::ChainUnavailable).message(),
        "chain endpoint is unreachable"
    );
    assert_eq!(
        NodeError::Chain(ChainError::Timeout).message(),
        "transaction was not included in time"
    );
    assert_eq!(
        NodeError::UpdateCheck(UpdateCheckError::Network).message(),
        "release source is unreachable"
    );
    assert_eq!(
        NodeError::UpdateCheck(UpdateCheckError::Parse).message(),
        "release source sent no version"
    );
    assert_eq!(
        NodeError::TelemetryServerBind(TelemetryServerBindError { port: 1 }).message(),
        "telemetry port is unavailable"
    );
}

#[test]
fn exit_status_is_zero_on_success_only() {
    let ok: Result<(), NodeError> = Ok(());
    assert_eq!(exit_status(&ok), 0);
    let failures = [
        NodeError::KeyLoad(KeyLoadError::Missing),
        NodeError::InvalidSeed(InvalidSeedError::WrongLength { found: 0 }),
        NodeError::Chain(ChainError::ChainUnavailable),
        NodeError::Chain(ChainError::Timeout),
        NodeError::Chain(ChainError::ExtrinsicRejected("bad".to_string())),
    ];
    for failure in failures {
        let outcome: Result<(), NodeError> = Err(failure);
        assert_ne!(exit_status(&outcome), 0);
    }
}
