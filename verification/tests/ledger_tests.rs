use neuron_core::endpoint::AxonProtocol;
use neuron_core::endpoint::IpAddress;
use neuron_core::endpoint::NetworkEndpoint;
use neuron_core::ledger::ChainLedger;
use neuron_core::registrar::ChainEvent;
use neuron_core::registrar::Registration;
use neuron_core::registrar::RegistrationAction;
use neuron_core::registrar::RetryPolicy;
use neuron_core::wallet;
use neuron_core::wallet::account_id;

fn endpoint(netuid: u16, ip: u32, port: u16) -> NetworkEndpoint {
    NetworkEndpoint::new(netuid, IpAddress::V4(ip), Some(port), 9000, AxonProtocol::Tcp)
}

#[test]
fn empty_ledger_holds_nothing() {
    let ledger = ChainLedger::new();
    assert!(ledger.lookup(&[0u8; 32], 0).is_none());
    assert!(ledger.lookup(&[1u8; 32], 7).is_none());
}

#[test]
fn registration_is_held_under_account_and_subnet() {
    let mut ledger = ChainLedger::new();
    ledger.register(endpoint(7, 10, 8091).call([1u8; 32]));
    let held = ledger.lookup(&[1u8; 32], 7).unwrap();
    assert_eq!(held.account, [1u8; 32]);
    assert_eq!(held.netuid, 7);
    assert_eq!(held.ip, IpAddress::V4(10));
    assert_eq!(held.port, 8091);
    assert_eq!(held.protocol, AxonProtocol::Tcp);
    assert!(ledger.lookup(&[1u8; 32], 8).is_none());
    assert!(ledger.lookup(&[2u8; 32], 7).is_none());
}

#[test]
fn registering_again_overwrites() {
    let mut ledger = ChainLedger::new();
    ledger.register(endpoint(7, 10, 8091).call([1u8; 32]));
    ledger.register(endpoint(7, 20, 9000).call([1u8; 32]));
    let held = ledger.lookup(&[1u8; 32], 7).unwrap();
    assert_eq!(held.ip, IpAddress::V4(20));
    assert_eq!(held.port, 9000);
}

#[test]
fn other_entries_are_left_alone() {
    let mut ledger = ChainLedger::new();
    ledger.register(endpoint(7, 10, 1).call([1u8; 32]));
    ledger.register(endpoint(8, 20, 2).call([1u8; 32]));
    ledger.register(endpoint(7, 30, 3).call([2u8; 32]));
    ledger.register(endpoint(8, 40, 4).call([1u8; 32]));
    assert_eq!(ledger.lookup(&[1u8; 32], 7).unwrap().port, 1);
    assert_eq!(ledger.lookup(&[1u8; 32], 8).unwrap().port, 4);
    assert_eq!(ledger.lookup(&[2u8; 32], 7).unwrap().port, 3);
    assert!(ledger.lookup(&[2u8; 32], 8).is_none());
}

#[test]
fn accounts_that_differ_in_one_byte_are_kept_apart() {
    let mut first = [9u8; 32];
    let mut second = [9u8; 32];
    first[31] = 1;
    second[31] = 2;
    let mut ledger = ChainLedger::new();
    ledger.register(endpoint(1, 10, 1).call(first));
    ledger.register(endpoint(1, 20, 2).call(second));
    assert_eq!(ledger.lookup(&first, 1).unwrap().port, 1);
    assert_eq!(ledger.lookup(&second, 1).unwrap().port, 2);
}

#[test]
fn registration_against_a_chain_that_accepts_at_once() {
    let signer = wallet::derive(&[8u8; 32]).unwrap();
    let policy = RetryPolicy {
        max_connect_retries: 3,
        max_timeout_retries: 2,
        base_delay_ms: 10,
        max_delay_ms: 100,
    };
    let mut chain = ChainLedger::new();
    let mut submitted = 0;
    let (mut registration, mut action) =
        Registration::start(&signer, endpoint(39, 0x0a00_0001, 8091), policy);
    let mut finished = false;
    for _ in 0..10 {
        let event = match action {
            RegistrationAction::Connect { .. } => ChainEvent::Connected,
            RegistrationAction::Submit { call, .. } => {
                submitted += 1;
                chain.register(call);
                ChainEvent::Included
            }
            RegistrationAction::Finish => {
                finished = true;
                break;
            }
            other => panic!("unexpected action {:?}", other),
        };
        action = registration.step(event);
    }
    assert!(finished);
    assert_eq!(submitted, 1);
    let held = chain.lookup(&account_id(&signer), 39).unwrap();
    assert_eq!(held.ip, IpAddress::V4(0x0a00_0001));
    assert_eq!(held.port, 8091);
    assert_eq!(held.netuid, 39);
    assert_eq!(held.protocol, AxonProtocol::Tcp);
}
