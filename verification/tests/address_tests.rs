use said::address::derive_agent_address;
use said::address::derive_reputation_address;
use said::address::derive_treasury_address;
use said::address::derive_validation_address;
use said::Address;
use said::TaskHash;
use said::DISAMBIGUATOR;

fn task(n: u64) -> TaskHash {
    TaskHash { w0: n, w1: n, w2: n, w3: n }
}

#[test]
fn derivation_is_deterministic() {
    assert_eq!(derive_treasury_address(), derive_treasury_address());
    assert_eq!(derive_agent_address(7), derive_agent_address(7));
    let agent = derive_agent_address(7).0;
    assert_eq!(derive_reputation_address(&agent), derive_reputation_address(&agent));
    assert_eq!(
        derive_validation_address(&agent, task(1)),
        derive_validation_address(&agent, task(1))
    );
}

#[test]
fn derivation_returns_the_disambiguator() {
    assert_eq!(derive_treasury_address().1, DISAMBIGUATOR);
    assert_eq!(derive_agent_address(7).1, DISAMBIGUATOR);
    assert_eq!(DISAMBIGUATOR, 255);
}

#[test]
fn distinct_key_material_yields_distinct_addresses() {
    assert_ne!(derive_agent_address(1).0, derive_agent_address(2).0);
    let a1 = derive_agent_address(1).0;
    let a2 = derive_agent_address(2).0;
    assert_ne!(derive_reputation_address(&a1).0, derive_reputation_address(&a2).0);
    assert_ne!(
        derive_validation_address(&a1, task(1)).0,
        derive_validation_address(&a1, task(2)).0
    );
    assert_ne!(
        derive_validation_address(&a1, task(1)).0,
        derive_validation_address(&a2, task(1)).0
    );
}

#[test]
fn distinct_namespaces_never_collide() {
    let agent = derive_agent_address(1).0;
    let treasury = derive_treasury_address().0;
    let reputation = derive_reputation_address(&agent).0;
    let validation = derive_validation_address(&agent, task(1)).0;
    assert_ne!(treasury, agent);
    assert_ne!(treasury, reputation);
    assert_ne!(treasury, validation);
    assert_ne!(agent, reputation);
    assert_ne!(agent, validation);
    assert_ne!(reputation, validation);
    assert_eq!(agent, Address::Agent { owner: 1 });
}
