use cfx_machine::{
    new_machine, Address, AddressOrder, Builtin, BuiltinRegistry, CommonParams, Configuration,
    Machine, SpecCreationRules,
};
use cfx_types::U256;
use std::sync::Arc;

#[derive(Debug, Clone, PartialEq)]
struct TestSpec {
    max_depth: u64,
    have_create2: bool,
}

impl Configuration for TestSpec {
    fn baseline() -> Self {
        Self::new_spec()
    }

    fn new_spec() -> Self {
        TestSpec { max_depth: 1024, have_create2: false }
    }
}

struct ForkAt(u64);

impl SpecCreationRules<TestSpec> for ForkAt {
    fn transition(&self, spec: TestSpec, number: u64) -> TestSpec {
        let mut next = spec;
        self.apply(&mut next, number);
        next
    }

    fn apply(&self, spec: &mut TestSpec, number: u64) {
        if number >= self.0 {
            spec.have_create2 = true;
            spec.max_depth = 2048;
        }
    }
}

fn addr(b: u8) -> Address {
    Address([b; 20])
}

fn machine_with(entries: &[(Address, u64)]) -> Machine<TestSpec, ForkAt> {
    let mut registry = BuiltinRegistry::new();
    for (a, h) in entries {
        registry.insert(*a, Builtin::new(*h));
    }
    Machine::with_builtins(CommonParams::common_params(), Arc::new(registry))
}

#[test]
fn default_params_match_documented_values() {
    let p = CommonParams::common_params();
    assert_eq!(p.chain_id, 1);
    assert_eq!(p.network_id, 1);
    assert_eq!(p.max_code_size, 24576);
    assert_eq!(p.max_transaction_size, 307200);
    assert_eq!(p.max_code_size_transition, 0);
    assert_eq!(p.maximum_extra_data_size, 0x20);
    assert_eq!(p.subprotocol_name, "cfx");
    assert_eq!(p.min_gas_limit, U256::from(0x1387u64));
    assert_eq!(p.gas_limit_bound_divisor, U256::from(0x0400u64));
    assert_eq!(p.account_start_nonce, U256::zero());
    assert_eq!(p.node_permission_contract, None);
}

#[test]
fn default_registrar_is_decoded_from_hex() {
    let p = CommonParams::common_params();
    let expected: [u8; 20] = [
        0xc6, 0xd9, 0xd2, 0xcd, 0x44, 0x9a, 0x75, 0x4c, 0x49, 0x42, 0x64, 0xe1, 0x80, 0x9c, 0x50,
        0xe3, 0x4d, 0x64, 0x56, 0x2b,
    ];
    assert_eq!(p.registrar, Address(expected));
}

#[test]
fn new_machine_is_empty_with_default_params() {
    let m: Machine<TestSpec, ForkAt> = new_machine();
    assert!(m.builtins().is_empty());
    assert_eq!(m.builtins().len(), 0);
    assert_eq!(m.params(), &CommonParams::common_params());
    assert_eq!(m.params().chain_id, 1);
}

#[test]
fn unregistered_address_is_absent_at_every_height() {
    let m = machine_with(&[(addr(0xAA), 0)]);
    for h in [0u64, 1, 100, u64::MAX] {
        assert!(m.builtin(&addr(0xBB), h).is_none());
        assert!(m.builtin(&addr(0x00), h).is_none());
    }
    let empty: Machine<TestSpec, ForkAt> = new_machine();
    assert!(empty.builtin(&addr(0xAA), 0).is_none());
}

#[test]
fn builtin_reachable_from_activation_height_on() {
    let m = machine_with(&[(addr(0x01), 500)]);
    assert!(m.builtin(&addr(0x01), 0).is_none());
    assert!(m.builtin(&addr(0x01), 499).is_none());
    assert!(m.builtin(&addr(0x01), 500).is_some());
    assert!(m.builtin(&addr(0x01), 501).is_some());
    assert!(m.builtin(&addr(0x01), u64::MAX).is_some());
}

#[test]
fn scenario_registered_builtin_at_height_one_hundred() {
    let m = machine_with(&[(addr(0xAA), 100)]);
    assert!(m.builtin(&addr(0xAA), 99).is_none());
    let found = m.builtin(&addr(0xAA), 100).expect("active at its activation height");
    let registered = m.builtins().get(&addr(0xAA)).expect("registered");
    assert!(std::ptr::eq(found, registered));
    assert_eq!(found.activate_at, 100);
    assert!(m.builtin(&addr(0xBB), 100).is_none());
}

#[test]
fn unruled_configuration_is_the_same_at_every_height() {
    let m: Machine<TestSpec, ForkAt> = new_machine();
    let base = m.spec(0);
    assert_eq!(base, TestSpec { max_depth: 1024, have_create2: false });
    for h in [1u64, 99, 100, 1_000_000, u64::MAX] {
        assert_eq!(m.spec(h), base);
    }
}

#[test]
fn ruled_configuration_is_deterministic() {
    let mut m: Machine<TestSpec, ForkAt> = new_machine();
    m.set_spec_creation_rules(ForkAt(100));
    for h in [0u64, 99, 100, 101, u64::MAX] {
        assert_eq!(m.spec(h), m.spec(h));
    }
    assert_eq!(m.spec(99), TestSpec { max_depth: 1024, have_create2: false });
    assert_eq!(m.spec(100), TestSpec { max_depth: 2048, have_create2: true });
}

#[test]
fn queries_agree_with_fresh_evaluation() {
    let mut m = machine_with(&[(addr(0x10), 7), (addr(0x20), 300)]);
    m.set_spec_creation_rules(ForkAt(250));
    let mut h: u64 = 12345;
    for _ in 0..200 {
        h = h.wrapping_mul(6364136223846793005).wrapping_add(1442695040888963407);
        let height = h % 600;
        let expected = if height >= 250 {
            TestSpec { max_depth: 2048, have_create2: true }
        } else {
            TestSpec { max_depth: 1024, have_create2: false }
        };
        assert_eq!(m.spec(height), expected);
        assert_eq!(m.builtin(&addr(0x10), height).is_some(), height >= 7);
        assert_eq!(m.builtin(&addr(0x20), height).is_some(), height >= 300);
    }
}

#[test]
fn registry_enumerates_in_ascending_address_order() {
    let mut registry = BuiltinRegistry::new();
    registry.insert(addr(0x30), Builtin::new(3));
    registry.insert(addr(0x10), Builtin::new(1));
    registry.insert(addr(0x20), Builtin::new(2));
    let mut low = [0xFFu8; 20];
    low[0] = 0x00;
    registry.insert(Address(low), Builtin::new(9));
    let keys: Vec<Address> = registry.entries().iter().map(|e| e.0).collect();
    assert_eq!(keys, vec![Address(low), addr(0x10), addr(0x20), addr(0x30)]);
    assert_eq!(registry.len(), 4);
}

#[test]
fn registry_insert_replaces_existing_entry() {
    let mut registry = BuiltinRegistry::new();
    registry.insert(addr(0x10), Builtin::new(1));
    registry.insert(addr(0x10), Builtin::new(42));
    assert_eq!(registry.len(), 1);
    assert_eq!(registry.get(&addr(0x10)), Some(&Builtin::new(42)));
    assert_eq!(registry.resolve(&addr(0x10), 41), None);
    assert_eq!(registry.resolve(&addr(0x10), 42), Some(&Builtin::new(42)));
}

#[test]
fn address_compare_orders_by_bytes() {
    let mut a = [0u8; 20];
    let mut b = [0u8; 20];
    a[19] = 1;
    b[0] = 1;
    assert_eq!(Address(a).compare(&Address(b)), AddressOrder::Less);
    assert_eq!(Address(b).compare(&Address(a)), AddressOrder::Greater);
    assert_eq!(Address(a).compare(&Address(a)), AddressOrder::Equal);
}

#[test]
fn builtin_activation_predicate() {
    let b = Builtin::new(10);
    assert!(!b.is_active(9));
    assert!(b.is_active(10));
    assert!(b.is_active(11));
}
