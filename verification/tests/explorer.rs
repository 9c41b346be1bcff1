use explorer_contract::contract::ExplorerContract;
use explorer_contract::events::ContractEvent;
use explorer_contract::types::{
    Address, ContractMeta, EventInput, Error, DEFAULT_MAX_EVENTS, MIN_MAX_EVENTS,
};

/// The ledger sequence number a fresh test ledger reports.
const LEDGER: u32 = 0;

fn setup() -> ExplorerContract {
    ExplorerContract::new()
}

/// A distinct address for each `n`.
fn addr(n: u8) -> Address {
    let mut key = b"GTESTADDRESS".to_vec();
    key.push(n);
    Address::new(key)
}

fn cid(b: u8) -> [u8; 32] {
    [b; 32]
}

fn make_input(contract_id: [u8; 32]) -> EventInput {
    EventInput {
        contract_id,
        function: "swap".to_string(),
        ledger: 100u32,
        description: "test".to_string(),
        raw_topics: Vec::new(),
        raw_data: Vec::new(),
    }
}

fn ping(contract_id: [u8; 32], description: &str) -> EventInput {
    EventInput {
        contract_id,
        function: "ping".to_string(),
        ledger: 1u32,
        description: description.to_string(),
        raw_topics: Vec::new(),
        raw_data: Vec::new(),
    }
}

fn make_meta(name: &str, registrant: &Address) -> ContractMeta {
    ContractMeta {
        version: 1,
        abi_version: 0,
        min_ledger: 0,
        name: name.to_string(),
        description: "desc".to_string(),
        functions: Vec::new(),
        registered_by: registrant.duplicate(),
    }
}

// ── Basic init + register ────────────────────────────────────────────────

#[test]
fn test_init_and_register() {
    let mut c = setup();
    let admin = addr(1);
    c.init(admin.duplicate(), 0u32).unwrap();

    let id = cid(1);
    c.register_contract(&admin, id, make_meta("StellarSwap", &admin), LEDGER).unwrap();
    let fetched = c.get_contract(id).unwrap();
    assert_eq!(fetched.name, "StellarSwap".to_string());
}

#[test]
fn test_register_unauthorized() {
    let mut c = setup();
    let admin = addr(1);
    let stranger = addr(2);
    c.init(admin.duplicate(), 0u32).unwrap();

    let id = cid(50);
    let r = c.register_contract(&stranger, id, make_meta("UnauthorizedReg", &stranger), LEDGER);
    assert_eq!(r.err(), Some(Error::Unauthorized));
}

#[test]
fn test_submit_and_get_event() {
    let mut c = setup();
    let admin = addr(1);
    c.init(admin.duplicate(), 0u32).unwrap();

    let input = EventInput {
        contract_id: cid(2),
        function: "swap".to_string(),
        ledger: 4521983u32,
        description: "Address GABC... swapped 100 USDC".to_string(),
        raw_topics: Vec::new(),
        raw_data: Vec::new(),
    };
    c.submit_event(&admin, input).unwrap();

    assert_eq!(c.event_count(), 1u64);
    let ev = c.get_event(0u64).unwrap();
    assert_eq!(ev.ledger, 4521983u32);
}

#[test]
fn test_cursor_pagination() {
    let mut c = setup();
    let admin = addr(1);
    c.init(admin.duplicate(), 0u32).unwrap();

    let base = make_input(cid(3));
    for _ in 0..5 {
        c.submit_event(&admin, base.duplicate()).unwrap();
    }
    assert_eq!(c.event_count(), 5u64);

    let page1 = c.get_events(0u64, 2u32);
    assert_eq!(page1.len(), 2);
    assert_eq!(page1[0].seq, 0);
    assert_eq!(page1[1].seq, 1);

    let page2 = c.get_events(2u64, 2u32);
    assert_eq!(page2.len(), 2);
    assert_eq!(page2[0].seq, 2);

    let page3 = c.get_events(4u64, 2u32);
    assert_eq!(page3.len(), 1);
    assert_eq!(page3[0].seq, 4);

    let empty = c.get_events(10u64, 5u32);
    assert_eq!(empty.len(), 0);
}

#[test]
fn test_double_init_panics() {
    let mut c = setup();
    let admin = addr(1);
    c.init(admin.duplicate(), 0u32).unwrap();
    assert_eq!(c.init(admin.duplicate(), 0u32), Err(Error::AlreadyExists));
}

// ── Ring buffer ──────────────────────────────────────────────────────────

#[test]
fn test_ring_buffer_wraps_correctly() {
    let mut c = setup();
    let admin = addr(1);
    c.init(admin.duplicate(), 5u32).unwrap();
    let base = make_input(cid(10));

    for _ in 0..5 {
        c.submit_event(&admin, base.duplicate()).unwrap();
    }
    assert_eq!(c.event_count(), 5u64);

    for _ in 0..10 {
        c.submit_event(&admin, base.duplicate()).unwrap();
    }
    assert_eq!(c.event_count(), 5u64);

    let evs = c.get_events(0u64, 20u32);
    assert_eq!(evs.len(), 5);
    assert_eq!(evs[0].seq, 10);
    assert_eq!(evs[4].seq, 14);
}

#[test]
fn test_storage_utilisation() {
    let mut c = setup();
    let admin = addr(1);
    c.init(admin.duplicate(), 1000u32).unwrap();
    let (cur, max) = c.storage_utilisation();
    assert_eq!(cur, 0u64);
    assert_eq!(max, 1000u32);
}

// ── set_max_events ───────────────────────────────────────────────────────

#[test]
fn test_set_max_events_below_floor_rejected() {
    let mut c = setup();
    let admin = addr(1);
    c.init(admin.duplicate(), 0u32).unwrap();
    assert_eq!(c.set_max_events(&admin, 999u32), Err(Error::BelowFloor));
}

#[test]
fn test_set_max_events_accepted() {
    let mut c = setup();
    let admin = addr(1);
    c.init(admin.duplicate(), 0u32).unwrap();
    c.set_max_events(&admin, 1000u32).unwrap();
    let (_, max) = c.storage_utilisation();
    assert_eq!(max, 1000u32);
}

// ── Diagnostic events ────────────────────────────────────────────────────

#[test]
fn test_register_emits_event() {
    let mut c = setup();
    let admin = addr(1);
    c.init(admin.duplicate(), 0u32).unwrap();

    let evs = c.register_contract(&admin, cid(20), make_meta("TestDex", &admin), LEDGER).unwrap();
    assert!(evs.len() >= 2);
}

#[test]
fn test_update_emits_event() {
    let mut c = setup();
    let admin = addr(1);
    c.init(admin.duplicate(), 0u32).unwrap();

    let id = cid(21);
    let meta_v0 = make_meta("Dex", &admin);
    c.register_contract(&admin, id, meta_v0.duplicate(), LEDGER).unwrap();

    let meta_v1 = ContractMeta { version: 2, abi_version: 1, ..meta_v0 };
    let evs = c.update_contract(&admin, id, meta_v1, LEDGER).unwrap();
    assert!(evs.len() > 0);
}

#[test]
fn test_update_contract_by_owner() {
    let mut c = setup();
    let admin = addr(1);
    c.init(admin.duplicate(), 0u32).unwrap();

    let owner = addr(2);
    let id = cid(25);
    let meta_v0 = make_meta("MyContract", &owner);
    // Registration is admin-only; the owner is recorded as registrant.
    c.register_contract(&admin, id, meta_v0.duplicate(), LEDGER).unwrap();

    let meta_v1 = ContractMeta { version: 2, abi_version: 1, ..meta_v0 };
    c.update_contract(&owner, id, meta_v1, LEDGER).unwrap();

    let updated = c.get_contract(id).unwrap();
    assert_eq!(updated.version, 2);
    assert_eq!(updated.abi_version, 1);
}

#[test]
fn test_submit_emits_ev_sub_event() {
    let mut c = setup();
    let admin = addr(1);
    c.init(admin.duplicate(), 0u32).unwrap();

    let evs = c.submit_event(&admin, make_input(cid(22))).unwrap();
    assert!(evs.len() >= 2);
    assert!(matches!(evs[0], ContractEvent::EventSubmitted { seq: 0, .. }));
}

#[test]
fn test_cap_hit_event_emitted_on_eviction() {
    let mut c = setup();
    let admin = addr(1);
    c.init(admin.duplicate(), 5u32).unwrap();
    let base = make_input(cid(23));

    let mut before = 0;
    for _ in 0..5 {
        before = c.submit_event(&admin, base.duplicate()).unwrap().len();
    }
    let after = c.submit_event(&admin, base.duplicate()).unwrap();
    assert!(after.len() > before);
    assert!(matches!(after[1], ContractEvent::CapacityHit { evicted_seq: 0, seq: 5 }));
}

#[test]
fn test_submit_event_rejects_empty_function_name() {
    let mut c = setup();
    let admin = addr(1);
    c.init(admin.duplicate(), 0u32).unwrap();

    let mut input = make_input(cid(24));
    input.function = String::new();
    assert_eq!(c.submit_event(&admin, input).err(), Some(Error::InvalidInput));
}

// ── ABI versioning ───────────────────────────────────────────────────────

#[test]
fn test_register_sets_version_zero() {
    let mut c = setup();
    let admin = addr(1);
    c.init(admin.duplicate(), 0u32).unwrap();

    let id = cid(30);
    let meta = ContractMeta { abi_version: 99, ..make_meta("Test", &admin) };
    c.register_contract(&admin, id, meta, LEDGER).unwrap();

    let fetched = c.get_contract(id).unwrap();
    assert_eq!(fetched.abi_version, 0);

    let v0 = c.get_contract_version(id, 0u32).unwrap();
    assert_eq!(v0.abi_version, 0);
    assert_eq!(v0.name, "Test".to_string());
}

#[test]
fn test_sequential_updates_increment_abi_version() {
    let mut c = setup();
    let admin = addr(1);
    c.init(admin.duplicate(), 0u32).unwrap();

    let id = cid(31);
    let meta_v0 = make_meta("App", &admin);
    c.register_contract(&admin, id, meta_v0.duplicate(), LEDGER).unwrap();

    let meta_v1 = ContractMeta { abi_version: 1, ..meta_v0.duplicate() };
    c.update_contract(&admin, id, meta_v1, LEDGER).unwrap();
    assert_eq!(c.get_contract(id).unwrap().abi_version, 1);

    let meta_v2 = ContractMeta { abi_version: 2, ..meta_v0 };
    c.update_contract(&admin, id, meta_v2, LEDGER).unwrap();
    assert_eq!(c.get_contract(id).unwrap().abi_version, 2);

    assert!(c.get_contract_version(id, 0u32).is_some());
    assert!(c.get_contract_version(id, 1u32).is_some());
    assert!(c.get_contract_version(id, 2u32).is_some());
    assert!(c.get_contract_version(id, 3u32).is_none());
}

#[test]
fn test_stale_write_rejected() {
    let mut c = setup();
    let admin = addr(1);
    c.init(admin.duplicate(), 0u32).unwrap();

    let id = cid(32);
    let meta_v0 = make_meta("X", &admin);
    c.register_contract(&admin, id, meta_v0.duplicate(), LEDGER).unwrap();

    let meta_v1 = ContractMeta { abi_version: 1, ..meta_v0.duplicate() };
    c.update_contract(&admin, id, meta_v1, LEDGER).unwrap();

    // abi_version 1 again: refused (expected 2).
    let meta_stale = ContractMeta { abi_version: 1, ..meta_v0 };
    let r = c.update_contract(&admin, id, meta_stale, LEDGER);
    assert_eq!(r.err(), Some(Error::Unauthorized));
}

#[test]
fn test_get_contract_not_found() {
    let mut c = setup();
    let admin = addr(1);
    c.init(admin.duplicate(), 0u32).unwrap();

    assert_eq!(c.get_contract(cid(33)).err(), Some(Error::NotFound));
}

#[test]
fn test_get_latest_contract_returns_none_for_missing() {
    let mut c = setup();
    let admin = addr(1);
    c.init(admin.duplicate(), 0u32).unwrap();

    let id = cid(33);
    assert!(c.get_latest_contract(id).is_none());
    assert!(c.get_contract_version(id, 0u32).is_none());
}

// ── Deregistration ───────────────────────────────────────────────────────

#[test]
fn test_admin_deregisters_contract() {
    let mut c = setup();
    let admin = addr(1);
    c.init(admin.duplicate(), 0u32).unwrap();

    let id = cid(40);
    c.register_contract(&admin, id, make_meta("ToRemove", &admin), LEDGER).unwrap();
    assert!(c.get_contract(id).is_ok());

    c.deregister_contract(&admin, id, LEDGER).unwrap();
    assert!(c.get_contract(id).is_err());
}

#[test]
fn test_registrant_deregisters_contract() {
    let mut c = setup();
    let admin = addr(1);
    c.init(admin.duplicate(), 0u32).unwrap();

    let registrant = addr(2);
    let id = cid(41);
    c.register_contract(&admin, id, make_meta("RegOwned", &registrant), LEDGER).unwrap();
    c.deregister_contract(&registrant, id, LEDGER).unwrap();
    assert!(c.get_contract(id).is_err());
}

#[test]
fn test_stranger_cannot_deregister() {
    let mut c = setup();
    let admin = addr(1);
    c.init(admin.duplicate(), 0u32).unwrap();

    let registrant = addr(2);
    let stranger = addr(3);
    let id = cid(42);
    c.register_contract(&admin, id, make_meta("Secure", &registrant), LEDGER).unwrap();
    let r = c.deregister_contract(&stranger, id, LEDGER);
    assert_eq!(r.err(), Some(Error::Unauthorized));
}

#[test]
fn test_deregister_missing_id_panics() {
    let mut c = setup();
    let admin = addr(1);
    c.init(admin.duplicate(), 0u32).unwrap();

    let r = c.deregister_contract(&admin, cid(99), LEDGER);
    assert_eq!(r.err(), Some(Error::NotFound));
}

#[test]
fn test_deregister_emits_event() {
    let mut c = setup();
    let admin = addr(1);
    c.init(admin.duplicate(), 0u32).unwrap();

    let id = cid(43);
    c.register_contract(&admin, id, make_meta("EventTest", &admin), LEDGER).unwrap();
    let evs = c.deregister_contract(&admin, id, LEDGER).unwrap();
    assert!(evs.len() > 0);
}

// ── transfer_admin ───────────────────────────────────────────────────────

#[test]
fn test_transfer_admin_success() {
    let mut c = setup();
    let admin = addr(1);
    let new_admin = addr(2);
    c.init(admin.duplicate(), 0u32).unwrap();
    c.transfer_admin(&admin, new_admin.duplicate()).unwrap();

    c.submit_event(&new_admin, ping(cid(9), "new admin test")).unwrap();
    assert_eq!(c.event_count(), 1u64);
}

#[test]
fn test_transfer_admin_unauthorized() {
    let mut c = setup();
    let admin = addr(1);
    let attacker = addr(2);
    let new_admin = addr(3);
    c.init(admin.duplicate(), 0u32).unwrap();
    let r = c.transfer_admin(&attacker, new_admin);
    assert_eq!(r.err(), Some(Error::Unauthorized));
}

#[test]
fn test_old_admin_loses_access_after_transfer() {
    let mut c = setup();
    let admin = addr(1);
    let new_admin = addr(2);
    c.init(admin.duplicate(), 0u32).unwrap();
    c.transfer_admin(&admin, new_admin).unwrap();

    let r = c.submit_event(&admin, ping(cid(10), "stale admin attempt"));
    assert_eq!(r.err(), Some(Error::Unauthorized));
}

#[test]
fn test_transfer_admin_to_self_is_noop() {
    let mut c = setup();
    let admin = addr(1);
    c.init(admin.duplicate(), 0u32).unwrap();
    c.transfer_admin(&admin, admin.duplicate()).unwrap();

    c.submit_event(&admin, ping(cid(11), "self transfer test")).unwrap();
    assert_eq!(c.event_count(), 1u64);
}

// ── Further cases ────────────────────────────────────────────────────────

#[test]
fn test_init_invariants() {
    for max_events in [0u32, 1, 5, 999, 1000, 50_000, u32::MAX] {
        let mut c = setup();
        c.init(addr(1), max_events).unwrap();
        let (count, stored_max) = c.storage_utilisation();
        assert_eq!(count, 0);
        if max_events == 0 {
            assert_eq!(stored_max, DEFAULT_MAX_EVENTS);
        } else {
            assert_eq!(stored_max, max_events);
        }
    }
}

#[test]
fn verify_event_seq_bounds() {
    for max_events in [1u32, 2, 1000, 100_000] {
        let mut c = setup();
        c.init(addr(1), max_events).unwrap();
        let (count, max) = c.storage_utilisation();
        assert!(count <= max as u64, "Event count must never exceed max_events");
    }
}

#[test]
fn fuzz_submission_accepted_for_admin() {
    let mut c = setup();
    let admin = addr(1);
    c.init(admin.duplicate(), 5000).unwrap();
    for b in [0u8, 1, 17, 128, 255] {
        let input = EventInput {
            contract_id: cid(b),
            function: "swap".to_string(),
            ledger: 100,
            description: "Fuzzed Event".to_string(),
            raw_topics: Vec::new(),
            raw_data: Vec::new(),
        };
        c.submit_event(&admin, input).unwrap();
    }
    assert_eq!(c.event_count(), 5);
}

#[test]
fn fresh_storage_reports_defaults() {
    let c = setup();
    assert_eq!(c.storage_utilisation(), (0, DEFAULT_MAX_EVENTS));
    assert!(!c.is_paused());
    assert_eq!(c.event_count(), 0);
    assert_eq!(c.get_event(0).err(), Some(Error::NotFound));
    assert!(c.get_events(0, 10).is_empty());
}

#[test]
fn count_stays_within_capacity() {
    let mut c = setup();
    let admin = addr(1);
    c.init(admin.duplicate(), 3).unwrap();
    for i in 0..10u64 {
        c.submit_event(&admin, make_input(cid(7))).unwrap();
        let (count, max) = c.storage_utilisation();
        assert!(count <= max as u64);
        let expected = if i + 1 < 3 { i + 1 } else { 3 };
        assert_eq!(count, expected);
    }
}

#[test]
fn ring_window_lookups() {
    let mut c = setup();
    let admin = addr(1);
    c.init(admin.duplicate(), 5).unwrap();
    for _ in 0..7 {
        c.submit_event(&admin, make_input(cid(8))).unwrap();
    }
    // Live window is [2, 7).
    assert_eq!(c.get_event(0).err(), Some(Error::NotFound));
    assert_eq!(c.get_event(1).err(), Some(Error::NotFound));
    for q in 2..7u64 {
        assert_eq!(c.get_event(q).unwrap().seq, q);
    }
    assert_eq!(c.get_event(7).err(), Some(Error::NotFound));
    let page = c.get_events(0, 3);
    let seqs: Vec<u64> = page.iter().map(|e| e.seq).collect();
    assert_eq!(seqs, vec![2, 3, 4]);
    let page = c.get_events(5, 10);
    let seqs: Vec<u64> = page.iter().map(|e| e.seq).collect();
    assert_eq!(seqs, vec![5, 6]);
    assert!(c.get_events(3, 0).is_empty());
}

#[test]
fn capacity_change_leaves_stale_slots_unread() {
    // Capacity 5, seven events: slots hold 5, 6, 2, 3, 4.
    let mut c = setup();
    let admin = addr(1);
    c.init(admin.duplicate(), 5).unwrap();
    for _ in 0..7 {
        c.submit_event(&admin, make_input(cid(8))).unwrap();
    }
    c.set_max_events(&admin, 1000).unwrap();
    // With capacity 1000, seq 0 maps to slot 0, which holds seq 5.
    assert_eq!(c.get_event(0).err(), Some(Error::NotFound));
    assert_eq!(c.get_event(2).unwrap().seq, 2);
    assert_eq!(c.get_event(5).err(), Some(Error::NotFound));
    let seqs: Vec<u64> = c.get_events(0, 10).iter().map(|e| e.seq).collect();
    assert_eq!(seqs, vec![2, 3, 4]);
}

#[test]
fn submitted_event_keeps_input_fields() {
    let mut c = setup();
    let admin = addr(1);
    c.init(admin.duplicate(), 0).unwrap();
    let input = EventInput {
        contract_id: cid(5),
        function: "transfer".to_string(),
        ledger: 77,
        description: "moved funds".to_string(),
        raw_topics: vec!["a".to_string(), "b".to_string()],
        raw_data: vec![1, 2, 3],
    };
    let evs = c.submit_event(&admin, input).unwrap();
    assert_eq!(evs.len(), 2);
    let ev = c.get_event(0).unwrap();
    assert_eq!(ev.seq, 0);
    assert_eq!(ev.contract_id, cid(5));
    assert_eq!(ev.function, "transfer");
    assert_eq!(ev.ledger, 77);
    assert_eq!(ev.description, "moved funds");
    assert_eq!(ev.raw_topics, vec!["a".to_string(), "b".to_string()]);
    assert_eq!(ev.raw_data, vec![1, 2, 3]);
    match &evs[1] {
        ContractEvent::Decoded { contract_id, function, description } => {
            assert_eq!(*contract_id, cid(5));
            assert_eq!(function, "transfer");
            assert_eq!(description, "moved funds");
        }
        _ => panic!("expected a decoded event"),
    }
}

#[test]
fn pause_freezes_mutations() {
    let mut c = setup();
    let admin = addr(1);
    c.init(admin.duplicate(), 0).unwrap();
    let id = cid(60);
    c.register_contract(&admin, id, make_meta("P", &admin), LEDGER).unwrap();
    let evs = c.pause(&admin).unwrap();
    assert!(matches!(evs[0], ContractEvent::Paused));
    assert!(c.is_paused());
    assert_eq!(
        c.register_contract(&admin, cid(61), make_meta("Q", &admin), LEDGER).err(),
        Some(Error::ContractPaused)
    );
    let meta_v1 = ContractMeta { abi_version: 1, ..make_meta("P", &admin) };
    assert_eq!(c.update_contract(&admin, id, meta_v1, LEDGER).err(), Some(Error::ContractPaused));
    assert_eq!(c.deregister_contract(&admin, id, LEDGER).err(), Some(Error::ContractPaused));
    assert_eq!(c.submit_event(&admin, make_input(id)).err(), Some(Error::ContractPaused));
    assert_eq!(c.transfer_admin(&admin, addr(5)).err(), Some(Error::ContractPaused));
    assert_eq!(c.set_max_events(&admin, 2000), Err(Error::ContractPaused));
    assert_eq!(c.storage_utilisation().1, DEFAULT_MAX_EVENTS);
    assert_eq!(c.pause(&addr(5)).err(), Some(Error::Unauthorized));
    // An empty function name is reported before the pause.
    let mut bad = make_input(id);
    bad.function = String::new();
    assert_eq!(c.submit_event(&admin, bad).err(), Some(Error::InvalidInput));
    assert_eq!(c.event_count(), 0);

    let evs = c.unpause(&admin).unwrap();
    assert!(matches!(evs[0], ContractEvent::Unpaused));
    assert!(!c.is_paused());
    c.submit_event(&admin, make_input(id)).unwrap();
    assert_eq!(c.event_count(), 1);
}

#[test]
fn only_admin_pauses() {
    let mut c = setup();
    c.init(addr(1), 0).unwrap();
    assert_eq!(c.pause(&addr(2)).err(), Some(Error::Unauthorized));
    assert_eq!(c.unpause(&addr(2)).err(), Some(Error::Unauthorized));
    assert!(!c.is_paused());
}

#[test]
fn only_admin_sets_capacity() {
    let mut c = setup();
    c.init(addr(1), 0).unwrap();
    assert_eq!(c.set_max_events(&addr(2), 5000), Err(Error::Unauthorized));
    assert_eq!(c.storage_utilisation().1, DEFAULT_MAX_EVENTS);
    c.set_max_events(&addr(1), MIN_MAX_EVENTS).unwrap();
    assert_eq!(c.storage_utilisation().1, MIN_MAX_EVENTS);
}

#[test]
fn register_twice_refused_and_records_ledger() {
    let mut c = setup();
    let admin = addr(1);
    c.init(admin.duplicate(), 0).unwrap();
    let id = cid(70);
    let meta = ContractMeta { min_ledger: 5, ..make_meta("R", &admin) };
    let evs = c.register_contract(&admin, id, meta, 1234).unwrap();
    match &evs[0] {
        ContractEvent::ContractRegistered { contract_id, version, ledger, .. } => {
            assert_eq!(*contract_id, id);
            assert_eq!(*version, 1);
            assert_eq!(*ledger, 1234);
        }
        _ => panic!("expected a registration event"),
    }
    assert_eq!(c.get_contract(id).unwrap().min_ledger, 1234);
    assert_eq!(
        c.register_contract(&admin, id, make_meta("R2", &admin), 1).err(),
        Some(Error::AlreadyExists)
    );
    assert_eq!(c.get_contract(id).unwrap().name, "R");
}

#[test]
fn update_keeps_history_and_deregister_keeps_versions() {
    let mut c = setup();
    let admin = addr(1);
    c.init(admin.duplicate(), 0).unwrap();
    let id = cid(71);
    c.register_contract(&admin, id, make_meta("V0", &admin), 10).unwrap();
    let v1 = ContractMeta { abi_version: 1, ..make_meta("V1", &admin) };
    let evs = c.update_contract(&admin, id, v1, 20).unwrap();
    match &evs[0] {
        ContractEvent::AbiUpdated { old_abi_version, new_abi_version, min_ledger, .. } => {
            assert_eq!((*old_abi_version, *new_abi_version, *min_ledger), (0, 1, 20));
        }
        _ => panic!("expected an ABI update event"),
    }
    assert_eq!(c.get_contract_version(id, 0).unwrap().name, "V0");
    assert_eq!(c.get_contract_version(id, 0).unwrap().min_ledger, 10);
    assert_eq!(c.get_contract_version(id, 1).unwrap().name, "V1");
    assert_eq!(c.get_latest_contract(id).unwrap().min_ledger, 20);

    // Skipping a version is refused too.
    let v3 = ContractMeta { abi_version: 3, ..make_meta("V3", &admin) };
    assert_eq!(c.update_contract(&admin, id, v3, 30).err(), Some(Error::Unauthorized));

    c.deregister_contract(&admin, id, 40).unwrap();
    assert!(c.get_latest_contract(id).is_none());
    assert_eq!(c.get_contract_version(id, 1).unwrap().name, "V1");
    let v2 = ContractMeta { abi_version: 2, ..make_meta("V2", &admin) };
    assert_eq!(c.update_contract(&admin, id, v2, 50).err(), Some(Error::NotFound));
}

#[test]
fn stranger_cannot_update() {
    let mut c = setup();
    let admin = addr(1);
    c.init(admin.duplicate(), 0).unwrap();
    let id = cid(72);
    c.register_contract(&admin, id, make_meta("S", &addr(2)), 0).unwrap();
    let v1 = ContractMeta { abi_version: 1, ..make_meta("S", &addr(2)) };
    assert_eq!(c.update_contract(&addr(3), id, v1, 0).err(), Some(Error::Unauthorized));
    assert_eq!(c.get_contract(id).unwrap().abi_version, 0);
}

#[test]
fn transfer_admin_reports_both_addresses() {
    let mut c = setup();
    c.init(addr(1), 0).unwrap();
    let evs = c.transfer_admin(&addr(1), addr(2)).unwrap();
    match &evs[0] {
        ContractEvent::AdminTransferred { caller, new_admin } => {
            assert!(caller.same(&addr(1)));
            assert!(new_admin.same(&addr(2)));
        }
        _ => panic!("expected an admin transfer event"),
    }
}

#[test]
fn error_codes_round_trip() {
    let all = [
        (Error::NotFound, 1u32),
        (Error::Unauthorized, 2),
        (Error::AlreadyExists, 3),
        (Error::BelowFloor, 4),
        (Error::ContractPaused, 5),
        (Error::InvalidInput, 6),
    ];
    for (e, code) in all {
        assert_eq!(e.code(), code);
        assert_eq!(Error::from_code(code), Some(e));
    }
    assert_eq!(Error::from_code(0), None);
    assert_eq!(Error::from_code(7), None);
}

#[test]
fn copies_keep_contents() {
    let a = addr(9);
    assert!(a.duplicate().same(&a));
    assert!(!a.same(&addr(8)));
    let meta = make_meta("Copy", &a);
    let m2 = meta.duplicate();
    assert_eq!(m2.name, "Copy");
    assert!(m2.registered_by.same(&a));
}

#[test]
fn consecutive_pages_join() {
    let mut c = setup();
    let admin = addr(1);
    c.init(admin.duplicate(), 5).unwrap();
    for _ in 0..9 {
        c.submit_event(&admin, make_input(cid(12))).unwrap();
    }
    // Live window is [4, 9).
    let first = c.get_events(0, 2);
    let next = first[first.len() - 1].seq + 1;
    let second = c.get_events(next, 2);
    let whole = c.get_events(0, 4);
    let joined: Vec<u64> = first.iter().chain(second.iter()).map(|e| e.seq).collect();
    let expected: Vec<u64> = whole.iter().map(|e| e.seq).collect();
    assert_eq!(joined, expected);
    assert_eq!(expected, vec![4, 5, 6, 7]);
}

#[test]
fn submission_keeps_other_live_events() {
    let mut c = setup();
    let admin = addr(1);
    c.init(admin.duplicate(), 3).unwrap();
    for b in 0..3u8 {
        let mut input = make_input(cid(b));
        input.ledger = 10 + b as u32;
        c.submit_event(&admin, input).unwrap();
    }
    let before = c.get_event(2).unwrap();
    c.submit_event(&admin, make_input(cid(99))).unwrap();
    let after = c.get_event(2).unwrap();
    assert_eq!(after.ledger, before.ledger);
    assert_eq!(after.contract_id, cid(2));
    assert_eq!(c.get_event(0).err(), Some(Error::NotFound));
    assert_eq!(c.get_event(3).unwrap().contract_id, cid(99));
}

#[test]
fn abi_version_counts_updates() {
    let mut c = setup();
    let admin = addr(1);
    c.init(admin.duplicate(), 0).unwrap();
    let id = cid(80);
    c.register_contract(&admin, id, make_meta("A", &admin), 100).unwrap();
    for k in 1..=4u32 {
        let m = ContractMeta { abi_version: k, ..make_meta("A", &admin) };
        c.update_contract(&admin, id, m, 100 + k).unwrap();
    }
    assert_eq!(c.get_contract(id).unwrap().abi_version, 4);
    for j in 0..=4u32 {
        let h = c.get_contract_version(id, j).unwrap();
        assert_eq!(h.abi_version, j);
        assert_eq!(h.min_ledger, 100 + j);
    }
    assert!(c.get_contract_version(id, 5).is_none());
}

#[test]
fn abi_version_counts_updates_between_other_operations() {
    let mut c = setup();
    let admin = addr(1);
    c.init(admin.duplicate(), 5).unwrap();
    let id = cid(81);
    let other = cid(82);
    c.register_contract(&admin, id, make_meta("A", &admin), 7).unwrap();
    let m1 = ContractMeta { abi_version: 1, ..make_meta("A", &admin) };
    c.update_contract(&admin, id, m1, 8).unwrap();
    c.submit_event(&admin, make_input(id)).unwrap();
    c.register_contract(&admin, other, make_meta("B", &admin), 9).unwrap();
    let b1 = ContractMeta { abi_version: 1, ..make_meta("B", &admin) };
    c.update_contract(&admin, other, b1, 10).unwrap();
    c.deregister_contract(&admin, other, 11).unwrap();
    c.pause(&admin).unwrap();
    // Refused while paused: changes nothing.
    let refused = ContractMeta { abi_version: 2, ..make_meta("A", &admin) };
    assert!(c.update_contract(&admin, id, refused, 12).is_err());
    c.unpause(&admin).unwrap();
    c.transfer_admin(&admin, addr(2)).unwrap();
    let m2 = ContractMeta { abi_version: 2, ..make_meta("A", &admin) };
    c.update_contract(&addr(2), id, m2, 13).unwrap();

    assert_eq!(c.get_contract(id).unwrap().abi_version, 2);
    let ledgers = [7u32, 8, 13];
    for j in 0..=2u32 {
        let h = c.get_contract_version(id, j).unwrap();
        assert_eq!(h.abi_version, j);
        assert_eq!(h.min_ledger, ledgers[j as usize]);
    }
    assert!(c.get_contract_version(id, 3).is_none());
}
