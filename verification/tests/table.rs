use explorer_contract::table::Table;
use explorer_contract::types::{Address, DecodedEvent, VersionKey, ContractMeta};

fn event(seq: u64) -> DecodedEvent {
    DecodedEvent {
        seq,
        contract_id: [4u8; 32],
        function: "f".to_string(),
        ledger: 1,
        description: String::new(),
        raw_topics: Vec::new(),
        raw_data: Vec::new(),
    }
}

fn meta(version: u32) -> ContractMeta {
    ContractMeta {
        version,
        abi_version: version,
        min_ledger: 0,
        name: "m".to_string(),
        description: String::new(),
        functions: Vec::new(),
        registered_by: Address::new(b"GX".to_vec()),
    }
}

#[test]
fn table_insert_replace_remove() {
    let mut t: Table<u64, DecodedEvent> = Table::new();
    assert_eq!(t.len(), 0);
    t.insert(3, event(3));
    t.insert(8, event(8));
    assert_eq!(t.len(), 2);
    assert_eq!(t.get(&3).unwrap().seq, 3);
    t.insert(3, event(13));
    assert_eq!(t.len(), 2);
    assert_eq!(t.get_copy(&3).unwrap().seq, 13);
    t.remove(&3);
    assert!(!t.contains(&3));
    assert!(t.contains(&8));
    assert_eq!(t.len(), 1);
    t.remove(&99);
    assert_eq!(t.len(), 1);
}

#[test]
fn table_keys_compare_by_contents() {
    let mut t: Table<VersionKey, ContractMeta> = Table::new();
    t.insert(VersionKey { contract_id: [1u8; 32], abi_version: 0 }, meta(0));
    t.insert(VersionKey { contract_id: [1u8; 32], abi_version: 1 }, meta(1));
    t.insert(VersionKey { contract_id: [2u8; 32], abi_version: 0 }, meta(5));
    assert_eq!(t.len(), 3);
    let k = VersionKey { contract_id: [1u8; 32], abi_version: 1 };
    assert_eq!(t.get(&k).unwrap().version, 1);
    let k = VersionKey { contract_id: [2u8; 32], abi_version: 0 };
    assert_eq!(t.get(&k).unwrap().version, 5);
    assert!(t.get(&VersionKey { contract_id: [2u8; 32], abi_version: 1 }).is_none());
}
