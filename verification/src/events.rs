//! The diagnostic events the explorer publishes, as plain values.

use vstd::prelude::*;

use crate::types::Address;

verus! {

/// One published diagnostic event. The comment on each variant names its
/// topic and the data it carries.
pub enum ContractEvent {
    /// Topic `adm_xfer` with the old admin; data: the new admin.
    AdminTransferred { caller: Address, new_admin: Address },
    /// Topic `paused`.
    Paused,
    /// Topic `unpaused`.
    Unpaused,
    /// Topic `c_reg` with the contract id; data: registrant, schema version, ledger.
    ContractRegistered { contract_id: [u8; 32], registered_by: Address, version: u32, ledger: u32 },
    /// Topic `register` with the contract id; data: the contract's name.
    Registered { contract_id: [u8; 32], name: String },
    /// Topic `c_abiu` with the contract id; data: old and new ABI version, ledger.
    AbiUpdated { contract_id: [u8; 32], old_abi_version: u32, new_abi_version: u32, min_ledger: u32 },
    /// Topic `c_upd` with the contract id; data: caller, old and new schema version, ledger.
    ContractUpdated {
        contract_id: [u8; 32],
        caller: Address,
        old_version: u32,
        new_version: u32,
        ledger: u32,
    },
    /// Topic `c_dereg` with the contract id; data: caller, ledger.
    ContractDeregistered { contract_id: [u8; 32], caller: Address, ledger: u32 },
    /// Topic `ev_sub` with contract id and function; data: sequence number, ledger.
    EventSubmitted { contract_id: [u8; 32], function: String, seq: u64, ledger: u32 },
    /// Topic `cap_hit`; data: the evicted sequence number and the new one.
    CapacityHit { evicted_seq: u64, seq: u64 },
    /// Topic `decoded` with contract id and function; data: the description.
    Decoded { contract_id: [u8; 32], function: String, description: String },
}

/// The view of a published event.
pub enum ContractEventView {
    AdminTransferred { caller: Seq<u8>, new_admin: Seq<u8> },
    Paused,
    Unpaused,
    ContractRegistered { contract_id: Seq<u8>, registered_by: Seq<u8>, version: u32, ledger: u32 },
    Registered { contract_id: Seq<u8>, name: Seq<char> },
    AbiUpdated { contract_id: Seq<u8>, old_abi_version: u32, new_abi_version: u32, min_ledger: u32 },
    ContractUpdated {
        contract_id: Seq<u8>,
        caller: Seq<u8>,
        old_version: u32,
        new_version: u32,
        ledger: u32,
    },
    ContractDeregistered { contract_id: Seq<u8>, caller: Seq<u8>, ledger: u32 },
    EventSubmitted { contract_id: Seq<u8>, function: Seq<char>, seq: u64, ledger: u32 },
    CapacityHit { evicted_seq: u64, seq: u64 },
    Decoded { contract_id: Seq<u8>, function: Seq<char>, description: Seq<char> },
}

impl View for ContractEvent {
    type V = ContractEventView;

    open spec fn view(&self) -> ContractEventView {
        match self {
            ContractEvent::AdminTransferred { caller, new_admin } => ContractEventView::AdminTransferred {
                caller: caller@,
                new_admin: new_admin@,
            },
            ContractEvent::Paused => ContractEventView::Paused,
            ContractEvent::Unpaused => ContractEventView::Unpaused,
            ContractEvent::ContractRegistered { contract_id, registered_by, version, ledger } =>
                ContractEventView::ContractRegistered {
                contract_id: contract_id@,
                registered_by: registered_by@,
                version: *version,
                ledger: *ledger,
            },
            ContractEvent::Registered { contract_id, name } => ContractEventView::Registered {
                contract_id: contract_id@,
                name: name@,
            },
            ContractEvent::AbiUpdated { contract_id, old_abi_version, new_abi_version, min_ledger } =>
                ContractEventView::AbiUpdated {
                contract_id: contract_id@,
                old_abi_version: *old_abi_version,
                new_abi_version: *new_abi_version,
                min_ledger: *min_ledger,
            },
            ContractEvent::ContractUpdated { contract_id, caller, old_version, new_version, ledger } =>
                ContractEventView::ContractUpdated {
                contract_id: contract_id@,
                caller: caller@,
                old_version: *old_version,
                new_version: *new_version,
                ledger: *ledger,
            },
            ContractEvent::ContractDeregistered { contract_id, caller, ledger } =>
                ContractEventView::ContractDeregistered {
                contract_id: contract_id@,
                caller: caller@,
                ledger: *ledger,
            },
            ContractEvent::EventSubmitted { contract_id, function, seq, ledger } =>
                ContractEventView::EventSubmitted {
                contract_id: contract_id@,
                function: function@,
                seq: *seq,
                ledger: *ledger,
            },
            ContractEvent::CapacityHit { evicted_seq, seq } => ContractEventView::CapacityHit {
                evicted_seq: *evicted_seq,
                seq: *seq,
            },
            ContractEvent::Decoded { contract_id, function, description } =>
                ContractEventView::Decoded {
                contract_id: contract_id@,
                function: function@,
                description: description@,
            },
        }
    }
}

/// The views of a sequence of published events.
pub open spec fn events_view(v: Seq<ContractEvent>) -> Seq<ContractEventView> {
    v.map_values(|e: ContractEvent| e@)
}

} // verus!
