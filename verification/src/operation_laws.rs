//! What each operation does, stated directly in terms of its inputs, the
//! storage before it and the storage and events after it.

use vstd::prelude::*;

use crate::events::ContractEventView;
use crate::model::{
    ExplorerView, contract_lookup, deregister_result, event_lookup, init_result, latest_lookup,
    register_events, register_result, set_max_events_result, set_paused_result, submit_events,
    submit_result, transfer_admin_result, update_events, update_result, version_lookup,
};
use crate::types::{
    ContractMetaView, DecodedEventView, DEFAULT_MAX_EVENTS, Error, EventInputView, MIN_MAX_EVENTS,
};

verus! {

/// `init` on storage without an admin succeeds, stores the admin, a zero
/// counter and the requested capacity (the default for 0), and touches
/// nothing else; with an admin it is refused with `AlreadyExists`.
pub proof fn law_init_behaviour(v: ExplorerView, admin: Seq<u8>, max_events: u32)
    ensures
        v.admin is Some ==> init_result(v, admin, max_events) == Err::<ExplorerView, Error>(
            Error::AlreadyExists,
        ),
        v.admin is None ==> ({
            let w = init_result(v, admin, max_events).unwrap();
            &&& init_result(v, admin, max_events) is Ok
            &&& w.admin == Some(admin)
            &&& w.event_seq == Some(0u64)
            &&& w.max_events == Some(if max_events == 0 { DEFAULT_MAX_EVENTS } else { max_events })
            &&& w.paused == v.paused
            &&& w.contracts == v.contracts
            &&& w.versions == v.versions
            &&& w.event_log == v.event_log
        }),
{
}

/// Outside a pause the admin's transfer succeeds and changes only the
/// admin; anyone else is refused with `Unauthorized`.
pub proof fn law_transfer_admin_behaviour(v: ExplorerView, caller: Seq<u8>, new_admin: Seq<u8>)
    requires
        !v.paused_now(),
    ensures
        v.admin == Some(caller) ==> ({
            let w = transfer_admin_result(v, caller, new_admin).unwrap();
            &&& transfer_admin_result(v, caller, new_admin) is Ok
            &&& w.admin == Some(new_admin)
            &&& w.event_seq == v.event_seq
            &&& w.max_events == v.max_events
            &&& w.paused == v.paused
            &&& w.contracts == v.contracts
            &&& w.versions == v.versions
            &&& w.event_log == v.event_log
        }),
        v.admin != Some(caller) ==> transfer_admin_result(v, caller, new_admin) == Err::<
            ExplorerView,
            Error,
        >(Error::Unauthorized),
{
}

/// Outside a pause the admin's capacity change to at least the floor
/// succeeds and changes only the capacity; below the floor it is refused
/// with `BelowFloor`; anyone else is refused with `Unauthorized`.
pub proof fn law_set_max_events_behaviour(v: ExplorerView, caller: Seq<u8>, new_max: u32)
    requires
        !v.paused_now(),
    ensures
        v.admin == Some(caller) && new_max >= MIN_MAX_EVENTS ==> ({
            let w = set_max_events_result(v, caller, new_max).unwrap();
            &&& set_max_events_result(v, caller, new_max) is Ok
            &&& w.max_events == Some(new_max)
            &&& w.admin == v.admin
            &&& w.event_seq == v.event_seq
            &&& w.paused == v.paused
            &&& w.contracts == v.contracts
            &&& w.versions == v.versions
            &&& w.event_log == v.event_log
        }),
        v.admin == Some(caller) && new_max < MIN_MAX_EVENTS ==> set_max_events_result(
            v,
            caller,
            new_max,
        ) == Err::<ExplorerView, Error>(Error::BelowFloor),
        v.admin != Some(caller) ==> set_max_events_result(v, caller, new_max) == Err::<
            ExplorerView,
            Error,
        >(Error::Unauthorized),
{
}

/// The admin may always pause and unpause, which changes only the pause
/// flag; anyone else is refused with `Unauthorized`.
pub proof fn law_pause_behaviour(v: ExplorerView, caller: Seq<u8>, flag: bool)
    ensures
        v.admin == Some(caller) ==> ({
            let w = set_paused_result(v, caller, flag).unwrap();
            &&& set_paused_result(v, caller, flag) is Ok
            &&& w.paused == Some(flag)
            &&& w.admin == v.admin
            &&& w.event_seq == v.event_seq
            &&& w.max_events == v.max_events
            &&& w.contracts == v.contracts
            &&& w.versions == v.versions
            &&& w.event_log == v.event_log
        }),
        v.admin != Some(caller) ==> set_paused_result(v, caller, flag) == Err::<ExplorerView, Error>(
            Error::Unauthorized,
        ),
{
}

/// Outside a pause, the admin registering a new id succeeds. The latest
/// entry and the version-0 history entry are then the submitted metadata,
/// field for field, except that the ABI version is 0 and the first ledger
/// is the call's; nothing else changes. The two published events carry
/// the registrant, schema version, ledger and name. A registered id, or
/// a caller other than the admin, is refused.
pub proof fn law_register_behaviour(
    v: ExplorerView,
    caller: Seq<u8>,
    id: Seq<u8>,
    meta: ContractMetaView,
    ledger: u32,
)
    requires
        !v.paused_now(),
    ensures
        v.admin == Some(caller) && !v.contracts.contains_key(id) ==> ({
            let w = register_result(v, caller, id, meta, ledger).unwrap();
            &&& register_result(v, caller, id, meta, ledger) is Ok
            &&& w.contracts.contains_key(id)
            &&& w.versions.contains_key((id, 0u32))
            &&& w.contracts[id] == (ContractMetaView {
                version: meta.version,
                abi_version: 0,
                min_ledger: ledger,
                name: meta.name,
                description: meta.description,
                functions: meta.functions,
                registered_by: meta.registered_by,
            })
            &&& w.versions[(id, 0u32)] == w.contracts[id]
            &&& forall|k: Seq<u8>|
                k != id ==> #[trigger] w.contracts.contains_key(k) == v.contracts.contains_key(k)
                    && w.contracts[k] == v.contracts[k]
            &&& forall|k: (Seq<u8>, u32)|
                k != (id, 0u32) ==> #[trigger] w.versions.contains_key(k) == v.versions.contains_key(k)
                    && w.versions[k] == v.versions[k]
            &&& w.admin == v.admin
            &&& w.event_seq == v.event_seq
            &&& w.max_events == v.max_events
            &&& w.paused == v.paused
            &&& w.event_log == v.event_log
        }),
        v.admin == Some(caller) && !v.contracts.contains_key(id) ==> register_events(id, meta, ledger)
            == seq![
            ContractEventView::ContractRegistered {
                contract_id: id,
                registered_by: meta.registered_by,
                version: meta.version,
                ledger,
            },
            ContractEventView::Registered { contract_id: id, name: meta.name },
        ],
        v.admin != Some(caller) ==> register_result(v, caller, id, meta, ledger) == Err::<
            ExplorerView,
            Error,
        >(Error::Unauthorized),
        v.admin == Some(caller) && v.contracts.contains_key(id) ==> register_result(
            v,
            caller,
            id,
            meta,
            ledger,
        ) == Err::<ExplorerView, Error>(Error::AlreadyExists),
{
    if v.admin == Some(caller) && !v.contracts.contains_key(id) {
        let w = register_result(v, caller, id, meta, ledger).unwrap();
        assert(w.contracts[id] == (ContractMetaView {
            version: meta.version,
            abi_version: 0,
            min_ledger: ledger,
            name: meta.name,
            description: meta.description,
            functions: meta.functions,
            registered_by: meta.registered_by,
        }));
    }
}

/// Reading a contract gives back exactly what is stored: its latest entry
/// (or `NotFound`) through `get_contract`, the same entry (or nothing)
/// through `get_latest_contract`, and the recorded history entry (or
/// nothing) through `get_contract_version`.
pub proof fn law_reads_return_stored(v: ExplorerView, id: Seq<u8>, k: u32)
    ensures
        v.contracts.contains_key(id) ==> contract_lookup(v, id) == Ok::<ContractMetaView, Error>(
            v.contracts[id],
        ) && latest_lookup(v, id) == Some(v.contracts[id]),
        !v.contracts.contains_key(id) ==> contract_lookup(v, id) == Err::<ContractMetaView, Error>(
            Error::NotFound,
        ) && latest_lookup(v, id) is None,
        v.versions.contains_key((id, k)) ==> version_lookup(v, id, k) == Some(v.versions[(id, k)]),
        !v.versions.contains_key((id, k)) ==> version_lookup(v, id, k) is None,
{
}

/// A registered contract reads back through every reader as the submitted
/// metadata with ABI version 0 and the registration ledger: name,
/// description, schema version, function list and registrant unchanged.
pub proof fn law_register_then_read_back(
    v: ExplorerView,
    caller: Seq<u8>,
    id: Seq<u8>,
    meta: ContractMetaView,
    ledger: u32,
)
    requires
        register_result(v, caller, id, meta, ledger) is Ok,
    ensures
        ({
            let w = register_result(v, caller, id, meta, ledger).unwrap();
            let expected = ContractMetaView {
                version: meta.version,
                abi_version: 0,
                min_ledger: ledger,
                name: meta.name,
                description: meta.description,
                functions: meta.functions,
                registered_by: meta.registered_by,
            };
            &&& contract_lookup(w, id) == Ok::<ContractMetaView, Error>(expected)
            &&& latest_lookup(w, id) == Some(expected)
            &&& version_lookup(w, id, 0) == Some(expected)
            &&& contract_lookup(w, id).unwrap().functions == meta.functions
        }),
{
    let w = register_result(v, caller, id, meta, ledger).unwrap();
    assert(w.contracts.contains_key(id));
    assert(w.versions.contains_key((id, 0u32)));
}

/// Outside a pause, an update of a registered id by its registrant or by
/// the admin, with the next ABI version, succeeds: the latest entry and the
/// history entry of that version become the submitted metadata with the
/// call's ledger, nothing else changes, and the published events report
/// the old and new ABI versions and the schema version stored before the
/// call next to the submitted one. Any other caller, and any other ABI
/// version, is refused with `Unauthorized`; an unregistered id with
/// `NotFound`.
pub proof fn law_update_behaviour(
    v: ExplorerView,
    caller: Seq<u8>,
    id: Seq<u8>,
    meta: ContractMetaView,
    ledger: u32,
)
    requires
        !v.paused_now(),
    ensures
        !v.contracts.contains_key(id) ==> update_result(v, caller, id, meta, ledger) == Err::<
            ExplorerView,
            Error,
        >(Error::NotFound),
        v.contracts.contains_key(id) && caller != v.contracts[id].registered_by && v.admin != Some(
            caller,
        ) ==> update_result(v, caller, id, meta, ledger) == Err::<ExplorerView, Error>(
            Error::Unauthorized,
        ),
        v.contracts.contains_key(id) && (caller == v.contracts[id].registered_by || v.admin == Some(
            caller,
        )) && meta.abi_version != v.contracts[id].abi_version + 1 ==> update_result(
            v,
            caller,
            id,
            meta,
            ledger,
        ) == Err::<ExplorerView, Error>(Error::Unauthorized),
        v.contracts.contains_key(id) && (caller == v.contracts[id].registered_by || v.admin == Some(
            caller,
        )) && meta.abi_version == v.contracts[id].abi_version + 1 ==> {
            &&& update_result(v, caller, id, meta, ledger) matches Ok(w) && w.contracts[id]
                == (ContractMetaView {
                version: meta.version,
                abi_version: meta.abi_version,
                min_ledger: ledger,
                name: meta.name,
                description: meta.description,
                functions: meta.functions,
                registered_by: meta.registered_by,
            }) && w.versions.contains_key((id, meta.abi_version)) && w.versions[(
                id,
                meta.abi_version,
            )] == w.contracts[id] && (forall|k: Seq<u8>|
                k != id ==> #[trigger] w.contracts.contains_key(k) == v.contracts.contains_key(k)
                    && w.contracts[k] == v.contracts[k]) && (forall|k: (Seq<u8>, u32)|
                k != (id, meta.abi_version) ==> #[trigger] w.versions.contains_key(k)
                    == v.versions.contains_key(k) && w.versions[k] == v.versions[k]) && w.admin
                == v.admin && w.event_seq == v.event_seq && w.max_events == v.max_events
                && w.paused == v.paused && w.event_log == v.event_log
            &&& update_events(v, caller, id, meta, ledger) == seq![
                ContractEventView::AbiUpdated {
                    contract_id: id,
                    old_abi_version: v.contracts[id].abi_version,
                    new_abi_version: meta.abi_version,
                    min_ledger: ledger,
                },
                ContractEventView::ContractUpdated {
                    contract_id: id,
                    caller,
                    old_version: v.contracts[id].version,
                    new_version: meta.version,
                    ledger,
                },
            ]
        },
{
    if v.contracts.contains_key(id) && (caller == v.contracts[id].registered_by || v.admin == Some(
        caller,
    )) && meta.abi_version == v.contracts[id].abi_version + 1 {
        let w = update_result(v, caller, id, meta, ledger).unwrap();
        assert(w.contracts[id] == (ContractMetaView {
            version: meta.version,
            abi_version: meta.abi_version,
            min_ledger: ledger,
            name: meta.name,
            description: meta.description,
            functions: meta.functions,
            registered_by: meta.registered_by,
        }));
    }
}

/// The schema versions an update reports are the one stored before the
/// call and the one stored after it.
pub proof fn law_update_reports_version_change(
    v: ExplorerView,
    caller: Seq<u8>,
    id: Seq<u8>,
    meta: ContractMetaView,
    ledger: u32,
)
    requires
        update_result(v, caller, id, meta, ledger) is Ok,
    ensures
        ({
            let w = update_result(v, caller, id, meta, ledger).unwrap();
            update_events(v, caller, id, meta, ledger)[1] matches ContractEventView::ContractUpdated {
                old_version,
                new_version,
                ..
            } && old_version == contract_lookup(v, id).unwrap().version && new_version
                == contract_lookup(w, id).unwrap().version
        }),
{
    let w = update_result(v, caller, id, meta, ledger).unwrap();
    assert(w.contracts.contains_key(id));
}

/// Outside a pause, deregistering a registered id succeeds for its
/// registrant and for the admin, whoever the registrant is; it removes
/// only the latest entry. Anyone else is refused with `Unauthorized`, an
/// unregistered id with `NotFound`.
pub proof fn law_deregister_behaviour(v: ExplorerView, caller: Seq<u8>, id: Seq<u8>)
    requires
        !v.paused_now(),
    ensures
        v.contracts.contains_key(id) && (v.admin == Some(caller) || caller
            == v.contracts[id].registered_by) ==> ({
            let w = deregister_result(v, caller, id).unwrap();
            &&& deregister_result(v, caller, id) is Ok
            &&& !w.contracts.contains_key(id)
            &&& forall|k: Seq<u8>|
                k != id ==> #[trigger] w.contracts.contains_key(k) == v.contracts.contains_key(k)
                    && w.contracts[k] == v.contracts[k]
            &&& w.versions == v.versions
            &&& w.admin == v.admin
            &&& w.event_seq == v.event_seq
            &&& w.max_events == v.max_events
            &&& w.paused == v.paused
            &&& w.event_log == v.event_log
        }),
        v.contracts.contains_key(id) && v.admin != Some(caller) && caller
            != v.contracts[id].registered_by ==> deregister_result(v, caller, id) == Err::<
            ExplorerView,
            Error,
        >(Error::Unauthorized),
        !v.contracts.contains_key(id) ==> deregister_result(v, caller, id) == Err::<
            ExplorerView,
            Error,
        >(Error::NotFound),
{
}

/// Outside a pause, the admin's submission with a nonempty function name
/// succeeds: it takes the sequence number `t` (the number of earlier
/// submissions), stores the submitted fields with that number in slot
/// `t % capacity`, raises the counter to `t + 1`, and changes nothing
/// else. It publishes `ev_sub` with the contract id, function, `t` and the
/// submitted ledger, then `cap_hit` exactly when `t >= capacity`, naming
/// `t - capacity` as the evicted number, then `decoded` with the
/// description. An empty function name is refused with `InvalidInput`; any
/// other caller with `Unauthorized`.
pub proof fn law_submit_behaviour(v: ExplorerView, caller: Seq<u8>, input: EventInputView)
    requires
        v.wf(),
        !v.paused_now(),
        v.total() < u64::MAX,
    ensures
        input.function.len() == 0 ==> submit_result(v, caller, input) == Err::<ExplorerView, Error>(
            Error::InvalidInput,
        ),
        input.function.len() > 0 && v.admin != Some(caller) ==> submit_result(v, caller, input)
            == Err::<ExplorerView, Error>(Error::Unauthorized),
        input.function.len() > 0 && v.admin == Some(caller) ==> {
            let t = v.total();
            let slot = (t % (v.capacity() as u64)) as u64;
            let stored = DecodedEventView {
                seq: t,
                contract_id: input.contract_id,
                function: input.function,
                ledger: input.ledger,
                description: input.description,
                raw_topics: input.raw_topics,
                raw_data: input.raw_data,
            };
            let first = ContractEventView::EventSubmitted {
                contract_id: input.contract_id,
                function: input.function,
                seq: t,
                ledger: input.ledger,
            };
            let last = ContractEventView::Decoded {
                contract_id: input.contract_id,
                function: input.function,
                description: input.description,
            };
            &&& submit_result(v, caller, input) matches Ok(w) && w.event_seq == Some((t + 1) as u64)
                && w.event_log.contains_key(slot) && w.event_log[slot] == stored && (forall|s: u64|
                s != slot ==> #[trigger] w.event_log.contains_key(s) == v.event_log.contains_key(s)
                    && w.event_log[s] == v.event_log[s]) && w.admin == v.admin && w.max_events
                == v.max_events && w.paused == v.paused && w.contracts == v.contracts && w.versions
                == v.versions
            &&& event_lookup(submit_result(v, caller, input).unwrap(), t) == Ok::<
                DecodedEventView,
                Error,
            >(stored)
            &&& t >= v.capacity() ==> submit_events(v, input) == seq![
                first,
                ContractEventView::CapacityHit { evicted_seq: (t - v.capacity()) as u64, seq: t },
                last,
            ]
            &&& t < v.capacity() ==> submit_events(v, input) == seq![first, last]
        },
{
    if input.function.len() > 0 && v.admin == Some(caller) {
        let t = v.total();
        let w = submit_result(v, caller, input).unwrap();
        assert(w.slot(t as int) == t % (v.capacity() as u64));
    }
}

/// In a consistent ring buffer, the sequence number a submission names as
/// evicted is one whose event could be read before the submission and can
/// no longer be read after it, and it shares the new event's slot.
pub proof fn law_eviction_report_names_lost_event(
    v: ExplorerView,
    caller: Seq<u8>,
    input: EventInputView,
)
    requires
        v.wf(),
        v.ring_consistent(),
        v.total() < u64::MAX,
        v.total() >= v.capacity(),
        submit_result(v, caller, input) is Ok,
    ensures
        ({
            let w = submit_result(v, caller, input).unwrap();
            submit_events(v, input)[1] matches ContractEventView::CapacityHit { evicted_seq, seq }
                && seq == v.total() && event_lookup(v, evicted_seq) is Ok && event_lookup(
                w,
                evicted_seq,
            ) is Err && v.slot(evicted_seq as int) == v.slot(seq as int)
        }),
{
    let w = submit_result(v, caller, input).unwrap();
    let t = v.total() as int;
    let m = v.capacity() as int;
    let e = t - m;
    assert(v.oldest() == e);
    assert(v.holds(e));
    vstd::arithmetic::div_mod::lemma_mod_add_multiples_vanish(e, m);
    assert(v.slot(e) == v.slot(t));
    assert(w.event_log[w.slot(e) as u64].seq == t);
}

/// The retained count is the number of submissions, capped at the
/// capacity; the window of retained sequence numbers ends at the newest
/// and starts that many numbers earlier; a page starts at the later of
/// its cursor and the window's start.
pub proof fn law_window_arithmetic(v: ExplorerView, cursor: u64)
    ensures
        v.total() <= v.capacity() ==> v.retained() == v.total(),
        v.total() > v.capacity() ==> v.retained() == v.capacity(),
        v.oldest() + v.retained() == v.total(),
        crate::model::page_start(v, cursor) == if cursor >= v.oldest() {
            cursor
        } else {
            v.oldest()
        },
        v.wf() ==> forall|q: int| #[trigger] v.slot(q) == q % (v.capacity() as int),
{
}

/// Each accepted submission adds one to the retained count until the
/// capacity is reached, after which the count stays at the capacity.
pub proof fn law_submit_grows_count(v: ExplorerView, caller: Seq<u8>, input: EventInputView)
    requires
        v.total() < u64::MAX,
        submit_result(v, caller, input) is Ok,
    ensures
        v.retained() < v.capacity() ==> submit_result(v, caller, input).unwrap().retained()
            == v.retained() + 1,
        v.retained() == v.capacity() ==> submit_result(v, caller, input).unwrap().retained()
            == v.capacity(),
        submit_result(v, caller, input).unwrap().total() == v.total() + 1,
        submit_result(v, caller, input).unwrap().capacity() == v.capacity(),
{
}

/// The numeric codes of the errors are 1 to 6, in declaration order, and
/// distinct errors have distinct codes.
pub proof fn law_error_codes(e: Error, f: Error)
    ensures
        Error::NotFound.spec_code() == 1,
        Error::Unauthorized.spec_code() == 2,
        Error::AlreadyExists.spec_code() == 3,
        Error::BelowFloor.spec_code() == 4,
        Error::ContractPaused.spec_code() == 5,
        Error::InvalidInput.spec_code() == 6,
        e != f ==> e.spec_code() != f.spec_code(),
{
}

} // verus!
