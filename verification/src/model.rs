//! The mathematical model of the explorer's storage and the effect of each
//! operation on it.

use vstd::prelude::*;

use crate::events::ContractEventView;
use crate::types::{
    ContractMetaView, DecodedEventView, DEFAULT_MAX_EVENTS, Error, EventInputView, MIN_MAX_EVENTS,
};

verus! {

/// The contents of the explorer's storage. An absent scalar entry is `None`;
/// reads of it fall back to the defaults below.
pub struct ExplorerView {
    pub admin: Option<Seq<u8>>,
    pub event_seq: Option<u64>,
    pub max_events: Option<u32>,
    pub paused: Option<bool>,
    /// Latest metadata by contract id.
    pub contracts: Map<Seq<u8>, ContractMetaView>,
    /// Metadata by contract id and ABI version.
    pub versions: Map<(Seq<u8>, u32), ContractMetaView>,
    /// Ring-buffer slots.
    pub event_log: Map<u64, DecodedEventView>,
}

impl ExplorerView {
    /// Storage before initialisation.
    pub open spec fn empty() -> ExplorerView {
        ExplorerView {
            admin: None,
            event_seq: None,
            max_events: None,
            paused: None,
            contracts: Map::empty(),
            versions: Map::empty(),
            event_log: Map::empty(),
        }
    }

    /// The number of events ever submitted (0 when unset).
    pub open spec fn total(self) -> u64 {
        match self.event_seq {
            Some(s) => s,
            None => 0,
        }
    }

    /// The ring-buffer capacity (the default when unset).
    pub open spec fn capacity(self) -> u32 {
        match self.max_events {
            Some(m) => m,
            None => DEFAULT_MAX_EVENTS,
        }
    }

    /// Whether mutating operations are frozen (false when unset).
    pub open spec fn paused_now(self) -> bool {
        self.paused == Some(true)
    }

    /// Whether `who` is the admin.
    pub open spec fn is_admin(self, who: Seq<u8>) -> bool {
        self.admin == Some(who)
    }

    /// The number of events the ring buffer retains.
    pub open spec fn retained(self) -> u64 {
        if self.total() <= self.capacity() {
            self.total()
        } else {
            self.capacity() as u64
        }
    }

    /// The oldest sequence number still inside the ring window.
    pub open spec fn oldest(self) -> u64 {
        if self.total() >= self.capacity() {
            (self.total() - self.capacity()) as u64
        } else {
            0
        }
    }

    /// The ring-buffer slot of sequence number `q`.
    pub open spec fn slot(self, q: int) -> int {
        q % (self.capacity() as int)
    }

    /// Whether the slot of `q` holds the event with sequence number `q`.
    pub open spec fn holds(self, q: int) -> bool {
        let s = self.slot(q);
        &&& 0 <= s
        &&& self.event_log.contains_key(s as u64)
        &&& self.event_log[s as u64].seq == q
    }

    /// The well-formedness every reachable state keeps: a nonzero capacity.
    pub open spec fn wf(self) -> bool {
        self.capacity() > 0
    }

    /// Every sequence number in the ring window is held in its slot, and
    /// no slot holds an event from the future. This holds as long as the
    /// capacity is not changed while events are retained.
    pub open spec fn ring_consistent(self) -> bool {
        &&& forall|q: int| self.oldest() <= q < self.total() ==> #[trigger] self.holds(q)
        &&& forall|s: u64| #[trigger] self.event_log.contains_key(s) ==> self.event_log[s].seq < self.total()
    }
}

/// `init`: sets the admin, resets the sequence and sets the capacity
/// (the default for `0`); refused once an admin exists.
pub open spec fn init_result(v: ExplorerView, admin: Seq<u8>, max_events: u32) -> Result<ExplorerView, Error> {
    if v.admin is Some {
        Err(Error::AlreadyExists)
    } else {
        Ok(
            ExplorerView {
                admin: Some(admin),
                event_seq: Some(0),
                max_events: Some(if max_events == 0 { DEFAULT_MAX_EVENTS } else { max_events }),
                ..v
            },
        )
    }
}

/// Whether an admin-only check on `caller` fails.
pub open spec fn not_admin(v: ExplorerView, caller: Seq<u8>) -> bool {
    !v.is_admin(caller)
}

/// `transfer_admin`: the admin hands its rights to `new_admin`; frozen
/// while paused.
pub open spec fn transfer_admin_result(v: ExplorerView, caller: Seq<u8>, new_admin: Seq<u8>) -> Result<
    ExplorerView,
    Error,
> {
    if v.paused_now() {
        Err(Error::ContractPaused)
    } else if not_admin(v, caller) {
        Err(Error::Unauthorized)
    } else {
        Ok(ExplorerView { admin: Some(new_admin), ..v })
    }
}

/// `set_max_events`: the admin sets a capacity of at least the floor;
/// frozen while paused.
pub open spec fn set_max_events_result(v: ExplorerView, caller: Seq<u8>, new_max: u32) -> Result<
    ExplorerView,
    Error,
> {
    if v.paused_now() {
        Err(Error::ContractPaused)
    } else if not_admin(v, caller) {
        Err(Error::Unauthorized)
    } else if new_max < MIN_MAX_EVENTS {
        Err(Error::BelowFloor)
    } else {
        Ok(ExplorerView { max_events: Some(new_max), ..v })
    }
}

/// `pause` (`flag` true) and `unpause` (`flag` false): admin only.
pub open spec fn set_paused_result(v: ExplorerView, caller: Seq<u8>, flag: bool) -> Result<
    ExplorerView,
    Error,
> {
    if not_admin(v, caller) {
        Err(Error::Unauthorized)
    } else {
        Ok(ExplorerView { paused: Some(flag), ..v })
    }
}

/// The metadata stored at registration: ABI version 0, written at `ledger`.
pub open spec fn registered_meta(meta: ContractMetaView, ledger: u32) -> ContractMetaView {
    ContractMetaView { abi_version: 0, min_ledger: ledger, ..meta }
}

/// `register_contract`: the admin registers a new contract id; the latest
/// entry and the version-0 history entry both get the registered metadata.
pub open spec fn register_result(
    v: ExplorerView,
    caller: Seq<u8>,
    id: Seq<u8>,
    meta: ContractMetaView,
    ledger: u32,
) -> Result<ExplorerView, Error> {
    if v.paused_now() {
        Err(Error::ContractPaused)
    } else if not_admin(v, caller) {
        Err(Error::Unauthorized)
    } else if v.contracts.contains_key(id) {
        Err(Error::AlreadyExists)
    } else {
        let stored = registered_meta(meta, ledger);
        Ok(
            ExplorerView {
                contracts: v.contracts.insert(id, stored),
                versions: v.versions.insert((id, 0u32), stored),
                ..v
            },
        )
    }
}

/// The events `register_contract` publishes on success.
pub open spec fn register_events(id: Seq<u8>, meta: ContractMetaView, ledger: u32) -> Seq<
    ContractEventView,
> {
    seq![
        ContractEventView::ContractRegistered {
            contract_id: id,
            registered_by: meta.registered_by,
            version: meta.version,
            ledger,
        },
        ContractEventView::Registered { contract_id: id, name: meta.name },
    ]
}

/// Whether `caller` may change the registered entry of `id`: its registrant
/// or the admin.
pub open spec fn may_manage(v: ExplorerView, caller: Seq<u8>, id: Seq<u8>) -> bool {
    caller == v.contracts[id].registered_by || v.is_admin(caller)
}

/// `update_contract`: the registrant or the admin writes the next ABI
/// version, which must be exactly one more than the current one.
pub open spec fn update_result(
    v: ExplorerView,
    caller: Seq<u8>,
    id: Seq<u8>,
    meta: ContractMetaView,
    ledger: u32,
) -> Result<ExplorerView, Error> {
    if v.paused_now() {
        Err(Error::ContractPaused)
    } else if !v.contracts.contains_key(id) {
        Err(Error::NotFound)
    } else if !may_manage(v, caller, id) {
        Err(Error::Unauthorized)
    } else if meta.abi_version != v.contracts[id].abi_version + 1 {
        Err(Error::Unauthorized)
    } else {
        let updated = ContractMetaView { min_ledger: ledger, ..meta };
        Ok(
            ExplorerView {
                contracts: v.contracts.insert(id, updated),
                versions: v.versions.insert((id, meta.abi_version), updated),
                ..v
            },
        )
    }
}

/// The events `update_contract` publishes on success.
pub open spec fn update_events(
    v: ExplorerView,
    caller: Seq<u8>,
    id: Seq<u8>,
    meta: ContractMetaView,
    ledger: u32,
) -> Seq<ContractEventView> {
    seq![
        ContractEventView::AbiUpdated {
            contract_id: id,
            old_abi_version: v.contracts[id].abi_version,
            new_abi_version: meta.abi_version,
            min_ledger: ledger,
        },
        ContractEventView::ContractUpdated {
            contract_id: id,
            caller,
            old_version: v.contracts[id].version,
            new_version: meta.version,
            ledger,
        },
    ]
}

/// Whether `update_contract` reaches its checks without a run-time fault:
/// the admin entry exists when it is read, and the next ABI version fits.
pub open spec fn update_defined(v: ExplorerView, caller: Seq<u8>, id: Seq<u8>) -> bool {
    v.paused_now() || !v.contracts.contains_key(id) || (v.admin is Some && (!may_manage(v, caller, id)
        || v.contracts[id].abi_version < u32::MAX))
}

/// `deregister_contract`: the registrant or the admin removes the latest
/// entry; the version history stays.
pub open spec fn deregister_result(v: ExplorerView, caller: Seq<u8>, id: Seq<u8>) -> Result<
    ExplorerView,
    Error,
> {
    if v.paused_now() {
        Err(Error::ContractPaused)
    } else if !v.contracts.contains_key(id) {
        Err(Error::NotFound)
    } else if !may_manage(v, caller, id) {
        Err(Error::Unauthorized)
    } else {
        Ok(ExplorerView { contracts: v.contracts.remove(id), ..v })
    }
}

/// The decoded event stored for a submission with sequence number `seq`.
pub open spec fn decoded_event(seq: u64, input: EventInputView) -> DecodedEventView {
    DecodedEventView {
        seq,
        contract_id: input.contract_id,
        function: input.function,
        ledger: input.ledger,
        description: input.description,
        raw_topics: input.raw_topics,
        raw_data: input.raw_data,
    }
}

/// `submit_event`: the admin appends an event with a nonempty function
/// name; it takes the next sequence number and overwrites the slot of the
/// event `capacity` submissions older.
pub open spec fn submit_result(v: ExplorerView, caller: Seq<u8>, input: EventInputView) -> Result<
    ExplorerView,
    Error,
> {
    if input.function.len() == 0 {
        Err(Error::InvalidInput)
    } else if v.paused_now() {
        Err(Error::ContractPaused)
    } else if not_admin(v, caller) {
        Err(Error::Unauthorized)
    } else {
        let seq = v.total();
        Ok(
            ExplorerView {
                event_log: v.event_log.insert(v.slot(seq as int) as u64, decoded_event(seq, input)),
                event_seq: Some((seq + 1) as u64),
                ..v
            },
        )
    }
}

/// The events `submit_event` publishes on success; `cap_hit` only when an
/// older event is evicted.
pub open spec fn submit_events(v: ExplorerView, input: EventInputView) -> Seq<ContractEventView> {
    let seq = v.total();
    let first = ContractEventView::EventSubmitted {
        contract_id: input.contract_id,
        function: input.function,
        seq,
        ledger: input.ledger,
    };
    let last = ContractEventView::Decoded {
        contract_id: input.contract_id,
        function: input.function,
        description: input.description,
    };
    if seq >= v.capacity() {
        seq![
            first,
            ContractEventView::CapacityHit { evicted_seq: (seq - v.capacity()) as u64, seq },
            last,
        ]
    } else {
        seq![first, last]
    }
}

/// Whether `submit_event` reaches its checks without a run-time fault.
pub open spec fn submit_defined(v: ExplorerView, caller: Seq<u8>, input: EventInputView) -> bool {
    input.function.len() == 0 || v.paused_now() || (v.admin is Some && (not_admin(v, caller)
        || v.total() < u64::MAX))
}

/// `get_contract`: the latest metadata of `id`, or `NotFound`.
pub open spec fn contract_lookup(v: ExplorerView, id: Seq<u8>) -> Result<ContractMetaView, Error> {
    if v.contracts.contains_key(id) {
        Ok(v.contracts[id])
    } else {
        Err(Error::NotFound)
    }
}

/// `get_latest_contract`: the latest metadata of `id`, if registered.
pub open spec fn latest_lookup(v: ExplorerView, id: Seq<u8>) -> Option<ContractMetaView> {
    if v.contracts.contains_key(id) {
        Some(v.contracts[id])
    } else {
        None
    }
}

/// `get_contract_version`: the metadata of `id` at ABI version `k`, if recorded.
pub open spec fn version_lookup(v: ExplorerView, id: Seq<u8>, k: u32) -> Option<ContractMetaView> {
    if v.versions.contains_key((id, k)) {
        Some(v.versions[(id, k)])
    } else {
        None
    }
}

/// `get_event`: the event with sequence number `q`, if its slot still holds it.
pub open spec fn event_lookup(v: ExplorerView, q: u64) -> Result<DecodedEventView, Error> {
    if v.holds(q as int) {
        Ok(v.event_log[v.slot(q as int) as u64])
    } else {
        Err(Error::NotFound)
    }
}

/// The events whose slots still hold them, for sequence numbers in
/// `[lo, hi)`, in order.
pub open spec fn live_events(v: ExplorerView, lo: int, hi: int) -> Seq<DecodedEventView>
    decreases hi - lo,
{
    if hi <= lo {
        Seq::empty()
    } else {
        let before = live_events(v, lo, hi - 1);
        if v.holds(hi - 1) {
            before.push(v.event_log[v.slot(hi - 1) as u64])
        } else {
            before
        }
    }
}

/// Where `get_events` starts: the cursor, or the ring window's start if later.
pub open spec fn page_start(v: ExplorerView, cursor: u64) -> u64 {
    if cursor >= v.oldest() {
        cursor
    } else {
        v.oldest()
    }
}

/// `get_events`: the first `limit` live events from the page start on.
pub open spec fn events_page(v: ExplorerView, cursor: u64, limit: u32) -> Seq<DecodedEventView> {
    let all = live_events(v, page_start(v, cursor) as int, v.total() as int);
    if all.len() <= limit {
        all
    } else {
        all.take(limit as int)
    }
}

} // verus!
