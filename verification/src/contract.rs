//! The explorer contract: its storage and its operations.
//!
//! Every operation is a transition of the storage model in `model.rs`.
//! Callers are identified by address; checking that a caller has signed the
//! call is the host's part and happens before an operation runs. The ledger
//! sequence number is likewise read from the host and passed in. A failing
//! operation leaves the storage unchanged and publishes nothing.

use vstd::prelude::*;

use crate::events::{ContractEvent, events_view};
use crate::model::{
    ExplorerView, contract_lookup, decoded_event, deregister_result, event_lookup, events_page, init_result,
    latest_lookup, live_events, page_start, register_events, register_result, registered_meta, set_max_events_result,
    set_paused_result, submit_defined, submit_events, submit_result, transfer_admin_result,
    update_defined, update_events, update_result, version_lookup,
};
use crate::table::Table;
use crate::types::{
    Address, ContractMeta, DecodedEvent, DEFAULT_MAX_EVENTS, Error, EventInput, MIN_MAX_EVENTS,
    VersionKey,
};

verus! {

/// The explorer contract's storage.
pub struct ExplorerContract {
    admin: Option<Address>,
    event_seq: Option<u64>,
    max_events: Option<u32>,
    paused: Option<bool>,
    contracts: Table<[u8; 32], ContractMeta>,
    versions: Table<VersionKey, ContractMeta>,
    event_log: Table<u64, DecodedEvent>,
}

/// The view of an optional address.
pub open spec fn opt_address_view(a: Option<Address>) -> Option<Seq<u8>> {
    match a {
        Some(x) => Some(x@),
        None => None,
    }
}

/// Whether a mutating operation's result agrees with the model: on success
/// the storage is the model's next state and the published events are the
/// model's; on failure the error is the model's and the storage unchanged.
pub open spec fn applied(
    r: Result<Vec<ContractEvent>, Error>,
    before: ExplorerView,
    after: ExplorerView,
    outcome: Result<ExplorerView, Error>,
    published: Seq<crate::events::ContractEventView>,
) -> bool {
    match outcome {
        Ok(next) => r matches Ok(evs) && after == next && events_view(evs@) == published,
        Err(e) => r matches Err(e2) && e2 == e && after == before,
    }
}

/// As `applied`, for operations that publish nothing.
pub open spec fn applied_quietly(
    r: Result<(), Error>,
    before: ExplorerView,
    after: ExplorerView,
    outcome: Result<ExplorerView, Error>,
) -> bool {
    match outcome {
        Ok(next) => r is Ok && after == next,
        Err(e) => r matches Err(e2) && e2 == e && after == before,
    }
}

impl View for ExplorerContract {
    type V = ExplorerView;

    closed spec fn view(&self) -> ExplorerView {
        ExplorerView {
            admin: opt_address_view(self.admin),
            event_seq: self.event_seq,
            max_events: self.max_events,
            paused: self.paused,
            contracts: self.contracts.view(),
            versions: self.versions.view(),
            event_log: self.event_log.view(),
        }
    }
}

impl ExplorerContract {
    /// The storage's internal consistency.
    pub closed spec fn wf(&self) -> bool {
        &&& self.contracts.wf()
        &&& self.versions.wf()
        &&& self.event_log.wf()
        &&& self@.wf()
    }

    /// A freshly deployed contract: empty storage.
    pub fn new() -> (c: ExplorerContract)
        ensures
            c.wf(),
            c@ == ExplorerView::empty(),
    {
        ExplorerContract {
            admin: None,
            event_seq: None,
            max_events: None,
            paused: None,
            contracts: Table::new(),
            versions: Table::new(),
            event_log: Table::new(),
        }
    }

    fn stored_total(&self) -> (r: u64)
        ensures
            r == self@.total(),
    {
        match self.event_seq {
            Some(s) => s,
            None => 0,
        }
    }

    fn stored_capacity(&self) -> (r: u32)
        ensures
            r == self@.capacity(),
    {
        match self.max_events {
            Some(m) => m,
            None => DEFAULT_MAX_EVENTS,
        }
    }

    fn caller_is_admin(&self, caller: &Address) -> (r: bool)
        ensures
            r == self@.is_admin(caller@),
    {
        match &self.admin {
            Some(a) => a.same(caller),
            None => false,
        }
    }

    // ── Admin ────────────────────────────────────────────────────────────

    /// Initialises the explorer and configures the event ring buffer.
    /// Fails with `AlreadyExists` if an admin is already set.
    /// `max_events = 0` selects the default capacity.
    pub fn init(&mut self, admin: Address, max_events: u32) -> (r: Result<(), Error>)
        requires
            old(self).wf(),
        ensures
            final(self).wf(),
            applied_quietly(r, old(self)@, final(self)@, init_result(old(self)@, admin@, max_events)),
    {
        if self.admin.is_some() {
            return Err(Error::AlreadyExists);
        }
        let cap = if max_events == 0 {
            DEFAULT_MAX_EVENTS
        } else {
            max_events
        };
        self.admin = Some(admin);
        self.event_seq = Some(0);
        self.max_events = Some(cap);
        Ok(())
    }

    /// Transfers admin rights to a new address (current admin only; fails
    /// with `ContractPaused` while paused).
    pub fn transfer_admin(&mut self, caller: &Address, new_admin: Address) -> (r: Result<
        Vec<ContractEvent>,
        Error,
    >)
        requires
            old(self).wf(),
            old(self)@.paused_now() || old(self)@.admin is Some,
        ensures
            final(self).wf(),
            applied(
                r,
                old(self)@,
                final(self)@,
                transfer_admin_result(old(self)@, caller@, new_admin@),
                seq![
                    crate::events::ContractEventView::AdminTransferred {
                        caller: caller@,
                        new_admin: new_admin@,
                    },
                ],
            ),
    {
        if self.is_paused() {
            return Err(Error::ContractPaused);
        }
        if !self.caller_is_admin(caller) {
            return Err(Error::Unauthorized);
        }
        let event = ContractEvent::AdminTransferred {
            caller: caller.duplicate(),
            new_admin: new_admin.duplicate(),
        };
        self.admin = Some(new_admin);
        let mut out: Vec<ContractEvent> = Vec::new();
        out.push(event);
        assert(events_view(out@) =~= seq![
            crate::events::ContractEventView::AdminTransferred {
                caller: caller@,
                new_admin: new_admin@,
            },
        ]);
        Ok(out)
    }

    /// Updates the ring-buffer capacity (admin only); fails with `BelowFloor`
    /// below `MIN_MAX_EVENTS`, and with `ContractPaused` while paused.
    pub fn set_max_events(&mut self, caller: &Address, new_max: u32) -> (r: Result<(), Error>)
        requires
            old(self).wf(),
            old(self)@.paused_now() || old(self)@.admin is Some,
        ensures
            final(self).wf(),
            applied_quietly(
                r,
                old(self)@,
                final(self)@,
                set_max_events_result(old(self)@, caller@, new_max),
            ),
    {
        if self.is_paused() {
            return Err(Error::ContractPaused);
        }
        if !self.caller_is_admin(caller) {
            return Err(Error::Unauthorized);
        }
        if new_max < MIN_MAX_EVENTS {
            return Err(Error::BelowFloor);
        }
        self.max_events = Some(new_max);
        Ok(())
    }

    /// Returns `(current_event_count, max_events)`.
    pub fn storage_utilisation(&self) -> (r: (u64, u32))
        ensures
            r == (self@.retained(), self@.capacity()),
            r.0 <= r.1,
    {
        (self.event_count(), self.stored_capacity())
    }

    // ── Pause / unpause ──────────────────────────────────────────────────

    /// Freezes all state-mutating operations (admin only).
    pub fn pause(&mut self, caller: &Address) -> (r: Result<Vec<ContractEvent>, Error>)
        requires
            old(self).wf(),
            old(self)@.admin is Some,
        ensures
            final(self).wf(),
            applied(
                r,
                old(self)@,
                final(self)@,
                set_paused_result(old(self)@, caller@, true),
                seq![crate::events::ContractEventView::Paused],
            ),
    {
        if !self.caller_is_admin(caller) {
            return Err(Error::Unauthorized);
        }
        self.paused = Some(true);
        let mut out: Vec<ContractEvent> = Vec::new();
        out.push(ContractEvent::Paused);
        assert(events_view(out@) =~= seq![crate::events::ContractEventView::Paused]);
        Ok(out)
    }

    /// Unfreezes the contract (admin only).
    pub fn unpause(&mut self, caller: &Address) -> (r: Result<Vec<ContractEvent>, Error>)
        requires
            old(self).wf(),
            old(self)@.admin is Some,
        ensures
            final(self).wf(),
            applied(
                r,
                old(self)@,
                final(self)@,
                set_paused_result(old(self)@, caller@, false),
                seq![crate::events::ContractEventView::Unpaused],
            ),
    {
        if !self.caller_is_admin(caller) {
            return Err(Error::Unauthorized);
        }
        self.paused = Some(false);
        let mut out: Vec<ContractEvent> = Vec::new();
        out.push(ContractEvent::Unpaused);
        assert(events_view(out@) =~= seq![crate::events::ContractEventView::Unpaused]);
        Ok(out)
    }

    /// Returns whether the contract is currently paused.
    pub fn is_paused(&self) -> (r: bool)
        ensures
            r == self@.paused_now(),
    {
        match self.paused {
            Some(p) => p,
            None => false,
        }
    }

    // ── Contract registry ────────────────────────────────────────────────

    /// Registers ABI metadata for a contract (admin only). Fails with
    /// `AlreadyExists` if the id is registered. The stored metadata gets
    /// ABI version 0 and `ledger` as its first ledger, and is also kept as
    /// the version-0 history entry.
    pub fn register_contract(
        &mut self,
        caller: &Address,
        contract_id: [u8; 32],
        meta: ContractMeta,
        ledger: u32,
    ) -> (r: Result<Vec<ContractEvent>, Error>)
        requires
            old(self).wf(),
            old(self)@.paused_now() || old(self)@.admin is Some,
        ensures
            final(self).wf(),
            applied(
                r,
                old(self)@,
                final(self)@,
                register_result(old(self)@, caller@, contract_id@, meta@, ledger),
                register_events(contract_id@, meta@, ledger),
            ),
    {
        if self.is_paused() {
            return Err(Error::ContractPaused);
        }
        if !self.caller_is_admin(caller) {
            return Err(Error::Unauthorized);
        }
        if self.contracts.contains(&contract_id) {
            return Err(Error::AlreadyExists);
        }
        let mut stored = meta;
        stored.abi_version = 0;
        stored.min_ledger = ledger;
        assert(stored@ == registered_meta(meta@, ledger));
        let history = stored.duplicate();
        let mut out: Vec<ContractEvent> = Vec::new();
        out.push(
            ContractEvent::ContractRegistered {
                contract_id,
                registered_by: stored.registered_by.duplicate(),
                version: stored.version,
                ledger,
            },
        );
        out.push(
            ContractEvent::Registered {
                contract_id,
                name: crate::types::copy_string(&stored.name),
            },
        );
        self.contracts.insert(contract_id, stored);
        self.versions.insert(VersionKey { contract_id, abi_version: 0 }, history);
        assert(events_view(out@) =~= register_events(contract_id@, meta@, ledger));
        assert(self@ =~= register_result(old(self)@, caller@, contract_id@, meta@, ledger).unwrap());
        Ok(out)
    }

    /// Updates registered metadata. The caller must be the registrant or the
    /// admin, and `meta.abi_version` must be the current ABI version plus
    /// one (`Unauthorized` otherwise). The new metadata, stamped with
    /// `ledger`, becomes the latest entry and the history entry of its
    /// ABI version.
    pub fn update_contract(
        &mut self,
        caller: &Address,
        contract_id: [u8; 32],
        meta: ContractMeta,
        ledger: u32,
    ) -> (r: Result<Vec<ContractEvent>, Error>)
        requires
            old(self).wf(),
            update_defined(old(self)@, caller@, contract_id@),
        ensures
            final(self).wf(),
            applied(
                r,
                old(self)@,
                final(self)@,
                update_result(old(self)@, caller@, contract_id@, meta@, ledger),
                update_events(old(self)@, caller@, contract_id@, meta@, ledger),
            ),
    {
        if self.is_paused() {
            return Err(Error::ContractPaused);
        }
        let (allowed, old_abi_version, old_version) = match self.contracts.get(&contract_id) {
            None => {
                return Err(Error::NotFound);
            },
            Some(existing) => {
                let by_registrant = caller.same(&existing.registered_by);
                let by_admin = self.caller_is_admin(caller);
                (by_registrant || by_admin, existing.abi_version, existing.version)
            },
        };
        if !allowed {
            return Err(Error::Unauthorized);
        }
        let expected = old_abi_version + 1;
        if meta.abi_version != expected {
            return Err(Error::Unauthorized);
        }
        let new_abi_version = meta.abi_version;
        let new_version = meta.version;
        let mut updated = meta;
        updated.min_ledger = ledger;
        let history = updated.duplicate();
        let mut out: Vec<ContractEvent> = Vec::new();
        out.push(
            ContractEvent::AbiUpdated {
                contract_id,
                old_abi_version,
                new_abi_version,
                min_ledger: ledger,
            },
        );
        out.push(
            ContractEvent::ContractUpdated {
                contract_id,
                caller: caller.duplicate(),
                old_version,
                new_version,
                ledger,
            },
        );
        self.contracts.insert(contract_id, updated);
        self.versions.insert(VersionKey { contract_id, abi_version: new_abi_version }, history);
        assert(events_view(out@) =~= update_events(old(self)@, caller@, contract_id@, meta@, ledger));
        assert(self@ =~= update_result(old(self)@, caller@, contract_id@, meta@, ledger).unwrap());
        Ok(out)
    }

    /// The latest metadata of a contract; `NotFound` if it is not registered.
    pub fn get_contract(&self, contract_id: [u8; 32]) -> (r: Result<ContractMeta, Error>)
        requires
            self.wf(),
        ensures
            match contract_lookup(self@, contract_id@) {
                Ok(m) => r matches Ok(got) && got@ == m,
                Err(e) => r matches Err(e2) && e2 == e,
            },
    {
        match self.contracts.get_copy(&contract_id) {
            Some(m) => Ok(m),
            None => Err(Error::NotFound),
        }
    }

    /// The metadata a contract had at a given ABI version, if recorded.
    pub fn get_contract_version(&self, contract_id: [u8; 32], abi_version: u32) -> (r: Option<
        ContractMeta,
    >)
        requires
            self.wf(),
        ensures
            match version_lookup(self@, contract_id@, abi_version) {
                Some(m) => r matches Some(got) && got@ == m,
                None => r is None,
            },
    {
        self.versions.get_copy(&VersionKey { contract_id, abi_version })
    }

    /// The latest metadata of a contract, if registered.
    pub fn get_latest_contract(&self, contract_id: [u8; 32]) -> (r: Option<ContractMeta>)
        requires
            self.wf(),
        ensures
            match latest_lookup(self@, contract_id@) {
                Some(m) => r matches Some(got) && got@ == m,
                None => r is None,
            },
    {
        self.contracts.get_copy(&contract_id)
    }

    /// Deregisters a contract (registrant or admin). Only the latest entry
    /// is removed; the version history is kept.
    pub fn deregister_contract(&mut self, caller: &Address, contract_id: [u8; 32], ledger: u32) -> (r:
        Result<Vec<ContractEvent>, Error>)
        requires
            old(self).wf(),
            old(self)@.paused_now() || !old(self)@.contracts.contains_key(contract_id@)
                || old(self)@.admin is Some,
        ensures
            final(self).wf(),
            applied(
                r,
                old(self)@,
                final(self)@,
                deregister_result(old(self)@, caller@, contract_id@),
                seq![
                    crate::events::ContractEventView::ContractDeregistered {
                        contract_id: contract_id@,
                        caller: caller@,
                        ledger,
                    },
                ],
            ),
    {
        if self.is_paused() {
            return Err(Error::ContractPaused);
        }
        let allowed = match self.contracts.get(&contract_id) {
            None => {
                return Err(Error::NotFound);
            },
            Some(existing) => {
                let by_registrant = caller.same(&existing.registered_by);
                let by_admin = self.caller_is_admin(caller);
                by_registrant || by_admin
            },
        };
        if !allowed {
            return Err(Error::Unauthorized);
        }
        self.contracts.remove(&contract_id);
        let mut out: Vec<ContractEvent> = Vec::new();
        out.push(
            ContractEvent::ContractDeregistered { contract_id, caller: caller.duplicate(), ledger },
        );
        assert(events_view(out@) =~= seq![
            crate::events::ContractEventView::ContractDeregistered {
                contract_id: contract_id@,
                caller: caller@,
                ledger,
            },
        ]);
        assert(self@ =~= deregister_result(old(self)@, caller@, contract_id@).unwrap());
        Ok(out)
    }

    // ── Event log ────────────────────────────────────────────────────────

    /// Submits a decoded event to the ring buffer (admin only; the function
    /// name must be nonempty). The event takes the next sequence number and
    /// replaces whatever its slot held.
    pub fn submit_event(&mut self, caller: &Address, input: EventInput) -> (r: Result<
        Vec<ContractEvent>,
        Error,
    >)
        requires
            old(self).wf(),
            submit_defined(old(self)@, caller@, input@),
        ensures
            final(self).wf(),
            applied(
                r,
                old(self)@,
                final(self)@,
                submit_result(old(self)@, caller@, input@),
                submit_events(old(self)@, input@),
            ),
    {
        if input.function.as_str().is_empty() {
            return Err(Error::InvalidInput);
        }
        if self.is_paused() {
            return Err(Error::ContractPaused);
        }
        if !self.caller_is_admin(caller) {
            return Err(Error::Unauthorized);
        }
        let seq = self.stored_total();
        let max = self.stored_capacity();
        let slot = seq % (max as u64);
        let evicting = seq >= max as u64;
        let mut out: Vec<ContractEvent> = Vec::new();
        out.push(
            ContractEvent::EventSubmitted {
                contract_id: input.contract_id,
                function: crate::types::copy_string(&input.function),
                seq,
                ledger: input.ledger,
            },
        );
        if evicting {
            out.push(ContractEvent::CapacityHit { evicted_seq: seq - max as u64, seq });
        }
        out.push(
            ContractEvent::Decoded {
                contract_id: input.contract_id,
                function: crate::types::copy_string(&input.function),
                description: crate::types::copy_string(&input.description),
            },
        );
        let event = DecodedEvent {
            seq,
            contract_id: input.contract_id,
            function: input.function,
            ledger: input.ledger,
            description: input.description,
            raw_topics: input.raw_topics,
            raw_data: input.raw_data,
        };
        assert(event@ == decoded_event(seq, input@));
        self.event_log.insert(slot, event);
        self.event_seq = Some(seq + 1);
        assert(events_view(out@) =~= submit_events(old(self)@, input@));
        assert(self@ =~= submit_result(old(self)@, caller@, input@).unwrap());
        Ok(out)
    }

    /// The event with sequence number `seq`; `NotFound` unless its slot
    /// still holds it.
    pub fn get_event(&self, seq: u64) -> (r: Result<DecodedEvent, Error>)
        requires
            self.wf(),
        ensures
            match event_lookup(self@, seq) {
                Ok(e) => r matches Ok(got) && got@ == e,
                Err(e) => r matches Err(e2) && e2 == e,
            },
    {
        let max = self.stored_capacity();
        let slot = seq % (max as u64);
        match self.event_log.get(&slot) {
            None => Err(Error::NotFound),
            Some(stored) => {
                if stored.seq != seq {
                    Err(Error::NotFound)
                } else {
                    Ok(stored.duplicate())
                }
            },
        }
    }

    /// The number of events currently retained (at most the capacity).
    pub fn event_count(&self) -> (r: u64)
        ensures
            r == self@.retained(),
            r <= self@.capacity(),
    {
        let seq = self.stored_total();
        let max = self.stored_capacity();
        if seq <= max as u64 {
            seq
        } else {
            max as u64
        }
    }

    /// A page of at most `limit` events from `cursor` on, skipping events
    /// that have left the ring buffer.
    pub fn get_events(&self, cursor: u64, limit: u32) -> (r: Vec<DecodedEvent>)
        requires
            self.wf(),
        ensures
            decoded_views(r@) == events_page(self@, cursor, limit),
    {
        let total = self.stored_total();
        let max = self.stored_capacity();
        let start = self.page_start_of(cursor);
        let ghost v = self@;
        let mut out: Vec<DecodedEvent> = Vec::new();
        let mut seq = start;
        while out.len() < limit as usize && seq < total
            invariant
                self.wf(),
                v == self@,
                total == v.total(),
                max == v.capacity(),
                start <= seq,
                seq <= total || seq == start,
                out@.len() <= limit,
                decoded_views(out@) == live_events(v, start as int, seq as int),
            decreases total - seq,
        {
            let slot = seq % (max as u64);
            let ghost before = decoded_views(out@);
            match self.event_log.get(&slot) {
                Some(ev) => {
                    if ev.seq == seq {
                        out.push(ev.duplicate());
                    }
                },
                None => {},
            }
            assert(decoded_views(out@) =~= live_events(v, start as int, seq + 1));
            seq = seq + 1;
        }
        proof {
            let all = live_events(v, start as int, total as int);
            if seq >= total {
                if start > total {
                    assert(all =~= Seq::<crate::types::DecodedEventView>::empty());
                    assert(live_events(v, start as int, seq as int) =~= Seq::<crate::types::DecodedEventView>::empty());
                }
            } else {
                lemma_live_prefix(v, start as int, seq as int, total as int);
                assert(all.take(limit as int) =~= live_events(v, start as int, seq as int));
            }
        }
        out
    }

    // ── Storage access for a host that keeps the entries itself ──────────

    /// Storage holding the given scalar entries and no keyed entries.
    /// A stored capacity of 0 is never written by any operation.
    pub fn from_scalars(
        admin: Option<Address>,
        event_seq: Option<u64>,
        max_events: Option<u32>,
        paused: Option<bool>,
    ) -> (c: ExplorerContract)
        requires
            max_events != Some(0u32),
        ensures
            c.wf(),
            c@ == (ExplorerView {
                admin: opt_address_view(admin),
                event_seq,
                max_events,
                paused,
                ..ExplorerView::empty()
            }),
    {
        let c = ExplorerContract {
            admin,
            event_seq,
            max_events,
            paused,
            contracts: Table::new(),
            versions: Table::new(),
            event_log: Table::new(),
        };
        assert(c@ =~= (ExplorerView {
            admin: opt_address_view(admin),
            event_seq,
            max_events,
            paused,
            ..ExplorerView::empty()
        }));
        c
    }

    /// Puts a stored latest-metadata entry in place.
    pub fn load_contract(&mut self, contract_id: [u8; 32], meta: ContractMeta)
        requires
            old(self).wf(),
        ensures
            final(self).wf(),
            final(self)@ == (ExplorerView {
                contracts: old(self)@.contracts.insert(contract_id@, meta@),
                ..old(self)@
            }),
    {
        self.contracts.insert(contract_id, meta);
        assert(self@ =~= (ExplorerView {
            contracts: old(self)@.contracts.insert(contract_id@, meta@),
            ..old(self)@
        }));
    }

    /// Puts a stored version-history entry in place.
    pub fn load_version(&mut self, key: VersionKey, meta: ContractMeta)
        requires
            old(self).wf(),
        ensures
            final(self).wf(),
            final(self)@ == (ExplorerView {
                versions: old(self)@.versions.insert(key@, meta@),
                ..old(self)@
            }),
    {
        self.versions.insert(key, meta);
        assert(self@ =~= (ExplorerView {
            versions: old(self)@.versions.insert(key@, meta@),
            ..old(self)@
        }));
    }

    /// Puts a stored ring-buffer slot in place.
    pub fn load_event(&mut self, slot: u64, event: DecodedEvent)
        requires
            old(self).wf(),
        ensures
            final(self).wf(),
            final(self)@ == (ExplorerView {
                event_log: old(self)@.event_log.insert(slot, event@),
                ..old(self)@
            }),
    {
        self.event_log.insert(slot, event);
        assert(self@ =~= (ExplorerView {
            event_log: old(self)@.event_log.insert(slot, event@),
            ..old(self)@
        }));
    }

    /// The stored admin entry.
    pub fn stored_admin(&self) -> (r: Option<Address>)
        ensures
            opt_address_view(r) == self@.admin,
    {
        match &self.admin {
            Some(a) => Some(a.duplicate()),
            None => None,
        }
    }

    /// The stored sequence-counter entry.
    pub fn stored_event_seq(&self) -> (r: Option<u64>)
        ensures
            r == self@.event_seq,
    {
        self.event_seq
    }

    /// The stored capacity entry.
    pub fn stored_max_events(&self) -> (r: Option<u32>)
        ensures
            r == self@.max_events,
    {
        self.max_events
    }

    /// The stored pause entry.
    pub fn stored_paused(&self) -> (r: Option<bool>)
        ensures
            r == self@.paused,
    {
        self.paused
    }

    /// A copy of the event stored in a ring-buffer slot, if any.
    pub fn event_in_slot(&self, slot: u64) -> (r: Option<DecodedEvent>)
        requires
            self.wf(),
        ensures
            r is Some <==> self@.event_log.contains_key(slot),
            r matches Some(e) ==> e@ == self@.event_log[slot],
    {
        self.event_log.get_copy(&slot)
    }

    /// The ring-buffer slot of a sequence number.
    pub fn slot_of(&self, seq: u64) -> (r: u64)
        requires
            self.wf(),
        ensures
            r == self@.slot(seq as int),
            r < self@.capacity(),
    {
        let max = self.stored_capacity();
        seq % (max as u64)
    }

    /// Where a page starting at `cursor` begins: the cursor, or the oldest
    /// retained sequence number if that is later.
    pub fn page_start_of(&self, cursor: u64) -> (r: u64)
        ensures
            r == page_start(self@, cursor),
    {
        let total = self.stored_total();
        let max = self.stored_capacity();
        let oldest = if total >= max as u64 {
            total - max as u64
        } else {
            0
        };
        if cursor >= oldest {
            cursor
        } else {
            oldest
        }
    }
}

/// The views of a sequence of decoded events.
pub open spec fn decoded_views(s: Seq<DecodedEvent>) -> Seq<crate::types::DecodedEventView> {
    s.map_values(|e: DecodedEvent| e@)
}

/// The live events up to `m` are a prefix of those up to any later `hi`.
pub proof fn lemma_live_prefix(v: ExplorerView, lo: int, m: int, hi: int)
    requires
        lo <= m <= hi,
    ensures
        live_events(v, lo, m).len() <= live_events(v, lo, hi).len(),
        live_events(v, lo, hi).take(live_events(v, lo, m).len() as int) == live_events(v, lo, m),
    decreases hi - m,
{
    if m < hi {
        lemma_live_prefix(v, lo, m, hi - 1);
        let a = live_events(v, lo, m);
        let b = live_events(v, lo, hi - 1);
        let c = live_events(v, lo, hi);
        assert(c.take(a.len() as int) =~= b.take(a.len() as int));
    } else {
        assert(live_events(v, lo, hi).take(live_events(v, lo, hi).len() as int) =~= live_events(v, lo, hi));
    }
}

} // verus!
