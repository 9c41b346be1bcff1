//! Properties of the explorer that span several operations.

use vstd::prelude::*;

use crate::model::{
    ExplorerView, contract_lookup, decoded_event, deregister_result, event_lookup, events_page, init_result,
    latest_lookup, live_events, page_start, register_result, registered_meta, set_max_events_result,
    set_paused_result, submit_result, transfer_admin_result, update_result, version_lookup,
};
use crate::types::{ContractMetaView, DEFAULT_MAX_EVENTS, Error, EventInputView, MIN_MAX_EVENTS};

verus! {

/// Two numbers less than `m` apart, in either order, fall in different
/// residues modulo `m`.
proof fn lemma_distinct_residues(a: int, b: int, m: int)
    requires
        0 < m,
        0 < b - a < m,
    ensures
        a % m != b % m,
{
    vstd::arithmetic::div_mod::lemma_mod_equivalence(b, a, m);
    vstd::arithmetic::div_mod::lemma_small_mod((b - a) as nat, m as nat);
}

/// Any `m` consecutive numbers from `lo` on hit the residue of `q`.
proof fn lemma_window_hits_residue(q: int, lo: int, m: int) -> (w: int)
    requires
        0 < m,
    ensures
        lo <= w < lo + m,
        w % m == q % m,
{
    vstd::arithmetic::div_mod::lemma_add_mod_noop_right(lo, q - lo, m);
    vstd::arithmetic::div_mod::lemma_mod_bound(q - lo, m);
    lo + (q - lo) % m
}

/// Initialising fresh storage succeeds, selects the requested capacity
/// (the default for `0`), and leaves no event retained.
pub proof fn law_init_sets_capacity(v: ExplorerView, admin: Seq<u8>, max_events: u32)
    requires
        v.admin is None,
    ensures
        init_result(v, admin, max_events) is Ok,
        init_result(v, admin, max_events).unwrap().capacity() == (if max_events == 0 {
            DEFAULT_MAX_EVENTS
        } else {
            max_events
        }),
        init_result(v, admin, max_events).unwrap().retained() == 0,
        init_result(v, admin, max_events).unwrap().is_admin(admin),
{
}

/// Initialisation succeeds at most once: a second `init` is refused with
/// `AlreadyExists`.
pub proof fn law_init_once(v: ExplorerView, admin: Seq<u8>, max_events: u32, admin2: Seq<u8>, max2: u32)
    requires
        init_result(v, admin, max_events) is Ok,
    ensures
        init_result(init_result(v, admin, max_events).unwrap(), admin2, max2) == Err::<
            ExplorerView,
            Error,
        >(Error::AlreadyExists),
{
}

/// The retained event count never exceeds the capacity.
pub proof fn law_count_within_capacity(v: ExplorerView)
    ensures
        v.retained() <= v.capacity(),
{
}

/// Outside a pause, a capacity below the floor is refused with
/// `BelowFloor` for the admin; any other capacity is taken.
pub proof fn law_capacity_floor(v: ExplorerView, admin: Seq<u8>, new_max: u32)
    requires
        v.is_admin(admin),
        !v.paused_now(),
    ensures
        new_max < MIN_MAX_EVENTS ==> set_max_events_result(v, admin, new_max) == Err::<
            ExplorerView,
            Error,
        >(Error::BelowFloor),
        new_max >= MIN_MAX_EVENTS ==> set_max_events_result(v, admin, new_max) is Ok
            && set_max_events_result(v, admin, new_max).unwrap().capacity() == new_max,
{
}

/// After the admin hands over its rights, the new admin holds them and,
/// if it is a different address, the old admin has lost them: its event
/// submissions are refused while the new admin's are accepted.
pub proof fn law_transfer_admin_moves_rights(
    v: ExplorerView,
    old_admin: Seq<u8>,
    new_admin: Seq<u8>,
    input: EventInputView,
)
    requires
        v.is_admin(old_admin),
        !v.paused_now(),
        input.function.len() > 0,
    ensures
        transfer_admin_result(v, old_admin, new_admin) is Ok,
        ({
            let w = transfer_admin_result(v, old_admin, new_admin).unwrap();
            &&& w.is_admin(new_admin)
            &&& submit_result(w, new_admin, input) is Ok
            &&& old_admin != new_admin ==> submit_result(w, old_admin, input) == Err::<
                ExplorerView,
                Error,
            >(Error::Unauthorized)
        }),
{
}

/// Outside a pause, handing admin rights to the admin itself changes nothing.
pub proof fn law_transfer_admin_to_self(v: ExplorerView, admin: Seq<u8>)
    requires
        v.is_admin(admin),
        !v.paused_now(),
    ensures
        transfer_admin_result(v, admin, admin) == Ok::<ExplorerView, Error>(v),
{
}

/// While paused, every state-mutating operation but `unpause` (admin
/// transfer, capacity change, registry changes and well-formed
/// submissions) is refused with `ContractPaused`, whoever asks.
pub proof fn law_pause_freezes(
    v: ExplorerView,
    caller: Seq<u8>,
    who: Seq<u8>,
    new_max: u32,
    id: Seq<u8>,
    meta: ContractMetaView,
    ledger: u32,
    input: EventInputView,
)
    requires
        v.paused_now(),
        input.function.len() > 0,
    ensures
        transfer_admin_result(v, caller, who) == Err::<ExplorerView, Error>(Error::ContractPaused),
        set_max_events_result(v, caller, new_max) == Err::<ExplorerView, Error>(
            Error::ContractPaused,
        ),
        register_result(v, caller, id, meta, ledger) == Err::<ExplorerView, Error>(
            Error::ContractPaused,
        ),
        update_result(v, caller, id, meta, ledger) == Err::<ExplorerView, Error>(
            Error::ContractPaused,
        ),
        deregister_result(v, caller, id) == Err::<ExplorerView, Error>(Error::ContractPaused),
        submit_result(v, caller, input) == Err::<ExplorerView, Error>(Error::ContractPaused),
{
}

/// Pausing then unpausing (by the admin) restores the unpaused state.
pub proof fn law_unpause_undoes_pause(v: ExplorerView, admin: Seq<u8>)
    requires
        v.is_admin(admin),
    ensures
        set_paused_result(v, admin, true) is Ok,
        set_paused_result(v, admin, true).unwrap().paused_now(),
        set_paused_result(set_paused_result(v, admin, true).unwrap(), admin, false) is Ok,
        !set_paused_result(set_paused_result(v, admin, true).unwrap(), admin, false).unwrap().paused_now(),
{
}

/// `get_latest_contract` is `get_contract` with absence as `None`.
pub proof fn law_latest_aliases_get(v: ExplorerView, id: Seq<u8>)
    ensures
        latest_lookup(v, id) is Some <==> contract_lookup(v, id) is Ok,
        contract_lookup(v, id) matches Ok(m) ==> latest_lookup(v, id) == Some(m),
        contract_lookup(v, id) matches Err(e) ==> e == Error::NotFound,
{
}

/// An accepted update's history entry is the new latest entry, and the
/// other history entries are untouched.
pub proof fn law_history_tracks_latest(
    v: ExplorerView,
    caller: Seq<u8>,
    id: Seq<u8>,
    meta: ContractMetaView,
    ledger: u32,
)
    requires
        update_result(v, caller, id, meta, ledger) is Ok,
    ensures
        version_lookup(update_result(v, caller, id, meta, ledger).unwrap(), id, meta.abi_version)
            == latest_lookup(update_result(v, caller, id, meta, ledger).unwrap(), id),
        forall|k: u32|
            k != meta.abi_version ==> version_lookup(
                update_result(v, caller, id, meta, ledger).unwrap(),
                id,
                k,
            ) == version_lookup(v, id, k),
{
}

/// Every registered contract has a history entry for each ABI version from
/// 0 up to its latest one.
pub open spec fn history_complete(v: ExplorerView) -> bool {
    forall|id: Seq<u8>, k: u32|
        #![trigger v.contracts.contains_key(id), v.versions.contains_key((id, k))]
        v.contracts.contains_key(id) && k <= v.contracts[id].abi_version ==> v.versions.contains_key(
            (id, k),
        )
}

/// Every operation keeps the version history complete, so each ABI version
/// from 0 to the latest stays readable.
pub proof fn law_history_stays_complete(
    v: ExplorerView,
    caller: Seq<u8>,
    who: Seq<u8>,
    id: Seq<u8>,
    meta: ContractMetaView,
    ledger: u32,
    flag: bool,
    max_events: u32,
    input: EventInputView,
)
    requires
        history_complete(v),
    ensures
        history_complete(ExplorerView::empty()),
        init_result(v, who, max_events) matches Ok(w) ==> history_complete(w),
        transfer_admin_result(v, caller, who) matches Ok(w) ==> history_complete(w),
        set_max_events_result(v, caller, max_events) matches Ok(w) ==> history_complete(w),
        set_paused_result(v, caller, flag) matches Ok(w) ==> history_complete(w),
        register_result(v, caller, id, meta, ledger) matches Ok(w) ==> history_complete(w),
        update_result(v, caller, id, meta, ledger) matches Ok(w) ==> history_complete(w),
        deregister_result(v, caller, id) matches Ok(w) ==> history_complete(w),
        submit_result(v, caller, input) matches Ok(w) ==> history_complete(w),
{
    if let Ok(w) = register_result(v, caller, id, meta, ledger) {
        assert forall|id2: Seq<u8>, k: u32|
            w.contracts.contains_key(id2) && k <= w.contracts[id2].abi_version implies w.versions.contains_key(
            (id2, k),
        ) by {
            if id2 != id {
                assert(v.contracts.contains_key(id2));
                assert(v.versions.contains_key((id2, k)));
            }
        }
    }
    if let Ok(w) = update_result(v, caller, id, meta, ledger) {
        assert forall|id2: Seq<u8>, k: u32|
            w.contracts.contains_key(id2) && k <= w.contracts[id2].abi_version implies w.versions.contains_key(
            (id2, k),
        ) by {
            if id2 != id {
                assert(v.contracts.contains_key(id2));
                assert(v.versions.contains_key((id2, k)));
            } else if k != meta.abi_version {
                assert(v.contracts.contains_key(id));
                assert(v.versions.contains_key((id, k)));
            }
        }
    }
    if let Ok(w) = deregister_result(v, caller, id) {
        assert forall|id2: Seq<u8>, k: u32|
            w.contracts.contains_key(id2) && k <= w.contracts[id2].abi_version implies w.versions.contains_key(
            (id2, k),
        ) by {
            assert(v.contracts.contains_key(id2));
            assert(v.versions.contains_key((id2, k)));
        }
    }
}

/// A registered contract reads back with ABI version 0, its registration
/// ledger and otherwise the submitted metadata, both as latest entry and
/// as version-0 history; registering the same id again is refused.
pub proof fn law_register_then_read(
    v: ExplorerView,
    caller: Seq<u8>,
    id: Seq<u8>,
    meta: ContractMetaView,
    ledger: u32,
    meta2: ContractMetaView,
    ledger2: u32,
)
    requires
        register_result(v, caller, id, meta, ledger) is Ok,
    ensures
        ({
            let w = register_result(v, caller, id, meta, ledger).unwrap();
            &&& w.contracts.contains_key(id)
            &&& w.contracts[id] == registered_meta(meta, ledger)
            &&& w.contracts[id].abi_version == 0
            &&& w.contracts[id].name == meta.name
            &&& w.versions.contains_key((id, 0u32))
            &&& w.versions[(id, 0u32)] == registered_meta(meta, ledger)
            &&& register_result(w, caller, id, meta2, ledger2) == Err::<ExplorerView, Error>(
                Error::AlreadyExists,
            )
        }),
{
}

/// An accepted update raises the ABI version by exactly one, becomes the
/// latest entry and its version's history entry, and leaves every other
/// history entry as it was; replaying the same version is refused.
pub proof fn law_update_advances_version(
    v: ExplorerView,
    caller: Seq<u8>,
    id: Seq<u8>,
    meta: ContractMetaView,
    ledger: u32,
    ledger2: u32,
)
    requires
        update_result(v, caller, id, meta, ledger) is Ok,
    ensures
        ({
            let w = update_result(v, caller, id, meta, ledger).unwrap();
            &&& w.contracts[id].abi_version == v.contracts[id].abi_version + 1
            &&& w.contracts[id] == ContractMetaView { min_ledger: ledger, ..meta }
            &&& w.versions[(id, meta.abi_version)] == w.contracts[id]
            &&& forall|k: (Seq<u8>, u32)| k != (id, meta.abi_version) ==> w.versions.contains_key(k)
                == v.versions.contains_key(k) && w.versions[k] == v.versions[k]
            &&& update_result(w, caller, id, meta, ledger2) == Err::<ExplorerView, Error>(
                Error::Unauthorized,
            )
        }),
{
    let w = update_result(v, caller, id, meta, ledger).unwrap();
    assert(w.contracts[id].registered_by == meta.registered_by);
}

/// Deregistering removes the latest entry and keeps the whole version
/// history; the id then reads as not found.
pub proof fn law_deregister_keeps_history(v: ExplorerView, caller: Seq<u8>, id: Seq<u8>)
    requires
        deregister_result(v, caller, id) is Ok,
    ensures
        !deregister_result(v, caller, id).unwrap().contracts.contains_key(id),
        deregister_result(v, caller, id).unwrap().versions == v.versions,
        deregister_result(v, caller, id).unwrap().event_log == v.event_log,
{
}

/// A submitted event can be read back by its sequence number right away.
pub proof fn law_submit_then_get(v: ExplorerView, caller: Seq<u8>, input: EventInputView)
    requires
        v.wf(),
        v.total() < u64::MAX,
        submit_result(v, caller, input) is Ok,
    ensures
        event_lookup(submit_result(v, caller, input).unwrap(), v.total()) == Ok::<
            crate::types::DecodedEventView,
            Error,
        >(decoded_event(v.total(), input)),
        submit_result(v, caller, input).unwrap().total() == v.total() + 1,
{
}

/// Fresh storage, and storage right after `init` of fresh storage, keep
/// the ring buffer consistent.
pub proof fn law_ring_starts_consistent(admin: Seq<u8>, max_events: u32)
    ensures
        ExplorerView::empty().ring_consistent(),
        init_result(ExplorerView::empty(), admin, max_events).unwrap().ring_consistent(),
{
}

/// Submitting keeps the ring buffer consistent.
pub proof fn law_submit_keeps_ring(v: ExplorerView, caller: Seq<u8>, input: EventInputView)
    requires
        v.wf(),
        v.total() < u64::MAX,
        v.ring_consistent(),
        submit_result(v, caller, input) is Ok,
    ensures
        submit_result(v, caller, input).unwrap().ring_consistent(),
{
    let w = submit_result(v, caller, input).unwrap();
    let t = v.total() as int;
    let m = v.capacity() as int;
    assert(w.total() == t + 1);
    assert(w.capacity() == m);
    assert forall|q: int| w.oldest() <= q < w.total() implies #[trigger] w.holds(q) by {
        if q < t {
            assert(v.oldest() <= q);
            assert(v.holds(q));
            lemma_distinct_residues(q, t, m);
        }
    }
}

/// Operations other than submission, initialisation and capacity changes
/// leave the ring buffer as it was, so its consistency is kept.
pub proof fn law_registry_and_admin_keep_ring(
    v: ExplorerView,
    caller: Seq<u8>,
    who: Seq<u8>,
    id: Seq<u8>,
    meta: ContractMetaView,
    ledger: u32,
    flag: bool,
)
    requires
        v.ring_consistent(),
    ensures
        transfer_admin_result(v, caller, who) matches Ok(w) ==> w.ring_consistent(),
        set_paused_result(v, caller, flag) matches Ok(w) ==> w.ring_consistent(),
        register_result(v, caller, id, meta, ledger) matches Ok(w) ==> w.ring_consistent(),
        update_result(v, caller, id, meta, ledger) matches Ok(w) ==> w.ring_consistent(),
        deregister_result(v, caller, id) matches Ok(w) ==> w.ring_consistent(),
{
    if let Ok(w) = transfer_admin_result(v, caller, who) {
        lemma_same_ring(v, w);
    }
    if let Ok(w) = set_paused_result(v, caller, flag) {
        lemma_same_ring(v, w);
    }
    if let Ok(w) = register_result(v, caller, id, meta, ledger) {
        lemma_same_ring(v, w);
    }
    if let Ok(w) = update_result(v, caller, id, meta, ledger) {
        lemma_same_ring(v, w);
    }
    if let Ok(w) = deregister_result(v, caller, id) {
        lemma_same_ring(v, w);
    }
}

/// Two states with the same ring-buffer entries agree on its consistency.
proof fn lemma_same_ring(v: ExplorerView, w: ExplorerView)
    requires
        v.ring_consistent(),
        w.event_seq == v.event_seq,
        w.max_events == v.max_events,
        w.event_log == v.event_log,
    ensures
        w.ring_consistent(),
{
    assert forall|q: int| w.oldest() <= q < w.total() implies #[trigger] w.holds(q) by {
        assert(v.holds(q));
    }
}

/// Changing the capacity keeps the ring buffer consistent when no event
/// has been submitted yet or the capacity stays the same.
pub proof fn law_capacity_change_keeps_ring(v: ExplorerView, caller: Seq<u8>, new_max: u32)
    requires
        v.ring_consistent(),
        v.total() == 0 || new_max == v.capacity(),
    ensures
        set_max_events_result(v, caller, new_max) matches Ok(w) ==> w.ring_consistent(),
{
    if let Ok(w) = set_max_events_result(v, caller, new_max) {
        if new_max == v.capacity() {
            lemma_same_ring(v, ExplorerView { max_events: v.max_events, ..w });
            assert forall|q: int| w.oldest() <= q < w.total() implies #[trigger] w.holds(q) by {
                assert(v.holds(q));
            }
        } else {
            assert(w.total() == 0);
        }
    }
}

/// In a consistent ring buffer, `get_event(q)` succeeds exactly for the
/// sequence numbers of the live window `[oldest, total)`.
pub proof fn law_ring_window(v: ExplorerView, q: u64)
    requires
        v.wf(),
        v.ring_consistent(),
    ensures
        event_lookup(v, q) is Ok <==> v.oldest() <= q < v.total(),
{
    let m = v.capacity() as int;
    if event_lookup(v, q) is Ok {
        let s = v.slot(q as int);
        assert(v.event_log.contains_key(s as u64));
        if q < v.oldest() {
            let w = lemma_window_hits_residue(q as int, v.oldest() as int, m);
            assert(v.holds(w));
        }
    }
}

/// A lookup never returns an event other than the one asked for, whatever
/// the capacity history.
pub proof fn law_lookup_never_misreports(v: ExplorerView, q: u64)
    ensures
        event_lookup(v, q) matches Ok(e) ==> e.seq == q,
{
}

/// The live events of `[lo, hi)` have sequence numbers in that range, in
/// strictly increasing order.
proof fn lemma_live_sorted(v: ExplorerView, lo: int, hi: int)
    ensures
        forall|i: int|
            0 <= i < live_events(v, lo, hi).len() ==> lo <= #[trigger] live_events(v, lo, hi)[i].seq
                < hi,
        forall|i: int, j: int|
            0 <= i < j < live_events(v, lo, hi).len() ==> #[trigger] live_events(v, lo, hi)[i].seq
                < #[trigger] live_events(v, lo, hi)[j].seq,
    decreases hi - lo,
{
    if lo < hi {
        lemma_live_sorted(v, lo, hi - 1);
        let before = live_events(v, lo, hi - 1);
        let now = live_events(v, lo, hi);
        if v.holds(hi - 1) {
            assert(now == before.push(v.event_log[v.slot(hi - 1) as u64]));
            assert forall|i: int| 0 <= i < now.len() implies lo <= #[trigger] now[i].seq < hi by {
                if i < before.len() {
                    assert(now[i] == before[i]);
                }
            }
            assert forall|i: int, j: int| 0 <= i < j < now.len() implies #[trigger] now[i].seq
                < #[trigger] now[j].seq by {
                assert(now[i] == before[i]);
                if j < before.len() {
                    assert(now[j] == before[j]);
                }
            }
        }
    }
}

/// Whatever the capacity history, a page lists only events from its start
/// up to the newest, without repeats, oldest first.
pub proof fn law_page_sound(v: ExplorerView, cursor: u64, limit: u32)
    ensures
        ({
            let page = events_page(v, cursor, limit);
            &&& page.len() <= limit
            &&& forall|i: int|
                0 <= i < page.len() ==> page_start(v, cursor) <= #[trigger] page[i].seq < v.total()
            &&& forall|i: int, j: int|
                0 <= i < j < page.len() ==> #[trigger] page[i].seq < #[trigger] page[j].seq
        }),
{
    let start = page_start(v, cursor) as int;
    let all = live_events(v, start, v.total() as int);
    lemma_live_sorted(v, start, v.total() as int);
    let page = events_page(v, cursor, limit);
    assert forall|i: int| 0 <= i < page.len() implies page[i] == all[i] by {}
}

/// The live events of a fully held range are exactly its events, in order.
proof fn lemma_live_full(v: ExplorerView, lo: int, hi: int)
    requires
        lo <= hi,
        forall|q: int| lo <= q < hi ==> #[trigger] v.holds(q),
    ensures
        live_events(v, lo, hi).len() == hi - lo,
        forall|i: int| 0 <= i < hi - lo ==> #[trigger] live_events(v, lo, hi)[i].seq == lo + i,
        forall|i: int|
            0 <= i < hi - lo ==> #[trigger] live_events(v, lo, hi)[i] == v.event_log[v.slot(lo + i) as u64],
    decreases hi - lo,
{
    if lo < hi {
        lemma_live_full(v, lo, hi - 1);
        assert(v.holds(hi - 1));
        let before = live_events(v, lo, hi - 1);
        let now = live_events(v, lo, hi);
        assert forall|i: int| 0 <= i < hi - lo implies #[trigger] now[i] == v.event_log[v.slot(lo + i) as u64] by {
            if i < hi - 1 - lo {
                assert(now[i] == before[i]);
            }
        }
    }
}

/// In a consistent ring buffer, a page holds consecutive events: as many
/// as the limit allows up to the newest, starting at the later of the
/// cursor and the oldest retained event, each the one its slot stores.
pub proof fn law_page_is_consecutive(v: ExplorerView, cursor: u64, limit: u32)
    requires
        v.wf(),
        v.ring_consistent(),
    ensures
        ({
            let start = page_start(v, cursor) as int;
            let page = events_page(v, cursor, limit);
            let avail = if start < v.total() {
                v.total() - start
            } else {
                0
            };
            &&& page.len() == if avail <= limit {
                avail
            } else {
                limit as int
            }
            &&& forall|i: int| 0 <= i < page.len() ==> #[trigger] page[i].seq == start + i
            &&& forall|i: int|
                0 <= i < page.len() ==> #[trigger] page[i] == v.event_log[v.slot(start + i) as u64]
        }),
{
    let start = page_start(v, cursor) as int;
    let t = v.total() as int;
    if start < t {
        assert forall|q: int| start <= q < t implies #[trigger] v.holds(q) by {}
        lemma_live_full(v, start, t);
    }
}

/// In a consistent ring buffer, paging on from just after the last event of
/// a nonempty page gives the rest of the double-size page: cursor paging
/// neither skips nor repeats live events.
pub proof fn law_pages_join(v: ExplorerView, cursor: u64, limit: u32)
    requires
        v.wf(),
        v.ring_consistent(),
        2 * limit <= u32::MAX,
        events_page(v, cursor, limit).len() > 0,
    ensures
        ({
            let first = events_page(v, cursor, limit);
            let next = (first.last().seq + 1) as u64;
            first + events_page(v, next, limit) == events_page(v, cursor, (2 * limit) as u32)
        }),
{
    let first = events_page(v, cursor, limit);
    let start = page_start(v, cursor) as int;
    let t = v.total() as int;
    law_page_is_consecutive(v, cursor, limit);
    let n1 = first.len() as int;
    assert(start < t);
    assert(first.last().seq == start + n1 - 1);
    let next = (first.last().seq + 1) as u64;
    assert(next == start + n1);
    assert(page_start(v, next) == next);
    law_page_is_consecutive(v, next, limit);
    let double = (2 * limit) as u32;
    law_page_is_consecutive(v, cursor, double);
    let second = events_page(v, next, limit);
    let whole = events_page(v, cursor, double);
    assert(whole.len() == n1 + second.len());
    assert forall|i: int| 0 <= i < whole.len() implies #[trigger] (first + second)[i] == whole[i] by {
        if i < n1 {
            assert(first[i] == v.event_log[v.slot(start + i) as u64]);
        } else {
            assert(second[i - n1] == v.event_log[v.slot(next + (i - n1)) as u64]);
        }
        assert(whole[i] == v.event_log[v.slot(start + i) as u64]);
    }
    assert(first + second =~= whole);
}

/// In a consistent ring buffer, a submission changes no other event that
/// stays in the window: a later lookup of it returns exactly what it
/// returned before.
pub proof fn law_submit_keeps_other_events(
    v: ExplorerView,
    caller: Seq<u8>,
    input: EventInputView,
    q: u64,
)
    requires
        v.wf(),
        v.total() < u64::MAX,
        v.ring_consistent(),
        submit_result(v, caller, input) is Ok,
        q != v.total(),
        submit_result(v, caller, input).unwrap().oldest() <= q,
    ensures
        event_lookup(submit_result(v, caller, input).unwrap(), q) == event_lookup(v, q),
{
    let w = submit_result(v, caller, input).unwrap();
    let t = v.total() as int;
    let m = v.capacity() as int;
    assert(w.total() == t + 1);
    if q < t {
        lemma_distinct_residues(q as int, t, m);
        assert(w.slot(q as int) != w.slot(t));
        assert(w.event_log[w.slot(q as int) as u64] == v.event_log[v.slot(q as int) as u64]);
    } else {
        law_submit_keeps_ring(v, caller, input);
        law_ring_window(w, q);
        law_ring_window(v, q);
    }
}

/// The state after a chain of updates of one contract, each with its
/// caller, metadata and ledger; the first refusal ends the chain.
pub open spec fn updates_result(
    v: ExplorerView,
    callers: Seq<Seq<u8>>,
    id: Seq<u8>,
    metas: Seq<ContractMetaView>,
    ledgers: Seq<u32>,
) -> Result<ExplorerView, Error>
    decreases metas.len(),
{
    if metas.len() == 0 {
        Ok(v)
    } else {
        match updates_result(v, callers.drop_last(), id, metas.drop_last(), ledgers.drop_last()) {
            Ok(w) => update_result(w, callers.last(), id, metas.last(), ledgers.last()),
            Err(e) => Err(e),
        }
    }
}

/// What holds of a contract after registration at `first_ledger` and `n`
/// accepted updates at `ledgers`.
pub open spec fn history_counts(v: ExplorerView, id: Seq<u8>, n: int, first_ledger: u32, ledgers: Seq<u32>) -> bool {
    &&& v.contracts.contains_key(id)
    &&& v.contracts[id].abi_version == n
    &&& v.versions.contains_key((id, n as u32))
    &&& v.versions[(id, n as u32)] == v.contracts[id]
    &&& forall|j: int|
        0 <= j <= n ==> {
            &&& #[trigger] v.versions.contains_key((id, j as u32))
            &&& v.versions[(id, j as u32)].abi_version == j
            &&& v.versions[(id, j as u32)].min_ledger == (if j == 0 {
                first_ledger
            } else {
                ledgers[j - 1]
            })
        }
}

proof fn lemma_updates_count(
    v: ExplorerView,
    callers: Seq<Seq<u8>>,
    id: Seq<u8>,
    metas: Seq<ContractMetaView>,
    ledgers: Seq<u32>,
    first_ledger: u32,
)
    requires
        history_counts(v, id, 0, first_ledger, ledgers),
        callers.len() == metas.len(),
        ledgers.len() == metas.len(),
        updates_result(v, callers, id, metas, ledgers) is Ok,
    ensures
        history_counts(
            updates_result(v, callers, id, metas, ledgers).unwrap(),
            id,
            metas.len() as int,
            first_ledger,
            ledgers,
        ),
    decreases metas.len(),
{
    if metas.len() > 0 {
        let n = metas.len() - 1;
        let ls = ledgers.drop_last();
        assert(history_counts(v, id, 0, first_ledger, ls)) by {
            assert forall|j: int| 0 <= j <= 0 implies {
                &&& #[trigger] v.versions.contains_key((id, j as u32))
                &&& v.versions[(id, j as u32)].abi_version == j
                &&& v.versions[(id, j as u32)].min_ledger == (if j == 0 {
                    first_ledger
                } else {
                    ls[j - 1]
                })
            } by {
                assert(j == 0);
            }
        }
        lemma_updates_count(v, callers.drop_last(), id, metas.drop_last(), ls, first_ledger);
        let w = updates_result(v, callers.drop_last(), id, metas.drop_last(), ls).unwrap();
        let w2 = update_result(w, callers.last(), id, metas.last(), ledgers.last()).unwrap();
        assert(w2.contracts[id].abi_version == n + 1);
        assert forall|j: int| 0 <= j <= n + 1 implies {
            &&& #[trigger] w2.versions.contains_key((id, j as u32))
            &&& w2.versions[(id, j as u32)].abi_version == j
            &&& w2.versions[(id, j as u32)].min_ledger == (if j == 0 {
                first_ledger
            } else {
                ledgers[j - 1]
            })
        } by {
            if j <= n {
                assert(w.versions.contains_key((id, j as u32)));
                assert((id, j as u32) != (id, (n + 1) as u32));
                if j > 0 {
                    assert(ls[j - 1] == ledgers[j - 1]);
                }
            }
        }
    }
}

/// After registering a contract and a chain of accepted updates, its ABI
/// version is the number of updates, its latest entry is the newest history
/// entry, and history entry `j` holds ABI version `j` and the ledger of the
/// call that wrote it, for every `j` from 0 to the latest.
pub proof fn law_abi_version_counts_updates(
    v: ExplorerView,
    registrar: Seq<u8>,
    id: Seq<u8>,
    meta: ContractMetaView,
    first_ledger: u32,
    callers: Seq<Seq<u8>>,
    metas: Seq<ContractMetaView>,
    ledgers: Seq<u32>,
)
    requires
        register_result(v, registrar, id, meta, first_ledger) is Ok,
        callers.len() == metas.len(),
        ledgers.len() == metas.len(),
        updates_result(
            register_result(v, registrar, id, meta, first_ledger).unwrap(),
            callers,
            id,
            metas,
            ledgers,
        ) is Ok,
    ensures
        history_counts(
            updates_result(
                register_result(v, registrar, id, meta, first_ledger).unwrap(),
                callers,
                id,
                metas,
                ledgers,
            ).unwrap(),
            id,
            metas.len() as int,
            first_ledger,
            ledgers,
        ),
{
    let w0 = register_result(v, registrar, id, meta, first_ledger).unwrap();
    assert(history_counts(w0, id, 0, first_ledger, ledgers)) by {
        assert forall|j: int| 0 <= j <= 0 implies {
            &&& #[trigger] w0.versions.contains_key((id, j as u32))
            &&& w0.versions[(id, j as u32)].abi_version == j
            &&& w0.versions[(id, j as u32)].min_ledger == (if j == 0 {
                first_ledger
            } else {
                ledgers[j - 1]
            })
        } by {
            assert(j == 0);
        }
    }
    lemma_updates_count(w0, callers, id, metas, ledgers, first_ledger);
}


/// One state-mutating operation, with the arguments it is called with.
pub enum Operation {
    Init { admin: Seq<u8>, max_events: u32 },
    TransferAdmin { caller: Seq<u8>, new_admin: Seq<u8> },
    SetMaxEvents { caller: Seq<u8>, new_max: u32 },
    SetPaused { caller: Seq<u8>, flag: bool },
    Register { caller: Seq<u8>, id: Seq<u8>, meta: ContractMetaView, ledger: u32 },
    Update { caller: Seq<u8>, id: Seq<u8>, meta: ContractMetaView, ledger: u32 },
    Deregister { caller: Seq<u8>, id: Seq<u8> },
    Submit { caller: Seq<u8>, input: EventInputView },
}

/// The model's outcome of one operation.
pub open spec fn operation_result(v: ExplorerView, op: Operation) -> Result<ExplorerView, Error> {
    match op {
        Operation::Init { admin, max_events } => init_result(v, admin, max_events),
        Operation::TransferAdmin { caller, new_admin } => transfer_admin_result(v, caller, new_admin),
        Operation::SetMaxEvents { caller, new_max } => set_max_events_result(v, caller, new_max),
        Operation::SetPaused { caller, flag } => set_paused_result(v, caller, flag),
        Operation::Register { caller, id, meta, ledger } => register_result(v, caller, id, meta, ledger),
        Operation::Update { caller, id, meta, ledger } => update_result(v, caller, id, meta, ledger),
        Operation::Deregister { caller, id } => deregister_result(v, caller, id),
        Operation::Submit { caller, input } => submit_result(v, caller, input),
    }
}

/// The storage after running `ops` in order; a refused operation leaves
/// the storage as it was, as every operation's contract guarantees.
pub open spec fn run(v: ExplorerView, ops: Seq<Operation>) -> ExplorerView
    decreases ops.len(),
{
    if ops.len() == 0 {
        v
    } else {
        let w = run(v, ops.drop_last());
        match operation_result(w, ops.last()) {
            Ok(next) => next,
            Err(_) => w,
        }
    }
}

/// The ledgers of the accepted updates of `id` while running `ops`, in order.
pub open spec fn accepted_update_ledgers(v: ExplorerView, ops: Seq<Operation>, id: Seq<u8>) -> Seq<u32>
    decreases ops.len(),
{
    if ops.len() == 0 {
        Seq::empty()
    } else {
        let before = accepted_update_ledgers(v, ops.drop_last(), id);
        let w = run(v, ops.drop_last());
        match ops.last() {
            Operation::Update { caller, id: target, meta, ledger } => {
                if target == id && update_result(w, caller, id, meta, ledger) is Ok {
                    before.push(ledger)
                } else {
                    before
                }
            },
            _ => before,
        }
    }
}

/// Whether `op` asks to deregister `id`.
pub open spec fn deregisters_id(op: Operation, id: Seq<u8>) -> bool {
    match op {
        Operation::Deregister { caller, id: target } => target == id,
        _ => false,
    }
}

/// Whether one of `ops` asks to deregister `id`.
pub open spec fn deregisters(ops: Seq<Operation>, id: Seq<u8>) -> bool {
    exists|k: int| 0 <= k < ops.len() && #[trigger] deregisters_id(ops[k], id)
}

/// A state that keeps the latest entry of `id` and its history entries up
/// to `n` keeps the counted history of `id`.
#[verifier::spinoff_prover]
proof fn lemma_counts_kept(
    w: ExplorerView,
    x: ExplorerView,
    id: Seq<u8>,
    n: int,
    first_ledger: u32,
    ls: Seq<u32>,
)
    requires
        history_counts(w, id, n, first_ledger, ls),
        x.contracts.contains_key(id),
        x.contracts[id] == w.contracts[id],
        forall|j: int|
            0 <= j <= n ==> #[trigger] x.versions.contains_key((id, j as u32))
                && x.versions[(id, j as u32)] == w.versions[(id, j as u32)],
    ensures
        history_counts(x, id, n, first_ledger, ls),
{
    assert(0 <= n);
    assert(w.versions.contains_key((id, n as u32)));
    assert(x.versions.contains_key((id, n as u32)));
    assert(x.versions[(id, n as u32)] == w.versions[(id, n as u32)]);
    assert(x.versions[(id, n as u32)] == x.contracts[id]);
    assert forall|j: int| 0 <= j <= n implies {
        &&& #[trigger] x.versions.contains_key((id, j as u32))
        &&& x.versions[(id, j as u32)].abi_version == j
        &&& x.versions[(id, j as u32)].min_ledger == (if j == 0 {
            first_ledger
        } else {
            ls[j - 1]
        })
    } by {
        assert(w.versions.contains_key((id, j as u32)));
        assert(w.versions[(id, j as u32)].abi_version == j);
        assert(x.versions.contains_key((id, j as u32)));
        assert(x.versions[(id, j as u32)] == w.versions[(id, j as u32)]);
    }
}

/// An accepted update of `id` extends its counted history by one entry
/// written at the update's ledger.
#[verifier::spinoff_prover]
proof fn lemma_update_extends(
    w: ExplorerView,
    x: ExplorerView,
    id: Seq<u8>,
    n: int,
    first_ledger: u32,
    ls: Seq<u32>,
    caller: Seq<u8>,
    meta: ContractMetaView,
    ledger: u32,
)
    requires
        history_counts(w, id, n, first_ledger, ls),
        ls.len() == n,
        update_result(w, caller, id, meta, ledger) == Ok::<ExplorerView, Error>(x),
    ensures
        history_counts(x, id, n + 1, first_ledger, ls.push(ledger)),
{
    let ls2 = ls.push(ledger);
    let updated = ContractMetaView { min_ledger: ledger, ..meta };
    assert(meta.abi_version == n + 1);
    assert(x.contracts == w.contracts.insert(id, updated));
    assert(x.versions == w.versions.insert((id, meta.abi_version), updated));
    assert(x.contracts[id] == updated);
    assert(x.contracts[id].abi_version == n + 1);
    assert(x.versions.contains_key((id, (n + 1) as u32)));
    assert(x.versions[(id, (n + 1) as u32)] == x.contracts[id]);
    assert forall|j: int| 0 <= j <= n + 1 implies {
        &&& #[trigger] x.versions.contains_key((id, j as u32))
        &&& x.versions[(id, j as u32)].abi_version == j
        &&& x.versions[(id, j as u32)].min_ledger == (if j == 0 {
            first_ledger
        } else {
            ls2[j - 1]
        })
    } by {
        if j <= n {
            assert(w.versions.contains_key((id, j as u32)));
            assert((id, j as u32) != (id, (n + 1) as u32));
            assert(x.versions[(id, j as u32)] == w.versions[(id, j as u32)]);
            if j > 0 {
                assert(ls2[j - 1] == ls[j - 1]);
            }
        } else {
            assert(ls2[j - 1] == ledger);
        }
    }
    assert(x.contracts.contains_key(id));
    let m = n + 1;
    assert(x.contracts[id].abi_version == m);
    assert(x.versions.contains_key((id, m as u32)));
    assert(x.versions[(id, m as u32)] == x.contracts[id]);
    assert(history_counts(x, id, m, first_ledger, ls2));
}

/// One operation other than deregistering `id` keeps the counted history of
/// `id`, and an accepted update of `id` extends it by one at its ledger.
#[verifier::spinoff_prover]
proof fn lemma_operation_counts(
    w: ExplorerView,
    op: Operation,
    id: Seq<u8>,
    n: int,
    first_ledger: u32,
    ls: Seq<u32>,
)
    requires
        history_counts(w, id, n, first_ledger, ls),
        ls.len() == n,
        !deregisters_id(op, id),
    ensures
        ({
            let next = match operation_result(w, op) {
                Ok(x) => x,
                Err(_) => w,
            };
            match op {
                Operation::Update { caller, id: target, meta, ledger } => if target == id
                    && update_result(w, caller, id, meta, ledger) is Ok {
                    history_counts(next, id, n + 1, first_ledger, ls.push(ledger))
                } else {
                    history_counts(next, id, n, first_ledger, ls)
                },
                _ => history_counts(next, id, n, first_ledger, ls),
            }
        }),
{
    match operation_result(w, op) {
        Err(_) => {},
        Ok(x) => {
            match op {
                Operation::Update { caller, id: target, meta, ledger } => {
                    if target == id {
                        lemma_update_extends(w, x, id, n, first_ledger, ls, caller, meta, ledger);
                    } else {
                        assert forall|j: int| 0 <= j <= n implies #[trigger] x.versions.contains_key(
                            (id, j as u32),
                        ) && x.versions[(id, j as u32)] == w.versions[(id, j as u32)] by {
                            assert(w.versions.contains_key((id, j as u32)));
                            assert((id, j as u32) != (target, meta.abi_version));
                        }
                        lemma_counts_kept(w, x, id, n, first_ledger, ls);
                    }
                },
                Operation::Register { caller, id: target, meta, ledger } => {
                    assert(target != id);
                    assert forall|j: int| 0 <= j <= n implies #[trigger] x.versions.contains_key(
                        (id, j as u32),
                    ) && x.versions[(id, j as u32)] == w.versions[(id, j as u32)] by {
                        assert(w.versions.contains_key((id, j as u32)));
                        assert((id, j as u32) != (target, 0u32));
                    }
                    lemma_counts_kept(w, x, id, n, first_ledger, ls);
                },
                Operation::Deregister { caller, id: target } => {
                    assert(target != id);
                    assert forall|j: int| 0 <= j <= n implies #[trigger] x.versions.contains_key(
                        (id, j as u32),
                    ) && x.versions[(id, j as u32)] == w.versions[(id, j as u32)] by {
                        assert(w.versions.contains_key((id, j as u32)));
                    }
                    lemma_counts_kept(w, x, id, n, first_ledger, ls);
                },
                _ => {
                    assert(x.contracts == w.contracts && x.versions == w.versions);
                    assert forall|j: int| 0 <= j <= n implies #[trigger] x.versions.contains_key(
                        (id, j as u32),
                    ) && x.versions[(id, j as u32)] == w.versions[(id, j as u32)] by {
                        assert(w.versions.contains_key((id, j as u32)));
                    }
                    lemma_counts_kept(w, x, id, n, first_ledger, ls);
                },
            }
        },
    }
}

proof fn lemma_run_counts(
    w: ExplorerView,
    ops: Seq<Operation>,
    id: Seq<u8>,
    first_ledger: u32,
)
    requires
        history_counts(w, id, 0, first_ledger, Seq::empty()),
        !deregisters(ops, id),
    ensures
        accepted_update_ledgers(w, ops, id).len() <= ops.len(),
        history_counts(
            run(w, ops),
            id,
            accepted_update_ledgers(w, ops, id).len() as int,
            first_ledger,
            accepted_update_ledgers(w, ops, id),
        ),
    decreases ops.len(),
{
    if ops.len() > 0 {
        let prefix = ops.drop_last();
        assert(!deregisters(prefix, id)) by {
            if deregisters(prefix, id) {
                let k = choose|k: int| 0 <= k < prefix.len() && #[trigger] deregisters_id(prefix[k], id);
                assert(ops[k] == prefix[k]);
            }
        }
        lemma_run_counts(w, prefix, id, first_ledger);
        let ls = accepted_update_ledgers(w, prefix, id);
        let last = ops.last();
        assert(!deregisters_id(last, id)) by {
            if deregisters_id(last, id) {
                assert(ops[ops.len() - 1] == last);
            }
        }
        lemma_operation_counts(run(w, prefix), last, id, ls.len() as int, first_ledger, ls);
    }
}

/// After a contract is registered, whatever operations follow (other than
/// deregistering it, and with refused ones leaving storage as it was), its
/// ABI version is the number of accepted updates of it, its latest entry is
/// the newest history entry, and history entry `j` holds ABI version `j`
/// and the ledger of the call that wrote it, for every `j` from 0 to the
/// latest.
pub proof fn law_abi_version_counts_interleaved_updates(
    v: ExplorerView,
    registrar: Seq<u8>,
    id: Seq<u8>,
    meta: ContractMetaView,
    first_ledger: u32,
    ops: Seq<Operation>,
)
    requires
        register_result(v, registrar, id, meta, first_ledger) is Ok,
        !deregisters(ops, id),
    ensures
        ({
            let w0 = register_result(v, registrar, id, meta, first_ledger).unwrap();
            let ls = accepted_update_ledgers(w0, ops, id);
            history_counts(run(w0, ops), id, ls.len() as int, first_ledger, ls)
        }),
{
    let w0 = register_result(v, registrar, id, meta, first_ledger).unwrap();
    assert(history_counts(w0, id, 0, first_ledger, Seq::<u32>::empty())) by {
        assert forall|j: int| 0 <= j <= 0 implies {
            &&& #[trigger] w0.versions.contains_key((id, j as u32))
            &&& w0.versions[(id, j as u32)].abi_version == j
            &&& w0.versions[(id, j as u32)].min_ledger == (if j == 0 {
                first_ledger
            } else {
                Seq::<u32>::empty()[j - 1]
            })
        } by {
            assert(j == 0);
        }
    }
    lemma_run_counts(w0, ops, id, first_ledger);
}

} // verus!
