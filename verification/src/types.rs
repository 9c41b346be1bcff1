//! Plain-value data types of the explorer: errors, addresses, contract
//! metadata and decoded events, each with a mathematical view.

use vstd::prelude::*;

verus! {

/// Minimum allowed value for `max_events` (prevents accidental data loss).
pub const MIN_MAX_EVENTS: u32 = 1000;

/// Default ring-buffer capacity used at init when the caller passes `0`.
pub const DEFAULT_MAX_EVENTS: u32 = 50000;

/// Errors the explorer reports; `code` gives the numeric code of each.
#[derive(Copy, Clone, Debug, PartialEq, Eq, Structural)]
pub enum Error {
    NotFound,
    Unauthorized,
    AlreadyExists,
    BelowFloor,
    ContractPaused,
    InvalidInput,
}

impl Error {
    /// The numeric error code of this error, as the contract reports it.
    pub open spec fn spec_code(self) -> u32 {
        match self {
            Error::NotFound => 1,
            Error::Unauthorized => 2,
            Error::AlreadyExists => 3,
            Error::BelowFloor => 4,
            Error::ContractPaused => 5,
            Error::InvalidInput => 6,
        }
    }

    /// The numeric error code of this error.
    pub fn code(&self) -> (c: u32)
        ensures
            c == self.spec_code(),
    {
        match self {
            Error::NotFound => 1,
            Error::Unauthorized => 2,
            Error::AlreadyExists => 3,
            Error::BelowFloor => 4,
            Error::ContractPaused => 5,
            Error::InvalidInput => 6,
        }
    }

    /// The error with the given numeric code, if there is one.
    pub fn from_code(code: u32) -> (r: Option<Error>)
        ensures
            match r {
                Some(e) => e.spec_code() == code,
                None => code < 1 || code > 6,
            },
    {
        if code == 1 {
            Some(Error::NotFound)
        } else if code == 2 {
            Some(Error::Unauthorized)
        } else if code == 3 {
            Some(Error::AlreadyExists)
        } else if code == 4 {
            Some(Error::BelowFloor)
        } else if code == 5 {
            Some(Error::ContractPaused)
        } else if code == 6 {
            Some(Error::InvalidInput)
        } else {
            None
        }
    }
}

/// An account or contract address, held as the bytes of its string key.
/// Two addresses are the same exactly when their bytes are.
pub struct Address {
    pub key: Vec<u8>,
}

impl View for Address {
    type V = Seq<u8>;

    open spec fn view(&self) -> Seq<u8> {
        self.key@
    }
}

impl Address {
    /// Wraps the bytes of an address key.
    pub fn new(key: Vec<u8>) -> (a: Address)
        ensures
            a@ == key@,
    {
        Address { key }
    }

    /// Whether two addresses are the same address.
    pub fn same(&self, other: &Address) -> (r: bool)
        ensures
            r == (self@ == other@),
    {
        bytes_equal(&self.key, &other.key)
    }

    /// A copy of this address.
    pub fn duplicate(&self) -> (r: Address)
        ensures
            r@ == self@,
    {
        Address { key: copy_bytes(&self.key) }
    }
}

/// Whether two byte vectors hold the same bytes.
pub fn bytes_equal(a: &Vec<u8>, b: &Vec<u8>) -> (r: bool)
    ensures
        r == (a@ == b@),
{
    if a.len() != b.len() {
        return false;
    }
    let mut i: usize = 0;
    while i < a.len()
        invariant
            a@.len() == b@.len(),
            i <= a@.len(),
            forall|j: int| 0 <= j < i ==> a@[j] == b@[j],
        decreases a@.len() - i,
    {
        if a[i] != b[i] {
            return false;
        }
        i = i + 1;
    }
    assert(a@ =~= b@);
    true
}

/// A copy of a byte vector.
pub fn copy_bytes(a: &Vec<u8>) -> (r: Vec<u8>)
    ensures
        r@ == a@,
{
    let mut out: Vec<u8> = Vec::new();
    let mut i: usize = 0;
    while i < a.len()
        invariant
            i <= a@.len(),
            out@ == a@.subrange(0, i as int),
        decreases a@.len() - i,
    {
        out.push(a[i]);
        i = i + 1;
        assert(out@ =~= a@.subrange(0, i as int));
    }
    assert(a@.subrange(0, a@.len() as int) =~= a@);
    out
}

/// A copy of a string.
pub fn copy_string(s: &String) -> (r: String)
    ensures
        r@ == s@,
{
    s.clone()
}

/// A copy of a vector of strings.
pub fn copy_strings(v: &Vec<String>) -> (r: Vec<String>)
    ensures
        strings_view(r@) == strings_view(v@),
{
    let mut out: Vec<String> = Vec::new();
    let mut i: usize = 0;
    while i < v.len()
        invariant
            i <= v@.len(),
            out@.len() == i,
            forall|j: int| 0 <= j < i ==> out@[j]@ == v@[j]@,
        decreases v@.len() - i,
    {
        out.push(copy_string(&v[i]));
        i = i + 1;
    }
    assert(strings_view(out@) =~= strings_view(v@));
    out
}

/// The character sequences of a sequence of strings.
pub open spec fn strings_view(v: Seq<String>) -> Seq<Seq<char>> {
    v.map_values(|s: String| s@)
}

/// Whether two contract identifiers are the same 32 bytes.
pub fn same_contract_id(a: &[u8; 32], b: &[u8; 32]) -> (r: bool)
    ensures
        r == (a@ == b@),
{
    let mut i: usize = 0;
    while i < 32
        invariant
            i <= 32,
            a@.len() == 32,
            b@.len() == 32,
            forall|j: int| 0 <= j < i ==> a@[j] == b@[j],
        decreases 32 - i,
    {
        if a[i] != b[i] {
            return false;
        }
        i = i + 1;
    }
    assert(a@ =~= b@);
    true
}

/// One parameter definition of a contract function.
pub struct ParamDef {
    pub name: String,
    pub kind: String,
}

/// The view of a parameter definition.
pub struct ParamDefView {
    pub name: Seq<char>,
    pub kind: Seq<char>,
}

impl View for ParamDef {
    type V = ParamDefView;

    open spec fn view(&self) -> ParamDefView {
        ParamDefView { name: self.name@, kind: self.kind@ }
    }
}

impl ParamDef {
    /// A copy of this parameter definition.
    pub fn duplicate(&self) -> (r: ParamDef)
        ensures
            r@ == self@,
    {
        ParamDef { name: copy_string(&self.name), kind: copy_string(&self.kind) }
    }
}

/// The views of a sequence of parameter definitions.
pub open spec fn params_view(v: Seq<ParamDef>) -> Seq<ParamDefView> {
    v.map_values(|p: ParamDef| p@)
}

/// A copy of a vector of parameter definitions.
pub fn copy_params(v: &Vec<ParamDef>) -> (r: Vec<ParamDef>)
    ensures
        params_view(r@) == params_view(v@),
{
    let mut out: Vec<ParamDef> = Vec::new();
    let mut i: usize = 0;
    while i < v.len()
        invariant
            i <= v@.len(),
            out@.len() == i,
            forall|j: int| 0 <= j < i ==> out@[j]@ == v@[j]@,
        decreases v@.len() - i,
    {
        out.push(v[i].duplicate());
        i = i + 1;
    }
    assert(params_view(out@) =~= params_view(v@));
    out
}

/// Describes one callable function so the explorer can decode calls.
pub struct FunctionAbi {
    pub name: String,
    pub description: String,
    pub params: Vec<ParamDef>,
}

/// The view of a function description.
pub struct FunctionAbiView {
    pub name: Seq<char>,
    pub description: Seq<char>,
    pub params: Seq<ParamDefView>,
}

impl View for FunctionAbi {
    type V = FunctionAbiView;

    open spec fn view(&self) -> FunctionAbiView {
        FunctionAbiView {
            name: self.name@,
            description: self.description@,
            params: params_view(self.params@),
        }
    }
}

impl FunctionAbi {
    /// A copy of this function description.
    pub fn duplicate(&self) -> (r: FunctionAbi)
        ensures
            r@ == self@,
    {
        FunctionAbi {
            name: copy_string(&self.name),
            description: copy_string(&self.description),
            params: copy_params(&self.params),
        }
    }
}

/// The views of a sequence of function descriptions.
pub open spec fn functions_view(v: Seq<FunctionAbi>) -> Seq<FunctionAbiView> {
    v.map_values(|f: FunctionAbi| f@)
}

/// A copy of a vector of function descriptions.
pub fn copy_functions(v: &Vec<FunctionAbi>) -> (r: Vec<FunctionAbi>)
    ensures
        functions_view(r@) == functions_view(v@),
{
    let mut out: Vec<FunctionAbi> = Vec::new();
    let mut i: usize = 0;
    while i < v.len()
        invariant
            i <= v@.len(),
            out@.len() == i,
            forall|j: int| 0 <= j < i ==> out@[j]@ == v@[j]@,
        decreases v@.len() - i,
    {
        out.push(v[i].duplicate());
        i = i + 1;
    }
    assert(functions_view(out@) =~= functions_view(v@));
    out
}

/// ABI-like metadata for a registered contract.
pub struct ContractMeta {
    /// Schema version for forward compatibility.
    pub version: u32,
    /// Monotonic ABI version; incremented on every update.
    pub abi_version: u32,
    /// Ledger sequence at which this ABI version was written.
    pub min_ledger: u32,
    pub name: String,
    pub description: String,
    pub functions: Vec<FunctionAbi>,
    pub registered_by: Address,
}

/// The view of contract metadata.
pub struct ContractMetaView {
    pub version: u32,
    pub abi_version: u32,
    pub min_ledger: u32,
    pub name: Seq<char>,
    pub description: Seq<char>,
    pub functions: Seq<FunctionAbiView>,
    pub registered_by: Seq<u8>,
}

impl View for ContractMeta {
    type V = ContractMetaView;

    open spec fn view(&self) -> ContractMetaView {
        ContractMetaView {
            version: self.version,
            abi_version: self.abi_version,
            min_ledger: self.min_ledger,
            name: self.name@,
            description: self.description@,
            functions: functions_view(self.functions@),
            registered_by: self.registered_by@,
        }
    }
}

impl ContractMeta {
    /// A copy of this metadata.
    pub fn duplicate(&self) -> (r: ContractMeta)
        ensures
            r@ == self@,
    {
        ContractMeta {
            version: self.version,
            abi_version: self.abi_version,
            min_ledger: self.min_ledger,
            name: copy_string(&self.name),
            description: copy_string(&self.description),
            functions: copy_functions(&self.functions),
            registered_by: self.registered_by.duplicate(),
        }
    }
}

/// A decoded, human-readable event stored in the log.
pub struct DecodedEvent {
    pub seq: u64,
    pub contract_id: [u8; 32],
    pub function: String,
    pub ledger: u32,
    pub description: String,
    pub raw_topics: Vec<String>,
    pub raw_data: Vec<u8>,
}

/// The view of a decoded event.
pub struct DecodedEventView {
    pub seq: u64,
    pub contract_id: Seq<u8>,
    pub function: Seq<char>,
    pub ledger: u32,
    pub description: Seq<char>,
    pub raw_topics: Seq<Seq<char>>,
    pub raw_data: Seq<u8>,
}

impl View for DecodedEvent {
    type V = DecodedEventView;

    open spec fn view(&self) -> DecodedEventView {
        DecodedEventView {
            seq: self.seq,
            contract_id: self.contract_id@,
            function: self.function@,
            ledger: self.ledger,
            description: self.description@,
            raw_topics: strings_view(self.raw_topics@),
            raw_data: self.raw_data@,
        }
    }
}

impl DecodedEvent {
    /// A copy of this event.
    pub fn duplicate(&self) -> (r: DecodedEvent)
        ensures
            r@ == self@,
    {
        DecodedEvent {
            seq: self.seq,
            contract_id: self.contract_id,
            function: copy_string(&self.function),
            ledger: self.ledger,
            description: copy_string(&self.description),
            raw_topics: copy_strings(&self.raw_topics),
            raw_data: copy_bytes(&self.raw_data),
        }
    }
}

/// Event submission parameters.
pub struct EventInput {
    pub contract_id: [u8; 32],
    pub function: String,
    pub ledger: u32,
    pub description: String,
    pub raw_topics: Vec<String>,
    pub raw_data: Vec<u8>,
}

/// The view of an event submission.
pub struct EventInputView {
    pub contract_id: Seq<u8>,
    pub function: Seq<char>,
    pub ledger: u32,
    pub description: Seq<char>,
    pub raw_topics: Seq<Seq<char>>,
    pub raw_data: Seq<u8>,
}

impl View for EventInput {
    type V = EventInputView;

    open spec fn view(&self) -> EventInputView {
        EventInputView {
            contract_id: self.contract_id@,
            function: self.function@,
            ledger: self.ledger,
            description: self.description@,
            raw_topics: strings_view(self.raw_topics@),
            raw_data: self.raw_data@,
        }
    }
}

impl EventInput {
    /// A copy of this submission.
    pub fn duplicate(&self) -> (r: EventInput)
        ensures
            r@ == self@,
    {
        EventInput {
            contract_id: self.contract_id,
            function: copy_string(&self.function),
            ledger: self.ledger,
            description: copy_string(&self.description),
            raw_topics: copy_strings(&self.raw_topics),
            raw_data: copy_bytes(&self.raw_data),
        }
    }
}

/// Composite key under which a historical ABI version is stored.
pub struct VersionKey {
    pub contract_id: [u8; 32],
    pub abi_version: u32,
}

impl View for VersionKey {
    type V = (Seq<u8>, u32);

    open spec fn view(&self) -> (Seq<u8>, u32) {
        (self.contract_id@, self.abi_version)
    }
}

impl VersionKey {
    /// Whether two version keys name the same contract and version.
    pub fn same(&self, other: &VersionKey) -> (r: bool)
        ensures
            r == (self@ == other@),
    {
        self.abi_version == other.abi_version && same_contract_id(
            &self.contract_id,
            &other.contract_id,
        )
    }
}

/// The storage entries of the explorer.
pub enum DataKey {
    Admin,
    Contract([u8; 32]),
    EventLog(u64),
    EventSeq,
    MaxEvents,
    Paused,
    ContractVersion(VersionKey),
}

} // verus!
