//! Distributed shared memory: regions registered under global addresses,
//! the per-node memory behind them, reads and writes checked against the
//! region's permissions and size, compare-and-swap, and versioned shared
//! values. Times are in milliseconds since the Unix epoch.
use vstd::prelude::*;
use crate::ids::{fresh_id, now_millis, uuid_string, uuid_text};
use crate::keyed::{Keyed, find_key, has_key, key_map, remove_key, unique_keys, upsert};
use vstd::std_specs::cmp::PartialEqSpec;
use crate::text::{decimal_text, duration_debug, duration_debug_text, hex_text, pad_left, push_decimal, push_hex_padded, push_text, string_of};

verus! {

/// An address in the distributed address space.
#[derive(Clone, Copy, PartialEq, Eq, Hash, Debug, Structural)]
pub struct GlobalAddress(pub u64);

/// An address within one node's memory.
#[derive(Clone, Copy, PartialEq, Eq, Hash, Debug, Structural)]
pub struct LocalAddress(pub usize);

/// `0x` and the number in upper-case hexadecimal, zero-padded to `width` digits.
pub open spec fn address_text(n: nat, width: nat) -> Seq<char> {
    "0x"@ + pad_left(hex_text(n), '0', width)
}

impl GlobalAddress {
    /// `0x` and sixteen upper-case hexadecimal digits.
    pub fn to_string(&self) -> (s: String)
        ensures
            s@ == address_text(self.0 as nat, 16),
    {
        let mut s = string_of("0x");
        push_hex_padded(&mut s, self.0, 16);
        s
    }
}

impl LocalAddress {
    /// `0x` and at least eight upper-case hexadecimal digits.
    pub fn to_string(&self) -> (s: String)
        ensures
            s@ == address_text(self.0 as nat, 8),
    {
        let mut s = string_of("0x");
        push_hex_padded(&mut s, self.0 as u64, 8);
        s
    }
}

/// Consistency models.
#[derive(Clone, Copy, PartialEq, Eq, Debug, Structural)]
pub enum ConsistencyModel {
    Sequential,
    Causal,
    Eventual,
    Release,
    Entry,
    Weak,
}

/// Operations on shared memory.
pub enum MemoryOperation {
    Read { address: GlobalAddress, size: usize, request_id: u64 },
    Write { address: GlobalAddress, data: Vec<u8>, request_id: u64 },
    CompareAndSwap { address: GlobalAddress, expected: Vec<u8>, new_value: Vec<u8>, request_id: u64 },
    FetchAndAdd { address: GlobalAddress, value: i64, request_id: u64 },
    MemoryBarrier { operation_id: u64 },
}

/// Outcomes of memory operations.
pub enum MemoryOperationResult {
    ReadSuccess { data: Vec<u8>, timestamp: u64 },
    WriteSuccess { timestamp: u64 },
    CompareAndSwapSuccess { success: bool, old_value: Vec<u8>, timestamp: u64 },
    FetchAndAddSuccess { old_value: i64, new_value: i64, timestamp: u64 },
    OperationFailed { error: String, timestamp: u64 },
}

/// Access rights on a region.
#[derive(Clone, Copy, PartialEq, Eq, Debug, Structural)]
pub struct MemoryPermissions {
    pub readable: bool,
    pub writable: bool,
    pub executable: bool,
    pub sharable: bool,
}

/// A shared memory region.
pub struct MemoryRegion {
    pub id: u128,
    pub name: String,
    pub size: usize,
    pub owner_node: u128,
    pub consistency_model: ConsistencyModel,
    pub permissions: MemoryPermissions,
    pub created_at: u64,
    pub last_accessed: u64,
    pub access_count: u64,
    pub replica_nodes: Vec<u128>,
}

impl Keyed for MemoryRegion {
    open spec fn key_of(&self) -> u128 {
        self.id
    }

    fn key(&self) -> (k: u128) {
        self.id
    }
}

/// A global address and the region registered under it.
#[derive(Clone, Copy, PartialEq, Eq, Debug, Structural)]
pub struct AddressEntry {
    pub address: GlobalAddress,
    pub region_id: u128,
}

impl Keyed for AddressEntry {
    open spec fn key_of(&self) -> u128 {
        self.address.0 as u128
    }

    fn key(&self) -> (k: u128) {
        self.address.0 as u128
    }
}

/// The memory of one node: the buffer at its local address zero.
pub struct NodeMemory {
    pub node_id: u128,
    pub data: Vec<u8>,
}

impl Keyed for NodeMemory {
    open spec fn key_of(&self) -> u128 {
        self.node_id
    }

    fn key(&self) -> (k: u128) {
        self.node_id
    }
}

/// The coordinator of a region's consistency model.
#[derive(Clone, Copy, PartialEq, Eq, Debug, Structural)]
pub struct ConsistencyCoordinator {
    pub region_id: u128,
    pub model: ConsistencyModel,
    pub coordinator_node: u128,
}

impl Keyed for ConsistencyCoordinator {
    open spec fn key_of(&self) -> u128 {
        self.region_id
    }

    fn key(&self) -> (k: u128) {
        self.region_id
    }
}

/// An operation waiting for consistency resolution; the timeout is in
/// milliseconds.
pub struct PendingOperation {
    pub operation: MemoryOperation,
    pub source_node: u128,
    pub target_region: u128,
    pub timestamp: u64,
    pub retries: u32,
    pub timeout: u64,
}

/// Counters of memory accesses; the average latency is in milliseconds.
#[derive(Clone, Copy, PartialEq, Eq, Debug, Structural)]
pub struct AccessStatistics {
    pub total_reads: u64,
    pub total_writes: u64,
    pub total_operations: u64,
    pub network_traffic_mb: u64,
    pub average_latency: u64,
    pub consistency_violations: u64,
    pub deadlock_count: u64,
    pub starve_count: u64,
}

/// A mapping of a global address into local memory.
#[derive(Clone, Copy, PartialEq, Eq, Debug, Structural)]
pub struct MemoryMapping {
    pub global_address: GlobalAddress,
    pub local_address: LocalAddress,
    pub size: usize,
    pub permissions: MemoryPermissions,
}

/// Errors of memory operations. The timeout is in milliseconds.
pub enum MemoryError {
    InsufficientMemory { requested: usize, available: usize },
    InvalidRegion { region_id: u128 },
    AccessDenied { operation: String, region_id: u128 },
    AddressNotFound { address: GlobalAddress },
    ConsistencyViolation { region_id: u128, violation: String },
    Timeout { timeout: u64 },
    OperationFailed { error: String },
}

/// The message of a memory error.
pub open spec fn memory_error_text(e: MemoryError) -> Seq<char> {
    match e {
        MemoryError::InsufficientMemory { requested, available } => "Insufficient memory: requested "@
            + decimal_text(requested as nat) + ", available "@ + decimal_text(available as nat),
        MemoryError::InvalidRegion { region_id } => "Invalid memory region: "@ + uuid_text(region_id),
        MemoryError::AccessDenied { operation, region_id } => "Access denied: "@ + operation@ + " on region "@
            + uuid_text(region_id),
        MemoryError::AddressNotFound { address } => "Address not found: "@ + address_text(address.0 as nat, 16),
        MemoryError::ConsistencyViolation { region_id, violation } => "Consistency violation in region "@
            + uuid_text(region_id) + ": "@ + violation@,
        MemoryError::Timeout { timeout } => "Timeout waiting for memory operation after "@ + duration_debug_text(
            timeout,
        ),
        MemoryError::OperationFailed { error } => "Memory operation failed: "@ + error@,
    }
}

impl MemoryError {
    /// The message of this error.
    pub fn to_string(&self) -> (s: String)
        ensures
            s@ == memory_error_text(*self),
    {
        match self {
            MemoryError::InsufficientMemory { requested, available } => {
                let mut s = string_of("Insufficient memory: requested ");
                push_decimal(&mut s, *requested as u64);
                push_text(&mut s, ", available ");
                push_decimal(&mut s, *available as u64);
                s
            },
            MemoryError::InvalidRegion { region_id } => {
                let mut s = string_of("Invalid memory region: ");
                let t = uuid_string(*region_id);
                push_text(&mut s, t.as_str());
                s
            },
            MemoryError::AccessDenied { operation, region_id } => {
                let mut s = string_of("Access denied: ");
                push_text(&mut s, operation.as_str());
                push_text(&mut s, " on region ");
                let t = uuid_string(*region_id);
                push_text(&mut s, t.as_str());
                s
            },
            MemoryError::AddressNotFound { address } => {
                let mut s = string_of("Address not found: ");
                let t = address.to_string();
                push_text(&mut s, t.as_str());
                s
            },
            MemoryError::ConsistencyViolation { region_id, violation } => {
                let mut s = string_of("Consistency violation in region ");
                let t = uuid_string(*region_id);
                push_text(&mut s, t.as_str());
                push_text(&mut s, ": ");
                push_text(&mut s, violation.as_str());
                s
            },
            MemoryError::Timeout { timeout } => {
                let mut s = string_of("Timeout waiting for memory operation after ");
                let t = duration_debug(*timeout);
                push_text(&mut s, t.as_str());
                s
            },
            MemoryError::OperationFailed { error } => {
                let mut s = string_of("Memory operation failed: ");
                push_text(&mut s, error.as_str());
                s
            },
        }
    }
}

/// The first address given to a region.
pub const FIRST_REGION_ADDRESS: u64 = 0x1000;

/// The address after a region of `size` bytes placed at `base`: regions
/// are laid out one after another, the last address standing for all
/// beyond the address space.
pub open spec fn address_after(base: u64, size: usize) -> u64 {
    if base + size > u64::MAX {
        u64::MAX
    } else {
        (base + size) as u64
    }
}

/// The prefix of `buf` overwritten by `data` when it fits, else `data`.
pub open spec fn written(buf: Seq<u8>, data: Seq<u8>) -> Seq<u8> {
    if buf.len() >= data.len() {
        data + buf.skip(data.len() as int)
    } else {
        data
    }
}

/// Distributed shared memory as seen from node `node_id`: the regions, the
/// address space that maps global addresses to regions, each node's memory,
/// the consistency coordinators and the counters. Sizes are in bytes; the
/// limit `max_memory_mb` is in MiB. The next region is placed at
/// `next_address`.
pub struct DistributedMemory {
    pub node_id: u128,
    pub next_address: u64,
    pub memory_regions: Vec<MemoryRegion>,
    pub global_address_space: Vec<AddressEntry>,
    pub local_memory: Vec<NodeMemory>,
    pub consistency_coordinators: Vec<ConsistencyCoordinator>,
    pub pending_operations: Vec<PendingOperation>,
    pub access_statistics: AccessStatistics,
    pub max_memory_mb: u64,
    pub cache_line_size: usize,
}

impl DistributedMemory {
    /// The invariant: one record per region, address, node and coordinator,
    /// and a memory limit whose byte count fits in `usize`.
    pub open spec fn wf(&self) -> bool {
        &&& unique_keys(self.memory_regions@)
        &&& unique_keys(self.global_address_space@)
        &&& unique_keys(self.local_memory@)
        &&& unique_keys(self.consistency_coordinators@)
        &&& self.max_memory_mb * 1048576 <= usize::MAX
    }

    /// The regions by identifier.
    pub open spec fn regions(&self) -> Map<u128, MemoryRegion> {
        key_map(self.memory_regions@)
    }

    /// The address space: the region registered under each address.
    pub open spec fn addresses(&self) -> Map<u128, AddressEntry> {
        key_map(self.global_address_space@)
    }

    /// Each node's memory.
    pub open spec fn memory(&self) -> Map<u128, NodeMemory> {
        key_map(self.local_memory@)
    }

    /// The coordinators by region.
    pub open spec fn coordinators(&self) -> Map<u128, ConsistencyCoordinator> {
        key_map(self.consistency_coordinators@)
    }

    /// The region registered under `address`, if any.
    pub open spec fn region_at(&self, address: GlobalAddress) -> Option<MemoryRegion> {
        if self.addresses().contains_key(address.0 as u128) && self.regions().contains_key(
            self.addresses()[address.0 as u128].region_id,
        ) {
            Some(self.regions()[self.addresses()[address.0 as u128].region_id])
        } else {
            None
        }
    }

    /// Region `region_id`; `InvalidRegion` when there is no such region.
    pub fn get_region_info(&self, region_id: u128) -> (r: Result<&MemoryRegion, MemoryError>)
        requires
            self.wf(),
        ensures
            self.regions().contains_key(region_id) ==> r == Ok::<&MemoryRegion, MemoryError>(
                &self.regions()[region_id],
            ),
            !self.regions().contains_key(region_id) ==> r == Err::<&MemoryRegion, MemoryError>(
                MemoryError::InvalidRegion { region_id },
            ),
    {
        match find_key(&self.memory_regions, region_id) {
            Some(i) => {
                proof {
                    crate::keyed::lemma_key_index(self.memory_regions@, i as int);
                }
                Ok(&self.memory_regions[i])
            },
            None => Err(MemoryError::InvalidRegion { region_id }),
        }
    }

    /// The bytes this node holds, if it holds any.
    pub open spec fn own_data(&self) -> Option<Seq<u8>> {
        if self.memory().contains_key(self.node_id) {
            Some(self.memory()[self.node_id].data@)
        } else {
            None
        }
    }

    /// Empty memory on node `node_id` limited to `max_memory_mb` MiB, with
    /// 64-byte cache lines.
    pub fn new(node_id: u128, max_memory_mb: u64) -> (m: Self)
        requires
            max_memory_mb * 1048576 <= usize::MAX,
        ensures
            m.wf(),
            m.node_id == node_id,
            m.max_memory_mb == max_memory_mb,
            m.cache_line_size == 64,
            m.next_address == FIRST_REGION_ADDRESS,
            m.regions() == Map::<u128, MemoryRegion>::empty(),
            m.addresses() == Map::<u128, AddressEntry>::empty(),
            m.memory() == Map::<u128, NodeMemory>::empty(),
            m.coordinators() == Map::<u128, ConsistencyCoordinator>::empty(),
            m.access_statistics == AccessStatistics::zero(),
    {
        let m = DistributedMemory {
            node_id,
            next_address: FIRST_REGION_ADDRESS,
            memory_regions: Vec::new(),
            global_address_space: Vec::new(),
            local_memory: Vec::new(),
            consistency_coordinators: Vec::new(),
            pending_operations: Vec::new(),
            access_statistics: AccessStatistics {
                total_reads: 0,
                total_writes: 0,
                total_operations: 0,
                network_traffic_mb: 0,
                average_latency: 0,
                consistency_violations: 0,
                deadlock_count: 0,
                starve_count: 0,
            },
            max_memory_mb,
            cache_line_size: 64,
        };
        assert(m.regions() =~= Map::<u128, MemoryRegion>::empty());
        assert(m.addresses() =~= Map::<u128, AddressEntry>::empty());
        assert(m.memory() =~= Map::<u128, NodeMemory>::empty());
        assert(m.coordinators() =~= Map::<u128, ConsistencyCoordinator>::empty());
        m
    }

    /// The memory available for a new region, in bytes: the whole limit.
    pub fn available_memory(&self) -> (n: usize)
        requires
            self.wf(),
        ensures
            n == self.max_memory_mb * 1048576,
    {
        (self.max_memory_mb * 1048576) as usize
    }

    /// Allocates a region `name` of `size` zero bytes with the given model,
    /// owned by `owner_node` or else by this node, at time `now`. It is
    /// readable, writable and sharable, not executable; it is registered
    /// under the next free address, the regions being laid out one after
    /// another from 0x1000; its owner's memory becomes
    /// `size` zero bytes; a coordinator on the owner is set up; one more
    /// operation is counted. Refused when `size` exceeds the memory limit.
    pub fn allocate_region(
        &mut self,
        name: &str,
        size: usize,
        consistency_model: ConsistencyModel,
        owner_node: Option<u128>,
        now: u64,
    ) -> (r: Result<u128, MemoryError>)
        requires
            old(self).wf(),
            old(self).access_statistics.total_operations < u64::MAX,
        ensures
            final(self).wf(),
            final(self).node_id == old(self).node_id,
            final(self).max_memory_mb == old(self).max_memory_mb,
            size > old(self).max_memory_mb * 1048576 <==> r is Err,
            r matches Err(e) ==> old(self).refused_allocation(*final(self), e, size),
            r matches Ok(id) ==> old(self).allocated(*final(self), id, name@, size, consistency_model, match owner_node {
                Some(o) => o,
                None => old(self).node_id,
            }, now),
    {
        let available = self.available_memory();
        if available < size {
            return Err(MemoryError::InsufficientMemory { requested: size, available });
        }
        let region_id = fresh_id();
        let owner = match owner_node {
            Some(o) => o,
            None => self.node_id,
        };
        let region = MemoryRegion {
            id: region_id,
            name: string_of(name),
            size,
            owner_node: owner,
            consistency_model,
            permissions: MemoryPermissions { readable: true, writable: true, executable: false, sharable: true },
            created_at: now,
            last_accessed: now,
            access_count: 0,
            replica_nodes: Vec::new(),
        };
        upsert(&mut self.memory_regions, region);
        let address = self.allocate_global_address(size);
        upsert(&mut self.global_address_space, AddressEntry { address, region_id });
        let zeros = zero_bytes(size);
        let ghost before_mem = self.memory();
        upsert(&mut self.local_memory, NodeMemory { node_id: owner, data: zeros });
        upsert(
            &mut self.consistency_coordinators,
            ConsistencyCoordinator { region_id, model: consistency_model, coordinator_node: owner },
        );
        self.access_statistics.total_operations = self.access_statistics.total_operations + 1;
        proof {
            assert forall|n: u128| n != owner implies (#[trigger] self.memory().contains_key(n)) == before_mem.contains_key(n)
                && (before_mem.contains_key(n) ==> self.memory()[n] == before_mem[n]) by {}
        }
        Ok(region_id)
    }


    /// The address of a new region of `size` bytes: the next free one,
    /// after which the following region will be placed.
    fn allocate_global_address(&mut self, size: usize) -> (a: GlobalAddress)
        ensures
            a == GlobalAddress(old(self).next_address),
            final(self).next_address == address_after(old(self).next_address, size),
            final(self).node_id == old(self).node_id,
            final(self).memory_regions == old(self).memory_regions,
            final(self).global_address_space == old(self).global_address_space,
            final(self).local_memory == old(self).local_memory,
            final(self).consistency_coordinators == old(self).consistency_coordinators,
            final(self).access_statistics == old(self).access_statistics,
            final(self).max_memory_mb == old(self).max_memory_mb,
    {
        let base = self.next_address;
        self.next_address = base.saturating_add(size as u64);
        GlobalAddress(base)
    }

    /// A refused allocation of `size` bytes: the error says how much was
    /// asked and how much is available, and nothing changed.
    pub open spec fn refused_allocation(&self, after: Self, e: MemoryError, size: usize) -> bool {
        &&& e == (MemoryError::InsufficientMemory {
            requested: size,
            available: (self.max_memory_mb * 1048576) as usize,
        })
        &&& after.next_address == self.next_address
        &&& after.regions() == self.regions()
        &&& after.addresses() == self.addresses()
        &&& after.memory() == self.memory()
        &&& after.coordinators() == self.coordinators()
        &&& after.access_statistics == self.access_statistics
    }

    /// The state `after` allocating region `id`, named `name`, of `size`
    /// bytes, with model `model`, owned by `owner`, at time `now`.
    pub open spec fn allocated(
        &self,
        after: Self,
        id: u128,
        name: Seq<char>,
        size: usize,
        model: ConsistencyModel,
        owner: u128,
        now: u64,
    ) -> bool {
        let region = after.regions()[id];
        &&& after.next_address == address_after(self.next_address, size)
        &&& after.regions() == self.regions().insert(id, region)
        &&& region.name@ == name
        &&& region.size == size
        &&& region.owner_node == owner
        &&& region.consistency_model == model
        &&& region.permissions == (MemoryPermissions {
            readable: true,
            writable: true,
            executable: false,
            sharable: true,
        })
        &&& region.access_count == 0
        &&& region.created_at == now
        &&& after.addresses() == self.addresses().insert(
            self.next_address as u128,
            AddressEntry { address: GlobalAddress(self.next_address), region_id: id },
        )
        &&& after.memory().contains_key(owner)
        &&& after.memory()[owner].data@ == Seq::new(size as nat, |i: int| 0u8)
        &&& forall|n: u128|
            n != owner ==> (#[trigger] after.memory().contains_key(n)) == self.memory().contains_key(n) && (
            self.memory().contains_key(n) ==> after.memory()[n] == self.memory()[n])
        &&& after.coordinators() == self.coordinators().insert(
            id,
            ConsistencyCoordinator { region_id: id, model, coordinator_node: owner },
        )
        &&& after.access_statistics == (AccessStatistics {
            total_operations: (self.access_statistics.total_operations + 1) as u64,
            ..self.access_statistics
        })
    }

    /// What an access to `address` finds, for reading or for writing.
    pub open spec fn access_check(&self, address: GlobalAddress, write: bool) -> AccessCheck {
        let a = address.0 as u128;
        if !self.addresses().contains_key(a) {
            AccessCheck::NoAddress
        } else if !self.regions().contains_key(self.addresses()[a].region_id) {
            AccessCheck::NoRegion(self.addresses()[a].region_id)
        } else {
            let rid = self.addresses()[a].region_id;
            let perms = self.regions()[rid].permissions;
            if (write && !perms.writable) || (!write && !perms.readable) {
                AccessCheck::Denied(rid)
            } else {
                AccessCheck::Allowed(rid)
            }
        }
    }

    /// The outcome of reading `size` bytes at `address`.
    pub open spec fn read_outcome(&self, address: GlobalAddress, size: usize) -> Result<Seq<u8>, MemoryFault> {
        match self.access_check(address, false) {
            AccessCheck::NoAddress => Err(MemoryFault::AddressNotFound),
            AccessCheck::NoRegion(rid) => Err(MemoryFault::InvalidRegion(rid)),
            AccessCheck::Denied(rid) => Err(MemoryFault::AccessDenied(rid)),
            AccessCheck::Allowed(rid) => match self.own_data() {
                None => Err(MemoryFault::NodeMemoryMissing),
                Some(d) => if size <= d.len() {
                    Ok(d.take(size as int))
                } else {
                    Err(MemoryFault::InvalidReadSize)
                },
            },
        }
    }

    /// The outcome of writing `data` at `address`: the bytes this node holds
    /// afterwards.
    pub open spec fn write_outcome(&self, address: GlobalAddress, data: Seq<u8>) -> Result<Seq<u8>, MemoryFault> {
        match self.access_check(address, true) {
            AccessCheck::NoAddress => Err(MemoryFault::AddressNotFound),
            AccessCheck::NoRegion(rid) => Err(MemoryFault::InvalidRegion(rid)),
            AccessCheck::Denied(rid) => Err(MemoryFault::AccessDenied(rid)),
            AccessCheck::Allowed(rid) => if data.len() > self.regions()[rid].size {
                Err(MemoryFault::DataTooLarge(data.len(), self.regions()[rid].size as nat))
            } else {
                match self.own_data() {
                    None => Ok(data),
                    Some(d) => Ok(written(d, data)),
                }
            },
        }
    }

    fn lookup(&self, address: GlobalAddress, write: bool) -> (r: Result<(u128, usize), MemoryError>)
        requires
            self.wf(),
        ensures
            match self.access_check(address, write) {
                AccessCheck::NoAddress => r matches Err(MemoryError::AddressNotFound { address: a }) && a == address,
                AccessCheck::NoRegion(rid) => r matches Err(MemoryError::InvalidRegion { region_id }) && region_id == rid,
                AccessCheck::Denied(rid) => r matches Err(MemoryError::AccessDenied { operation, region_id })
                    && region_id == rid && operation@ == (if write {
                    "write"@
                } else {
                    "read"@
                }),
                AccessCheck::Allowed(rid) => r matches Ok((x, i)) && x == rid && i < self.memory_regions@.len()
                    && self.memory_regions@[i as int] == self.regions()[rid],
            },
    {
        match find_key(&self.global_address_space, address.0 as u128) {
            None => Err(MemoryError::AddressNotFound { address }),
            Some(a) => {
                let rid = self.global_address_space[a].region_id;
                proof {
                    crate::keyed::lemma_key_index(self.global_address_space@, a as int);
                }
                match find_key(&self.memory_regions, rid) {
                    None => Err(MemoryError::InvalidRegion { region_id: rid }),
                    Some(i) => {
                        proof {
                            crate::keyed::lemma_key_index(self.memory_regions@, i as int);
                        }
                        let perms = self.memory_regions[i].permissions;
                        if write && !perms.writable {
                            Err(MemoryError::AccessDenied { operation: string_of("write"), region_id: rid })
                        } else if !write && !perms.readable {
                            Err(MemoryError::AccessDenied { operation: string_of("read"), region_id: rid })
                        } else {
                            Ok((rid, i))
                        }
                    },
                }
            },
        }
    }

    /// Reads `size` bytes at `address` from this node's memory (see
    /// `read_outcome`). A successful read counts one read and one operation;
    /// nothing else changes.
    pub fn read(&mut self, address: GlobalAddress, size: usize) -> (r: Result<Vec<u8>, MemoryError>)
        requires
            old(self).wf(),
            old(self).access_statistics.total_reads < u64::MAX,
            old(self).access_statistics.total_operations < u64::MAX,
        ensures
            final(self).wf(),
            final(self).node_id == old(self).node_id,
            final(self).regions() == old(self).regions(),
            final(self).addresses() == old(self).addresses(),
            final(self).memory() == old(self).memory(),
            final(self).coordinators() == old(self).coordinators(),
            final(self).max_memory_mb == old(self).max_memory_mb,
            error_agrees(r, old(self).read_outcome(address, size), "read"@),
            r matches Ok(v) ==> old(self).read_outcome(address, size) == Ok::<Seq<u8>, MemoryFault>(v@)
                && final(self).access_statistics == (AccessStatistics {
                total_reads: (old(self).access_statistics.total_reads + 1) as u64,
                total_operations: (old(self).access_statistics.total_operations + 1) as u64,
                ..old(self).access_statistics
            }),
            r is Err ==> final(self).access_statistics == old(self).access_statistics,
    {
        let (_rid, _i) = match self.lookup(address, false) {
            Ok(x) => x,
            Err(e) => {
                return Err(e);
            },
        };
        let m = match find_key(&self.local_memory, self.node_id) {
            Some(m) => m,
            None => {
                return Err(MemoryError::OperationFailed { error: string_of("Node memory not found") });
            },
        };
        proof {
            crate::keyed::lemma_key_index(self.local_memory@, m as int);
        }
        if size > self.local_memory[m].data.len() {
            return Err(MemoryError::OperationFailed { error: string_of("Invalid read size") });
        }
        let data = copy_prefix(&self.local_memory[m].data, size);
        self.access_statistics.total_reads = self.access_statistics.total_reads + 1;
        self.access_statistics.total_operations = self.access_statistics.total_operations + 1;
        Ok(data)
    }

    /// Writes `data` at `address` into this node's memory (see
    /// `write_outcome`): over the start of the bytes held when they are at
    /// least as many, else in their place. A successful write counts one
    /// write and one operation; nothing else changes.
    pub fn write(&mut self, address: GlobalAddress, data: Vec<u8>) -> (r: Result<(), MemoryError>)
        requires
            old(self).wf(),
            old(self).access_statistics.total_writes < u64::MAX,
            old(self).access_statistics.total_operations < u64::MAX,
        ensures
            final(self).wf(),
            final(self).node_id == old(self).node_id,
            final(self).regions() == old(self).regions(),
            final(self).addresses() == old(self).addresses(),
            final(self).coordinators() == old(self).coordinators(),
            final(self).max_memory_mb == old(self).max_memory_mb,
            error_agrees(r, old(self).write_outcome(address, data@), "write"@),
            r is Ok ==> (old(self).write_outcome(address, data@) matches Ok(d) && final(self).memory()
                == old(self).memory().insert(
                old(self).node_id,
                NodeMemory { node_id: old(self).node_id, data: final(self).memory()[old(self).node_id].data },
            ) && final(self).own_data() == Some(d)) && final(self).access_statistics == (AccessStatistics {
                total_writes: (old(self).access_statistics.total_writes + 1) as u64,
                total_operations: (old(self).access_statistics.total_operations + 1) as u64,
                ..old(self).access_statistics
            }),
            r is Err ==> final(self).access_statistics == old(self).access_statistics && final(self).memory()
                == old(self).memory(),
    {
        let (_rid, i) = match self.lookup(address, true) {
            Ok(x) => x,
            Err(e) => {
                return Err(e);
            },
        };
        let region_size = self.memory_regions[i].size;
        if data.len() > region_size {
            let mut error = string_of("Data size ");
            push_decimal(&mut error, data.len() as u64);
            push_text(&mut error, " exceeds region size ");
            push_decimal(&mut error, region_size as u64);
            return Err(MemoryError::OperationFailed { error });
        }
        let node = self.node_id;
        let ghost before = self.memory();
        let buf = match remove_key(&mut self.local_memory, node) {
            Some(mut nm) => {
                if nm.data.len() >= data.len() {
                    overwrite_prefix(&mut nm.data, &data);
                    nm.data
                } else {
                    data
                }
            },
            None => data,
        };
        let ghost newbuf = buf@;
        upsert(&mut self.local_memory, NodeMemory { node_id: node, data: buf });
        proof {
            assert(self.memory() =~= before.insert(node, self.memory()[node]));
        }
        self.access_statistics.total_writes = self.access_statistics.total_writes + 1;
        self.access_statistics.total_operations = self.access_statistics.total_operations + 1;
        Ok(())
    }

    /// Compare-and-swap at `address`: reads as many bytes as `expected`
    /// holds and, when they equal `expected`, writes `new_value`. Says
    /// whether the swap happened. Refused like a write when the region is
    /// missing or not writable; a failing read or write fails the whole.
    /// One more operation is counted when it succeeds.
    pub fn compare_and_swap(&mut self, address: GlobalAddress, expected: Vec<u8>, new_value: Vec<u8>) -> (r: Result<
        bool,
        MemoryError,
    >)
        requires
            old(self).wf(),
            old(self).access_statistics.total_reads < u64::MAX,
            old(self).access_statistics.total_writes < u64::MAX,
            old(self).access_statistics.total_operations < u64::MAX - 2,
        ensures
            final(self).wf(),
            final(self).node_id == old(self).node_id,
            final(self).regions() == old(self).regions(),
            final(self).addresses() == old(self).addresses(),
            old(self).access_check(address, true) matches AccessCheck::Allowed(_) ==> match old(self).read_outcome(
                address,
                expected@.len() as usize,
            ) {
                Err(f) => error_agrees(r, Err::<Seq<u8>, MemoryFault>(f), "read"@),
                Ok(cur) => if cur == expected@ {
                    &&& error_agrees(r, old(self).write_outcome(address, new_value@), "write"@)
                    &&& r matches Ok(b) ==> (b && (old(self).write_outcome(address, new_value@) matches Ok(d)
                        && final(self).own_data() == Some(d)))
                } else {
                    r == Ok::<bool, MemoryError>(false) && final(self).memory() == old(self).memory()
                },
            },
            !(old(self).access_check(address, true) is Allowed) ==> error_agrees(
                r,
                match old(self).access_check(address, true) {
                    AccessCheck::NoAddress => Err(MemoryFault::AddressNotFound),
                    AccessCheck::NoRegion(rid) => Err(MemoryFault::InvalidRegion(rid)),
                    AccessCheck::Denied(rid) => Err(MemoryFault::AccessDenied(rid)),
                    AccessCheck::Allowed(_) => Ok(Seq::empty()),
                },
                "compare_and_swap"@,
            ) && final(self).memory() == old(self).memory(),
    {
        match self.lookup(address, true) {
            Ok(_) => {},
            Err(e) => {
                return Err(match e {
                    MemoryError::AccessDenied { operation: _, region_id } => MemoryError::AccessDenied {
                        operation: string_of("compare_and_swap"),
                        region_id,
                    },
                    other => other,
                });
            },
        }
        let ghost before = *self;
        let old_value = match self.read(address, expected.len()) {
            Ok(v) => v,
            Err(e) => {
                return Err(e);
            },
        };
        let success = bytes_equal(&old_value, &expected);
        if success {
            proof {
                assert(self.write_outcome(address, new_value@) == before.write_outcome(address, new_value@));
            }
            match self.write(address, new_value) {
                Ok(()) => {},
                Err(e) => {
                    return Err(e);
                },
            }
        }
        self.access_statistics.total_operations = self.access_statistics.total_operations + 1;
        Ok(success)
    }

    /// Releases region `region_id`: it leaves the regions, every address
    /// registered to it leaves the address space, and its coordinator goes.
    /// `InvalidRegion` when there is no such region.
    pub fn release_region(&mut self, region_id: u128) -> (r: Result<(), MemoryError>)
        requires
            old(self).wf(),
        ensures
            final(self).wf(),
            final(self).node_id == old(self).node_id,
            final(self).memory() == old(self).memory(),
            !old(self).regions().contains_key(region_id) ==> (r matches Err(MemoryError::InvalidRegion { region_id: x })
                && x == region_id) && final(self).regions() == old(self).regions() && final(self).addresses()
                == old(self).addresses() && final(self).coordinators() == old(self).coordinators(),
            old(self).regions().contains_key(region_id) ==> r is Ok && final(self).regions() == old(self).regions().remove(
                region_id,
            ) && final(self).coordinators() == old(self).coordinators().remove(region_id),
            old(self).regions().contains_key(region_id) ==> forall|a: u128|
                #[trigger] final(self).addresses().contains_key(a) == (old(self).addresses().contains_key(a)
                    && old(self).addresses()[a].region_id != region_id),
            old(self).regions().contains_key(region_id) ==> forall|a: u128|
                #[trigger] final(self).addresses().contains_key(a) ==> final(self).addresses()[a] == old(
                    self,
                ).addresses()[a],
    {
        match remove_key(&mut self.memory_regions, region_id) {
            None => {
                return Err(MemoryError::InvalidRegion { region_id });
            },
            Some(_) => {},
        }
        let ghost before = self.global_address_space@;
        let mut kept: Vec<AddressEntry> = Vec::new();
        let mut i: usize = 0;
        while i < self.global_address_space.len()
            invariant
                i <= self.global_address_space@.len(),
                self.global_address_space@ == before,
                unique_keys(before),
                unique_keys(kept@),
                forall|a: u128|
                    #[trigger] key_map(kept@).contains_key(a) == (key_map(before.take(i as int)).contains_key(a)
                        && key_map(before.take(i as int))[a].region_id != region_id),
                forall|a: u128|
                    #[trigger] key_map(kept@).contains_key(a) ==> key_map(kept@)[a] == key_map(before.take(i as int))[a],
            decreases before.len() - i,
        {
            let e = self.global_address_space[i];
            let ghost pre = before.take(i as int);
            proof {
                assert(before.take(i + 1) =~= pre.push(e));
                assert(unique_keys(pre.push(e))) by {
                    assert forall|a: int, b: int| 0 <= a < b < pre.push(e).len() implies (#[trigger] pre.push(e)[a]).key_of()
                        != (#[trigger] pre.push(e)[b]).key_of() by {
                        assert(before[a].key_of() != before[b].key_of());
                    }
                }
                crate::keyed::lemma_key_map_push(pre, e);
            }
            if e.region_id != region_id {
                proof {
                    if has_key(kept@, e.key_of()) {
                        assert(key_map(kept@).contains_key(e.key_of()));
                        assert(key_map(pre).contains_key(e.key_of()));
                        let k = choose|k: int| 0 <= k < pre.len() && (#[trigger] pre[k]).key_of() == e.key_of();
                        assert(before[k].key_of() != before[i as int].key_of());
                    }
                }
                upsert(&mut kept, e);
            } else {
                proof {
                    if key_map(pre).contains_key(e.key_of()) {
                        let k = choose|k: int| 0 <= k < pre.len() && (#[trigger] pre[k]).key_of() == e.key_of();
                        assert(before[k].key_of() != before[i as int].key_of());
                    }
                }
            }
            i = i + 1;
        }
        proof {
            assert(before.take(before.len() as int) =~= before);
        }
        self.global_address_space = kept;
        let _ = remove_key(&mut self.consistency_coordinators, region_id);
        Ok(())
    }

    /// The identifiers of the regions, in table order.
    pub fn list_regions(&self) -> (ids: Vec<u128>)
        ensures
            ids@ == crate::keyed::keys_of(self.memory_regions@),
    {
        let mut ids: Vec<u128> = Vec::new();
        let mut i: usize = 0;
        while i < self.memory_regions.len()
            invariant
                i <= self.memory_regions@.len(),
                ids@ == crate::keyed::keys_of(self.memory_regions@.take(i as int)),
            decreases self.memory_regions@.len() - i,
        {
            ids.push(self.memory_regions[i].id);
            i = i + 1;
            assert(ids@ =~= crate::keyed::keys_of(self.memory_regions@.take(i as int)));
        }
        assert(self.memory_regions@.take(self.memory_regions@.len() as int) =~= self.memory_regions@);
        ids
    }

    /// Maps `global_address` with the given permissions: the mapping covers
    /// the whole region at local address zero. Counts one read and one
    /// operation, and one more access of the region at time `now`.
    /// `AddressNotFound` or `InvalidRegion` when the address leads nowhere.
    pub fn map_address(&mut self, global_address: GlobalAddress, permissions: MemoryPermissions, now: u64) -> (r:
        Result<MemoryMapping, MemoryError>)
        requires
            old(self).wf(),
            old(self).access_statistics.total_reads < u64::MAX,
            old(self).access_statistics.total_operations < u64::MAX,
            forall|id: u128| #[trigger] old(self).regions().contains_key(id) ==> old(self).regions()[id].access_count < u64::MAX,
        ensures
            final(self).wf(),
            final(self).addresses() == old(self).addresses(),
            final(self).memory() == old(self).memory(),
            old(self).region_at(global_address) is None ==> r is Err,
            old(self).region_at(global_address) matches Some(reg) ==> r == Ok::<MemoryMapping, MemoryError>(
                MemoryMapping { global_address, local_address: LocalAddress(0), size: reg.size, permissions },
            ) && final(self).regions() == old(self).regions().insert(
                reg.id,
                MemoryRegion { last_accessed: now, access_count: (reg.access_count + 1) as u64, ..reg },
            ),
    {
        let a = match find_key(&self.global_address_space, global_address.0 as u128) {
            None => {
                return Err(MemoryError::AddressNotFound { address: global_address });
            },
            Some(a) => a,
        };
        proof {
            crate::keyed::lemma_key_index(self.global_address_space@, a as int);
        }
        let rid = self.global_address_space[a].region_id;
        let mut region = match remove_key(&mut self.memory_regions, rid) {
            None => {
                return Err(MemoryError::InvalidRegion { region_id: rid });
            },
            Some(reg) => reg,
        };
        let size = region.size;
        region.last_accessed = now;
        region.access_count = region.access_count + 1;
        upsert(&mut self.memory_regions, region);
        proof {
            assert(self.regions() =~= old(self).regions().insert(rid, self.regions()[rid]));
        }
        self.access_statistics.total_operations = self.access_statistics.total_operations + 1;
        self.access_statistics.total_reads = self.access_statistics.total_reads + 1;
        Ok(MemoryMapping { global_address, local_address: LocalAddress(0), size, permissions })
    }

    /// Queues a memory barrier from this node at time `now`, with a random
    /// operation number, a one-second timeout and no target region.
    pub fn sync(&mut self, now: u64)
        ensures
            final(self).pending_operations@.len() == old(self).pending_operations@.len() + 1,
            final(self).regions() == old(self).regions(),
            final(self).addresses() == old(self).addresses(),
            final(self).memory() == old(self).memory(),
            final(self).coordinators() == old(self).coordinators(),
            final(self).access_statistics == old(self).access_statistics,
            final(self).node_id == old(self).node_id,
            final(self).max_memory_mb == old(self).max_memory_mb,
            ({
                let p = final(self).pending_operations@.last();
                &&& p.operation is MemoryBarrier
                &&& p.source_node == old(self).node_id
                &&& p.target_region == 0
                &&& p.timestamp == now
                &&& p.retries == 0
                &&& p.timeout == 1000
            }),
    {
        let operation_id = (fresh_id() % 0x1_0000_0000_0000_0000) as u64;
        self.pending_operations.push(
            PendingOperation {
                operation: MemoryOperation::MemoryBarrier { operation_id },
                source_node: self.node_id,
                target_region: 0,
                timestamp: now,
                retries: 0,
                timeout: 1000,
            },
        );
    }
}

/// Kinds of failed memory accesses.
pub enum MemoryFault {
    AddressNotFound,
    InvalidRegion(u128),
    AccessDenied(u128),
    NodeMemoryMissing,
    InvalidReadSize,
    DataTooLarge(nat, nat),
}

/// What an access to an address finds.
pub enum AccessCheck {
    NoAddress,
    NoRegion(u128),
    Denied(u128),
    Allowed(u128),
}

/// Whether an error result is the error of a failed access `f`, for an
/// operation named `op`, and a success is not a failure.
pub open spec fn error_agrees<T>(r: Result<T, MemoryError>, o: Result<Seq<u8>, MemoryFault>, op: Seq<char>) -> bool {
    match o {
        Ok(_) => r is Ok,
        Err(f) => match f {
            MemoryFault::AddressNotFound => r matches Err(MemoryError::AddressNotFound { .. }),
            MemoryFault::InvalidRegion(rid) => r matches Err(MemoryError::InvalidRegion { region_id }) && region_id == rid,
            MemoryFault::AccessDenied(rid) => r matches Err(MemoryError::AccessDenied { operation, region_id })
                && region_id == rid && operation@ == op,
            MemoryFault::NodeMemoryMissing => r matches Err(MemoryError::OperationFailed { error }) && error@
                == "Node memory not found"@,
            MemoryFault::InvalidReadSize => r matches Err(MemoryError::OperationFailed { error }) && error@
                == "Invalid read size"@,
            MemoryFault::DataTooLarge(n, size) => r matches Err(MemoryError::OperationFailed { error }) && error@
                == "Data size "@ + decimal_text(n) + " exceeds region size "@ + decimal_text(size),
        },
    }
}

/// Reading back right after a successful write: once `data` has been
/// written at an address of a readable region, reading as many bytes there
/// gives `data` back. (`after` is the state `write` leaves: same regions and
/// address space, this node holding the bytes `write_outcome` gives.)
pub proof fn lemma_read_after_write(before: DistributedMemory, after: DistributedMemory, address: GlobalAddress, data: Seq<u8>)
    requires
        before.wf(),
        after.wf(),
        data.len() <= usize::MAX,
        after.node_id == before.node_id,
        after.regions() == before.regions(),
        after.addresses() == before.addresses(),
        before.access_check(address, false) is Allowed,
        before.write_outcome(address, data) matches Ok(d) && after.own_data() == Some(d),
    ensures
        after.read_outcome(address, data.len() as usize) == Ok::<Seq<u8>, MemoryFault>(data),
{
    let d = after.own_data().unwrap();
    assert(after.access_check(address, false) == before.access_check(address, false));
    match before.own_data() {
        None => {
            assert(d == data);
            assert(d.take(data.len() as int) =~= data);
        },
        Some(old_bytes) => {
            assert(d == written(old_bytes, data));
            assert(d.take(data.len() as int) =~= data);
        },
    }
}

/// A value shared between nodes, with the version of the last write, its
/// time in milliseconds since the Unix epoch, and its writer.
pub struct SharedValue<T> {
    pub value: T,
    pub version: u64,
    pub timestamp: u64,
    pub writer_id: u128,
}

impl<T> SharedValue<T> {
    /// Version zero of `value`, written by `writer_id` now.
    pub fn new(value: T, writer_id: u128) -> (s: Self)
        ensures
            s.value == value,
            s.version == 0,
            s.writer_id == writer_id,
    {
        SharedValue { value, version: 0, timestamp: now_millis(), writer_id }
    }

    /// Version zero of `initial_value`, by a fresh writer.
    pub fn create(initial_value: T) -> (s: Self)
        ensures
            s.value == initial_value,
            s.version == 0,
    {
        SharedValue::new(initial_value, fresh_id())
    }

    /// Writes `new_value` as the next version, by `writer_id`, now.
    pub fn update(&mut self, new_value: T, writer_id: u128)
        requires
            old(self).version < u64::MAX,
        ensures
            final(self).value == new_value,
            final(self).version == old(self).version + 1,
            final(self).writer_id == writer_id,
    {
        self.value = new_value;
        self.version = self.version + 1;
        self.timestamp = now_millis();
        self.writer_id = writer_id;
    }

    /// The current value.
    pub fn read(&self) -> (v: &T)
        ensures
            *v == self.value,
    {
        &self.value
    }

    /// Writes `new_value` by `writer_id` when the current value equals
    /// `expected`, and says whether it did.
    pub fn compare_and_swap(&mut self, expected: T, new_value: T, writer_id: u128) -> (swapped: bool) where T: PartialEq
        requires
            old(self).version < u64::MAX,
        ensures
            T::obeys_eq_spec() ==> swapped == old(self).value.eq_spec(&expected),
            swapped ==> final(self).value == new_value && final(self).version == old(self).version + 1
                && final(self).writer_id == writer_id,
            !swapped ==> *final(self) == *old(self),
    {
        if self.value == expected {
            self.update(new_value, writer_id);
            true
        } else {
            false
        }
    }
}

/// Whether two byte strings are equal.
pub fn bytes_equal(a: &Vec<u8>, b: &Vec<u8>) -> (eq: bool)
    ensures
        eq == (a@ == b@),
{
    if a.len() != b.len() {
        return false;
    }
    let mut i: usize = 0;
    while i < a.len()
        invariant
            a@.len() == b@.len(),
            i <= a@.len(),
            forall|j: int| 0 <= j < i ==> a@[j] == b@[j],
        decreases a@.len() - i,
    {
        if a[i] != b[i] {
            return false;
        }
        i = i + 1;
    }
    assert(a@ =~= b@);
    true
}

/// The first `n` bytes of `v`.
pub fn copy_prefix(v: &Vec<u8>, n: usize) -> (c: Vec<u8>)
    requires
        n <= v@.len(),
    ensures
        c@ == v@.take(n as int),
{
    let mut c: Vec<u8> = Vec::new();
    let mut i: usize = 0;
    while i < n
        invariant
            i <= n,
            n <= v@.len(),
            c@ == v@.take(i as int),
        decreases n - i,
    {
        c.push(v[i]);
        i = i + 1;
        assert(c@ =~= v@.take(i as int));
    }
    c
}

/// Overwrites the start of `buf` with `data`.
pub fn overwrite_prefix(buf: &mut Vec<u8>, data: &Vec<u8>)
    requires
        data@.len() <= old(buf)@.len(),
    ensures
        final(buf)@ == written(old(buf)@, data@),
{
    let mut i: usize = 0;
    while i < data.len()
        invariant
            i <= data@.len(),
            data@.len() <= buf@.len(),
            buf@.len() == old(buf)@.len(),
            forall|j: int| 0 <= j < i ==> buf@[j] == data@[j],
            forall|j: int| i <= j < buf@.len() ==> buf@[j] == old(buf)@[j],
        decreases data@.len() - i,
    {
        buf.set(i, data[i]);
        i = i + 1;
    }
    assert(buf@ =~= written(old(buf)@, data@));
}

/// `n` zero bytes.
pub fn zero_bytes(n: usize) -> (v: Vec<u8>)
    ensures
        v@ == Seq::new(n as nat, |i: int| 0u8),
{
    let mut v: Vec<u8> = Vec::new();
    let mut i: usize = 0;
    while i < n
        invariant
            i <= n,
            v@ == Seq::new(i as nat, |j: int| 0u8),
        decreases n - i,
    {
        v.push(0);
        i = i + 1;
        assert(v@ =~= Seq::new(i as nat, |j: int| 0u8));
    }
    v
}

impl AccessStatistics {
    /// All counters at zero.
    pub open spec fn zero() -> AccessStatistics {
        AccessStatistics {
            total_reads: 0,
            total_writes: 0,
            total_operations: 0,
            network_traffic_mb: 0,
            average_latency: 0,
            consistency_violations: 0,
            deadlock_count: 0,
            starve_count: 0,
        }
    }
}

} // verus!
