//! Container resource limits: which limits are acceptable, what each
//! controller is given for them, the cgroup files and values that carry
//! them, the limits in force per container, and the reading of process
//! figures from `/proc`.
use vstd::prelude::*;
use crate::containers::{ContainerError, ResourceLimits};
use crate::containers::security::{join_path, joined_path};
use crate::encoding::{
    ParseFault, lines, lines_of, parse_fault_text, parse_u64, parse_u64_text, pieces, split_char, split_whitespace,
    words,
};
use crate::keyed::{Named, find_name, name_map, remove_named, unique_names, upsert_named};
use crate::text::{has_prefix, push_text, starts_with, string_of};

verus! {

/// One tebibyte, the largest memory limit accepted.
pub const MAX_MEMORY_BYTES: u64 = 1099511627776;

/// The verdict on a set of limits: the CPU share must be above zero and
/// at most a thousand cores, memory above zero and at most a tebibyte, disk
/// above zero. `None` when they are acceptable, else the error's kind
/// (`true` for an exceeded limit, `false` for a bad configuration) and
/// message.
pub open spec fn limits_verdict(l: ResourceLimits) -> Option<(bool, Seq<char>)> {
    if l.cpu_millicores matches Some(m) && (m == 0 || m > 1_000_000) {
        Some((false, "CPU cores must be between 0 and 1000"@))
    } else if l.memory_bytes matches Some(m) && m == 0 {
        Some((false, "Memory limit must be greater than 0"@))
    } else if l.memory_bytes matches Some(m) && m > MAX_MEMORY_BYTES {
        Some((true, "Memory limit exceeds maximum allowed"@))
    } else if l.disk_bytes matches Some(d) && d == 0 {
        Some((false, "Disk limit must be greater than 0"@))
    } else {
        None
    }
}

/// Whether `r` is the outcome the verdict describes.
pub open spec fn limits_outcome<T>(r: Result<T, ContainerError>, v: Option<(bool, Seq<char>)>) -> bool {
    match v {
        None => r is Ok,
        Some((exceeded, m)) => if exceeded {
            r matches Err(ContainerError::ResourceLimit(x)) && x@ == m
        } else {
            r matches Err(ContainerError::InvalidConfig(x)) && x@ == m
        },
    }
}

/// Checks a set of limits (see `limits_verdict`).
pub fn validate_limits(limits: &ResourceLimits) -> (r: Result<(), ContainerError>)
    ensures
        limits_outcome(r, limits_verdict(*limits)),
{
    if let Some(m) = limits.cpu_millicores {
        if m == 0 || m > 1_000_000 {
            return Err(ContainerError::InvalidConfig(string_of("CPU cores must be between 0 and 1000")));
        }
    }
    if let Some(m) = limits.memory_bytes {
        if m == 0 {
            return Err(ContainerError::InvalidConfig(string_of("Memory limit must be greater than 0")));
        }
        if m > MAX_MEMORY_BYTES {
            return Err(ContainerError::ResourceLimit(string_of("Memory limit exceeds maximum allowed")));
        }
    }
    if let Some(d) = limits.disk_bytes {
        if d == 0 {
            return Err(ContainerError::InvalidConfig(string_of("Disk limit must be greater than 0")));
        }
    }
    Ok(())
}

/// The CPU scheduling of a container: quota and period in microseconds,
/// and the relative weight.
#[derive(Clone, Copy, PartialEq, Eq, Debug, Structural)]
pub struct CpuAllocation {
    pub quota: Option<i64>,
    pub period: Option<i64>,
    pub shares: Option<i64>,
}

/// The memory of a container, in bytes.
#[derive(Clone, Copy, PartialEq, Eq, Debug, Structural)]
pub struct MemoryAllocation {
    pub limit: Option<u64>,
    pub swap_limit: Option<u64>,
    pub soft_limit: Option<u64>,
}

/// The disk of a container.
#[derive(Clone, Copy, PartialEq, Eq, Debug, Structural)]
pub struct DiskAllocation {
    pub quota: Option<u64>,
    pub io_weight: Option<u32>,
}

/// The network of a container.
#[derive(Clone, Copy, PartialEq, Eq, Debug, Structural)]
pub struct NetworkAllocation {
    pub bandwidth_limit: Option<u64>,
}

/// What a container uses. The CPU usage is the bit pattern of a double.
#[derive(Clone, Copy, PartialEq, Eq, Debug, Structural)]
pub struct ResourceUsage {
    pub cpu_usage: u64,
    pub memory_usage: u64,
    pub disk_usage: u64,
    pub network_usage: u64,
}

/// What a container is given.
#[derive(Clone, Copy, PartialEq, Eq, Debug, Structural)]
pub struct ResourceAllocation {
    pub cpu: CpuAllocation,
    pub memory: MemoryAllocation,
    pub disk: DiskAllocation,
    pub network: NetworkAllocation,
}

/// The CPU period, 100 ms in microseconds.
pub const CPU_PERIOD_US: i64 = 100000;

/// What each controller gives for acceptable limits: the CPU quota of a
/// thousandth of a core per microsecond of a 100 ms period, the memory
/// limit also as swap limit with a soft limit of 80%, the disk quota and
/// the bandwidth limit.
pub open spec fn allocation_for(l: ResourceLimits) -> ResourceAllocation {
    ResourceAllocation {
        cpu: CpuAllocation {
            quota: match l.cpu_millicores {
                Some(m) => Some(m as i64),
                None => None,
            },
            period: Some(CPU_PERIOD_US),
            shares: None,
        },
        memory: MemoryAllocation {
            limit: l.memory_bytes,
            swap_limit: l.memory_bytes,
            soft_limit: match l.memory_bytes {
                Some(m) => Some((m * 80 / 100) as u64),
                None => None,
            },
        },
        disk: DiskAllocation { quota: l.disk_bytes, io_weight: None },
        network: NetworkAllocation { bandwidth_limit: l.network_bandwidth },
    }
}

/// The CPU weight of a share of `millicores`: 1024 per core.
pub open spec fn cpu_shares(millicores: u64) -> int {
    millicores * 1024 / 1000
}

/// The cgroup controllers set up for every container.
pub open spec fn controllers() -> Seq<Seq<char>> {
    seq!["cpu"@, "memory"@, "blkio"@, "devices"@, "freezer"@]
}

/// The limits in force for one container.
pub struct LimitsEntry {
    pub container_id: String,
    pub limits: ResourceLimits,
}

impl Named for LimitsEntry {
    open spec fn name_of(&self) -> Seq<char> {
        self.container_id@
    }

    fn name(&self) -> (k: &str) {
        self.container_id.as_str()
    }
}

/// The CPU controller's cgroup directory.
pub struct CpuResourceManager {
    pub cgroup_path: String,
}

impl CpuResourceManager {
    /// `/sys/fs/cgroup/multios/cpu`.
    pub fn new() -> (m: Self)
        ensures
            m.cgroup_path@ == "/sys/fs/cgroup/multios/cpu"@,
    {
        CpuResourceManager { cgroup_path: string_of("/sys/fs/cgroup/multios/cpu") }
    }
}

/// The memory controller's cgroup directory.
pub struct MemoryResourceManager {
    pub cgroup_path: String,
}

impl MemoryResourceManager {
    /// `/sys/fs/cgroup/multios/memory`.
    pub fn new() -> (m: Self)
        ensures
            m.cgroup_path@ == "/sys/fs/cgroup/multios/memory"@,
    {
        MemoryResourceManager { cgroup_path: string_of("/sys/fs/cgroup/multios/memory") }
    }
}

/// The block I/O controller's cgroup directory.
pub struct DiskResourceManager {
    pub cgroup_path: String,
}

impl DiskResourceManager {
    /// `/sys/fs/cgroup/multios/blkio`.
    pub fn new() -> (m: Self)
        ensures
            m.cgroup_path@ == "/sys/fs/cgroup/multios/blkio"@,
    {
        DiskResourceManager { cgroup_path: string_of("/sys/fs/cgroup/multios/blkio") }
    }
}

/// The network classifier's cgroup directory.
pub struct NetworkResourceManager {
    pub cgroup_path: String,
}

impl NetworkResourceManager {
    /// `/sys/fs/cgroup/net_cls`.
    pub fn new() -> (m: Self)
        ensures
            m.cgroup_path@ == "/sys/fs/cgroup/net_cls"@,
    {
        NetworkResourceManager { cgroup_path: string_of("/sys/fs/cgroup/net_cls") }
    }
}

/// Resource management: the cgroup root, the controllers, and the limits
/// in force for each container.
pub struct ResourceManager {
    pub cgroup_root: String,
    pub cpu_manager: CpuResourceManager,
    pub memory_manager: MemoryResourceManager,
    pub disk_manager: DiskResourceManager,
    pub network_manager: NetworkResourceManager,
    pub active_limits: Vec<LimitsEntry>,
}

impl ResourceManager {
    /// The invariant: one entry per container.
    pub open spec fn wf(&self) -> bool {
        unique_names(self.active_limits@)
    }

    /// The limits in force, by container.
    pub open spec fn limits_in_force(&self) -> Map<Seq<char>, LimitsEntry> {
        name_map(self.active_limits@)
    }

    /// Controllers under `/sys/fs/cgroup/multios`, no limits in force.
    pub fn new() -> (m: Self)
        ensures
            m.wf(),
            m.cgroup_root@ == "/sys/fs/cgroup/multios"@,
            m.limits_in_force() == Map::<Seq<char>, LimitsEntry>::empty(),
    {
        let m = ResourceManager {
            cgroup_root: string_of("/sys/fs/cgroup/multios"),
            cpu_manager: CpuResourceManager::new(),
            memory_manager: MemoryResourceManager::new(),
            disk_manager: DiskResourceManager::new(),
            network_manager: NetworkResourceManager::new(),
            active_limits: Vec::new(),
        };
        assert(m.limits_in_force() =~= Map::<Seq<char>, LimitsEntry>::empty());
        m
    }

    /// What a container gets for `limits`: refused as `validate_limits`
    /// says, else the allocation of each controller.
    pub fn allocate_resources(&self, limits: &ResourceLimits) -> (r: Result<ResourceAllocation, ContainerError>)
        ensures
            limits_outcome(r, limits_verdict(*limits)),
            r matches Ok(a) ==> a == allocation_for(*limits),
    {
        match validate_limits(limits) {
            Err(e) => {
                return Err(e);
            },
            Ok(()) => {},
        }
        let quota = match limits.cpu_millicores {
            Some(m) => Some(m as i64),
            None => None,
        };
        let soft = match limits.memory_bytes {
            Some(m) => Some(m * 80 / 100),
            None => None,
        };
        Ok(
            ResourceAllocation {
                cpu: CpuAllocation { quota, period: Some(CPU_PERIOD_US), shares: None },
                memory: MemoryAllocation { limit: limits.memory_bytes, swap_limit: limits.memory_bytes, soft_limit: soft },
                disk: DiskAllocation { quota: limits.disk_bytes, io_weight: None },
                network: NetworkAllocation { bandwidth_limit: limits.network_bandwidth },
            },
        )
    }

    /// Records `limits` as in force for container `container_id`.
    pub fn record_limits(&mut self, container_id: &str, limits: ResourceLimits)
        requires
            old(self).wf(),
        ensures
            final(self).wf(),
            final(self).limits_in_force() == old(self).limits_in_force().insert(
                container_id@,
                final(self).limits_in_force()[container_id@],
            ),
            final(self).limits_in_force()[container_id@].limits == limits,
    {
        upsert_named(&mut self.active_limits, LimitsEntry { container_id: string_of(container_id), limits });
    }

    /// Forgets the limits of container `container_id`.
    pub fn release_limits(&mut self, container_id: &str)
        requires
            old(self).wf(),
        ensures
            final(self).wf(),
            final(self).limits_in_force() == old(self).limits_in_force().remove(container_id@),
    {
        let _ = remove_named(&mut self.active_limits, container_id);
    }

    /// The cgroup directory of container `container_id`.
    pub fn container_cgroup(&self, container_id: &str) -> (p: String)
        ensures
            p@ == joined_path(self.cgroup_root@, container_id@),
    {
        join_path(self.cgroup_root.as_str(), container_id)
    }
}

/// The cgroup files and values that carry the limits of a container, as
/// (file name, value) pairs: for a CPU share, its quota, the period and
/// its weight; for a memory limit, the limit, the swap limit and the soft
/// limit.
pub open spec fn limit_files(l: ResourceLimits) -> Seq<(Seq<char>, int)> {
    (match l.cpu_millicores {
        Some(m) => seq![
            ("cpu.cfs_quota_us"@, m as int),
            ("cpu.cfs_period_us"@, 100000int),
            ("cpu.shares"@, cpu_shares(m)),
        ],
        None => Seq::empty(),
    }) + (match l.memory_bytes {
        Some(m) => seq![
            ("memory.limit_in_bytes"@, m as int),
            ("memory.memsw.limit_in_bytes"@, m as int),
            ("memory.soft_limit_in_bytes"@, m * 80 / 100),
        ],
        None => Seq::empty(),
    })
}

/// The cgroup files and values that carry `limits` (see `limit_files`).
pub fn limit_settings(limits: &ResourceLimits) -> (v: Vec<(String, u64)>)
    requires
        limits_verdict(*limits) is None,
    ensures
        v@.map_values(|p: (String, u64)| (p.0@, p.1 as int)) == limit_files(*limits),
{
    let mut v: Vec<(String, u64)> = Vec::new();
    if let Some(m) = limits.cpu_millicores {
        v.push((string_of("cpu.cfs_quota_us"), m));
        v.push((string_of("cpu.cfs_period_us"), 100000));
        v.push((string_of("cpu.shares"), m * 1024 / 1000));
    }
    if let Some(m) = limits.memory_bytes {
        v.push((string_of("memory.limit_in_bytes"), m));
        v.push((string_of("memory.memsw.limit_in_bytes"), m));
        v.push((string_of("memory.soft_limit_in_bytes"), m * 80 / 100));
    }
    assert(v@.map_values(|p: (String, u64)| (p.0@, p.1 as int)) =~= limit_files(*limits));
    v
}

/// The resident memory, in kilobytes, that a `/proc/<pid>/status` text
/// reports: the first line starting with `VmRSS:` gives it as its second
/// word; no such line with two words means zero.
pub open spec fn vm_rss_kb(lines: Seq<Seq<char>>) -> Result<nat, ParseFault>
    decreases lines.len(),
{
    if lines.len() == 0 {
        Ok(0)
    } else if has_prefix(lines[0], "VmRSS:"@) && words(lines[0]).len() >= 2 {
        parse_u64_text(words(lines[0])[1])
    } else {
        vm_rss_kb(lines.drop_first())
    }
}

/// The resident memory of a process, in bytes, from its
/// `/proc/<pid>/status` text (see `vm_rss_kb`); a value that does not
/// parse is reported as a system error. The byte count must fit in 64 bits.
pub fn memory_usage_from_status(content: &str) -> (r: Result<u64, ContainerError>)
    requires
        vm_rss_kb(lines_of(content@)) matches Ok(kb) ==> kb * 1024 <= u64::MAX,
    ensures
        match vm_rss_kb(lines_of(content@)) {
            Ok(kb) => r == Ok::<u64, ContainerError>((kb * 1024) as u64),
            Err(f) => r matches Err(ContainerError::System(m)) && m@ == "Failed to parse VmRSS: "@ + parse_fault_text(f),
        },
{
    let ls = lines(content);
    let ghost all = lines_of(content@);
    let mut i: usize = 0;
    assert(all.skip(0) =~= all);
    while i < ls.len()
        invariant
            all == lines_of(content@),
            ls@.len() == all.len(),
            forall|j: int| 0 <= j < ls@.len() ==> #[trigger] ls@[j]@ == all[j],
            i <= ls@.len(),
            vm_rss_kb(all) == vm_rss_kb(all.skip(i as int)),
            vm_rss_kb(all) matches Ok(kb) ==> kb * 1024 <= u64::MAX,
        decreases ls@.len() - i,
    {
        let line = ls[i].as_str();
        proof {
            assert(all.skip(i as int)[0] == line@);
            assert(all.skip(i as int).drop_first() =~= all.skip(i + 1));
        }
        if starts_with(line, "VmRSS:") {
            let parts = split_whitespace(line);
            if parts.len() >= 2 {
                proof {
                    let rest = all.skip(i as int);
                    assert(rest[0] == line@);
                    assert(parts@[1]@ == words(line@)[1]);
                    assert(vm_rss_kb(rest) == parse_u64_text(words(line@)[1]));
                }
                match parse_u64(parts[1].as_str()) {
                    Ok(kb) => {
                        return Ok(kb * 1024);
                    },
                    Err(f) => {
                        let mut m = string_of("Failed to parse VmRSS: ");
                        push_text(&mut m, f.message());
                        return Err(ContainerError::System(m));
                    },
                }
            }
        }
        i = i + 1;
    }
    assert(all.skip(i as int).len() == 0);
    Ok(0)
}

/// The CPU time of a process, in clock ticks, from the fields of its
/// `/proc/<pid>/stat` text split at spaces: user time (field 14) plus
/// system time (field 15), when there are at least 42 fields.
pub open spec fn cpu_ticks(fields: Seq<Seq<char>>) -> Result<(nat, nat), StatFault> {
    if fields.len() < 42 {
        Err(StatFault::Format)
    } else {
        match parse_u64_text(fields[13]) {
            Err(f) => Err(StatFault::Utime(f)),
            Ok(u) => match parse_u64_text(fields[14]) {
                Err(f) => Err(StatFault::Stime(f)),
                Ok(s) => Ok((u, s)),
            },
        }
    }
}

/// Why a `/proc/<pid>/stat` text gives no CPU time.
pub enum StatFault {
    Format,
    Utime(ParseFault),
    Stime(ParseFault),
}

/// The message of a stat failure.
pub open spec fn stat_fault_text(f: StatFault) -> Seq<char> {
    match f {
        StatFault::Format => "Invalid stat file format"@,
        StatFault::Utime(p) => "Failed to parse utime: "@ + parse_fault_text(p),
        StatFault::Stime(p) => "Failed to parse stime: "@ + parse_fault_text(p),
    }
}

/// The CPU time of a process, in clock ticks, from its `/proc/<pid>/stat`
/// text (see `cpu_ticks`): errors for a short text or a time that does not
/// parse. The sum must fit in 64 bits.
pub fn cpu_time_from_stat(content: &str) -> (r: Result<u64, ContainerError>)
    requires
        cpu_ticks(pieces(content@, ' ')) matches Ok((u, s)) ==> u + s <= u64::MAX,
    ensures
        match cpu_ticks(pieces(content@, ' ')) {
            Ok((u, s)) => r == Ok::<u64, ContainerError>((u + s) as u64),
            Err(f) => r matches Err(ContainerError::System(m)) && m@ == stat_fault_text(f),
        },
{
    let parts = split_char(content, ' ');
    if parts.len() < 42 {
        return Err(ContainerError::System(string_of("Invalid stat file format")));
    }
    let utime = match parse_u64(parts[13].as_str()) {
        Ok(v) => v,
        Err(f) => {
            let mut m = string_of("Failed to parse utime: ");
            push_text(&mut m, f.message());
            return Err(ContainerError::System(m));
        },
    };
    let stime = match parse_u64(parts[14].as_str()) {
        Ok(v) => v,
        Err(f) => {
            let mut m = string_of("Failed to parse stime: ");
            push_text(&mut m, f.message());
            return Err(ContainerError::System(m));
        },
    };
    Ok(utime + stime)
}

} // verus!
