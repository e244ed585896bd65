//! The container runtime's decisions: where a container's files lie, which
//! namespaces it is given, what running a command, reading logs, waiting,
//! attaching and gathering statistics come to. Forking, executing and
//! reading files are left to the caller, which hands this module what they
//! gave. Times are in milliseconds since the Unix epoch.
use vstd::prelude::*;
use crate::containers::{ContainerConfig, ContainerError, ContainerState, NetworkConfig, ResourceLimits};
use crate::containers::container::{Container, ContainerManager, ContainerManagerConfig};
use crate::containers::image_manager::ImageManager;
use crate::containers::network_manager::{ContainerNetwork, NetworkManager, ipv4_of};
use crate::containers::resource_manager::{LimitsEntry, ResourceManager, ResourceUsage};
use crate::containers::security::{ContextEntry, SecurityManager};
use crate::encoding::{lines, lines_of, utf8_lossy};
use vstd::utf8::{decode_utf8, valid_utf8};
use crate::ids::now_millis;
use crate::text::{push_text, string_of};

verus! {

/// What happens to containers.
pub enum RuntimeEvent {
    ContainerStarted { container_id: String },
    ContainerStopped { container_id: String },
    ContainerFailed { container_id: String, error: String },
    ContainerOomKilled { container_id: String },
    ContainerHealthCheck { container_id: String, status: HealthCheckStatus },
}

/// Health of a container.
#[derive(Clone, Copy, PartialEq, Eq, Debug, Structural)]
pub enum HealthCheckStatus {
    Healthy,
    Unhealthy,
    Unknown,
}

/// Which streams of a container to attach to.
#[derive(Clone, Copy, PartialEq, Eq, Debug, Structural)]
pub enum StreamType {
    All,
    Stdout,
    Stderr,
    Stdin,
}

/// The streams of a container: standard input, output and error.
pub struct ContainerStream {
    pub container_id: String,
    pub stream_type: StreamType,
    pub file_descriptors: (i32, i32, i32),
}

/// How a container ended.
pub struct ContainerExitInfo {
    pub container_id: String,
    pub exit_code: i32,
    pub started_at: u64,
    pub finished_at: u64,
}

/// What the runtime reports of a container. The CPU usage is the bit
/// pattern of a double; the uptime is in milliseconds.
pub struct ContainerRuntimeStats {
    pub container_id: String,
    pub cpu_usage: u64,
    pub memory_usage: u64,
    pub memory_limit: u64,
    pub disk_usage: u64,
    pub network_rx: u64,
    pub network_tx: u64,
    pub processes: Vec<u32>,
    pub file_descriptors: u64,
    pub uptime: u64,
    pub state: ContainerState,
}

/// What the runtime gathers of a container itself. The CPU usage is the
/// bit pattern of a double.
pub struct RuntimeStats {
    pub cpu_usage: u64,
    pub memory_limit: u64,
    pub processes: Vec<u32>,
    pub file_descriptors: u64,
}

/// How to attach to a container.
pub struct AttachConfig {
    pub container_id: String,
    pub detach_keys: Option<String>,
    pub tty: bool,
    pub stdin: bool,
    pub stdout: bool,
    pub stderr: bool,
}

/// How to run a command in a container; the environment is name/value
/// pairs.
pub struct ExecConfig {
    pub container_id: String,
    pub command: Vec<String>,
    pub working_dir: Option<String>,
    pub env: Vec<(String, String)>,
    pub user: Option<String>,
    pub tty: bool,
    pub attach_stdin: bool,
    pub attach_stdout: bool,
    pub attach_stderr: bool,
}

/// A port of a container published on the host.
pub struct PortMapping {
    pub container_port: u16,
    pub host_port: u16,
    pub protocol: String,
}

/// A file system mounted into a container.
pub struct Mount {
    pub source: String,
    pub target: String,
    pub filesystem_type: String,
    pub options: Vec<String>,
}

/// A namespace to set up for a container, with what it needs.
pub enum NamespaceSetup {
    /// Process identifiers, with the container's name as host name.
    Pid { hostname: String },
    /// The network, as configured.
    Network { config: NetworkConfig },
    /// Mounts, with the root file system and whether it is read-only.
    Mount { rootfs: String, read_only: bool },
    /// Users, with the user and group mappings.
    User { uid_map: String, gid_map: String },
}

/// The directory of container `id`: `/var/lib/multios/containers/<id>`.
pub open spec fn container_root_text(id: Seq<char>) -> Seq<char> {
    "/var/lib/multios/containers/"@ + id
}

/// The directory of container `id`.
pub fn container_root(container_id: &str) -> (p: String)
    ensures
        p@ == container_root_text(container_id@),
{
    let mut p = string_of("/var/lib/multios/containers/");
    push_text(&mut p, container_id);
    p
}

/// The root file system of container `id`: `<its directory>/rootfs`.
pub fn container_rootfs(container_id: &str) -> (p: String)
    ensures
        p@ == container_root_text(container_id@) + "/rootfs"@,
{
    let mut p = container_root(container_id);
    push_text(&mut p, "/rootfs");
    p
}

/// The log of container `id`: `<its directory>/logs/stdout.log`.
pub fn container_log_file(container_id: &str) -> (p: String)
    ensures
        p@ == container_root_text(container_id@) + "/logs/stdout.log"@,
{
    let mut p = container_root(container_id);
    push_text(&mut p, "/logs/stdout.log");
    p
}

/// Lines joined by line feeds.
pub open spec fn join_lines(ls: Seq<Seq<char>>) -> Seq<char>
    decreases ls.len(),
{
    if ls.len() == 0 {
        Seq::empty()
    } else if ls.len() == 1 {
        ls[0]
    } else {
        join_lines(ls.drop_last()) + "\n"@ + ls.last()
    }
}

/// The lines of `v` from `from` on, joined by line feeds.
fn join_from(v: &Vec<String>, from: usize) -> (s: String)
    requires
        from <= v@.len(),
    ensures
        s@ == join_lines(v@.skip(from as int).map_values(|l: String| l@)),
{
    let mut s = String::new();
    let mut i: usize = from;
    while i < v.len()
        invariant
            from <= i <= v@.len(),
            s@ == join_lines(v@.subrange(from as int, i as int).map_values(|l: String| l@)),
        decreases v@.len() - i,
    {
        let ghost before = v@.subrange(from as int, i as int).map_values(|l: String| l@);
        let ghost after = v@.subrange(from as int, i + 1).map_values(|l: String| l@);
        proof {
            assert(after.drop_last() =~= before);
            assert(after.last() == v@[i as int]@);
        }
        if i > from {
            push_text(&mut s, "\n");
        } else {
            assert(before.len() == 0);
        }
        push_text(&mut s, v[i].as_str());
        i = i + 1;
        proof {
            assert(s@ =~= join_lines(after));
        }
    }
    assert(v@.subrange(from as int, v@.len() as int) =~= v@.skip(from as int));
    s
}

/// The log text a container's log file gives: its last `tail` lines when
/// it has more, and, when a start time is given, its lines joined again.
pub open spec fn logs_after(content: Seq<char>, tail: Option<u32>, since: Option<u64>) -> Seq<char> {
    let ls = lines_of(content);
    let tailed = match tail {
        Some(limit) => if ls.len() > limit {
            join_lines(ls.skip(ls.len() - limit))
        } else {
            content
        },
        None => content,
    };
    match since {
        Some(_) => join_lines(lines_of(tailed)),
        None => tailed,
    }
}

/// The lines of `s` as texts.
fn line_list(s: &str) -> (v: Vec<String>)
    ensures
        v@.map_values(|l: String| l@) == lines_of(s@),
{
    let v = lines(s);
    assert(v@.map_values(|l: String| l@) =~= lines_of(s@));
    v
}

/// The containers, their images, networks, security and resources, as the
/// runtime sees them.
pub struct ContainerRuntime {
    pub container_manager: ContainerManager,
    pub image_manager: ImageManager,
    pub network_manager: NetworkManager,
    pub security_manager: SecurityManager,
    pub resource_manager: ResourceManager,
}

impl ContainerRuntime {
    /// A runtime over fresh managers with default settings.
    pub fn new() -> (r: Self)
        ensures
            r.wf(),
            r.container_manager.registry() == Map::<Seq<char>, Container>::empty(),
            r.container_manager.config == (ContainerManagerConfig {
                max_containers: 1000,
                default_resource_limits: ResourceLimits::unlimited(),
                cleanup_interval: 60_000,
                monitoring_enabled: true,
                audit_enabled: true,
            }),
            r.image_manager.image_root@ == "/var/lib/multios/images"@,
            r.image_manager.registry_path@ == "/var/lib/multios/registry"@,
            r.image_manager.layer_cache@.len() == 0,
            r.network_manager.bridge_name@ == "multios-br0"@,
            r.network_manager.network_range == ipv4_of(172, 17, 0, 0),
            r.network_manager.dns_servers@ == seq![ipv4_of(8, 8, 8, 8), ipv4_of(8, 8, 4, 4)],
            r.network_manager.networks() == Map::<Seq<char>, ContainerNetwork>::empty(),
            r.security_manager.contexts() == Map::<Seq<char>, ContextEntry>::empty(),
            r.security_manager.apparmor_manager.profile_dir@ == "/etc/multios/apparmor.d"@,
            r.security_manager.seccomp_manager.profiles_dir@ == "/etc/multios/seccomp.d"@,
            r.resource_manager.cgroup_root@ == "/sys/fs/cgroup/multios"@,
            r.resource_manager.limits_in_force() == Map::<Seq<char>, LimitsEntry>::empty(),
    {
        ContainerRuntime {
            container_manager: ContainerManager::new(ContainerManagerConfig::default()),
            image_manager: ImageManager::new(),
            network_manager: NetworkManager::new(),
            security_manager: SecurityManager::new(),
            resource_manager: ResourceManager::new(),
        }
    }

    /// The invariant: sound managers.
    pub open spec fn wf(&self) -> bool {
        &&& self.container_manager.wf()
        &&& self.image_manager.wf()
        &&& self.network_manager.wf()
        &&& self.security_manager.wf()
        &&& self.resource_manager.wf()
    }

    /// The namespaces container `container_id` with configuration `config`
    /// is given, in order: process identifiers (with its name as host
    /// name), network, mounts (on its root file system, read-only as its
    /// security says), and users (root mapped to 100000, 65536 ids), each
    /// when its namespace mode asks for it.
    pub fn setup_container_namespaces(&self, container_id: &str, config: &ContainerConfig) -> (v: Vec<
        NamespaceSetup,
    >)
        ensures
            v@.len() == (if config.namespace_mode.pid {
                1nat
            } else {
                0nat
            }) + (if config.namespace_mode.network {
                1nat
            } else {
                0nat
            }) + (if config.namespace_mode.mount {
                1nat
            } else {
                0nat
            }) + (if config.namespace_mode.user {
                1nat
            } else {
                0nat
            }),
            forall|i: int|
                0 <= i < v@.len() ==> match #[trigger] v@[i] {
                    NamespaceSetup::Pid { hostname } => config.namespace_mode.pid && i == 0 && hostname@
                        == config.name@,
                    NamespaceSetup::Network { config: n } => config.namespace_mode.network && n.network_mode@
                        == config.network.network_mode@,
                    NamespaceSetup::Mount { rootfs, read_only } => config.namespace_mode.mount && rootfs@
                        == container_root_text(container_id@) + "/rootfs"@ && read_only
                        == config.security.read_only_root,
                    NamespaceSetup::User { uid_map, gid_map } => config.namespace_mode.user && i == v@.len() - 1
                        && uid_map@ == "0 100000 65536"@ && gid_map@ == "0 100000 65536"@,
                },
    {
        let mut v: Vec<NamespaceSetup> = Vec::new();
        if config.namespace_mode.pid {
            v.push(NamespaceSetup::Pid { hostname: config.name.clone() });
        }
        if config.namespace_mode.network {
            let n = &config.network;
            v.push(
                NamespaceSetup::Network {
                    config: NetworkConfig {
                        network_mode: crate::containers::copy_mode(&n.network_mode),
                        bridge_name: crate::containers::security::copy_opt(&n.bridge_name),
                        ip_address: crate::containers::security::copy_opt(&n.ip_address),
                        mac_address: crate::containers::security::copy_opt(&n.mac_address),
                        dns_servers: crate::containers::security::copy_strings(&n.dns_servers),
                        port_mappings: crate::containers::copy_ports(&n.port_mappings),
                    },
                },
            );
        }
        if config.namespace_mode.mount {
            v.push(NamespaceSetup::Mount { rootfs: container_rootfs(container_id), read_only: config.security.read_only_root });
        }
        if config.namespace_mode.user {
            v.push(
                NamespaceSetup::User { uid_map: string_of("0 100000 65536"), gid_map: string_of("0 100000 65536") },
            );
        }
        v
    }

    /// Checks that a command may run in container `container_id`: it must
    /// exist and run (see `ContainerManager::check_exec`).
    pub fn check_exec_in_container(&self, container_id: &str) -> (r: Result<(), ContainerError>)
        requires
            self.wf(),
        ensures
            match self.container_manager.state_of(container_id@) {
                None => r matches Err(ContainerError::NotFound(m)) && m@ == container_id@,
                Some(s) => if s == ContainerState::Running {
                    r is Ok
                } else {
                    r matches Err(ContainerError::InvalidConfig(m)) && m@ == "Can only exec in running containers"@
                },
            },
    {
        self.container_manager.check_exec(container_id)
    }

    /// What running a command in a container gave: its standard output,
    /// read as UTF-8 with replacement, when it succeeded; else a system
    /// error with its standard error.
    pub fn exec_output(&self, success: bool, stdout: &[u8], stderr: &[u8]) -> (r: Result<String, ContainerError>)
        ensures
            success ==> (r matches Ok(out) && (valid_utf8(stdout@) ==> out@ == decode_utf8(stdout@))),
            !success ==> (r matches Err(ContainerError::System(m)) && (valid_utf8(stderr@) ==> m@ == "Command failed: "@
                + decode_utf8(stderr@))),
    {
        let out = utf8_lossy(stdout);
        let err = utf8_lossy(stderr);
        if !success {
            let mut m = string_of("Command failed: ");
            push_text(&mut m, err.as_str());
            return Err(ContainerError::System(m));
        }
        Ok(out)
    }

    /// The logs of container `container_id`, from the text of its log file
    /// (`None` when there is none): see `logs_after`; without a file,
    /// `No logs available`. Not found when the container does not exist.
    pub fn get_container_logs(
        &self,
        container_id: &str,
        log_content: Option<&str>,
        tail: Option<u32>,
        since: Option<u64>,
    ) -> (r: Result<String, ContainerError>)
        requires
            self.wf(),
        ensures
            !self.container_manager.registry().contains_key(container_id@) ==> (r matches Err(
                ContainerError::NotFound(m),
            ) && m@ == container_id@),
            self.container_manager.registry().contains_key(container_id@) ==> (r matches Ok(logs) && logs@
                == match log_content {
                Some(c) => logs_after(c@, tail, since),
                None => "No logs available"@,
            }),
    {
        match self.container_manager.get_container(container_id) {
            Ok(_) => {},
            Err(e) => {
                return Err(e);
            },
        }
        let content = match log_content {
            Some(c) => c,
            None => {
                return Ok(string_of("No logs available"));
            },
        };
        let ls = line_list(content);
        let tailed = match tail {
            Some(limit) => {
                if ls.len() > limit as usize {
                    let k = ls.len() - limit as usize;
                    proof {
                        assert(ls@.skip(k as int).map_values(|l: String| l@) =~= lines_of(content@).skip(
                            k as int,
                        ));
                    }
                    join_from(&ls, k)
                } else {
                    string_of(content)
                }
            },
            None => string_of(content),
        };
        let result = match since {
            Some(_) => {
                let again = line_list(tailed.as_str());
                proof {
                    assert(again@.skip(0).map_values(|l: String| l@) =~= lines_of(tailed@));
                }
                join_from(&again, 0)
            },
            None => tailed,
        };
        Ok(result)
    }

    /// How container `container_id` ended: with `exit_code`, or, when the
    /// wait timed out (`None`) and the process was killed, with 137;
    /// started when it was started (or now) and finished now. Not found
    /// when the container does not exist; refused when it has no process.
    pub fn wait_for_container(&self, container_id: &str, exit_code: Option<i32>) -> (r: Result<
        ContainerExitInfo,
        ContainerError,
    >)
        requires
            self.wf(),
        ensures
            !self.container_manager.registry().contains_key(container_id@) ==> (r matches Err(
                ContainerError::NotFound(m),
            ) && m@ == container_id@),
            self.container_manager.registry().contains_key(container_id@) ==> {
                let c = self.container_manager.registry()[container_id@];
                &&& c.pid is None ==> (r matches Err(ContainerError::InvalidConfig(m)) && m@
                    == "Container process PID not found"@)
                &&& c.pid is Some ==> (r matches Ok(info) && info.container_id@ == container_id@ && info.exit_code
                    == match exit_code {
                    Some(x) => x,
                    None => 137,
                } && info.started_at == match c.started_at {
                    Some(t) => t,
                    None => info.finished_at,
                })
            },
    {
        let c = match self.container_manager.get_container(container_id) {
            Ok(c) => c,
            Err(e) => {
                return Err(e);
            },
        };
        if c.pid.is_none() {
            return Err(ContainerError::InvalidConfig(string_of("Container process PID not found")));
        }
        let now = now_millis();
        let code = match exit_code {
            Some(x) => x,
            None => 137,
        };
        let started = match c.started_at {
            Some(t) => t,
            None => now,
        };
        Ok(ContainerExitInfo { container_id: string_of(container_id), exit_code: code, started_at: started, finished_at: now })
    }

    /// Attaches to the streams `stream_type` of container `container_id`,
    /// at descriptors zero. Not found when the container does not exist;
    /// refused when it does not run.
    pub fn attach_to_container(&self, container_id: &str, stream_type: StreamType) -> (r: Result<
        ContainerStream,
        ContainerError,
    >)
        requires
            self.wf(),
        ensures
            match self.container_manager.state_of(container_id@) {
                None => r matches Err(ContainerError::NotFound(m)) && m@ == container_id@,
                Some(s) => if s == ContainerState::Running {
                    r matches Ok(st) && st.container_id@ == container_id@ && st.stream_type == stream_type
                        && st.file_descriptors == (0i32, 0i32, 0i32)
                } else {
                    r matches Err(ContainerError::InvalidConfig(m)) && m@ == "Can only attach to running containers"@
                },
            },
    {
        let c = match self.container_manager.get_container(container_id) {
            Ok(c) => c,
            Err(e) => {
                return Err(e);
            },
        };
        match c.state {
            ContainerState::Running => {},
            _ => {
                return Err(ContainerError::InvalidConfig(string_of("Can only attach to running containers")));
            },
        }
        Ok(ContainerStream { container_id: string_of(container_id), stream_type, file_descriptors: (0, 0, 0) })
    }

    /// What the runtime gathers of container `container`: no CPU usage, its
    /// memory limit, its process when it has one, and no descriptors.
    pub fn gather_runtime_stats(&self, container: &Container) -> (s: RuntimeStats)
        ensures
            s.cpu_usage == 0,
            s.memory_limit == container.stats.memory_limit,
            s.processes@ == match container.pid {
                Some(p) => seq![p],
                None => Seq::<u32>::empty(),
            },
            s.file_descriptors == 0,
    {
        let mut processes: Vec<u32> = Vec::new();
        if let Some(pid) = container.pid {
            processes.push(pid);
        }
        assert(processes@ =~= match container.pid {
            Some(p) => seq![p],
            None => Seq::<u32>::empty(),
        });
        RuntimeStats { cpu_usage: 0, memory_limit: container.stats.memory_limit, processes, file_descriptors: 0 }
    }

    /// The statistics of container `container_id` with usage `usage` read
    /// from its control groups: the runtime's own figures (see
    /// `gather_runtime_stats`), the memory, disk and network usage (the
    /// network figure both ways), the time since it started (none when it
    /// has not), and its state. Not found when it does not exist.
    pub fn get_container_stats(&self, container_id: &str, usage: &ResourceUsage) -> (r: Result<
        ContainerRuntimeStats,
        ContainerError,
    >)
        requires
            self.wf(),
        ensures
            !self.container_manager.registry().contains_key(container_id@) ==> (r matches Err(
                ContainerError::NotFound(m),
            ) && m@ == container_id@),
            self.container_manager.registry().contains_key(container_id@) ==> (r matches Ok(st) && {
                let c = self.container_manager.registry()[container_id@];
                &&& st.container_id@ == container_id@
                &&& st.cpu_usage == 0
                &&& st.memory_usage == usage.memory_usage
                &&& st.memory_limit == c.stats.memory_limit
                &&& st.disk_usage == usage.disk_usage
                &&& st.network_rx == usage.network_usage
                &&& st.network_tx == usage.network_usage
                &&& st.processes@ == match c.pid {
                    Some(p) => seq![p],
                    None => Seq::<u32>::empty(),
                }
                &&& st.file_descriptors == 0
                &&& c.started_at is None ==> st.uptime == 0
                &&& st.state == c.state
            }),
    {
        let c = match self.container_manager.get_container(container_id) {
            Ok(c) => c,
            Err(e) => {
                return Err(e);
            },
        };
        let runtime_stats = self.gather_runtime_stats(c);
        let uptime = match c.started_at {
            Some(t) => {
                let now = now_millis();
                if now >= t {
                    now - t
                } else {
                    0
                }
            },
            None => 0,
        };
        Ok(
            ContainerRuntimeStats {
                container_id: string_of(container_id),
                cpu_usage: runtime_stats.cpu_usage,
                memory_usage: usage.memory_usage,
                memory_limit: runtime_stats.memory_limit,
                disk_usage: usage.disk_usage,
                network_rx: usage.network_usage,
                network_tx: usage.network_usage,
                processes: runtime_stats.processes,
                file_descriptors: runtime_stats.file_descriptors,
                uptime,
                state: c.state,
            },
        )
    }
}

} // verus!
