//! The container registry: which containers exist, in what state, and the
//! checks and state changes of creating, starting, stopping, pausing,
//! resuming, removing and executing in them. Signals, processes and
//! namespaces are handled by the caller between a check and the state
//! change that records its outcome.
use vstd::prelude::*;
use crate::containers::{
    ContainerConfig, ContainerError, ContainerState, ContainerStats, ResourceLimits, SecurityConfig, container_state_text,
    is_invalid_config,
};
use crate::containers::namespaces::NamespaceHandles;
use crate::containers::lifecycle::{OperationType, transition_target};
use crate::containers::resource_manager::{ResourceManager, limits_outcome, limits_verdict};
use crate::containers::security::{
    SecurityContext, SecurityManager, copy_opt, copy_strings, first_invalid, id_map_text, opt_text,
    security_verdict, texts,
};
use crate::keyed::{Named, find_name, has_name, name_map, remove_named, unique_names, upsert_named};
use crate::text::{push_text, string_of};

verus! {

/// A mount inside a container.
pub struct MountPoint {
    pub source: String,
    pub target: String,
    pub filesystem_type: String,
    pub flags: u64,
}

/// What a running container holds.
pub struct RuntimeData {
    pub process_id: Option<u32>,
    pub namespace_handles: NamespaceHandles,
    pub cgroup_path: Option<String>,
    pub network_interface: Option<String>,
    pub mount_points: Vec<MountPoint>,
    pub security_context: SecurityContext,
}

/// A container.
pub struct Container {
    pub id: String,
    pub name: String,
    pub state: ContainerState,
    pub config: ContainerConfig,
    pub runtime_data: RuntimeData,
    pub created_at: u64,
    pub started_at: Option<u64>,
    pub stats: ContainerStats,
    pub pid: Option<u32>,
}

impl Named for Container {
    open spec fn name_of(&self) -> Seq<char> {
        self.id@
    }

    fn name(&self) -> (k: &str) {
        self.id.as_str()
    }
}

/// Settings of the registry; the cleanup interval is in milliseconds.
#[derive(Clone, Copy, PartialEq, Eq, Debug, Structural)]
pub struct ContainerManagerConfig {
    pub max_containers: usize,
    pub default_resource_limits: ResourceLimits,
    pub cleanup_interval: u64,
    pub monitoring_enabled: bool,
    pub audit_enabled: bool,
}

impl ContainerManagerConfig {
    /// Up to 1000 containers without default limits, cleanup every minute,
    /// monitoring and auditing on.
    pub fn default() -> (c: Self)
        ensures
            c == (ContainerManagerConfig {
                max_containers: 1000,
                default_resource_limits: ResourceLimits::unlimited(),
                cleanup_interval: 60_000,
                monitoring_enabled: true,
                audit_enabled: true,
            }),
    {
        ContainerManagerConfig {
            max_containers: 1000,
            default_resource_limits: ResourceLimits::default(),
            cleanup_interval: 60_000,
            monitoring_enabled: true,
            audit_enabled: true,
        }
    }
}

/// The verdict on a configuration before anything else: a name is needed,
/// and a memory limit must not be zero.
pub open spec fn config_verdict(c: ContainerConfig) -> Option<Seq<char>> {
    if c.name@.len() == 0 {
        Some("Container name cannot be empty"@)
    } else if c.resource_limits.memory_bytes == Some(0u64) {
        Some("Memory limit must be greater than 0"@)
    } else {
        None
    }
}

/// Checks a configuration (see `config_verdict`).
pub fn validate_config(config: &ContainerConfig) -> (r: Result<(), ContainerError>)
    ensures
        match config_verdict(*config) {
            None => r is Ok,
            Some(m) => r matches Err(e) && is_invalid_config(e, m),
        },
{
    if config.name.as_str().unicode_len() == 0 {
        return Err(ContainerError::InvalidConfig(string_of("Container name cannot be empty")));
    }
    if let Some(limit) = config.resource_limits.memory_bytes {
        if limit == 0 {
            return Err(ContainerError::InvalidConfig(string_of("Memory limit must be greater than 0")));
        }
    }
    Ok(())
}

/// `message` followed by the name of state `s`.
pub open spec fn state_message(message: Seq<char>, s: ContainerState) -> Seq<char> {
    message + container_state_text(s)
}

fn state_error(message: &str, s: ContainerState) -> (e: ContainerError)
    ensures
        is_invalid_config(e, state_message(message@, s)),
{
    let mut m = string_of(message);
    let t = s.name();
    push_text(&mut m, t.as_str());
    ContainerError::InvalidConfig(m)
}

fn not_found(id: &str) -> (e: ContainerError)
    ensures
        e matches ContainerError::NotFound(m) && m@ == id@,
{
    ContainerError::NotFound(string_of(id))
}

/// Whether a container in state `s` may be started.
pub open spec fn startable(s: ContainerState) -> bool {
    s == ContainerState::Created || s == ContainerState::Stopped || s == ContainerState::Exited
}

/// The container that `create_container` registers for `config` at `now`
/// under `id`, in `after`: it carries `config`, is created with no process,
/// runtime data or usage yet, a security context copied from the settings
/// (no id maps) and a memory limit of its own or the largest; the security
/// manager files its context (see `SecurityManager::setup_security_context`).
pub open spec fn created(
    before: ContainerManager,
    after: ContainerManager,
    config: ContainerConfig,
    now: u64,
    id: String,
) -> bool {
    let c = after.registry()[id@];
    &&& id@ == config.container_id@
    &&& after.registry() == before.registry().insert(id@, c)
    &&& c.name@ == config.name@
    &&& c.state == ContainerState::Created
    &&& c.pid is None
    &&& c.started_at is None
    &&& c.created_at == now
    &&& c.stats.memory_limit == match config.resource_limits.memory_bytes {
        Some(m) => m,
        None => u64::MAX,
    }
    &&& c.config == config
    &&& c.stats.cpu_usage == 0 && c.stats.memory_usage == 0 && c.stats.disk_usage == 0
    &&& c.stats.network_rx == 0 && c.stats.network_tx == 0 && c.stats.uptime == 0 && c.stats.pid_count == 0
    &&& c.runtime_data.process_id is None
    &&& c.runtime_data.namespace_handles == NamespaceHandles::default_spec()
    &&& c.runtime_data.cgroup_path is None
    &&& c.runtime_data.network_interface is None
    &&& c.runtime_data.mount_points@.len() == 0
    &&& texts(c.runtime_data.security_context.capabilities@) == texts(config.security.capabilities@)
    &&& opt_text(c.runtime_data.security_context.apparmor_profile) == opt_text(config.security.apparmor_profile)
    &&& opt_text(c.runtime_data.security_context.seccomp_profile) == opt_text(config.security.seccomp_profile)
    &&& c.runtime_data.security_context.uid_map is None
    &&& c.runtime_data.security_context.gid_map is None
    &&& filed_context(before.security_manager, after.security_manager, id@, config.security)
}

/// `after` is the security manager `before` with the context of container
/// `id` filed for `security` (see `SecurityManager::setup_security_context`)
/// and nothing else changed.
pub open spec fn filed_context(before: SecurityManager, after: SecurityManager, id: Seq<char>, security: SecurityConfig) -> bool {
    let c = after.contexts()[id].context;
    &&& after.wf()
    &&& after.contexts() == before.contexts().insert(id, after.contexts()[id])
    &&& texts(c.capabilities@) == texts(security.capabilities@)
    &&& opt_text(c.apparmor_profile) == opt_text(security.apparmor_profile)
    &&& opt_text(c.seccomp_profile) == opt_text(security.seccomp_profile)
    &&& opt_text(c.uid_map) == (if security.user_namespace {
        Some(id_map_text())
    } else {
        None
    })
    &&& opt_text(c.gid_map) == opt_text(c.uid_map)
    &&& after.capability_manager == before.capability_manager
    &&& after.apparmor_manager == before.apparmor_manager
    &&& after.seccomp_manager == before.seccomp_manager
}

/// The outcome of registering `config` at `now`, given whether the
/// profiles it names exist: an invalid configuration, unacceptable limits,
/// a security violation (see `security_verdict`) or a taken identifier
/// refuse it, in that order, and change nothing; otherwise it is created.
pub open spec fn creation(
    before: ContainerManager,
    after: ContainerManager,
    config: ContainerConfig,
    now: u64,
    apparmor_found: bool,
    seccomp_found: bool,
    r: Result<String, ContainerError>,
) -> bool {
    let security = security_verdict(
        texts(config.security.capabilities@),
        opt_text(config.security.apparmor_profile),
        apparmor_found,
        opt_text(config.security.seccomp_profile),
        seccomp_found,
    );
    &&& after.wf()
    &&& after.config == before.config
    &&& after.resource_manager == before.resource_manager
    &&& r is Err ==> after.registry() == before.registry() && after.security_manager == before.security_manager
    &&& match config_verdict(config) {
        Some(m) => r matches Err(e) && is_invalid_config(e, m),
        None => if limits_verdict(config.resource_limits) is Some {
            limits_outcome(r, limits_verdict(config.resource_limits))
        } else {
            match security {
                Some(m) => r matches Err(ContainerError::SecurityViolation(x)) && x@ == m,
                None => if before.registry().contains_key(config.container_id@) {
                    r matches Err(ContainerError::AlreadyExists(x)) && x@ == config.container_id@
                } else {
                    r matches Ok(id) && created(before, after, config, now, id)
                },
            }
        },
    }
}

/// The states from which a container may be started are those from which
/// the lifecycle's state machine allows `Start`, and starting leads to
/// `Running` (which `record_started` records, with the process and start
/// time).
pub proof fn lemma_startable_is_start_transition(s: ContainerState)
    ensures
        startable(s) <==> transition_target(s, OperationType::Start) is Some,
        startable(s) ==> transition_target(s, OperationType::Start) == Some(ContainerState::Running),
{
}

/// The registry of containers, one per identifier.
pub struct ContainerManager {
    pub containers: Vec<Container>,
    pub config: ContainerManagerConfig,
    pub resource_manager: ResourceManager,
    pub security_manager: SecurityManager,
}

impl ContainerManager {
    /// The invariant: one container per identifier, and sound managers.
    pub open spec fn wf(&self) -> bool {
        &&& unique_names(self.containers@)
        &&& self.processes_recorded()
        &&& self.resource_manager.wf()
        &&& self.security_manager.wf()
    }

    /// Every running or paused container has its process recorded.
    pub open spec fn processes_recorded(&self) -> bool {
        forall|k: Seq<char>|
            #[trigger] self.registry().contains_key(k) && (self.registry()[k].state == ContainerState::Running
                || self.registry()[k].state == ContainerState::Paused) ==> self.registry()[k].pid is Some
    }

    /// The containers by identifier.
    pub open spec fn registry(&self) -> Map<Seq<char>, Container> {
        name_map(self.containers@)
    }

    /// The state of container `id`, if it exists.
    pub open spec fn state_of(&self, id: Seq<char>) -> Option<ContainerState> {
        if self.registry().contains_key(id) {
            Some(self.registry()[id].state)
        } else {
            None
        }
    }

    /// An empty registry with the given settings.
    pub fn new(config: ContainerManagerConfig) -> (m: Self)
        ensures
            m.wf(),
            m.registry() == Map::<Seq<char>, Container>::empty(),
            m.config == config,
    {
        let m = ContainerManager {
            containers: Vec::new(),
            config,
            resource_manager: ResourceManager::new(),
            security_manager: SecurityManager::new(),
        };
        assert(m.registry() =~= Map::<Seq<char>, Container>::empty());
        m
    }

    /// Registers a container for `config` at time `now`: refused when the
    /// configuration is invalid (`validate_config`), when its limits are
    /// not acceptable (`validate_limits`), when its security settings are
    /// not (`validate_security_config`, which asks the file system whether
    /// the profiles it names exist), or when its identifier is taken.
    /// Otherwise the container exists, created, with no process, a
    /// security context copied from its settings, and a memory limit of
    /// its own or the largest. Returns its identifier. The outcome is that
    /// of `create_container_checked` for what the file system answered.
    pub fn create_container(&mut self, config: ContainerConfig, now: u64) -> (r: Result<String, ContainerError>)
        requires
            old(self).wf(),
        ensures
            exists|apparmor_found: bool, seccomp_found: bool|
                #[trigger] creation(*old(self), *final(self), config, now, apparmor_found, seccomp_found, r),
            config.security.apparmor_profile is None && config.security.seccomp_profile is None ==> creation(
                *old(self),
                *final(self),
                config,
                now,
                true,
                true,
                r,
            ),
            config_verdict(config) matches Some(m) ==> (r matches Err(e) && is_invalid_config(e, m)),
            config_verdict(config) is None && limits_verdict(config.resource_limits) is Some ==> limits_outcome(
                r,
                limits_verdict(config.resource_limits),
            ),
            config_verdict(config) is None && limits_verdict(config.resource_limits) is None ==> (first_invalid(
                texts(config.security.capabilities@),
            ) matches Some(c) ==> r matches Err(ContainerError::SecurityViolation(x)) && x@ == "Invalid capability: "@
                + c),
            r is Ok ==> exists|a: bool, s: bool|
                #[trigger] security_verdict(
                    texts(config.security.capabilities@),
                    opt_text(config.security.apparmor_profile),
                    a,
                    opt_text(config.security.seccomp_profile),
                    s,
                ) is None,
            r is Err ==> final(self).registry() == old(self).registry(),
    {
        let apparmor_found = match &config.security.apparmor_profile {
            Some(p) => self.security_manager.apparmor_manager.profile_exists(p.as_str()),
            None => true,
        };
        let seccomp_found = match &config.security.seccomp_profile {
            Some(p) => self.security_manager.seccomp_manager.profile_exists(p.as_str()),
            None => true,
        };
        let ghost cfg = config;
        let r = self.create_container_checked(config, now, apparmor_found, seccomp_found);
        proof {
            assert(creation(*old(self), *self, cfg, now, apparmor_found, seccomp_found, r));
            if r is Ok {
                assert(security_verdict(
                    texts(cfg.security.capabilities@),
                    opt_text(cfg.security.apparmor_profile),
                    apparmor_found,
                    opt_text(cfg.security.seccomp_profile),
                    seccomp_found,
                ) is None);
            }
        }
        r
    }

    /// Registers a container for `config` at time `now`, given whether the
    /// AppArmor and seccomp profiles it names exist (see `creation`): the
    /// configuration, limits and security checks run in that order, then
    /// the identifier must be free.
    pub fn create_container_checked(
        &mut self,
        config: ContainerConfig,
        now: u64,
        apparmor_found: bool,
        seccomp_found: bool,
    ) -> (r: Result<String, ContainerError>)
        requires
            old(self).wf(),
        ensures
            creation(*old(self), *final(self), config, now, apparmor_found, seccomp_found, r),
    {
        match validate_config(&config) {
            Err(e) => {
                return Err(e);
            },
            Ok(()) => {},
        }
        match self.resource_manager.allocate_resources(&config.resource_limits) {
            Err(e) => {
                return Err(e);
            },
            Ok(_) => {},
        }
        match self.security_manager.check_security_config(&config.security, apparmor_found, seccomp_found) {
            Err(e) => {
                return Err(e);
            },
            Ok(()) => {},
        }
        if find_name(&self.containers, config.container_id.as_str()).is_some() {
            return Err(ContainerError::AlreadyExists(config.container_id.clone()));
        }
        let id = config.container_id.clone();
        let context = SecurityContext {
            capabilities: copy_strings(&config.security.capabilities),
            apparmor_profile: copy_opt(&config.security.apparmor_profile),
            seccomp_profile: copy_opt(&config.security.seccomp_profile),
            uid_map: None,
            gid_map: None,
        };
        let memory_limit = match config.resource_limits.memory_bytes {
            Some(m) => m,
            None => u64::MAX,
        };
        let ghost cfg = config;
        self.security_manager.setup_security_context(config.container_id.as_str(), &config.security);
        let container = Container {
            id: config.container_id.clone(),
            name: config.name.clone(),
            state: ContainerState::Created,
            config,
            runtime_data: RuntimeData {
                process_id: None,
                namespace_handles: NamespaceHandles::default(),
                cgroup_path: None,
                network_interface: None,
                mount_points: Vec::new(),
                security_context: context,
            },
            created_at: now,
            started_at: None,
            stats: ContainerStats {
                cpu_usage: 0,
                memory_usage: 0,
                memory_limit,
                disk_usage: 0,
                network_rx: 0,
                network_tx: 0,
                uptime: 0,
                pid_count: 0,
            },
            pid: None,
        };
        let ghost c = container;
        let ghost sm = self.security_manager;
        upsert_named(&mut self.containers, container);
        proof {
            assert(self.registry() =~= old(self).registry().insert(id@, c));
            assert(sm.contexts() =~= old(self).security_manager.contexts().insert(id@, sm.contexts()[id@]));
        }
        Ok(id)
    }

    /// The container `id`; `NotFound` when there is none.
    pub fn get_container(&self, id: &str) -> (r: Result<&Container, ContainerError>)
        requires
            self.wf(),
        ensures
            self.registry().contains_key(id@) ==> (r matches Ok(c) && *c == self.registry()[id@]),
            !self.registry().contains_key(id@) ==> (r matches Err(ContainerError::NotFound(m)) && m@ == id@),
    {
        match find_name(&self.containers, id) {
            Some(i) => {
                proof {
                    crate::keyed::lemma_name_index(self.containers@, i as int);
                }
                Ok(&self.containers[i])
            },
            None => Err(not_found(id)),
        }
    }

    /// The identifiers of all containers, in registration order.
    pub fn list_containers(&self) -> (ids: Vec<String>)
        ensures
            texts(ids@) == crate::keyed::names_of(self.containers@),
    {
        let mut ids: Vec<String> = Vec::new();
        let mut i: usize = 0;
        while i < self.containers.len()
            invariant
                i <= self.containers@.len(),
                ids@.len() == i,
                forall|j: int| 0 <= j < i ==> (#[trigger] ids@[j])@ == self.containers@[j].id@,
            decreases self.containers@.len() - i,
        {
            ids.push(self.containers[i].id.clone());
            i = i + 1;
        }
        assert(texts(ids@) =~= crate::keyed::names_of(self.containers@));
        ids
    }

    /// Checks that container `id` may be started: it must exist and be
    /// created, stopped or exited.
    pub fn check_start(&self, id: &str) -> (r: Result<(), ContainerError>)
        requires
            self.wf(),
        ensures
            match self.state_of(id@) {
                None => r matches Err(ContainerError::NotFound(m)) && m@ == id@,
                Some(s) => if startable(s) {
                    r is Ok
                } else {
                    r matches Err(e) && is_invalid_config(e, state_message("Cannot start container in state: "@, s))
                },
            },
    {
        match find_name(&self.containers, id) {
            None => Err(not_found(id)),
            Some(i) => {
                proof {
                    crate::keyed::lemma_name_index(self.containers@, i as int);
                }
                let s = self.containers[i].state;
                match s {
                    ContainerState::Created | ContainerState::Stopped | ContainerState::Exited => Ok(()),
                    _ => Err(state_error("Cannot start container in state: ", s)),
                }
            },
        }
    }

    /// Replaces container `id` by `f(container)` where `f` is given as the
    /// new state, start time and process.
    fn set_run_state(&mut self, id: &str, state: ContainerState, started_at: Option<Option<u64>>, pid: Option<u32>)
        requires
            old(self).wf(),
            state == ContainerState::Running || state == ContainerState::Paused ==> pid is Some,
        ensures
            final(self).wf(),
            final(self).config == old(self).config,
            old(self).registry().contains_key(id@) ==> final(self).registry() == old(self).registry().insert(
                id@,
                Container {
                    state,
                    pid,
                    started_at: match started_at {
                        Some(t) => t,
                        None => old(self).registry()[id@].started_at,
                    },
                    ..old(self).registry()[id@]
                },
            ),
            !old(self).registry().contains_key(id@) ==> final(self).registry() == old(self).registry(),
    {
        if let Some(mut c) = remove_named(&mut self.containers, id) {
            c.state = state;
            c.pid = pid;
            if let Some(t) = started_at {
                c.started_at = t;
            }
            upsert_named(&mut self.containers, c);
            assert(self.registry() =~= old(self).registry().insert(id@, c));
            assert forall|k: Seq<char>|
                #[trigger] self.registry().contains_key(k) && (self.registry()[k].state == ContainerState::Running
                    || self.registry()[k].state == ContainerState::Paused) implies self.registry()[k].pid is Some by {
                if k != id@ {
                    assert(old(self).registry().contains_key(k));
                }
            }
        }
    }

    /// Records that container `id` was started at `now` as process `pid`:
    /// it is running.
    pub fn record_started(&mut self, id: &str, pid: u32, now: u64)
        requires
            old(self).wf(),
        ensures
            final(self).wf(),
            old(self).registry().contains_key(id@) ==> final(self).registry() == old(self).registry().insert(
                id@,
                Container {
                    state: ContainerState::Running,
                    pid: Some(pid),
                    started_at: Some(now),
                    ..old(self).registry()[id@]
                },
            ),
            !old(self).registry().contains_key(id@) ==> final(self).registry() == old(self).registry(),
    {
        self.set_run_state(id, ContainerState::Running, Some(Some(now)), Some(pid));
    }

    /// Starts container `id` as process `pid` at time `now`, once the caller
    /// has launched that process: the container must exist and be in a
    /// state from which the lifecycle allows `Start` (created, stopped or
    /// exited); it is then running, with that process and start time.
    pub fn start_container(&mut self, id: &str, pid: u32, now: u64) -> (r: Result<(), ContainerError>)
        requires
            old(self).wf(),
        ensures
            final(self).wf(),
            match old(self).state_of(id@) {
                None => r matches Err(ContainerError::NotFound(m)) && m@ == id@,
                Some(s) => if startable(s) {
                    &&& r is Ok
                    &&& transition_target(s, OperationType::Start) == Some(ContainerState::Running)
                    &&& final(self).registry() == old(self).registry().insert(
                        id@,
                        Container {
                            state: ContainerState::Running,
                            pid: Some(pid),
                            started_at: Some(now),
                            ..old(self).registry()[id@]
                        },
                    )
                } else {
                    &&& transition_target(s, OperationType::Start) is None
                    &&& r matches Err(e) && is_invalid_config(e, state_message("Cannot start container in state: "@, s))
                },
            },
            r is Ok ==> final(self).state_of(id@) == Some(ContainerState::Running)
                && final(self).registry()[id@].pid is Some && final(self).registry()[id@].started_at is Some,
            r is Err ==> final(self).registry() == old(self).registry(),
    {
        match self.check_start(id) {
            Err(e) => {
                return Err(e);
            },
            Ok(()) => {},
        }
        self.record_started(id, pid, now);
        Ok(())
    }

    /// Checks that container `id` may be stopped: it must exist and be
    /// running. Returns its process, to be signalled.
    pub fn check_stop(&self, id: &str) -> (r: Result<Option<u32>, ContainerError>)
        requires
            self.wf(),
        ensures
            match self.state_of(id@) {
                None => r matches Err(ContainerError::NotFound(m)) && m@ == id@,
                Some(s) => if s == ContainerState::Running {
                    r == Ok::<Option<u32>, ContainerError>(self.registry()[id@].pid)
                } else {
                    r matches Err(e) && is_invalid_config(e, state_message("Cannot stop container in state: "@, s))
                },
            },
    {
        match find_name(&self.containers, id) {
            None => Err(not_found(id)),
            Some(i) => {
                proof {
                    crate::keyed::lemma_name_index(self.containers@, i as int);
                }
                let s = self.containers[i].state;
                if s == ContainerState::Running {
                    Ok(self.containers[i].pid)
                } else {
                    Err(state_error("Cannot stop container in state: ", s))
                }
            },
        }
    }

    /// Records that container `id` was stopped: it is stopped, with no
    /// process.
    pub fn record_stopped(&mut self, id: &str)
        requires
            old(self).wf(),
        ensures
            final(self).wf(),
            old(self).registry().contains_key(id@) ==> final(self).registry() == old(self).registry().insert(
                id@,
                Container { state: ContainerState::Stopped, pid: None, ..old(self).registry()[id@] },
            ),
            !old(self).registry().contains_key(id@) ==> final(self).registry() == old(self).registry(),
    {
        self.set_run_state(id, ContainerState::Stopped, None, None);
    }

    /// Pauses container `id`: it must exist and be running. It is paused,
    /// and its process, which a running container always has, is returned
    /// to be stopped.
    pub fn pause_container(&mut self, id: &str) -> (r: Result<Option<u32>, ContainerError>)
        requires
            old(self).wf(),
        ensures
            final(self).wf(),
            match old(self).state_of(id@) {
                None => r matches Err(ContainerError::NotFound(m)) && m@ == id@,
                Some(s) => if s == ContainerState::Running {
                    &&& r == Ok::<Option<u32>, ContainerError>(old(self).registry()[id@].pid)
                    &&& old(self).registry()[id@].pid is Some
                } else {
                    r matches Err(e) && is_invalid_config(e, state_message("Cannot pause container in state: "@, s))
                },
            },
            r is Ok ==> final(self).registry() == old(self).registry().insert(
                id@,
                Container { state: ContainerState::Paused, ..old(self).registry()[id@] },
            ),
            r is Err ==> final(self).registry() == old(self).registry(),
    {
        let i = match find_name(&self.containers, id) {
            None => {
                return Err(not_found(id));
            },
            Some(i) => i,
        };
        proof {
            crate::keyed::lemma_name_index(self.containers@, i as int);
        }
        let s = self.containers[i].state;
        if s != ContainerState::Running {
            return Err(state_error("Cannot pause container in state: ", s));
        }
        let pid = self.containers[i].pid;
        let started = self.containers[i].started_at;
        self.set_run_state(id, ContainerState::Paused, Some(started), pid);
        Ok(pid)
    }

    /// Resumes container `id`: it must exist and be paused. It is running
    /// again, and its process, which a paused container always has, is
    /// returned to be continued.
    pub fn resume_container(&mut self, id: &str) -> (r: Result<Option<u32>, ContainerError>)
        requires
            old(self).wf(),
        ensures
            final(self).wf(),
            match old(self).state_of(id@) {
                None => r matches Err(ContainerError::NotFound(m)) && m@ == id@,
                Some(s) => if s == ContainerState::Paused {
                    &&& r == Ok::<Option<u32>, ContainerError>(old(self).registry()[id@].pid)
                    &&& old(self).registry()[id@].pid is Some
                } else {
                    r matches Err(e) && is_invalid_config(e, state_message("Cannot resume container in state: "@, s))
                },
            },
            r is Ok ==> final(self).registry() == old(self).registry().insert(
                id@,
                Container { state: ContainerState::Running, ..old(self).registry()[id@] },
            ),
            r is Err ==> final(self).registry() == old(self).registry(),
    {
        let i = match find_name(&self.containers, id) {
            None => {
                return Err(not_found(id));
            },
            Some(i) => i,
        };
        proof {
            crate::keyed::lemma_name_index(self.containers@, i as int);
        }
        let s = self.containers[i].state;
        if s != ContainerState::Paused {
            return Err(state_error("Cannot resume container in state: ", s));
        }
        let pid = self.containers[i].pid;
        let started = self.containers[i].started_at;
        self.set_run_state(id, ContainerState::Running, Some(started), pid);
        Ok(pid)
    }

    /// Checks that container `id` may be removed: it must exist, and a
    /// running container needs `force`. Says whether it must be stopped
    /// first.
    pub fn check_remove(&self, id: &str, force: bool) -> (r: Result<bool, ContainerError>)
        requires
            self.wf(),
        ensures
            match self.state_of(id@) {
                None => r matches Err(ContainerError::NotFound(m)) && m@ == id@,
                Some(s) => if s == ContainerState::Running && !force {
                    r matches Err(e) && is_invalid_config(e, "Cannot remove running container. Stop it first or use force"@)
                } else {
                    r == Ok::<bool, ContainerError>(s == ContainerState::Running)
                },
            },
    {
        match find_name(&self.containers, id) {
            None => Err(not_found(id)),
            Some(i) => {
                proof {
                    crate::keyed::lemma_name_index(self.containers@, i as int);
                }
                let running = self.containers[i].state == ContainerState::Running;
                if running && !force {
                    Err(
                        ContainerError::InvalidConfig(
                            string_of("Cannot remove running container. Stop it first or use force"),
                        ),
                    )
                } else {
                    Ok(running)
                }
            },
        }
    }

    /// Removes container `id` from the registry; `NotFound` when there is
    /// none.
    pub fn remove_container(&mut self, id: &str) -> (r: Result<(), ContainerError>)
        requires
            old(self).wf(),
        ensures
            final(self).wf(),
            old(self).registry().contains_key(id@) <==> r is Ok,
            r is Err ==> (r matches Err(ContainerError::NotFound(m)) && m@ == id@),
            final(self).registry() == old(self).registry().remove(id@),
    {
        match remove_named(&mut self.containers, id) {
            Some(_) => Ok(()),
            None => {
                assert(old(self).registry().remove(id@) =~= old(self).registry());
                Err(not_found(id))
            },
        }
    }

    /// Checks that a command may run in container `id`: it must exist and
    /// be running.
    pub fn check_exec(&self, id: &str) -> (r: Result<(), ContainerError>)
        requires
            self.wf(),
        ensures
            match self.state_of(id@) {
                None => r matches Err(ContainerError::NotFound(m)) && m@ == id@,
                Some(s) => if s == ContainerState::Running {
                    r is Ok
                } else {
                    r matches Err(e) && is_invalid_config(e, "Can only exec in running containers"@)
                },
            },
    {
        match find_name(&self.containers, id) {
            None => Err(not_found(id)),
            Some(i) => {
                proof {
                    crate::keyed::lemma_name_index(self.containers@, i as int);
                }
                if self.containers[i].state == ContainerState::Running {
                    Ok(())
                } else {
                    Err(ContainerError::InvalidConfig(string_of("Can only exec in running containers")))
                }
            },
        }
    }
}

} // verus!
