//! Lightweight containers for teaching: their configuration, states and
//! errors, and the modules that manage their lifecycle, resources,
//! security, images, networking and orchestration. Times are in
//! milliseconds since the Unix epoch, durations in milliseconds, paths are
//! texts, and CPU shares are in thousandths of a core.
pub mod security;
pub mod namespaces;
pub mod resource_manager;
pub mod container;
pub mod lifecycle;
pub mod templates;
pub mod image_manager;
pub mod orchestration;
pub mod network_manager;
pub mod runtime;

use vstd::prelude::*;
use crate::ids::{fresh_id, now_millis, uuid_string, uuid_text};
use crate::text::{push_text, string_of};
use crate::containers::security::{copy_opt, copy_strings, opt_text, texts};

verus! {

/// Limits on what a container may use. The CPU limit is in thousandths of
/// a core.
#[derive(Clone, Copy, PartialEq, Eq, Debug, Structural)]
pub struct ResourceLimits {
    pub cpu_millicores: Option<u64>,
    pub memory_bytes: Option<u64>,
    pub disk_bytes: Option<u64>,
    pub network_bandwidth: Option<u64>,
    pub file_descriptors: Option<u64>,
    pub processes: Option<u64>,
}

impl ResourceLimits {
    /// No limits.
    pub fn default() -> (l: Self)
        ensures
            l == ResourceLimits::unlimited(),
    {
        ResourceLimits {
            cpu_millicores: None,
            memory_bytes: None,
            disk_bytes: None,
            network_bandwidth: None,
            file_descriptors: None,
            processes: None,
        }
    }

    /// No limits.
    pub open spec fn unlimited() -> ResourceLimits {
        ResourceLimits {
            cpu_millicores: None,
            memory_bytes: None,
            disk_bytes: None,
            network_bandwidth: None,
            file_descriptors: None,
            processes: None,
        }
    }
}

/// Security settings of a container.
pub struct SecurityConfig {
    pub privileged: bool,
    pub capabilities: Vec<String>,
    pub apparmor_profile: Option<String>,
    pub seccomp_profile: Option<String>,
    pub read_only_root: bool,
    pub no_new_privileges: bool,
    pub user_namespace: bool,
}

impl SecurityConfig {
    /// Unprivileged, no capabilities or profiles, read-only root, no new
    /// privileges, no user namespace.
    pub fn default() -> (c: Self)
        ensures
            !c.privileged,
            c.capabilities@.len() == 0,
            c.apparmor_profile is None,
            c.seccomp_profile is None,
            c.read_only_root,
            c.no_new_privileges,
            !c.user_namespace,
    {
        SecurityConfig {
            privileged: false,
            capabilities: Vec::new(),
            apparmor_profile: None,
            seccomp_profile: None,
            read_only_root: true,
            no_new_privileges: true,
            user_namespace: false,
        }
    }
}

/// How a container is networked.
#[derive(Clone, PartialEq, Eq, Debug)]
pub enum NetworkMode {
    Bridge,
    Host,
    NoNetwork,
    Custom(String),
}

/// A port of the container published on the host.
#[derive(Clone, PartialEq, Eq, Debug)]
pub struct PortMapping {
    pub container_port: u16,
    pub host_port: u16,
    pub protocol: String,
}

/// Network settings of a container.
pub struct NetworkConfig {
    pub network_mode: NetworkMode,
    pub bridge_name: Option<String>,
    pub ip_address: Option<String>,
    pub mac_address: Option<String>,
    pub dns_servers: Vec<String>,
    pub port_mappings: Vec<PortMapping>,
}

impl NetworkConfig {
    /// Bridged on `multios-br0`, with Google's DNS servers and nothing else.
    pub fn default() -> (c: Self)
        ensures
            c.network_mode is Bridge,
            c.bridge_name matches Some(b) && b@ == "multios-br0"@,
            c.ip_address is None,
            c.mac_address is None,
            c.dns_servers@.len() == 2,
            c.dns_servers@[0]@ == "8.8.8.8"@,
            c.dns_servers@[1]@ == "8.8.4.4"@,
            c.port_mappings@.len() == 0,
    {
        NetworkConfig {
            network_mode: NetworkMode::Bridge,
            bridge_name: Some(string_of("multios-br0")),
            ip_address: None,
            mac_address: None,
            dns_servers: vec![string_of("8.8.8.8"), string_of("8.8.4.4")],
            port_mappings: Vec::new(),
        }
    }
}

/// A host directory mounted into a container.
#[derive(Clone, PartialEq, Eq, Debug)]
pub struct VolumeMapping {
    pub host_path: String,
    pub container_path: String,
    pub read_only: bool,
}

/// Which namespaces a container gets.
#[derive(Clone, Copy, PartialEq, Eq, Debug, Structural)]
pub struct NamespaceMode {
    pub pid: bool,
    pub network: bool,
    pub mount: bool,
    pub ipc: bool,
    pub uts: bool,
    pub user: bool,
    pub cgroup: bool,
}

impl NamespaceMode {
    /// Every namespace.
    pub fn default() -> (m: Self)
        ensures
            m == (NamespaceMode { pid: true, network: true, mount: true, ipc: true, uts: true, user: true, cgroup: true }),
    {
        NamespaceMode { pid: true, network: true, mount: true, ipc: true, uts: true, user: true, cgroup: true }
    }
}

/// The configuration of a container. The environment is a list of
/// name/value pairs.
pub struct ContainerConfig {
    pub container_id: String,
    pub name: String,
    pub image: String,
    pub command: Vec<String>,
    pub environment: Vec<(String, String)>,
    pub ports: Vec<PortMapping>,
    pub volumes: Vec<VolumeMapping>,
    pub resource_limits: ResourceLimits,
    pub security: SecurityConfig,
    pub network: NetworkConfig,
    pub namespace_mode: NamespaceMode,
    pub template_id: Option<String>,
    pub created_at: u64,
}

impl ContainerConfig {
    /// A fresh identifier (a random UUID in text), created now, empty name,
    /// image, command and environment, and default limits, security,
    /// network and namespaces.
    pub fn default() -> (c: Self)
        ensures
            exists|id: u128| c.container_id@ == uuid_text(id),
            c.name@.len() == 0,
            c.image@.len() == 0,
            c.command@.len() == 0,
            c.environment@.len() == 0,
            c.ports@.len() == 0,
            c.volumes@.len() == 0,
            c.resource_limits == ResourceLimits::unlimited(),
            !c.security.privileged,
            c.network.network_mode is Bridge,
            c.namespace_mode == (NamespaceMode {
                pid: true,
                network: true,
                mount: true,
                ipc: true,
                uts: true,
                user: true,
                cgroup: true,
            }),
            c.template_id is None,
    {
        let id = fresh_id();
        ContainerConfig {
            container_id: uuid_string(id),
            name: String::new(),
            image: String::new(),
            command: Vec::new(),
            environment: Vec::new(),
            ports: Vec::new(),
            volumes: Vec::new(),
            resource_limits: ResourceLimits::default(),
            security: SecurityConfig::default(),
            network: NetworkConfig::default(),
            namespace_mode: NamespaceMode::default(),
            template_id: None,
            created_at: now_millis(),
        }
    }
}

/// States of a container.
#[derive(Clone, Copy, PartialEq, Eq, Hash, Debug, Structural)]
pub enum ContainerState {
    Created,
    Running,
    Paused,
    Stopped,
    Exited,
    Error,
    Deleted,
}

/// The name of a state, as `Debug` writes it.
pub open spec fn container_state_text(s: ContainerState) -> Seq<char> {
    match s {
        ContainerState::Created => "Created"@,
        ContainerState::Running => "Running"@,
        ContainerState::Paused => "Paused"@,
        ContainerState::Stopped => "Stopped"@,
        ContainerState::Exited => "Exited"@,
        ContainerState::Error => "Error"@,
        ContainerState::Deleted => "Deleted"@,
    }
}

impl ContainerState {
    /// The name of this state, as `Debug` writes it.
    pub fn name(&self) -> (s: String)
        ensures
            s@ == container_state_text(*self),
    {
        match self {
            ContainerState::Created => string_of("Created"),
            ContainerState::Running => string_of("Running"),
            ContainerState::Paused => string_of("Paused"),
            ContainerState::Stopped => string_of("Stopped"),
            ContainerState::Exited => string_of("Exited"),
            ContainerState::Error => string_of("Error"),
            ContainerState::Deleted => string_of("Deleted"),
        }
    }
}

/// Usage figures of a container. The CPU usage is the bit pattern of a
/// double; the uptime is in milliseconds.
#[derive(Clone, Copy, PartialEq, Eq, Debug, Structural)]
pub struct ContainerStats {
    pub cpu_usage: u64,
    pub memory_usage: u64,
    pub memory_limit: u64,
    pub disk_usage: u64,
    pub network_rx: u64,
    pub network_tx: u64,
    pub uptime: u64,
    pub pid_count: u64,
}

/// Difficulty levels of teaching material, easiest first.
#[derive(Clone, Copy, PartialEq, Eq, PartialOrd, Ord, Debug, Structural)]
pub enum DifficultyLevel {
    Beginner,
    Intermediate,
    Advanced,
    Expert,
}

/// What a container teaches, for whom, and how it is assessed; the
/// duration is in milliseconds.
pub struct EducationalContext {
    pub learning_objectives: Vec<String>,
    pub difficulty_level: DifficultyLevel,
    pub estimated_duration: u64,
    pub prerequisites: Vec<String>,
    pub evaluation_criteria: Vec<String>,
    pub related_topics: Vec<String>,
}

/// Errors of the container system; causes from outside the library are
/// carried as their messages.
pub enum ContainerError {
    NotFound(String),
    AlreadyExists(String),
    InvalidConfig(String),
    ResourceLimit(String),
    SecurityViolation(String),
    NetworkError(String),
    IoError(String),
    System(String),
    PermissionDenied(String),
    TemplateError(String),
    OrchestrationError(String),
}

/// The message of an error.
pub open spec fn container_error_text(e: ContainerError) -> Seq<char> {
    match e {
        ContainerError::NotFound(m) => "Container not found: "@ + m@,
        ContainerError::AlreadyExists(m) => "Container already exists: "@ + m@,
        ContainerError::InvalidConfig(m) => "Invalid configuration: "@ + m@,
        ContainerError::ResourceLimit(m) => "Resource limit exceeded: "@ + m@,
        ContainerError::SecurityViolation(m) => "Security violation: "@ + m@,
        ContainerError::NetworkError(m) => "Network error: "@ + m@,
        ContainerError::IoError(m) => "IO error: "@ + m@,
        ContainerError::System(m) => "System error: "@ + m@,
        ContainerError::PermissionDenied(m) => "Permission denied: "@ + m@,
        ContainerError::TemplateError(m) => "Template error: "@ + m@,
        ContainerError::OrchestrationError(m) => "Orchestration error: "@ + m@,
    }
}

/// Whether `e` is an invalid-configuration error saying `m`.
pub open spec fn is_invalid_config(e: ContainerError, m: Seq<char>) -> bool {
    e matches ContainerError::InvalidConfig(x) && x@ == m
}

impl ContainerError {
    /// The message of this error.
    pub fn to_string(&self) -> (s: String)
        ensures
            s@ == container_error_text(*self),
    {
        let (prefix, m) = match self {
            ContainerError::NotFound(m) => ("Container not found: ", m),
            ContainerError::AlreadyExists(m) => ("Container already exists: ", m),
            ContainerError::InvalidConfig(m) => ("Invalid configuration: ", m),
            ContainerError::ResourceLimit(m) => ("Resource limit exceeded: ", m),
            ContainerError::SecurityViolation(m) => ("Security violation: ", m),
            ContainerError::NetworkError(m) => ("Network error: ", m),
            ContainerError::IoError(m) => ("IO error: ", m),
            ContainerError::System(m) => ("System error: ", m),
            ContainerError::PermissionDenied(m) => ("Permission denied: ", m),
            ContainerError::TemplateError(m) => ("Template error: ", m),
            ContainerError::OrchestrationError(m) => ("Orchestration error: ", m),
        };
        let mut s = string_of(prefix);
        push_text(&mut s, m.as_str());
        s
    }
}

/// A security configuration in texts.
#[verifier::ext_equal]
pub struct SecurityView {
    pub privileged: bool,
    pub capabilities: Seq<Seq<char>>,
    pub apparmor_profile: Option<Seq<char>>,
    pub seccomp_profile: Option<Seq<char>>,
    pub read_only_root: bool,
    pub no_new_privileges: bool,
    pub user_namespace: bool,
}

impl View for SecurityConfig {
    type V = SecurityView;

    open spec fn view(&self) -> SecurityView {
        SecurityView {
            privileged: self.privileged,
            capabilities: texts(self.capabilities@),
            apparmor_profile: opt_text(self.apparmor_profile),
            seccomp_profile: opt_text(self.seccomp_profile),
            read_only_root: self.read_only_root,
            no_new_privileges: self.no_new_privileges,
            user_namespace: self.user_namespace,
        }
    }
}

/// A network mode in texts.
pub enum NetworkModeView {
    Bridge,
    Host,
    NoNetwork,
    Custom(Seq<char>),
}

impl View for NetworkMode {
    type V = NetworkModeView;

    open spec fn view(&self) -> NetworkModeView {
        match self {
            NetworkMode::Bridge => NetworkModeView::Bridge,
            NetworkMode::Host => NetworkModeView::Host,
            NetworkMode::NoNetwork => NetworkModeView::NoNetwork,
            NetworkMode::Custom(n) => NetworkModeView::Custom(n@),
        }
    }
}

impl View for PortMapping {
    type V = (u16, u16, Seq<char>);

    open spec fn view(&self) -> (u16, u16, Seq<char>) {
        (self.container_port, self.host_port, self.protocol@)
    }
}

impl View for VolumeMapping {
    type V = (Seq<char>, Seq<char>, bool);

    open spec fn view(&self) -> (Seq<char>, Seq<char>, bool) {
        (self.host_path@, self.container_path@, self.read_only)
    }
}

/// A teaching context in texts.
#[verifier::ext_equal]
pub struct ContextView {
    pub learning_objectives: Seq<Seq<char>>,
    pub difficulty_level: DifficultyLevel,
    pub estimated_duration: u64,
    pub prerequisites: Seq<Seq<char>>,
    pub evaluation_criteria: Seq<Seq<char>>,
    pub related_topics: Seq<Seq<char>>,
}

impl View for EducationalContext {
    type V = ContextView;

    open spec fn view(&self) -> ContextView {
        ContextView {
            learning_objectives: texts(self.learning_objectives@),
            difficulty_level: self.difficulty_level,
            estimated_duration: self.estimated_duration,
            prerequisites: texts(self.prerequisites@),
            evaluation_criteria: texts(self.evaluation_criteria@),
            related_topics: texts(self.related_topics@),
        }
    }
}

/// The texts of a list of name/value pairs.
pub open spec fn pair_texts(v: Seq<(String, String)>) -> Seq<(Seq<char>, Seq<char>)> {
    v.map_values(|p: (String, String)| (p.0@, p.1@))
}

/// The views of a list of port mappings.
pub open spec fn port_views(v: Seq<PortMapping>) -> Seq<(u16, u16, Seq<char>)> {
    v.map_values(|p: PortMapping| p@)
}

/// The views of a list of volume mappings.
pub open spec fn volume_views(v: Seq<VolumeMapping>) -> Seq<(Seq<char>, Seq<char>, bool)> {
    v.map_values(|m: VolumeMapping| m@)
}

/// A copy of a security configuration.
pub fn copy_security(s: &SecurityConfig) -> (c: SecurityConfig)
    ensures
        c@ == s@,
{
    SecurityConfig {
        privileged: s.privileged,
        capabilities: copy_strings(&s.capabilities),
        apparmor_profile: copy_opt(&s.apparmor_profile),
        seccomp_profile: copy_opt(&s.seccomp_profile),
        read_only_root: s.read_only_root,
        no_new_privileges: s.no_new_privileges,
        user_namespace: s.user_namespace,
    }
}

/// A copy of a network mode.
pub fn copy_mode(m: &NetworkMode) -> (c: NetworkMode)
    ensures
        c@ == m@,
{
    match m {
        NetworkMode::Bridge => NetworkMode::Bridge,
        NetworkMode::Host => NetworkMode::Host,
        NetworkMode::NoNetwork => NetworkMode::NoNetwork,
        NetworkMode::Custom(n) => NetworkMode::Custom(n.clone()),
    }
}

/// A copy of a list of port mappings.
pub fn copy_ports(v: &Vec<PortMapping>) -> (c: Vec<PortMapping>)
    ensures
        port_views(c@) == port_views(v@),
{
    let mut c: Vec<PortMapping> = Vec::new();
    let mut i: usize = 0;
    while i < v.len()
        invariant
            i <= v@.len(),
            c@.len() == i,
            forall|j: int| 0 <= j < i ==> (#[trigger] c@[j])@ == v@[j]@,
        decreases v@.len() - i,
    {
        let p = &v[i];
        c.push(PortMapping { container_port: p.container_port, host_port: p.host_port, protocol: p.protocol.clone() });
        i = i + 1;
    }
    assert(port_views(c@) =~= port_views(v@));
    c
}

/// A copy of a list of name/value pairs.
pub fn copy_pairs(v: &Vec<(String, String)>) -> (c: Vec<(String, String)>)
    ensures
        pair_texts(c@) == pair_texts(v@),
{
    let mut c: Vec<(String, String)> = Vec::new();
    let mut i: usize = 0;
    while i < v.len()
        invariant
            i <= v@.len(),
            c@.len() == i,
            forall|j: int| 0 <= j < i ==> (#[trigger] c@[j]).0@ == v@[j].0@ && c@[j].1@ == v@[j].1@,
        decreases v@.len() - i,
    {
        let p = &v[i];
        c.push((p.0.clone(), p.1.clone()));
        i = i + 1;
    }
    assert(pair_texts(c@) =~= pair_texts(v@));
    c
}

/// A copy of a teaching context.
pub fn copy_context(x: &EducationalContext) -> (c: EducationalContext)
    ensures
        c@ == x@,
{
    EducationalContext {
        learning_objectives: copy_strings(&x.learning_objectives),
        difficulty_level: x.difficulty_level,
        estimated_duration: x.estimated_duration,
        prerequisites: copy_strings(&x.prerequisites),
        evaluation_criteria: copy_strings(&x.evaluation_criteria),
        related_topics: copy_strings(&x.related_topics),
    }
}

} // verus!
