//! Orchestration of services made of container replicas: service
//! definitions, deployments and their instances, the service registry,
//! backend selection, and the decisions of deploying, scaling, updating,
//! inspecting and deleting services. Times are in milliseconds since the
//! Unix epoch, CPU amounts in thousandths of a core, utilizations and
//! percentages in thousandths, and addresses are texts.
use vstd::prelude::*;
use crate::containers::{
    ContainerConfig, ContainerError, NamespaceMode, NetworkConfig, NetworkMode, PortMapping, ResourceLimits,
    SecurityConfig, VolumeMapping, copy_pairs, copy_ports, pair_texts, port_views, volume_views,
};
use crate::containers::security::{opt_text, strings, texts};
use crate::encoding::{pieces, split_char};
use crate::ids::{fresh_id, now_millis, uuid_string, uuid_text};
use crate::keyed::{Named, find_name, has_name, name_index, name_map, remove_named, str_equal, unique_names, upsert_named};
use crate::text::{decimal_text, push_decimal, push_text, string_of};

verus! {

/// What a service asks of each replica. CPU amounts are in thousandths of
/// a core.
#[derive(Clone, Copy, PartialEq, Eq, Debug, Structural)]
pub struct ResourceRequirements {
    pub cpu_request: Option<u64>,
    pub cpu_limit: Option<u64>,
    pub memory_request: Option<u64>,
    pub memory_limit: Option<u64>,
    pub disk_request: Option<u64>,
    pub disk_limit: Option<u64>,
    pub network_bandwidth: Option<u64>,
}

/// How a service is reached. Addresses are texts.
pub struct ServiceNetworking {
    pub cluster_ip: Option<String>,
    pub external_ip: Option<String>,
    pub load_balancer_ip: Option<String>,
    pub dns_name: String,
    pub service_type: ServiceType,
    pub session_affinity: SessionAffinity,
}

/// When a service is scaled. Utilizations are in thousandths.
pub struct ScalingPolicy {
    pub min_replicas: usize,
    pub max_replicas: usize,
    pub target_cpu_utilization: Option<u32>,
    pub target_memory_utilization: Option<u32>,
    pub scale_up_policy: ScalePolicy,
    pub scale_down_policy: ScalePolicy,
}

/// How fast a service is scaled one way.
pub struct ScalePolicy {
    pub stabilization_window_seconds: u32,
    pub policies: Vec<ScalePolicyRule>,
}

/// A step of scaling: a number of pods, or a percentage in thousandths.
#[derive(Clone, Copy, PartialEq, Eq, Debug, Structural)]
pub struct ScalePolicyRule {
    pub type_: ScalePolicyType,
    pub value_permille: u64,
    pub period_seconds: u32,
}

/// How the health of replicas is checked.
pub struct HealthCheckConfig {
    pub http_get: Option<HttpHealthCheck>,
    pub tcp_connect: Option<TcpHealthCheck>,
    pub exec_check: Option<ExecHealthCheck>,
    pub initial_delay_seconds: u32,
    pub period_seconds: u32,
    pub timeout_seconds: u32,
    pub success_threshold: u32,
    pub failure_threshold: u32,
}

/// A health check by HTTP request; the headers are name/value pairs.
pub struct HttpHealthCheck {
    pub path: String,
    pub port: u16,
    pub scheme: String,
    pub host: Option<String>,
    pub headers: Vec<(String, String)>,
}

/// A health check by TCP connection.
pub struct TcpHealthCheck {
    pub port: u16,
    pub host: Option<String>,
}

/// A health check by running a command; the environment is name/value
/// pairs.
pub struct ExecHealthCheck {
    pub command: Vec<String>,
    pub working_dir: Option<String>,
    pub env: Vec<(String, String)>,
}

/// A service to run. The environment and labels are name/value pairs.
pub struct ServiceDefinition {
    pub id: String,
    pub name: String,
    pub image: String,
    pub version: String,
    pub replicas: usize,
    pub resource_requirements: ResourceRequirements,
    pub port_mappings: Vec<PortMapping>,
    pub environment: Vec<(String, String)>,
    pub dependencies: Vec<String>,
    pub health_check: HealthCheckConfig,
    pub scaling_policy: ScalingPolicy,
    pub networking: ServiceNetworking,
    pub volumes: Vec<VolumeMapping>,
    pub labels: Vec<(String, String)>,
    pub created_at: u64,
}

/// What a replica uses. The CPU usage is the bit pattern of a double.
#[derive(Clone, Copy, PartialEq, Eq, Debug, Structural)]
pub struct ResourceUsage {
    pub cpu_usage: u64,
    pub memory_usage: u64,
    pub disk_usage: u64,
    pub network_usage: u64,
}

/// A replica of a service.
pub struct ContainerInstance {
    pub id: String,
    pub container_id: String,
    pub pod_id: String,
    pub node_id: String,
    pub status: ContainerStatus,
    pub health: HealthStatus,
    pub resource_usage: ResourceUsage,
    pub restart_count: u32,
    pub started_at: u64,
    pub ready_at: Option<u64>,
}

impl Named for ContainerInstance {
    open spec fn name_of(&self) -> Seq<char> {
        self.id@
    }

    fn name(&self) -> (k: &str) {
        self.id.as_str()
    }
}

/// The rollout of a service and its replicas, in the order they were
/// added.
pub struct Deployment {
    pub id: String,
    pub service_id: String,
    pub status: DeploymentStatus,
    pub strategy: DeploymentStrategy,
    pub revision: u32,
    pub containers: Vec<ContainerInstance>,
    pub rollback_history: Vec<DeploymentRevision>,
    pub created_at: u64,
    pub updated_at: u64,
}

impl Named for Deployment {
    open spec fn name_of(&self) -> Seq<char> {
        self.id@
    }

    fn name(&self) -> (k: &str) {
        self.id.as_str()
    }
}

/// An earlier revision of a deployment.
pub struct DeploymentRevision {
    pub revision: u32,
    pub created_at: u64,
    pub service_config: ServiceDefinition,
}

/// States of a deployment.
#[derive(Clone, Copy, PartialEq, Eq, Debug, Structural)]
pub enum DeploymentStatus {
    InProgress,
    Complete,
    Failed,
    Unknown,
}

/// Ways of rolling out a deployment.
#[derive(Clone, Copy, PartialEq, Eq, Debug, Structural)]
pub enum DeploymentStrategy {
    RollingUpdate,
    Recreate,
    BlueGreen,
}

/// States of a replica.
#[derive(Clone, Copy, PartialEq, Eq, Debug, Structural)]
pub enum ContainerStatus {
    Pending,
    Running,
    Failed,
    Terminating,
    Unknown,
}

/// Health of a replica.
#[derive(Clone, Copy, PartialEq, Eq, Debug, Structural)]
pub enum HealthStatus {
    Healthy,
    Unhealthy,
    Unknown,
}

/// Kinds of service.
#[derive(Clone, Copy, PartialEq, Eq, Debug, Structural)]
pub enum ServiceType {
    ClusterIP,
    NodePort,
    LoadBalancer,
    ExternalName,
}

/// Whether clients stick to one backend.
pub struct SessionAffinity {
    pub enabled: bool,
    pub client_ip: bool,
    pub cookie_name: Option<String>,
    pub timeout_seconds: Option<u32>,
}

/// Units of a scaling step.
#[derive(Clone, Copy, PartialEq, Eq, Debug, Structural)]
pub enum ScalePolicyType {
    Pods,
    Percent,
}

/// Kinds of orchestration events.
#[derive(Clone, Copy, PartialEq, Eq, Debug, Structural)]
pub enum OrchestrationEventType {
    ServiceCreated,
    ServiceUpdated,
    ServiceDeleted,
    ContainerStarted,
    ContainerStopped,
    ContainerFailed,
    HealthCheckPassed,
    HealthCheckFailed,
    ScalingTriggered,
}

/// Where a service can be reached.
pub struct ServiceEndpoint {
    pub service_id: String,
    pub endpoints: Vec<Endpoint>,
    pub registered_at: u64,
}

impl Named for ServiceEndpoint {
    open spec fn name_of(&self) -> Seq<char> {
        self.service_id@
    }

    fn name(&self) -> (k: &str) {
        self.service_id.as_str()
    }
}

/// One address of a service.
pub struct Endpoint {
    pub host: String,
    pub port: u16,
    pub protocol: String,
    pub target: String,
}

/// The endpoints of services, one entry per service.
pub struct ServiceRegistry {
    pub services: Vec<ServiceEndpoint>,
}

impl ServiceRegistry {
    /// An empty registry.
    pub fn new() -> (r: Self)
        ensures
            r.wf(),
            r.entries() == Map::<Seq<char>, ServiceEndpoint>::empty(),
            r.services@.len() == 0,
    {
        let r = ServiceRegistry { services: Vec::new() };
        assert(r.entries() =~= Map::<Seq<char>, ServiceEndpoint>::empty());
        r
    }

    /// The invariant: one entry per service.
    pub open spec fn wf(&self) -> bool {
        unique_names(self.services@)
    }

    /// The entries, by service identifier.
    pub open spec fn entries(&self) -> Map<Seq<char>, ServiceEndpoint> {
        name_map(self.services@)
    }

    /// Records the endpoints of service `service_id`, registered now,
    /// replacing any entry it had.
    pub fn register_service(&mut self, service_id: String, endpoints: Vec<Endpoint>)
        requires
            old(self).wf(),
        ensures
            final(self).wf(),
            final(self).entries().dom() == old(self).entries().dom().insert(service_id@),
            final(self).entries()[service_id@].service_id@ == service_id@,
            final(self).entries()[service_id@].endpoints == endpoints,
            forall|k: Seq<char>|
                k != service_id@ && #[trigger] old(self).entries().contains_key(k) ==> final(self).entries()[k]
                    == old(self).entries()[k],
    {
        let entry = ServiceEndpoint { service_id, endpoints, registered_at: now_millis() };
        upsert_named(&mut self.services, entry);
    }

    /// Drops the entry of service `service_id`, if any.
    pub fn remove_service(&mut self, service_id: &str)
        requires
            old(self).wf(),
        ensures
            final(self).wf(),
            final(self).entries() == old(self).entries().remove(service_id@),
    {
        let _ = remove_named(&mut self.services, service_id);
    }

    /// The entry of service `service_id`, if any.
    pub fn get_service(&self, service_id: &str) -> (r: Option<&ServiceEndpoint>)
        requires
            self.wf(),
        ensures
            self.entries().contains_key(service_id@) ==> r == Some(&self.entries()[service_id@]),
            !self.entries().contains_key(service_id@) ==> r is None,
    {
        match find_name(&self.services, service_id) {
            Some(i) => {
                proof {
                    crate::keyed::lemma_name_index(self.services@, i as int);
                }
                Some(&self.services[i])
            },
            None => None,
        }
    }
}

/// `backend-<n>`.
pub open spec fn backend_text(n: nat) -> Seq<char> {
    "backend-"@ + decimal_text(n)
}

/// `backend-<n>`.
fn backend_name(n: u64) -> (s: String)
    ensures
        s@ == backend_text(n as nat),
{
    let mut s = string_of("backend-");
    push_decimal(&mut s, n);
    s
}

/// A way of choosing the backend that serves a request.
pub trait LoadBalancingAlgorithm {
    /// The backend chosen for a request to service `service_id`, if any.
    fn select_backend(&mut self, service_id: &str) -> Option<String>;
}

/// Backends in turn, by a counter of the requests served.
pub struct RoundRobinAlgorithm {
    pub counter: u64,
}

impl RoundRobinAlgorithm {
    /// The counter at zero.
    pub fn new() -> (a: Self)
        ensures
            a.counter == 0,
    {
        RoundRobinAlgorithm { counter: 0 }
    }
}

impl LoadBalancingAlgorithm for RoundRobinAlgorithm {
    /// The backend numbered by the counter modulo three; the counter
    /// advances, wrapping.
    fn select_backend(&mut self, service_id: &str) -> (r: Option<String>)
        ensures
            r matches Some(b) && b@ == backend_text((old(self).counter % 3) as nat),
            final(self).counter == if old(self).counter == u64::MAX {
                0
            } else {
                (old(self).counter + 1) as u64
            },
    {
        let count = self.counter;
        self.counter = count.wrapping_add(1);
        Some(backend_name(count % 3))
    }
}

/// Always the first backend.
pub struct LeastConnectionsAlgorithm;

impl LeastConnectionsAlgorithm {
    /// The algorithm.
    pub fn new() -> (a: Self) {
        LeastConnectionsAlgorithm
    }
}

impl LoadBalancingAlgorithm for LeastConnectionsAlgorithm {
    /// `backend-0`.
    fn select_backend(&mut self, service_id: &str) -> (r: Option<String>)
        ensures
            r matches Some(b) && b@ == backend_text(0),
    {
        Some(backend_name(0))
    }
}

/// A random number from `rand::random::<u32>`; nothing is claimed of it.
#[verifier::external_body]
fn random_u32() -> (n: u32) {
    rand::random::<u32>()
}

/// A backend drawn at random.
pub struct RandomAlgorithm;

impl RandomAlgorithm {
    /// The algorithm.
    pub fn new() -> (a: Self) {
        RandomAlgorithm
    }
}

impl LoadBalancingAlgorithm for RandomAlgorithm {
    /// One of `backend-0`, `backend-1` and `backend-2`: a random number
    /// modulo three.
    fn select_backend(&mut self, service_id: &str) -> (r: Option<String>)
        ensures
            r matches Some(b) && exists|n: nat| n < 3 && b@ == backend_text(n),
    {
        let n = random_u32() % 3;
        Some(backend_name(n as u64))
    }
}

/// A client's stay with a backend. The time to live is in milliseconds.
pub struct SessionInfo {
    pub session_id: String,
    pub backend: String,
    pub created_at: u64,
    pub last_access: u64,
    pub ttl: u64,
}

/// The backend selection algorithms, by name, and the active sessions.
pub struct LoadBalancer {
    pub round_robin: RoundRobinAlgorithm,
    pub least_connections: LeastConnectionsAlgorithm,
    pub random: RandomAlgorithm,
    pub active_sessions: Vec<SessionInfo>,
}

impl LoadBalancer {
    /// The `round_robin`, `least_connections` and `random` algorithms,
    /// with the counter at zero and no sessions.
    pub fn new() -> (b: Self)
        ensures
            b.round_robin.counter == 0,
            b.active_sessions@.len() == 0,
    {
        LoadBalancer {
            round_robin: RoundRobinAlgorithm::new(),
            least_connections: LeastConnectionsAlgorithm::new(),
            random: RandomAlgorithm::new(),
            active_sessions: Vec::new(),
        }
    }

    /// The backend the algorithm named `algorithm` chooses for service
    /// `service_id`; none for an unknown algorithm.
    pub fn select_backend(&mut self, service_id: &str, algorithm: &str) -> (r: Option<String>)
        ensures
            algorithm@ == "round_robin"@ ==> (r matches Some(b) && b@ == backend_text(
                (old(self).round_robin.counter % 3) as nat,
            )) && final(self).round_robin.counter == (if old(self).round_robin.counter == u64::MAX {
                0
            } else {
                (old(self).round_robin.counter + 1) as u64
            }),
            algorithm@ == "least_connections"@ ==> (r matches Some(b) && b@ == backend_text(0)),
            algorithm@ == "random"@ ==> (r matches Some(b) && exists|n: nat| n < 3 && b@ == backend_text(n)),
            algorithm@ != "round_robin"@ && algorithm@ != "least_connections"@ && algorithm@ != "random"@ ==> r is None,
            algorithm@ != "round_robin"@ ==> final(self).round_robin == old(self).round_robin,
    {
        proof {
            reveal_strlit("round_robin");
            reveal_strlit("least_connections");
            reveal_strlit("random");
            assert("round_robin"@.len() == 11 && "least_connections"@.len() == 17 && "random"@.len() == 6);
        }
        if str_equal(algorithm, "round_robin") {
            self.round_robin.select_backend(service_id)
        } else if str_equal(algorithm, "least_connections") {
            self.least_connections.select_backend(service_id)
        } else if str_equal(algorithm, "random") {
            self.random.select_backend(service_id)
        } else {
            None
        }
    }
}

/// Runs the health checks of replicas.
pub struct HealthChecker;

impl HealthChecker {
    /// The checker.
    pub fn new() -> (h: Self) {
        HealthChecker
    }
}

/// Decides when services are scaled.
pub struct ScalingManager;

impl ScalingManager {
    /// The manager.
    pub fn new() -> (m: Self) {
        ScalingManager
    }
}

/// A condition of a service.
pub struct ServiceCondition {
    pub type_: String,
    pub status: String,
    pub reason: Option<String>,
    pub message: Option<String>,
}

/// The state of a service and its replicas; the statuses of the replicas
/// are (identifier, status name) pairs in the order of the replicas.
pub struct ServiceStatus {
    pub service_id: String,
    pub name: String,
    pub replicas: usize,
    pub ready_replicas: usize,
    pub available_replicas: usize,
    pub updated_replicas: usize,
    pub observed_generation: u32,
    pub conditions: Vec<ServiceCondition>,
    pub container_statuses: Vec<(String, String)>,
}

/// A service as listed.
pub struct ServiceInfo {
    pub id: String,
    pub name: String,
    pub replicas: usize,
    pub ready_replicas: usize,
    pub image: String,
    pub created_at: u64,
}

/// The verdict on a service definition: it needs a name and a replica,
/// and no request may exceed its limit.
pub open spec fn service_verdict(
    name: Seq<char>,
    replicas: usize,
    requirements: ResourceRequirements,
) -> Option<Seq<char>> {
    if name.len() == 0 {
        Some("Service name cannot be empty"@)
    } else if replicas == 0 {
        Some("Service must have at least 1 replica"@)
    } else if requirements.cpu_limit matches Some(l) && requirements.cpu_request matches Some(q) && q > l {
        Some("CPU request cannot exceed CPU limit"@)
    } else if requirements.memory_limit matches Some(l) && requirements.memory_request matches Some(q) && q > l {
        Some("Memory request cannot exceed memory limit"@)
    } else {
        None
    }
}

/// Whether `r` carries verdict `v`: success for none, else an
/// invalid-configuration error with its message.
pub open spec fn service_verdict_agrees<T>(r: Result<T, ContainerError>, v: Option<Seq<char>>) -> bool {
    match v {
        None => r is Ok,
        Some(m) => r matches Err(ContainerError::InvalidConfig(x)) && x@ == m,
    }
}

/// The last `-`-separated part of a text.
pub open spec fn last_part(s: Seq<char>) -> Seq<char> {
    pieces(s, '-').last()
}

/// Whether `c` is the configuration of replica `container_id` of service
/// `s`: named `<service name>-<last part of the id>`, running the
/// service's image with its environment, ports and volumes, limited by its
/// limits, with default security, bridged on `multios-br0` with Google's
/// DNS servers, every namespace, and no template.
pub open spec fn replica_config_of(c: ContainerConfig, s: ServiceDefinition, container_id: Seq<char>) -> bool {
    &&& c.container_id@ == container_id
    &&& c.name@ == s.name@ + "-"@ + last_part(container_id)
    &&& c.image@ == s.image@
    &&& c.command@.len() == 0
    &&& pair_texts(c.environment@) == pair_texts(s.environment@)
    &&& port_views(c.ports@) == port_views(s.port_mappings@)
    &&& volume_views(c.volumes@) == volume_views(s.volumes@)
    &&& c.resource_limits == (ResourceLimits {
        cpu_millicores: s.resource_requirements.cpu_limit,
        memory_bytes: s.resource_requirements.memory_limit,
        disk_bytes: s.resource_requirements.disk_limit,
        network_bandwidth: s.resource_requirements.network_bandwidth,
        file_descriptors: None,
        processes: None,
    })
    &&& !c.security.privileged
    &&& c.security.capabilities@.len() == 0
    &&& c.network.network_mode is Bridge
    &&& c.network.bridge_name matches Some(b) && b@ == "multios-br0"@
    &&& c.network.ip_address is None
    &&& c.network.mac_address is None
    &&& texts(c.network.dns_servers@) == seq!["8.8.8.8"@, "8.8.4.4"@]
    &&& port_views(c.network.port_mappings@) == port_views(s.port_mappings@)
    &&& c.namespace_mode == (NamespaceMode {
        pid: true,
        network: true,
        mount: true,
        ipc: true,
        uts: true,
        user: true,
        cgroup: true,
    })
    &&& c.template_id is None
}

/// A copy of a list of volume mappings.
fn copy_volumes(v: &Vec<VolumeMapping>) -> (c: Vec<VolumeMapping>)
    ensures
        volume_views(c@) == volume_views(v@),
{
    let mut c: Vec<VolumeMapping> = Vec::new();
    let mut i: usize = 0;
    while i < v.len()
        invariant
            i <= v@.len(),
            c@.len() == i,
            forall|j: int| 0 <= j < i ==> (#[trigger] c@[j])@ == v@[j]@,
        decreases v@.len() - i,
    {
        let m = &v[i];
        c.push(
            VolumeMapping {
                host_path: m.host_path.clone(),
                container_path: m.container_path.clone(),
                read_only: m.read_only,
            },
        );
        i = i + 1;
    }
    assert(volume_views(c@) =~= volume_views(v@));
    c
}

/// Checks a service definition: it needs a name and a replica, and no
/// request may exceed its limit.
pub fn validate_service_definition(service_def: &ServiceDefinition) -> (r: Result<(), ContainerError>)
    ensures
        service_verdict_agrees(
            r,
            service_verdict(service_def.name@, service_def.replicas, service_def.resource_requirements),
        ),
{
    if service_def.name.unicode_len() == 0 {
        return Err(ContainerError::InvalidConfig(string_of("Service name cannot be empty")));
    }
    if service_def.replicas == 0 {
        return Err(ContainerError::InvalidConfig(string_of("Service must have at least 1 replica")));
    }
    let req = service_def.resource_requirements;
    if let Some(cpu_limit) = req.cpu_limit {
        if let Some(cpu_request) = req.cpu_request {
            if cpu_request > cpu_limit {
                return Err(ContainerError::InvalidConfig(string_of("CPU request cannot exceed CPU limit")));
            }
        }
    }
    if let Some(mem_limit) = req.memory_limit {
        if let Some(mem_request) = req.memory_request {
            if mem_request > mem_limit {
                return Err(ContainerError::InvalidConfig(string_of("Memory request cannot exceed memory limit")));
            }
        }
    }
    Ok(())
}

/// The configuration of replica `container_id` of service `service`,
/// created now. It always succeeds.
pub fn service_to_container_config(service: &ServiceDefinition, container_id: &str) -> (r: Result<
    ContainerConfig,
    ContainerError,
>)
    ensures
        r matches Ok(c) && replica_config_of(c, *service, container_id@),
{
    let parts = split_char(container_id, '-');
    proof {
        crate::encoding::lemma_pieces_nonempty(container_id@, '-', Seq::empty());
    }
    let mut name = service.name.clone();
    push_text(&mut name, "-");
    let last = parts.len() - 1;
    push_text(&mut name, parts[last].as_str());
    let req = service.resource_requirements;
    let c = ContainerConfig {
        container_id: string_of(container_id),
        name,
        image: service.image.clone(),
        command: Vec::new(),
        environment: copy_pairs(&service.environment),
        ports: copy_ports(&service.port_mappings),
        volumes: copy_volumes(&service.volumes),
        resource_limits: ResourceLimits {
            cpu_millicores: req.cpu_limit,
            memory_bytes: req.memory_limit,
            disk_bytes: req.disk_limit,
            network_bandwidth: req.network_bandwidth,
            file_descriptors: None,
            processes: None,
        },
        security: SecurityConfig::default(),
        network: NetworkConfig {
            network_mode: NetworkMode::Bridge,
            bridge_name: Some(string_of("multios-br0")),
            ip_address: None,
            mac_address: None,
            dns_servers: strings(&["8.8.8.8", "8.8.4.4"]),
            port_mappings: copy_ports(&service.port_mappings),
        },
        namespace_mode: NamespaceMode::default(),
        template_id: None,
        created_at: now_millis(),
    };
    assert(texts(c.network.dns_servers@) =~= seq!["8.8.8.8"@, "8.8.4.4"@]);
    Ok(c)
}

/// The Debug rendering of a list of texts, as `format!("{:?}", ..)` writes
/// it for a `Vec<String>`.
pub uninterp spec fn string_list_debug(items: Seq<Seq<char>>) -> Seq<char>;

/// `format!("{:?}", v)` on a list of strings. Claimed: the text is the
/// name `string_list_debug` of the strings' texts, so equal lists render
/// alike; what the rendering is, is left to std.
#[verifier::external_body]
fn debug_strings(v: &Vec<String>) -> (s: String)
    ensures
        s@ == string_list_debug(texts(v@)),
{
    format!("{:?}", v)
}

/// A service definition under the key it was recorded with.
pub struct ServiceEntry {
    pub service_id: String,
    pub definition: ServiceDefinition,
}

impl Named for ServiceEntry {
    open spec fn name_of(&self) -> Seq<char> {
        self.service_id@
    }

    fn name(&self) -> (k: &str) {
        self.service_id.as_str()
    }
}

/// The key of the deployment of service `service_id`: `deploy-<id>`.
pub open spec fn deployment_key(service_id: Seq<char>) -> Seq<char> {
    "deploy-"@ + service_id
}

/// The number of running replicas.
pub open spec fn count_running(s: Seq<ContainerInstance>) -> nat
    decreases s.len(),
{
    if s.len() == 0 {
        0
    } else {
        (if s[0].status == ContainerStatus::Running {
            1nat
        } else {
            0nat
        }) + count_running(s.drop_first())
    }
}

/// The number of healthy replicas.
pub open spec fn count_healthy(s: Seq<ContainerInstance>) -> nat
    decreases s.len(),
{
    if s.len() == 0 {
        0
    } else {
        (if s[0].health == HealthStatus::Healthy {
            1nat
        } else {
            0nat
        }) + count_healthy(s.drop_first())
    }
}

/// The position of the first running replica, if any.
pub open spec fn first_running(s: Seq<ContainerInstance>) -> Option<int>
    decreases s.len(),
{
    if s.len() == 0 {
        None
    } else if s[0].status == ContainerStatus::Running {
        Some(0)
    } else {
        match first_running(s.drop_first()) {
            Some(i) => Some(i + 1),
            None => None,
        }
    }
}

/// The replicas left after taking out the first running one `k` times in
/// turn (fewer when they run out).
pub open spec fn drop_running(s: Seq<ContainerInstance>, k: nat) -> Seq<ContainerInstance>
    decreases k,
{
    if k == 0 {
        s
    } else {
        let t = drop_running(s, (k - 1) as nat);
        match first_running(t) {
            Some(i) => t.remove(i),
            None => t,
        }
    }
}

/// Whether `x` is a replica just added to service `service_id`: its
/// identifier is `<service>-<fresh uuid>`, its container has the same
/// identifier, its pod is `pod-<id>`, it is pending on `localhost` with
/// unknown health, no usage and no restarts, and not yet ready.
pub open spec fn fresh_instance(x: ContainerInstance, service_id: Seq<char>) -> bool {
    &&& exists|u: u128| x.id@ == service_id + "-"@ + #[trigger] uuid_text(u)
    &&& x.container_id@ == x.id@
    &&& x.pod_id@ == "pod-"@ + x.id@
    &&& x.node_id@ == "localhost"@
    &&& x.status == ContainerStatus::Pending
    &&& x.health == HealthStatus::Unknown
    &&& x.resource_usage == (ResourceUsage { cpu_usage: 0, memory_usage: 0, disk_usage: 0, network_usage: 0 })
    &&& x.restart_count == 0
    &&& x.ready_at is None
}

/// The replica identifier of `service_id` made from UUID `u`.
pub open spec fn instance_id(service_id: Seq<char>, u: u128) -> Seq<char> {
    service_id + "-"@ + uuid_text(u)
}

/// The identifiers made from the UUIDs below `k`.
pub open spec fn low_instance_ids(service_id: Seq<char>, k: nat) -> Set<Seq<char>>
    decreases k,
{
    if k == 0 {
        Set::empty()
    } else {
        low_instance_ids(service_id, (k - 1) as nat).insert(instance_id(service_id, (k - 1) as u128))
    }
}

proof fn lemma_instance_id_injective(service_id: Seq<char>, a: u128, b: u128)
    requires
        instance_id(service_id, a) == instance_id(service_id, b),
    ensures
        a == b,
{
    let p = service_id + "-"@;
    assert(instance_id(service_id, a).subrange(p.len() as int, instance_id(service_id, a).len() as int)
        =~= uuid_text(a));
    assert(instance_id(service_id, b).subrange(p.len() as int, instance_id(service_id, b).len() as int)
        =~= uuid_text(b));
    crate::ids::lemma_uuid_text_injective(a, b);
}

proof fn lemma_low_instance_ids(service_id: Seq<char>, k: nat)
    requires
        k <= 0x1_0000_0000_0000_0000,
    ensures
        low_instance_ids(service_id, k).finite(),
        low_instance_ids(service_id, k).len() == k,
        forall|x: Seq<char>|
            #[trigger] low_instance_ids(service_id, k).contains(x) ==> exists|j: int|
                0 <= j < k && x == #[trigger] instance_id(service_id, j as u128),
    decreases k,
{
    if k > 0 {
        let k1 = (k - 1) as nat;
        lemma_low_instance_ids(service_id, k1);
        let x = instance_id(service_id, k1 as u128);
        if low_instance_ids(service_id, k1).contains(x) {
            let j = choose|j: int| 0 <= j < k1 && x == #[trigger] instance_id(service_id, j as u128);
            lemma_instance_id_injective(service_id, k1 as u128, j as u128);
        }
    }
}

/// A new replica named `id`: pending, health unknown, no usage, on this
/// host, started now.
fn fresh_replica(id: &String) -> (x: ContainerInstance)
    ensures
        x.id@ == id@,
        x.container_id@ == id@,
        x.pod_id@ == "pod-"@ + id@,
        x.node_id@ == "localhost"@,
        x.status == ContainerStatus::Pending,
        x.health == HealthStatus::Unknown,
        x.resource_usage == (ResourceUsage { cpu_usage: 0, memory_usage: 0, disk_usage: 0, network_usage: 0 }),
        x.restart_count == 0,
        x.ready_at is None,
{
    let mut pod = string_of("pod-");
    push_text(&mut pod, id.as_str());
    ContainerInstance {
        id: id.clone(),
        container_id: id.clone(),
        pod_id: pod,
        node_id: string_of("localhost"),
        status: ContainerStatus::Pending,
        health: HealthStatus::Unknown,
        resource_usage: ResourceUsage { cpu_usage: 0, memory_usage: 0, disk_usage: 0, network_usage: 0 },
        restart_count: 0,
        started_at: now_millis(),
        ready_at: None,
    }
}

/// An identifier for a new replica of `service_id` that none of
/// `instances` has: `<service_id>-<uuid>` for a random UUID, or, when that
/// one is taken, for the first of the UUIDs 0, 1, 2, ... that is free
/// (one is, since there are fewer replicas than candidates).
fn unused_instance_id(service_id: &str, instances: &Vec<ContainerInstance>) -> (id: String)
    requires
        unique_names(instances@),
    ensures
        !has_name(instances@, id@),
        exists|u: u128| id@ == service_id@ + "-"@ + #[trigger] uuid_text(u),
{
    let u = fresh_id();
    let mut id = string_of(service_id);
    push_text(&mut id, "-");
    push_text(&mut id, uuid_string(u).as_str());
    assert(id@ == service_id@ + "-"@ + uuid_text(u));
    if find_name(instances, id.as_str()).is_none() {
        return id;
    }
    let n = instances.len();
    let mut k: usize = 0;
    loop
        invariant
            unique_names(instances@),
            n == instances@.len(),
            k <= n,
            forall|j: int| 0 <= j < k ==> has_name(instances@, #[trigger] instance_id(service_id@, j as u128)),
        decreases n - k,
    {
        let mut cand = string_of(service_id);
        push_text(&mut cand, "-");
        push_text(&mut cand, uuid_string(k as u128).as_str());
        assert(cand@ == instance_id(service_id@, k as u128));
        if find_name(instances, cand.as_str()).is_none() {
            return cand;
        }
        proof {
            let names = crate::keyed::names_of(instances@).to_set();
            crate::keyed::lemma_name_map_len(instances@);
            lemma_low_instance_ids(service_id@, (k + 1) as nat);
            assert(low_instance_ids(service_id@, (k + 1) as nat).subset_of(names)) by {
                assert forall|x: Seq<char>| #[trigger] low_instance_ids(service_id@, (k + 1) as nat).contains(x) implies names.contains(x) by {
                    let j = choose|j: int| 0 <= j < k + 1 && x == #[trigger] instance_id(service_id@, j as u128);
                    assert(has_name(instances@, x));
                    let i = choose|i: int| 0 <= i < instances@.len() && (#[trigger] instances@[i]).name_of() == x;
                    assert(crate::keyed::names_of(instances@)[i] == x);
                }
            }
            assert(names.len() == n) by {
                assert(crate::keyed::name_map(instances@).dom() == names);
            }
            vstd::set_lib::lemma_len_subset(low_instance_ids(service_id@, (k + 1) as nat), names);
        }
        k = k + 1;
    }
}

/// Whether `new` is `old` with fresh replicas of `service_id` added, at
/// most `bound` in all: each old replica stays in its place unless a new
/// one with the same identifier took it, and the rest are new.
pub open spec fn grown(
    new: Seq<ContainerInstance>,
    old: Seq<ContainerInstance>,
    service_id: Seq<char>,
    bound: int,
) -> bool {
    &&& old.len() <= new.len() <= bound
    &&& forall|i: int| 0 <= i < old.len() ==> new[i] == old[i] || fresh_instance(#[trigger] new[i], service_id)
    &&& forall|i: int| old.len() <= i < new.len() ==> fresh_instance(#[trigger] new[i], service_id)
}

/// Whether `r` and `new` are what resizing replicas `old` of `service_id`
/// to `target` gives: at the current count nothing changes; below it, fresh
/// replicas are added to reach it; above it, the
/// first running replica is taken out as many times as needed, and it is
/// refused when running replicas run out.
pub open spec fn resize_outcome(
    old: Seq<ContainerInstance>,
    new: Seq<ContainerInstance>,
    service_id: Seq<char>,
    target: int,
    r: Result<(), ContainerError>,
) -> bool {
    if target == old.len() {
        r is Ok && new == old
    } else if target > old.len() {
        r is Ok && grown(new, old, service_id, target) && new.len() == target
    } else {
        let k = (old.len() - target) as nat;
        if k <= count_running(old) {
            r is Ok && new == drop_running(old, k)
        } else {
            (r matches Err(ContainerError::InvalidConfig(m)) && m@ == "No running containers to remove"@) && new
                == drop_running(old, count_running(old))
        }
    }
}

/// Deploying or scaling up reaches the target exactly: resizing replicas
/// towards a target at or above their count succeeds, and afterwards there
/// are exactly `target` replicas, those beyond the old count all fresh.
pub proof fn lemma_resize_up_reaches_target(
    old: Seq<ContainerInstance>,
    new: Seq<ContainerInstance>,
    service_id: Seq<char>,
    target: int,
    r: Result<(), ContainerError>,
)
    requires
        resize_outcome(old, new, service_id, target, r),
        target >= old.len(),
    ensures
        r is Ok,
        new.len() == target,
        forall|i: int| old.len() <= i < target ==> fresh_instance(#[trigger] new[i], service_id),
{
}

/// Scaling a service to the number of replicas it already has succeeds and
/// leaves its replicas as they were.
pub proof fn lemma_resize_to_current_count(
    old: Seq<ContainerInstance>,
    new: Seq<ContainerInstance>,
    service_id: Seq<char>,
    r: Result<(), ContainerError>,
)
    requires
        resize_outcome(old, new, service_id, old.len() as int, r),
    ensures
        r is Ok,
        new == old,
{
}

/// Whether deployment `b` is `a` but for its replicas.
pub open spec fn same_but_containers(a: Deployment, b: Deployment) -> bool {
    &&& b.id == a.id
    &&& b.service_id == a.service_id
    &&& b.status == a.status
    &&& b.strategy == a.strategy
    &&& b.revision == a.revision
    &&& b.rollback_history == a.rollback_history
    &&& b.created_at == a.created_at
    &&& b.updated_at == a.updated_at
}

/// The status name of a replica, as `Debug` writes it.
pub open spec fn container_status_text(s: ContainerStatus) -> Seq<char> {
    match s {
        ContainerStatus::Pending => "Pending"@,
        ContainerStatus::Running => "Running"@,
        ContainerStatus::Failed => "Failed"@,
        ContainerStatus::Terminating => "Terminating"@,
        ContainerStatus::Unknown => "Unknown"@,
    }
}

/// The status name of a replica, as `Debug` writes it.
fn container_status_name(s: ContainerStatus) -> (t: String)
    ensures
        t@ == container_status_text(s),
{
    match s {
        ContainerStatus::Pending => string_of("Pending"),
        ContainerStatus::Running => string_of("Running"),
        ContainerStatus::Failed => string_of("Failed"),
        ContainerStatus::Terminating => string_of("Terminating"),
        ContainerStatus::Unknown => string_of("Unknown"),
    }
}

/// The log text of replicas `s`: a header and a placeholder line for each
/// one, or only for the one named `only` when given.
pub open spec fn logs_text(s: Seq<ContainerInstance>, only: Option<Seq<char>>) -> Seq<char>
    decreases s.len(),
{
    if s.len() == 0 {
        Seq::empty()
    } else {
        let rest = logs_text(s.drop_last(), only);
        let x = s.last();
        if only is None || only == Some(x.id@) {
            rest + "=== Container "@ + x.id@ + " ===\n[Logs would be retrieved here]\n"@
        } else {
            rest
        }
    }
}

/// There is a running replica exactly when some are counted running; the
/// first one runs, those before it do not, and taking it out leaves one
/// fewer running.
proof fn lemma_first_running(s: Seq<ContainerInstance>)
    ensures
        first_running(s) is None <==> count_running(s) == 0,
        first_running(s) matches Some(i) ==> 0 <= i < s.len() && s[i].status == ContainerStatus::Running
            && count_running(s.remove(i)) + 1 == count_running(s) && forall|j: int|
            0 <= j < i ==> (#[trigger] s[j]).status != ContainerStatus::Running,
    decreases s.len(),
{
    if s.len() > 0 {
        lemma_first_running(s.drop_first());
        if s[0].status == ContainerStatus::Running {
            assert(s.remove(0) =~= s.drop_first());
        } else {
            match first_running(s.drop_first()) {
                Some(i) => {
                    assert(s.remove(i + 1).drop_first() =~= s.drop_first().remove(i));
                    assert(s.remove(i + 1)[0] == s[0]);
                    assert forall|j: int| 0 <= j < i + 1 implies (#[trigger] s[j]).status
                        != ContainerStatus::Running by {
                        if j > 0 {
                            assert(s[j] == s.drop_first()[j - 1]);
                        }
                    }
                },
                None => {},
            }
        }
    }
}

/// The replicas running and counted so far, from the front.
proof fn lemma_count_running_prefix(s: Seq<ContainerInstance>, i: int)
    requires
        0 <= i < s.len(),
    ensures
        count_running(s.take(i + 1)) == count_running(s.take(i)) + (if s[i].status == ContainerStatus::Running {
            1nat
        } else {
            0nat
        }),
    decreases i,
{
    if i > 0 {
        lemma_count_running_prefix(s.drop_first(), i - 1);
        assert(s.take(i + 1).drop_first() =~= s.drop_first().take(i));
        assert(s.take(i).drop_first() =~= s.drop_first().take(i - 1));
    } else {
        assert(s.take(1).drop_first() =~= Seq::<ContainerInstance>::empty());
        assert(s.take(0) =~= Seq::<ContainerInstance>::empty());
    }
}

/// The healthy replicas counted so far, from the front.
proof fn lemma_count_healthy_prefix(s: Seq<ContainerInstance>, i: int)
    requires
        0 <= i < s.len(),
    ensures
        count_healthy(s.take(i + 1)) == count_healthy(s.take(i)) + (if s[i].health == HealthStatus::Healthy {
            1nat
        } else {
            0nat
        }),
    decreases i,
{
    if i > 0 {
        lemma_count_healthy_prefix(s.drop_first(), i - 1);
        assert(s.take(i + 1).drop_first() =~= s.drop_first().take(i));
        assert(s.take(i).drop_first() =~= s.drop_first().take(i - 1));
    } else {
        assert(s.take(1).drop_first() =~= Seq::<ContainerInstance>::empty());
        assert(s.take(0) =~= Seq::<ContainerInstance>::empty());
    }
}

/// The position of the first running replica, if any.
fn find_running(v: &Vec<ContainerInstance>) -> (r: Option<usize>)
    ensures
        r matches Some(i) ==> first_running(v@) == Some(i as int),
        r is None ==> first_running(v@) is None,
{
    let mut i: usize = 0;
    while i < v.len()
        invariant
            i <= v@.len(),
            forall|j: int| 0 <= j < i ==> (#[trigger] v@[j]).status != ContainerStatus::Running,
        decreases v@.len() - i,
    {
        if v[i].status == ContainerStatus::Running {
            proof {
                lemma_first_running_at(v@, i as int);
            }
            return Some(i);
        }
        i = i + 1;
    }
    proof {
        lemma_first_running_at(v@, v@.len() as int);
    }
    None
}

/// When the first `i` replicas do not run, the first running one is at
/// `i` if that one runs, and there is none when `i` is the end.
proof fn lemma_first_running_at(s: Seq<ContainerInstance>, i: int)
    requires
        0 <= i <= s.len(),
        forall|j: int| 0 <= j < i ==> (#[trigger] s[j]).status != ContainerStatus::Running,
    ensures
        i < s.len() && s[i].status == ContainerStatus::Running ==> first_running(s) == Some(i),
        i == s.len() ==> first_running(s) is None,
    decreases i,
{
    if i > 0 {
        assert forall|j: int| 0 <= j < i - 1 implies (#[trigger] s.drop_first()[j]).status
            != ContainerStatus::Running by {
            assert(s.drop_first()[j] == s[j + 1]);
        }
        lemma_first_running_at(s.drop_first(), i - 1);
    }
}

/// Services, their deployments and registry, and backend selection.
pub struct OrchestrationEngine {
    pub services: Vec<ServiceEntry>,
    pub deployments: Vec<Deployment>,
    pub service_registry: ServiceRegistry,
    pub load_balancer: LoadBalancer,
    pub health_checker: HealthChecker,
    pub scaling_manager: ScalingManager,
}

impl OrchestrationEngine {
    /// The invariant: one entry per service key, one deployment per key,
    /// one replica per identifier in each deployment, and a well-formed
    /// registry.
    pub open spec fn wf(&self) -> bool {
        &&& unique_names(self.services@)
        &&& unique_names(self.deployments@)
        &&& forall|i: int| 0 <= i < self.deployments@.len() ==> unique_names((#[trigger] self.deployments@[i]).containers@)
        &&& self.service_registry.wf()
    }

    /// The services, by key.
    pub open spec fn services_map(&self) -> Map<Seq<char>, ServiceEntry> {
        name_map(self.services@)
    }

    /// The deployments, by key.
    pub open spec fn deployments_map(&self) -> Map<Seq<char>, Deployment> {
        name_map(self.deployments@)
    }

    /// Whether `b` is `a` with the deployment of `service_id` resized to
    /// `target` with outcome `r`, and nothing else changed.
    pub open spec fn resized(a: &Self, b: &Self, service_id: Seq<char>, target: int, r: Result<(), ContainerError>) -> bool {
        let k = deployment_key(service_id);
        &&& b.services == a.services
        &&& b.service_registry == a.service_registry
        &&& b.deployments_map().dom() == a.deployments_map().dom()
        &&& forall|j: Seq<char>|
            j != k && #[trigger] a.deployments_map().contains_key(j) ==> b.deployments_map()[j] == a.deployments_map()[j]
        &&& same_but_containers(a.deployments_map()[k], b.deployments_map()[k])
        &&& resize_outcome(
            a.deployments_map()[k].containers@,
            b.deployments_map()[k].containers@,
            service_id,
            target,
            r,
        )
    }

    /// No services, deployments or registered endpoints.
    pub fn new() -> (e: Self)
        ensures
            e.wf(),
            e.services_map() == Map::<Seq<char>, ServiceEntry>::empty(),
            e.deployments_map() == Map::<Seq<char>, Deployment>::empty(),
            e.service_registry.entries() == Map::<Seq<char>, ServiceEndpoint>::empty(),
            e.services@.len() == 0,
            e.deployments@.len() == 0,
            e.service_registry.services@.len() == 0,
            e.load_balancer.round_robin.counter == 0,
            e.load_balancer.active_sessions@.len() == 0,
    {
        let e = OrchestrationEngine {
            services: Vec::new(),
            deployments: Vec::new(),
            service_registry: ServiceRegistry::new(),
            load_balancer: LoadBalancer::new(),
            health_checker: HealthChecker::new(),
            scaling_manager: ScalingManager::new(),
        };
        assert(e.services_map() =~= Map::<Seq<char>, ServiceEntry>::empty());
        assert(e.deployments_map() =~= Map::<Seq<char>, Deployment>::empty());
        e
    }

    /// `deploy-<service_id>`.
    fn deployment_id(service_id: &str) -> (s: String)
        ensures
            s@ == deployment_key(service_id@),
    {
        let mut s = string_of("deploy-");
        push_text(&mut s, service_id);
        s
    }

    /// Takes the deployment under `key` out, if any.
    fn take_deployment(&mut self, key: &str) -> (r: Option<Deployment>)
        requires
            old(self).wf(),
        ensures
            final(self).wf(),
            final(self).services == old(self).services,
            final(self).service_registry == old(self).service_registry,
            final(self).deployments_map() == old(self).deployments_map().remove(key@),
            old(self).deployments_map().contains_key(key@) ==> r == Some(old(self).deployments_map()[key@]),
            !old(self).deployments_map().contains_key(key@) ==> r is None,
            r matches Some(d) ==> unique_names(d.containers@) && d.id@ == key@,
            r is None ==> final(self).deployments@ == old(self).deployments@,
    {
        let ghost before = self.deployments@;
        let r = remove_named(&mut self.deployments, key);
        proof {
            if has_name(before, key@) {
                crate::keyed::lemma_name_index(before, name_index(before, key@));
                assert(unique_names(before[name_index(before, key@)].containers@));
            }
            if has_name(before, key@) {
                assert forall|i: int| 0 <= i < self.deployments@.len() implies unique_names(
                    (#[trigger] self.deployments@[i]).containers@,
                ) by {
                    let j = if i < name_index(before, key@) {
                        i
                    } else {
                        i + 1
                    };
                    assert(self.deployments@[i] == before[j]);
                }
            }
        }
        r
    }

    /// Puts deployment `d` back under its key.
    fn put_deployment(&mut self, d: Deployment)
        requires
            old(self).wf(),
            unique_names(d.containers@),
        ensures
            final(self).wf(),
            final(self).services == old(self).services,
            final(self).service_registry == old(self).service_registry,
            final(self).deployments_map() == old(self).deployments_map().insert(d.id@, d),
    {
        let ghost before = self.deployments@;
        let ghost dd = d;
        upsert_named(&mut self.deployments, d);
        proof {
            assert forall|i: int| 0 <= i < self.deployments@.len() implies unique_names(
                (#[trigger] self.deployments@[i]).containers@,
            ) by {
                if i < before.len() && self.deployments@[i] != dd {
                    assert(self.deployments@[i] == before[i]);
                }
            }
        }
    }

    /// Records a fresh deployment of `service_def` under
    /// `deploy-<service id>`: in progress, rolling update, revision one, no
    /// replicas, created now. Any deployment under that key is replaced.
    pub fn create_deployment(&mut self, service_def: &ServiceDefinition) -> (id: String)
        requires
            old(self).wf(),
        ensures
            final(self).wf(),
            id@ == deployment_key(service_def.id@),
            final(self).services == old(self).services,
            final(self).service_registry == old(self).service_registry,
            final(self).deployments_map().dom() == old(self).deployments_map().dom().insert(id@),
            forall|j: Seq<char>|
                j != id@ && #[trigger] old(self).deployments_map().contains_key(j) ==> final(self).deployments_map()[j]
                    == old(self).deployments_map()[j],
            ({
                let d = final(self).deployments_map()[id@];
                &&& d.id@ == id@
                &&& d.service_id@ == service_def.id@
                &&& d.status == DeploymentStatus::InProgress
                &&& d.strategy == DeploymentStrategy::RollingUpdate
                &&& d.revision == 1
                &&& d.containers@.len() == 0
                &&& d.rollback_history@.len() == 0
            }),
    {
        let id = Self::deployment_id(service_def.id.as_str());
        let now = now_millis();
        let d = Deployment {
            id: id.clone(),
            service_id: service_def.id.clone(),
            status: DeploymentStatus::InProgress,
            strategy: DeploymentStrategy::RollingUpdate,
            revision: 1,
            containers: Vec::new(),
            rollback_history: Vec::new(),
            created_at: now,
            updated_at: now,
        };
        self.put_deployment(d);
        id
    }

    /// Adds a fresh replica of service `service_id` to deployment
    /// `deployment_id` (nothing is added when there is no such deployment)
    /// and gives its identifier; not found when the service is not
    /// recorded.
    pub fn add_container_instance(&mut self, service_id: &str, deployment_id: &str) -> (r: Result<
        String,
        ContainerError,
    >)
        requires
            old(self).wf(),
        ensures
            final(self).wf(),
            final(self).services == old(self).services,
            final(self).service_registry == old(self).service_registry,
            !old(self).services_map().contains_key(service_id@) ==> (r matches Err(ContainerError::NotFound(m)) && m@
                == "Service "@ + service_id@ + " not found"@) && final(self).deployments == old(self).deployments,
            old(self).services_map().contains_key(service_id@) ==> r is Ok,
            !old(self).deployments_map().contains_key(deployment_id@) ==> final(self).deployments@
                == old(self).deployments@,
            old(self).services_map().contains_key(service_id@) && old(self).deployments_map().contains_key(
                deployment_id@,
            ) ==> {
                &&& final(self).deployments_map().dom() == old(self).deployments_map().dom()
                &&& forall|j: Seq<char>|
                    j != deployment_id@ && #[trigger] old(self).deployments_map().contains_key(j)
                        ==> final(self).deployments_map()[j] == old(self).deployments_map()[j]
                &&& same_but_containers(
                    old(self).deployments_map()[deployment_id@],
                    final(self).deployments_map()[deployment_id@],
                )
                &&& grown(
                    final(self).deployments_map()[deployment_id@].containers@,
                    old(self).deployments_map()[deployment_id@].containers@,
                    service_id@,
                    old(self).deployments_map()[deployment_id@].containers@.len() + 1int,
                )
                &&& final(self).deployments_map()[deployment_id@].containers@.len()
                    == old(self).deployments_map()[deployment_id@].containers@.len() + 1
                &&& final(self).deployments_map()[deployment_id@].containers@.take(
                    old(self).deployments_map()[deployment_id@].containers@.len() as int,
                ) == old(self).deployments_map()[deployment_id@].containers@
                &&& r matches Ok(id) && has_name(final(self).deployments_map()[deployment_id@].containers@, id@)
            },
    {
        if find_name(&self.services, service_id).is_none() {
            let mut m = string_of("Service ");
            push_text(&mut m, service_id);
            push_text(&mut m, " not found");
            return Err(ContainerError::NotFound(m));
        }
        let ghost before = *self;
        match self.take_deployment(deployment_id) {
            Some(mut d) => {
                let id = unused_instance_id(service_id, &d.containers);
                let instance = fresh_replica(&id);
                assert(fresh_instance(instance, service_id@));
                let ghost old_c = d.containers@;
                upsert_named(&mut d.containers, instance);
                proof {
                    assert(d.containers@ == old_c.push(instance));
                    assert(d.containers@.take(old_c.len() as int) =~= old_c);
                    assert(has_name(d.containers@, id@)) by {
                        assert(d.containers@[old_c.len() as int].name_of() == id@);
                    }
                }
                self.put_deployment(d);
                proof {
                    assert(self.deployments_map().dom() =~= before.deployments_map().dom());
                }
                Ok(id)
            },
            None => {
                let u = fresh_id();
                let mut id = string_of(service_id);
                push_text(&mut id, "-");
                push_text(&mut id, uuid_string(u).as_str());
                Ok(id)
            },
        }
    }

    /// Takes the first running replica out of the deployment of service
    /// `service_id`; not found without a deployment, refused without a
    /// running replica.
    pub fn remove_container_instance(&mut self, service_id: &str) -> (r: Result<(), ContainerError>)
        requires
            old(self).wf(),
        ensures
            final(self).wf(),
            final(self).services == old(self).services,
            final(self).service_registry == old(self).service_registry,
            !old(self).deployments_map().contains_key(deployment_key(service_id@)) ==> (r matches Err(
                ContainerError::NotFound(m),
            ) && m@ == "Deployment for service "@ + service_id@ + " not found"@) && final(self).deployments
                == old(self).deployments,
            old(self).deployments_map().contains_key(deployment_key(service_id@)) ==> {
                let k = deployment_key(service_id@);
                let c = old(self).deployments_map()[k].containers@;
                match first_running(c) {
                    None => (r matches Err(ContainerError::InvalidConfig(m)) && m@
                        == "No running containers to remove"@) && final(self).deployments == old(self).deployments,
                    Some(i) => {
                        &&& r is Ok
                        &&& final(self).deployments_map().dom() == old(self).deployments_map().dom()
                        &&& forall|j: Seq<char>|
                            j != k && #[trigger] old(self).deployments_map().contains_key(j)
                                ==> final(self).deployments_map()[j] == old(self).deployments_map()[j]
                        &&& same_but_containers(old(self).deployments_map()[k], final(self).deployments_map()[k])
                        &&& final(self).deployments_map()[k].containers@ == c.remove(i)
                    },
                }
            },
    {
        let key = Self::deployment_id(service_id);
        let di = match find_name(&self.deployments, key.as_str()) {
            Some(di) => di,
            None => {
                let mut m = string_of("Deployment for service ");
                push_text(&mut m, service_id);
                push_text(&mut m, " not found");
                return Err(ContainerError::NotFound(m));
            },
        };
        proof {
            crate::keyed::lemma_name_index(self.deployments@, di as int);
        }
        let ri = match find_running(&self.deployments[di].containers) {
            Some(ri) => ri,
            None => {
                return Err(ContainerError::InvalidConfig(string_of("No running containers to remove")));
            },
        };
        proof {
            lemma_first_running(self.deployments@[di as int].containers@);
        }
        let victim = self.deployments[di].containers[ri].id.clone();
        let ghost before = *self;
        let mut d = match self.take_deployment(key.as_str()) {
            Some(d) => d,
            None => {
                return Ok(());
            },
        };
        proof {
            crate::keyed::lemma_name_index(d.containers@, ri as int);
        }
        let _ = remove_named(&mut d.containers, victim.as_str());
        self.put_deployment(d);
        proof {
            assert(self.deployments_map().dom() =~= before.deployments_map().dom());
        }
        Ok(())
    }

    /// Resizes the replicas of service `service_id`, whose service and
    /// deployment are recorded, to `target` (see `resize_outcome`).
    fn resize(&mut self, service_id: &str, target: usize) -> (r: Result<(), ContainerError>)
        requires
            old(self).wf(),
            old(self).services_map().contains_key(service_id@),
            old(self).deployments_map().contains_key(deployment_key(service_id@)),
        ensures
            final(self).wf(),
            Self::resized(&*old(self), &*final(self), service_id@, target as int, r),
    {
        let key = Self::deployment_id(service_id);
        let di = match find_name(&self.deployments, key.as_str()) {
            Some(di) => di,
            None => {
                return Ok(());
            },
        };
        proof {
            crate::keyed::lemma_name_index(self.deployments@, di as int);
        }
        let current = self.deployments[di].containers.len();
        let ghost start = *self;
        let ghost c0 = start.deployments_map()[key@].containers@;
        if target >= current {
            let mut n: usize = current;
            while n < target
                invariant
                    self.wf(),
                    current == c0.len(),
                    current <= n <= target,
                    self.services == start.services,
                    self.service_registry == start.service_registry,
                    self.deployments_map().dom() == start.deployments_map().dom(),
                    start.services_map().contains_key(service_id@),
                    start.deployments_map().contains_key(key@),
                    key@ == deployment_key(service_id@),
                    c0 == start.deployments_map()[key@].containers@,
                    forall|j: Seq<char>|
                        j != key@ && #[trigger] start.deployments_map().contains_key(j)
                            ==> self.deployments_map()[j] == start.deployments_map()[j],
                    same_but_containers(start.deployments_map()[key@], self.deployments_map()[key@]),
                    grown(self.deployments_map()[key@].containers@, c0, service_id@, n as int),
                    self.deployments_map()[key@].containers@.len() == n,
                    n == current ==> self.deployments_map()[key@].containers@ == c0,
                decreases target - n,
            {
                let ghost prev = self.deployments_map()[key@].containers@;
                let _ = self.add_container_instance(service_id, key.as_str());
                proof {
                    let now = self.deployments_map()[key@].containers@;
                    assert forall|i: int| 0 <= i < c0.len() implies now[i] == c0[i] || fresh_instance(
                        #[trigger] now[i],
                        service_id@,
                    ) by {
                        assert(prev[i] == c0[i] || fresh_instance(prev[i], service_id@));
                        assert(now[i] == prev[i] || fresh_instance(now[i], service_id@));
                    }
                    assert forall|i: int| c0.len() <= i < now.len() implies fresh_instance(
                        #[trigger] now[i],
                        service_id@,
                    ) by {
                        if i < prev.len() {
                            assert(fresh_instance(prev[i], service_id@));
                            assert(now[i] == prev[i] || fresh_instance(now[i], service_id@));
                        }
                    }
                }
                n = n + 1;
            }
            Ok(())
        } else {
            let k = current - target;
            let mut n: usize = 0;
            while n < k
                invariant
                    self.wf(),
                    current == c0.len(),
                    k == current - target,
                    n <= k,
                    n <= count_running(c0),
                    start == *old(self),
                    self.services == start.services,
                    self.service_registry == start.service_registry,
                    self.deployments_map().dom() == start.deployments_map().dom(),
                    start.deployments_map().contains_key(key@),
                    key@ == deployment_key(service_id@),
                    c0 == start.deployments_map()[key@].containers@,
                    forall|j: Seq<char>|
                        j != key@ && #[trigger] start.deployments_map().contains_key(j)
                            ==> self.deployments_map()[j] == start.deployments_map()[j],
                    same_but_containers(start.deployments_map()[key@], self.deployments_map()[key@]),
                    self.deployments_map()[key@].containers@ == drop_running(c0, n as nat),
                    count_running(drop_running(c0, n as nat)) + n == count_running(c0),
                decreases k - n,
            {
                let ghost prev = self.deployments_map()[key@].containers@;
                proof {
                    lemma_first_running(prev);
                }
                let step = self.remove_container_instance(service_id);
                if step.is_err() {
                    proof {
                        assert(first_running(prev) is None);
                        assert(n == count_running(c0));
                        assert(self.deployments_map()[key@].containers@ == drop_running(c0, count_running(c0)));
                        assert(step matches Err(ContainerError::InvalidConfig(m)) && m@ == "No running containers to remove"@);
                        assert(resize_outcome(c0, self.deployments_map()[key@].containers@, service_id@, target as int, step));
                        assert(start.deployments_map()[key@].containers@ == c0);
                        assert(Self::resized(&start, &*self, service_id@, target as int, step));
                    }
                    return step;
                }
                n = n + 1;
            }
            Ok(())
        }
    }

    /// Scales service `service_id` to `target_replicas` replicas (see
    /// `resize_outcome`); not found when the service or its deployment is
    /// not recorded.
    pub fn scale_service(&mut self, service_id: &str, target_replicas: usize) -> (r: Result<(), ContainerError>)
        requires
            old(self).wf(),
        ensures
            final(self).wf(),
            !old(self).services_map().contains_key(service_id@) ==> (r matches Err(ContainerError::NotFound(m)) && m@
                == "Service "@ + service_id@ + " not found"@) && *final(self) == *old(self),
            old(self).services_map().contains_key(service_id@) && !old(self).deployments_map().contains_key(
                deployment_key(service_id@),
            ) ==> (r matches Err(ContainerError::NotFound(m)) && m@ == "Deployment for service "@ + service_id@
                + " not found"@) && *final(self) == *old(self),
            old(self).services_map().contains_key(service_id@) && old(self).deployments_map().contains_key(
                deployment_key(service_id@),
            ) ==> Self::resized(&*old(self), &*final(self), service_id@, target_replicas as int, r),
    {
        if find_name(&self.services, service_id).is_none() {
            let mut m = string_of("Service ");
            push_text(&mut m, service_id);
            push_text(&mut m, " not found");
            return Err(ContainerError::NotFound(m));
        }
        let key = Self::deployment_id(service_id);
        if find_name(&self.deployments, key.as_str()).is_none() {
            let mut m = string_of("Deployment for service ");
            push_text(&mut m, service_id);
            push_text(&mut m, " not found");
            return Err(ContainerError::NotFound(m));
        }
        self.resize(service_id, target_replicas)
    }

    /// Deploys service `service_def`: after checking it (see
    /// `service_verdict`), a fresh deployment is recorded under
    /// `deploy-<id>`, the service is recorded under its identifier, and its
    /// replicas are added; the deployment's key is given.
    pub fn deploy_service(&mut self, service_def: ServiceDefinition) -> (r: Result<String, ContainerError>)
        requires
            old(self).wf(),
        ensures
            final(self).wf(),
            service_verdict(service_def.name@, service_def.replicas, service_def.resource_requirements) matches Some(
                m,
            ) ==> (r matches Err(ContainerError::InvalidConfig(x)) && x@ == m) && *final(self) == *old(self),
            service_verdict(service_def.name@, service_def.replicas, service_def.resource_requirements) is None ==> {
                let k = deployment_key(service_def.id@);
                &&& r matches Ok(id) && id@ == k
                &&& final(self).services_map() == old(self).services_map().insert(
                    service_def.id@,
                    final(self).services_map()[service_def.id@],
                )
                &&& final(self).services_map()[service_def.id@].definition == service_def
                &&& final(self).service_registry == old(self).service_registry
                &&& final(self).deployments_map().dom() == old(self).deployments_map().dom().insert(k)
                &&& forall|j: Seq<char>|
                    j != k && #[trigger] old(self).deployments_map().contains_key(j)
                        ==> final(self).deployments_map()[j] == old(self).deployments_map()[j]
                &&& final(self).deployments_map()[k].id@ == k
                &&& final(self).deployments_map()[k].service_id@ == service_def.id@
                &&& final(self).deployments_map()[k].status == DeploymentStatus::InProgress
                &&& final(self).deployments_map()[k].strategy == DeploymentStrategy::RollingUpdate
                &&& final(self).deployments_map()[k].revision == 1
                &&& final(self).deployments_map()[k].rollback_history@.len() == 0
                &&& grown(
                    final(self).deployments_map()[k].containers@,
                    Seq::empty(),
                    service_def.id@,
                    service_def.replicas as int,
                )
            },
    {
        match validate_service_definition(&service_def) {
            Ok(()) => {},
            Err(e) => {
                return Err(e);
            },
        }
        let deployment_id = self.create_deployment(&service_def);
        let service_id = service_def.id.clone();
        let replicas = service_def.replicas;
        let ghost def = service_def;
        let ghost before = *self;
        let entry = ServiceEntry { service_id: service_id.clone(), definition: service_def };
        upsert_named(&mut self.services, entry);
        proof {
            assert(self.services_map().contains_key(service_id@));
        }
        let ghost mid = *self;
        let _ = self.resize(service_id.as_str(), replicas);
        proof {
            assert(mid.deployments_map() == before.deployments_map());
            assert(self.services_map() =~= old(self).services_map().insert(
                service_id@,
                self.services_map()[service_id@],
            ));
        }
        Ok(deployment_id)
    }

    /// Rolls the replicas of recorded service `service_id` over to the
    /// count of `new_service` (see `resize_outcome`); not found without a
    /// deployment.
    pub fn perform_rolling_update(&mut self, service_id: &str, new_service: &ServiceDefinition) -> (r: Result<
        (),
        ContainerError,
    >)
        requires
            old(self).wf(),
            old(self).services_map().contains_key(service_id@),
        ensures
            final(self).wf(),
            !old(self).deployments_map().contains_key(deployment_key(service_id@)) ==> (r matches Err(
                ContainerError::NotFound(m),
            ) && m@ == "Deployment for service "@ + service_id@ + " not found"@) && *final(self) == *old(self),
            old(self).deployments_map().contains_key(deployment_key(service_id@)) ==> Self::resized(
                &*old(self),
                &*final(self),
                service_id@,
                new_service.replicas as int,
                r,
            ),
    {
        let key = Self::deployment_id(service_id);
        if find_name(&self.deployments, key.as_str()).is_none() {
            let mut m = string_of("Deployment for service ");
            push_text(&mut m, service_id);
            push_text(&mut m, " not found");
            return Err(ContainerError::NotFound(m));
        }
        self.resize(service_id, new_service.replicas)
    }

    /// Updates service `service_id` to `new_service_def`: its replicas are
    /// resized to the new count (see `resize_outcome`), and then the new
    /// definition is recorded under `service_id`. Not found when the
    /// service or its deployment is not recorded.
    pub fn update_service(&mut self, service_id: &str, new_service_def: ServiceDefinition) -> (r: Result<
        (),
        ContainerError,
    >)
        requires
            old(self).wf(),
        ensures
            final(self).wf(),
            !old(self).services_map().contains_key(service_id@) ==> (r matches Err(ContainerError::NotFound(m)) && m@
                == "Service "@ + service_id@ + " not found"@) && *final(self) == *old(self),
            old(self).services_map().contains_key(service_id@) && !old(self).deployments_map().contains_key(
                deployment_key(service_id@),
            ) ==> (r matches Err(ContainerError::NotFound(m)) && m@ == "Deployment for service "@ + service_id@
                + " not found"@) && *final(self) == *old(self),
            old(self).services_map().contains_key(service_id@) && old(self).deployments_map().contains_key(
                deployment_key(service_id@),
            ) ==> {
                let k = deployment_key(service_id@);
                &&& final(self).service_registry == old(self).service_registry
                &&& final(self).deployments_map().dom() == old(self).deployments_map().dom()
                &&& forall|j: Seq<char>|
                    j != k && #[trigger] old(self).deployments_map().contains_key(j)
                        ==> final(self).deployments_map()[j] == old(self).deployments_map()[j]
                &&& same_but_containers(old(self).deployments_map()[k], final(self).deployments_map()[k])
                &&& exists|step: Result<(), ContainerError>|
                    #[trigger] resize_outcome(
                        old(self).deployments_map()[k].containers@,
                        final(self).deployments_map()[k].containers@,
                        service_id@,
                        new_service_def.replicas as int,
                        step,
                    ) && (step is Err ==> r == step && final(self).services == old(self).services) && (step is Ok
                        ==> r is Ok && final(self).services_map() == old(self).services_map().insert(
                        service_id@,
                        final(self).services_map()[service_id@],
                    ) && final(self).services_map()[service_id@].definition == new_service_def)
            },
    {
        if find_name(&self.services, service_id).is_none() {
            let mut m = string_of("Service ");
            push_text(&mut m, service_id);
            push_text(&mut m, " not found");
            return Err(ContainerError::NotFound(m));
        }
        let step = self.perform_rolling_update(service_id, &new_service_def);
        if step.is_err() {
            return step;
        }
        let ghost before = *self;
        let entry = ServiceEntry { service_id: string_of(service_id), definition: new_service_def };
        upsert_named(&mut self.services, entry);
        proof {
            assert(self.services_map() =~= old(self).services_map().insert(
                service_id@,
                self.services_map()[service_id@],
            ));
        }
        Ok(())
    }

    /// Deletes service `service_id`: its replicas are scaled to none (see
    /// `scale_service`, whose errors stop the deletion), then the service,
    /// its deployment and its registry entry are dropped.
    pub fn delete_service(&mut self, service_id: &str, force: bool) -> (r: Result<(), ContainerError>)
        requires
            old(self).wf(),
        ensures
            final(self).wf(),
            !old(self).services_map().contains_key(service_id@) ==> (r matches Err(ContainerError::NotFound(m)) && m@
                == "Service "@ + service_id@ + " not found"@) && *final(self) == *old(self),
            old(self).services_map().contains_key(service_id@) && !old(self).deployments_map().contains_key(
                deployment_key(service_id@),
            ) ==> (r matches Err(ContainerError::NotFound(m)) && m@ == "Deployment for service "@ + service_id@
                + " not found"@) && *final(self) == *old(self),
            old(self).services_map().contains_key(service_id@) && old(self).deployments_map().contains_key(
                deployment_key(service_id@),
            ) ==> {
                let c = old(self).deployments_map()[deployment_key(service_id@)].containers@;
                &&& count_running(c) < c.len() ==> (r matches Err(ContainerError::InvalidConfig(m)) && m@
                    == "No running containers to remove"@) && Self::resized(&*old(self), &*final(self), service_id@, 0, r)
                &&& count_running(c) == c.len() ==> r is Ok && final(self).services_map()
                    == old(self).services_map().remove(service_id@) && final(self).deployments_map()
                    == old(self).deployments_map().remove(deployment_key(service_id@))
                    && final(self).service_registry.entries() == old(self).service_registry.entries().remove(
                    service_id@,
                )
            },
    {
        let scaled = self.scale_service(service_id, 0);
        if scaled.is_err() {
            proof {
                let c = old(self).deployments_map()[deployment_key(service_id@)].containers@;
                lemma_count_running_bound(c);
            }
            return scaled;
        }
        proof {
            let c = old(self).deployments_map()[deployment_key(service_id@)].containers@;
            lemma_count_running_bound(c);
        }
        let _ = remove_named(&mut self.services, service_id);
        let key = Self::deployment_id(service_id);
        let _ = self.take_deployment(key.as_str());
        self.service_registry.remove_service(service_id);
        Ok(())
    }

    /// The state of service `service_id`: its replicas, how many run (ready
    /// and updated) and how many are healthy (available), the deployment's
    /// revision, an `Available` condition, and each replica's status in
    /// order. Not found when the service or its deployment is not recorded.
    pub fn get_service_status(&self, service_id: &str) -> (r: Result<ServiceStatus, ContainerError>)
        requires
            self.wf(),
        ensures
            !self.services_map().contains_key(service_id@) ==> (r matches Err(ContainerError::NotFound(m)) && m@
                == "Service "@ + service_id@ + " not found"@),
            self.services_map().contains_key(service_id@) && !self.deployments_map().contains_key(
                deployment_key(service_id@),
            ) ==> (r matches Err(ContainerError::NotFound(m)) && m@ == "Deployment for service "@ + service_id@
                + " not found"@),
            self.services_map().contains_key(service_id@) && self.deployments_map().contains_key(
                deployment_key(service_id@),
            ) ==> (r matches Ok(st) && {
                let d = self.deployments_map()[deployment_key(service_id@)];
                let c = d.containers@;
                &&& st.service_id@ == service_id@
                &&& st.name@ == self.services_map()[service_id@].definition.name@
                &&& st.replicas == c.len()
                &&& st.ready_replicas == count_running(c)
                &&& st.available_replicas == count_healthy(c)
                &&& st.updated_replicas == count_running(c)
                &&& st.observed_generation == d.revision
                &&& st.conditions@.len() == 1
                &&& st.conditions@[0].type_@ == "Available"@
                &&& st.conditions@[0].status@ == "True"@
                &&& st.conditions@[0].reason is None
                &&& st.conditions@[0].message is None
                &&& st.container_statuses@.len() == c.len()
                &&& forall|i: int|
                    0 <= i < c.len() ==> (#[trigger] st.container_statuses@[i]).0@ == c[i].id@
                        && st.container_statuses@[i].1@ == container_status_text(c[i].status)
            }),
    {
        let si = match find_name(&self.services, service_id) {
            Some(si) => si,
            None => {
                let mut m = string_of("Service ");
                push_text(&mut m, service_id);
                push_text(&mut m, " not found");
                return Err(ContainerError::NotFound(m));
            },
        };
        let key = Self::deployment_id(service_id);
        let di = match find_name(&self.deployments, key.as_str()) {
            Some(di) => di,
            None => {
                let mut m = string_of("Deployment for service ");
                push_text(&mut m, service_id);
                push_text(&mut m, " not found");
                return Err(ContainerError::NotFound(m));
            },
        };
        proof {
            crate::keyed::lemma_name_index(self.services@, si as int);
            crate::keyed::lemma_name_index(self.deployments@, di as int);
        }
        let d = &self.deployments[di];
        let ghost c = d.containers@;
        let mut statuses: Vec<(String, String)> = Vec::new();
        let mut total: usize = 0;
        let mut ready: usize = 0;
        let mut healthy: usize = 0;
        let mut i: usize = 0;
        while i < d.containers.len()
            invariant
                c == d.containers@,
                i <= c.len(),
                total == i,
                ready == count_running(c.take(i as int)),
                healthy == count_healthy(c.take(i as int)),
                ready <= i,
                healthy <= i,
                statuses@.len() == i,
                forall|j: int|
                    0 <= j < i ==> (#[trigger] statuses@[j]).0@ == c[j].id@ && statuses@[j].1@
                        == container_status_text(c[j].status),
            decreases c.len() - i,
        {
            proof {
                lemma_count_running_prefix(c, i as int);
                lemma_count_healthy_prefix(c, i as int);
            }
            let instance = &d.containers[i];
            total = total + 1;
            if instance.status == ContainerStatus::Running {
                ready = ready + 1;
            }
            if instance.health == HealthStatus::Healthy {
                healthy = healthy + 1;
            }
            statuses.push((instance.id.clone(), container_status_name(instance.status)));
            i = i + 1;
        }
        proof {
            assert(c.take(c.len() as int) =~= c);
        }
        let mut conditions: Vec<ServiceCondition> = Vec::new();
        conditions.push(
            ServiceCondition { type_: string_of("Available"), status: string_of("True"), reason: None, message: None },
        );
        Ok(
            ServiceStatus {
                service_id: string_of(service_id),
                name: self.services[si].definition.name.clone(),
                replicas: total,
                ready_replicas: ready,
                available_replicas: healthy,
                updated_replicas: ready,
                observed_generation: d.revision,
                conditions,
                container_statuses: statuses,
            },
        )
    }

    /// The number of running replicas in `v`.
    fn running_count(v: &Vec<ContainerInstance>) -> (n: usize)
        ensures
            n == count_running(v@),
    {
        let mut n: usize = 0;
        let mut i: usize = 0;
        while i < v.len()
            invariant
                i <= v@.len(),
                n == count_running(v@.take(i as int)),
                n <= i,
            decreases v@.len() - i,
        {
            proof {
                lemma_count_running_prefix(v@, i as int);
            }
            if v[i].status == ContainerStatus::Running {
                n = n + 1;
            }
            i = i + 1;
        }
        proof {
            assert(v@.take(v@.len() as int) =~= v@);
        }
        n
    }

    /// The services, in the order they were recorded, each with the number
    /// of replicas of its deployment `deploy-<id>` and how many run (none
    /// without a deployment).
    pub fn list_services(&self) -> (v: Vec<ServiceInfo>)
        requires
            self.wf(),
        ensures
            v@.len() == self.services@.len(),
            forall|i: int|
                0 <= i < v@.len() ==> {
                    let s = (#[trigger] self.services@[i]).definition;
                    let k = deployment_key(s.id@);
                    &&& v@[i].id@ == s.id@
                    &&& v@[i].name@ == s.name@
                    &&& v@[i].image@ == s.image@
                    &&& v@[i].created_at == s.created_at
                    &&& v@[i].replicas == if self.deployments_map().contains_key(k) {
                        self.deployments_map()[k].containers@.len()
                    } else {
                        0
                    }
                    &&& v@[i].ready_replicas == if self.deployments_map().contains_key(k) {
                        count_running(self.deployments_map()[k].containers@)
                    } else {
                        0
                    }
                },
    {
        let mut v: Vec<ServiceInfo> = Vec::new();
        let mut i: usize = 0;
        while i < self.services.len()
            invariant
                self.wf(),
                i <= self.services@.len(),
                v@.len() == i,
                forall|j: int|
                    0 <= j < i ==> {
                        let s = (#[trigger] self.services@[j]).definition;
                        let k = deployment_key(s.id@);
                        &&& v@[j].id@ == s.id@
                        &&& v@[j].name@ == s.name@
                        &&& v@[j].image@ == s.image@
                        &&& v@[j].created_at == s.created_at
                        &&& v@[j].replicas == if self.deployments_map().contains_key(k) {
                            self.deployments_map()[k].containers@.len()
                        } else {
                            0
                        }
                        &&& v@[j].ready_replicas == if self.deployments_map().contains_key(k) {
                            count_running(self.deployments_map()[k].containers@)
                        } else {
                            0
                        }
                    },
            decreases self.services@.len() - i,
        {
            let s = &self.services[i].definition;
            let key = Self::deployment_id(s.id.as_str());
            let (replicas, ready) = match find_name(&self.deployments, key.as_str()) {
                Some(di) => {
                    proof {
                        crate::keyed::lemma_name_index(self.deployments@, di as int);
                    }
                    (self.deployments[di].containers.len(), Self::running_count(&self.deployments[di].containers))
                },
                None => (0, 0),
            };
            v.push(
                ServiceInfo {
                    id: s.id.clone(),
                    name: s.name.clone(),
                    replicas,
                    ready_replicas: ready,
                    image: s.image.clone(),
                    created_at: s.created_at,
                },
            );
            i = i + 1;
        }
        v
    }

    /// The logs of the replicas of service `service_id` (see `logs_text`),
    /// of all of them or of the one named `container_id`; not found
    /// without a deployment.
    pub fn get_service_logs(&self, service_id: &str, container_id: Option<String>) -> (r: Result<
        String,
        ContainerError,
    >)
        requires
            self.wf(),
        ensures
            !self.deployments_map().contains_key(deployment_key(service_id@)) ==> (r matches Err(
                ContainerError::NotFound(m),
            ) && m@ == "Deployment for service "@ + service_id@ + " not found"@),
            self.deployments_map().contains_key(deployment_key(service_id@)) ==> (r matches Ok(logs) && logs@
                == logs_text(
                self.deployments_map()[deployment_key(service_id@)].containers@,
                opt_text(container_id),
            )),
    {
        let key = Self::deployment_id(service_id);
        let di = match find_name(&self.deployments, key.as_str()) {
            Some(di) => di,
            None => {
                let mut m = string_of("Deployment for service ");
                push_text(&mut m, service_id);
                push_text(&mut m, " not found");
                return Err(ContainerError::NotFound(m));
            },
        };
        proof {
            crate::keyed::lemma_name_index(self.deployments@, di as int);
        }
        let ghost only = opt_text(container_id);
        let c = &self.deployments[di].containers;
        let mut logs = String::new();
        let mut i: usize = 0;
        while i < c.len()
            invariant
                i <= c@.len(),
                only == opt_text(container_id),
                logs@ == logs_text(c@.take(i as int), only),
            decreases c@.len() - i,
        {
            proof {
                assert(c@.take(i + 1).drop_last() =~= c@.take(i as int));
            }
            let id = &c[i].id;
            let wanted = match &container_id {
                Some(x) => str_equal(x.as_str(), id.as_str()),
                None => true,
            };
            if wanted {
                push_text(&mut logs, "=== Container ");
                push_text(&mut logs, id.as_str());
                push_text(&mut logs, " ===\n[Logs would be retrieved here]\n");
            }
            i = i + 1;
            proof {
                assert(logs@ =~= logs_text(c@.take(i as int), only));
            }
        }
        proof {
            assert(c@.take(c@.len() as int) =~= c@);
        }
        Ok(logs)
    }

    /// Runs `command` in a replica of service `service_id`: the one named
    /// `container_id`, else the first running one; gives the report
    /// `Command executed in container <id>: <command>`. Not found without a
    /// deployment; refused when no replica is named and none runs.
    pub fn exec_in_service(&self, service_id: &str, container_id: Option<String>, command: Vec<String>) -> (r:
        Result<String, ContainerError>)
        requires
            self.wf(),
        ensures
            !self.deployments_map().contains_key(deployment_key(service_id@)) ==> (r matches Err(
                ContainerError::NotFound(m),
            ) && m@ == "Deployment for service "@ + service_id@ + " not found"@),
            self.deployments_map().contains_key(deployment_key(service_id@)) ==> {
                let c = self.deployments_map()[deployment_key(service_id@)].containers@;
                let target = match container_id {
                    Some(x) => Some(x@),
                    None => match first_running(c) {
                        Some(i) => Some(c[i].container_id@),
                        None => None,
                    },
                };
                &&& target is None ==> (r matches Err(ContainerError::InvalidConfig(m)) && m@
                    == "No running containers found"@)
                &&& target matches Some(t) ==> (r matches Ok(out) && out@ == "Command executed in container "@ + t
                    + ": "@ + string_list_debug(texts(command@)))
            },
    {
        let key = Self::deployment_id(service_id);
        let di = match find_name(&self.deployments, key.as_str()) {
            Some(di) => di,
            None => {
                let mut m = string_of("Deployment for service ");
                push_text(&mut m, service_id);
                push_text(&mut m, " not found");
                return Err(ContainerError::NotFound(m));
            },
        };
        proof {
            crate::keyed::lemma_name_index(self.deployments@, di as int);
        }
        let target = match container_id {
            Some(x) => x,
            None => {
                let c = &self.deployments[di].containers;
                match find_running(c) {
                    Some(i) => {
                        proof {
                            lemma_first_running(c@);
                        }
                        c[i].container_id.clone()
                    },
                    None => {
                        return Err(ContainerError::InvalidConfig(string_of("No running containers found")));
                    },
                }
            },
        };
        let mut out = string_of("Command executed in container ");
        push_text(&mut out, target.as_str());
        push_text(&mut out, ": ");
        push_text(&mut out, debug_strings(&command).as_str());
        Ok(out)
    }
}

/// No more replicas run than there are.
proof fn lemma_count_running_bound(s: Seq<ContainerInstance>)
    ensures
        count_running(s) <= s.len(),
    decreases s.len(),
{
    if s.len() > 0 {
        lemma_count_running_bound(s.drop_first());
    }
}


} // verus!
