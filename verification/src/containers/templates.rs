//! Ready-made container templates for teaching: what each template holds,
//! the teaching context that goes with it, and how a template becomes a
//! container configuration. Reading and writing the template files is left
//! to the caller, which hands this module the values it read.
use vstd::prelude::*;
use crate::containers::{
    ContainerConfig, ContainerError, ContextView, DifficultyLevel, EducationalContext, NamespaceMode, NetworkConfig,
    NetworkMode, NetworkModeView, PortMapping, ResourceLimits, SecurityConfig, SecurityView, VolumeMapping,
    copy_context, copy_mode, copy_pairs, copy_ports, copy_security, pair_texts, port_views, volume_views,
};
use crate::containers::security::{copy_strings, joined_path, join_path, opt_texts, strings, texts};
use crate::ids::{fresh_id, now_millis, uuid_string, uuid_text};
use crate::keyed::{Named, find_name, name_map, unique_names, upsert_named};
use crate::text::{push_text, string_of};

verus! {

/// What a template configures. The duration is in milliseconds.
pub struct TemplateConfig {
    pub name: String,
    pub description: String,
    pub difficulty_level: DifficultyLevel,
    pub estimated_duration: u64,
    pub learning_objectives: Vec<String>,
    pub prerequisites: Vec<String>,
    pub image_base: String,
    pub entrypoint: Option<Vec<String>>,
    pub command: Option<Vec<String>>,
    pub environment: Vec<(String, String)>,
    pub packages: Vec<String>,
    pub network_mode: NetworkMode,
    pub resource_limits: ResourceLimits,
    pub security: SecurityConfig,
    pub educational_tools: Vec<String>,
    pub volumes: Vec<VolumeMapping>,
    pub ports: Vec<PortMapping>,
}

/// A template configuration in texts.
#[verifier::ext_equal]
pub struct TemplateView {
    pub name: Seq<char>,
    pub description: Seq<char>,
    pub difficulty_level: DifficultyLevel,
    pub estimated_duration: u64,
    pub learning_objectives: Seq<Seq<char>>,
    pub prerequisites: Seq<Seq<char>>,
    pub image_base: Seq<char>,
    pub entrypoint: Option<Seq<Seq<char>>>,
    pub command: Option<Seq<Seq<char>>>,
    pub environment: Seq<(Seq<char>, Seq<char>)>,
    pub packages: Seq<Seq<char>>,
    pub network_mode: NetworkModeView,
    pub resource_limits: ResourceLimits,
    pub security: SecurityView,
    pub educational_tools: Seq<Seq<char>>,
    pub volumes: Seq<(Seq<char>, Seq<char>, bool)>,
    pub ports: Seq<(u16, u16, Seq<char>)>,
}

impl View for TemplateConfig {
    type V = TemplateView;

    open spec fn view(&self) -> TemplateView {
        TemplateView {
            name: self.name@,
            description: self.description@,
            difficulty_level: self.difficulty_level,
            estimated_duration: self.estimated_duration,
            learning_objectives: texts(self.learning_objectives@),
            prerequisites: texts(self.prerequisites@),
            image_base: self.image_base@,
            entrypoint: opt_texts(self.entrypoint),
            command: opt_texts(self.command),
            environment: pair_texts(self.environment@),
            packages: texts(self.packages@),
            network_mode: self.network_mode@,
            resource_limits: self.resource_limits,
            security: self.security@,
            educational_tools: texts(self.educational_tools@),
            volumes: volume_views(self.volumes@),
            ports: port_views(self.ports@),
        }
    }
}

/// A template, under its identifier, with its teaching context.
pub struct TemplateRecord {
    pub id: String,
    pub config: TemplateConfig,
    pub context: EducationalContext,
}

/// Changes asked of a template; each one given replaces what the template
/// says. The labels are name/value pairs.
pub struct TemplateCustomizations {
    pub name: Option<String>,
    pub description: Option<String>,
    pub entrypoint: Option<String>,
    pub packages: Option<Vec<String>>,
    pub environment: Option<Vec<(String, String)>>,
    pub custom_labels: Option<Vec<(String, String)>>,
}

impl TemplateCustomizations {
    /// No changes.
    pub fn default() -> (c: Self)
        ensures
            c.name is None,
            c.description is None,
            c.entrypoint is None,
            c.packages is None,
            c.environment is None,
            c.custom_labels is None,
    {
        TemplateCustomizations {
            name: None,
            description: None,
            entrypoint: None,
            packages: None,
            environment: None,
            custom_labels: None,
        }
    }
}

/// A template as listed. The duration is in milliseconds.
pub struct TemplateInfo {
    pub id: String,
    pub name: String,
    pub description: String,
    pub difficulty_level: DifficultyLevel,
    pub estimated_duration: u64,
    pub learning_objectives: Vec<String>,
    pub prerequisites: Vec<String>,
}

/// A sequence of templates to work through. The duration is in
/// milliseconds.
pub struct LearningPath {
    pub id: String,
    pub name: String,
    pub description: String,
    pub difficulty_progression: Vec<String>,
    pub estimated_total_duration: u64,
    pub prerequisites: Vec<String>,
    pub learning_outcomes: Vec<String>,
}

/// How the work on a template is assessed.
pub struct AssessmentConfig {
    pub practical_exercises: Vec<PracticalExercise>,
    pub theoretical_questions: Vec<TheoreticalQuestion>,
    pub evaluation_criteria: Vec<EvaluationCriterion>,
}

/// An exercise to carry out. The duration is in milliseconds.
pub struct PracticalExercise {
    pub id: String,
    pub title: String,
    pub description: String,
    pub objectives: Vec<String>,
    pub estimated_duration: u64,
    pub instructions: String,
    pub expected_outputs: Vec<String>,
    pub hints: Vec<String>,
}

/// A question to answer.
pub struct TheoreticalQuestion {
    pub id: String,
    pub question: String,
    pub question_type: QuestionType,
    pub options: Option<Vec<String>>,
    pub correct_answer: String,
    pub explanation: String,
    pub difficulty: DifficultyLevel,
}

/// Kinds of questions.
#[derive(Clone, Copy, PartialEq, Eq, Debug, Structural)]
pub enum QuestionType {
    MultipleChoice,
    TrueFalse,
    ShortAnswer,
    Essay,
}

/// A criterion of assessment, with its weight in thousandths.
pub struct EvaluationCriterion {
    pub name: String,
    pub description: String,
    pub weight_permille: u32,
    pub levels: Vec<EvaluationLevel>,
}

/// A level of a criterion, with the range of scores it covers in
/// thousandths.
pub struct EvaluationLevel {
    pub name: String,
    pub description: String,
    pub score_range: (u32, u32),
}

/// A list of name/value pairs from literals.
fn pairs(ts: &[(&str, &str)]) -> (v: Vec<(String, String)>)
    ensures
        pair_texts(v@) == ts@.map_values(|t: (&str, &str)| (t.0@, t.1@)),
{
    let mut v: Vec<(String, String)> = Vec::new();
    let mut i: usize = 0;
    while i < ts.len()
        invariant
            i <= ts@.len(),
            v@.len() == i,
            forall|j: int| 0 <= j < i ==> (#[trigger] v@[j]).0@ == ts@[j].0@ && v@[j].1@ == ts@[j].1@,
        decreases ts@.len() - i,
    {
        let (a, b) = ts[i];
        v.push((string_of(a), string_of(b)));
        i = i + 1;
    }
    assert(pair_texts(v@) =~= ts@.map_values(|t: (&str, &str)| (t.0@, t.1@)));
    v
}

/// A TCP port published on the same number.
fn tcp_port(port: u16) -> (p: PortMapping)
    ensures
        p@ == (port, port, "tcp"@),
{
    PortMapping { container_port: port, host_port: port, protocol: string_of("tcp") }
}

/// The teaching context of a template: its objectives, level, duration
/// and prerequisites, with the given criteria and topics.
pub open spec fn context_for(
    t: TemplateView,
    evaluation_criteria: Seq<Seq<char>>,
    related_topics: Seq<Seq<char>>,
) -> ContextView {
    ContextView {
        learning_objectives: t.learning_objectives,
        difficulty_level: t.difficulty_level,
        estimated_duration: t.estimated_duration,
        prerequisites: t.prerequisites,
        evaluation_criteria,
        related_topics,
    }
}

/// The context a template's configuration implies, with the given
/// criteria and topics.
fn context_from(config: &TemplateConfig, evaluation_criteria: Vec<String>, related_topics: Vec<String>) -> (c:
    EducationalContext)
    ensures
        c@ == context_for(config@, texts(evaluation_criteria@), texts(related_topics@)),
{
    EducationalContext {
        learning_objectives: copy_strings(&config.learning_objectives),
        difficulty_level: config.difficulty_level,
        estimated_duration: config.estimated_duration,
        prerequisites: copy_strings(&config.prerequisites),
        evaluation_criteria,
        related_topics,
    }
}

/// Milliseconds in an hour.
pub const HOUR_MS: u64 = 3_600_000;

/// Bytes in a gibibyte.
pub const GIB: u64 = 1_073_741_824;

/// Bytes in a mebibyte.
pub const MIB: u64 = 1_048_576;

/// The beginner programming template.
pub open spec fn beginner_programming_config() -> TemplateView {
    TemplateView {
        name: "Beginner Programming Environment"@,
        description: "Complete development environment for learning programming fundamentals"@,
        difficulty_level: DifficultyLevel::Beginner,
        estimated_duration: (2 * HOUR_MS) as u64,
        learning_objectives: seq![
            "Understand basic programming concepts"@,
            "Learn to write and run simple programs"@,
            "Practice debugging techniques"@,
            "Understand file organization"@,
        ],
        prerequisites: seq!["Basic computer literacy"@],
        image_base: "ubuntu:20.04"@,
        entrypoint: Some(seq!["/bin/bash"@]),
        command: None,
        environment: seq![("LANG"@, "C.UTF-8"@), ("PS1"@, "\\u@\\h:\\w\\$ "@)],
        packages: seq![
            "build-essential"@,
            "python3"@,
            "python3-pip"@,
            "git"@,
            "vim"@,
            "curl"@,
            "wget"@,
            "tree"@,
            "nano"@,
        ],
        network_mode: NetworkModeView::Bridge,
        resource_limits: ResourceLimits {
            cpu_millicores: Some(1000),
            memory_bytes: Some(GIB),
            disk_bytes: Some((10 * GIB) as u64),
            network_bandwidth: Some((10 * MIB) as u64),
            file_descriptors: Some(1024),
            processes: Some(64),
        },
        security: SecurityView {
            privileged: false,
            capabilities: seq!["CHOWN"@, "SETGID"@, "SETUID"@],
            apparmor_profile: Some("multios-programming"@),
            seccomp_profile: Some("default"@),
            read_only_root: true,
            no_new_privileges: true,
            user_namespace: true,
        },
        educational_tools: seq!["python3-interactive"@, "git-tutorial"@, "debugger-setup"@],
        volumes: seq![],
        ports: seq![],
    }
}

/// The teaching context of the beginner programming template.
pub open spec fn beginner_programming_context() -> ContextView {
    context_for(
        beginner_programming_config(),
        seq![
            "Can compile and run basic programs"@,
            "Understands variable usage"@,
            "Can use basic debugging tools"@,
            "Demonstrates proper code organization"@,
        ],
        seq![
            "Data types and structures"@,
            "Control flow"@,
            "Functions and modules"@,
            "Version control basics"@,
        ],
    )
}

/// The system administration template.
pub open spec fn system_admin_config() -> TemplateView {
    TemplateView {
        name: "System Administration Lab"@,
        description: "Hands-on environment for learning system administration skills"@,
        difficulty_level: DifficultyLevel::Intermediate,
        estimated_duration: (4 * HOUR_MS) as u64,
        learning_objectives: seq![
            "Understand Linux system administration"@,
            "Learn user and group management"@,
            "Practice service configuration"@,
            "Master log management"@,
        ],
        prerequisites: seq!["Basic Linux command line knowledge"@, "Understanding of file permissions"@],
        image_base: "ubuntu:20.04"@,
        entrypoint: Some(seq!["/bin/bash"@]),
        command: None,
        environment: seq![("LANG"@, "C.UTF-8"@), ("TERM"@, "xterm-256color"@)],
        packages: seq![
            "sudo"@,
            "nginx"@,
            "mysql-server"@,
            "redis"@,
            "cron"@,
            "rsync"@,
            "htop"@,
            "sysstat"@,
            "logrotate"@,
            "fail2ban"@,
        ],
        network_mode: NetworkModeView::Bridge,
        resource_limits: ResourceLimits {
            cpu_millicores: Some(2000),
            memory_bytes: Some((2 * GIB) as u64),
            disk_bytes: Some((20 * GIB) as u64),
            network_bandwidth: Some((50 * MIB) as u64),
            file_descriptors: Some(2048),
            processes: Some(128),
        },
        security: SecurityView {
            privileged: false,
            capabilities: seq!["CHOWN"@, "SETGID"@, "SETUID"@, "NET_BIND_SERVICE"@, "SYS_CHROOT"@],
            apparmor_profile: Some("multios-system-admin"@),
            seccomp_profile: Some("default"@),
            read_only_root: true,
            no_new_privileges: true,
            user_namespace: true,
        },
        educational_tools: seq!["service-manager"@, "user-management"@, "log-analyzer"@, "performance-monitor"@],
        volumes: seq![],
        ports: seq![],
    }
}

/// The teaching context of the system administration template.
pub open spec fn system_admin_context() -> ContextView {
    context_for(
        system_admin_config(),
        seq![
            "Can manage users and groups effectively"@,
            "Understands service management"@,
            "Can analyze system logs"@,
            "Demonstrates security best practices"@,
        ],
        seq![
            "File system management"@,
            "Network configuration"@,
            "Process management"@,
            "Security hardening"@,
        ],
    )
}

/// The network security template.
pub open spec fn network_security_config() -> TemplateView {
    TemplateView {
        name: "Network Security Lab"@,
        description: "Secure environment for practicing network security techniques"@,
        difficulty_level: DifficultyLevel::Advanced,
        estimated_duration: (6 * HOUR_MS) as u64,
        learning_objectives: seq![
            "Understand network security fundamentals"@,
            "Practice penetration testing techniques"@,
            "Learn network monitoring and analysis"@,
            "Master firewall configuration"@,
        ],
        prerequisites: seq![
            "Network fundamentals knowledge"@,
            "Basic Linux administration"@,
            "Understanding of security concepts"@,
        ],
        image_base: "kalilinux/kali-rolling"@,
        entrypoint: Some(seq!["/bin/bash"@]),
        command: None,
        environment: seq![("LANG"@, "C.UTF-8"@), ("DISPLAY"@, ":0"@)],
        packages: seq![
            "nmap"@,
            "wireshark"@,
            "tcpdump"@,
            "netcat"@,
            "openssl"@,
            "iptables"@,
            "fail2ban"@,
            "snort"@,
            "metasploit-framework"@,
        ],
        network_mode: NetworkModeView::Custom("isolated"@),
        resource_limits: ResourceLimits {
            cpu_millicores: Some(4000),
            memory_bytes: Some((4 * GIB) as u64),
            disk_bytes: Some((30 * GIB) as u64),
            network_bandwidth: Some((100 * MIB) as u64),
            file_descriptors: Some(4096),
            processes: Some(256),
        },
        security: SecurityView {
            privileged: false,
            capabilities: seq!["CHOWN"@, "SETGID"@, "SETUID"@, "NET_RAW"@, "SYS_ADMIN"@],
            apparmor_profile: Some("multios-security"@),
            seccomp_profile: Some("security"@),
            read_only_root: false,
            no_new_privileges: false,
            user_namespace: true,
        },
        educational_tools: seq!["network-analyzer"@, "security-scanner"@, "packet-capture"@, "firewall-manager"@],
        volumes: seq![],
        ports: seq![],
    }
}

/// The teaching context of the network security template.
pub open spec fn network_security_context() -> ContextView {
    context_for(
        network_security_config(),
        seq![
            "Can perform network reconnaissance"@,
            "Understands common vulnerabilities"@,
            "Can implement security controls"@,
            "Demonstrates ethical hacking practices"@,
        ],
        seq!["Cryptography basics"@, "Wireless security"@, "Incident response"@, "Security auditing"@],
    )
}

/// The web development template.
pub open spec fn web_development_config() -> TemplateView {
    TemplateView {
        name: "Web Development Environment"@,
        description: "Full-stack web development environment with modern tools"@,
        difficulty_level: DifficultyLevel::Intermediate,
        estimated_duration: (3 * HOUR_MS) as u64,
        learning_objectives: seq![
            "Set up complete web development environment"@,
            "Learn front-end development workflows"@,
            "Practice backend API development"@,
            "Understand containerized deployment"@,
        ],
        prerequisites: seq!["Basic programming knowledge"@, "Understanding of web concepts"@],
        image_base: "node:18-alpine"@,
        entrypoint: Some(seq!["/bin/sh"@]),
        command: None,
        environment: seq![("NODE_ENV"@, "development"@), ("LANG"@, "C.UTF-8"@)],
        packages: seq!["git"@, "nginx"@, "postgresql"@, "redis"@, "yarn"@, "typescript"@, "eslint"@, "webpack"@],
        network_mode: NetworkModeView::Bridge,
        resource_limits: ResourceLimits {
            cpu_millicores: Some(2000),
            memory_bytes: Some((2 * GIB) as u64),
            disk_bytes: Some((15 * GIB) as u64),
            network_bandwidth: Some((50 * MIB) as u64),
            file_descriptors: Some(2048),
            processes: Some(128),
        },
        security: SecurityView {
            privileged: false,
            capabilities: seq!["CHOWN"@, "SETGID"@, "SETUID"@, "NET_BIND_SERVICE"@],
            apparmor_profile: Some("multios-web-dev"@),
            seccomp_profile: Some("default"@),
            read_only_root: true,
            no_new_privileges: true,
            user_namespace: true,
        },
        educational_tools: seq!["live-reload"@, "api-tester"@, "code-linter"@, "build-optimizer"@],
        volumes: seq![],
        ports: seq![(3000u16, 3000u16, "tcp"@), (8080u16, 8080u16, "tcp"@)],
    }
}

/// The teaching context of the web development template.
pub open spec fn web_development_context() -> ContextView {
    context_for(
        web_development_config(),
        seq![
            "Can create functional web applications"@,
            "Understands development workflows"@,
            "Demonstrates good coding practices"@,
            "Can containerize applications"@,
        ],
        seq!["JavaScript frameworks"@, "REST API design"@, "Database integration"@, "DevOps fundamentals"@],
    )
}

/// The database administration template.
pub open spec fn database_admin_config() -> TemplateView {
    TemplateView {
        name: "Database Administration Lab"@,
        description: "Comprehensive database administration and optimization environment"@,
        difficulty_level: DifficultyLevel::Advanced,
        estimated_duration: (5 * HOUR_MS) as u64,
        learning_objectives: seq![
            "Master database administration fundamentals"@,
            "Learn performance optimization techniques"@,
            "Practice backup and recovery procedures"@,
            "Understand database security best practices"@,
        ],
        prerequisites: seq!["SQL knowledge"@, "Database fundamentals"@, "Basic system administration"@],
        image_base: "postgres:14"@,
        entrypoint: Some(seq!["/bin/bash"@]),
        command: None,
        environment: seq![("POSTGRES_DB"@, "lab_db"@), ("POSTGRES_USER"@, "lab_user"@), ("POSTGRES_PASSWORD"@, "lab_pass"@)],
        packages: seq![
            "postgresql-14"@,
            "postgresql-contrib-14"@,
            "pgbench"@,
            "pgadmin4"@,
            "mysqldump"@,
            "redis-tools"@,
            "mongodb"@,
        ],
        network_mode: NetworkModeView::Bridge,
        resource_limits: ResourceLimits {
            cpu_millicores: Some(3000),
            memory_bytes: Some((4 * GIB) as u64),
            disk_bytes: Some((50 * GIB) as u64),
            network_bandwidth: Some((100 * MIB) as u64),
            file_descriptors: Some(4096),
            processes: Some(256),
        },
        security: SecurityView {
            privileged: false,
            capabilities: seq!["CHOWN"@, "SETGID"@, "SETUID"@, "DAC_OVERRIDE"@],
            apparmor_profile: Some("multios-database"@),
            seccomp_profile: Some("default"@),
            read_only_root: true,
            no_new_privileges: true,
            user_namespace: true,
        },
        educational_tools: seq!["query-analyzer"@, "performance-monitor"@, "backup-manager"@, "security-scanner"@],
        volumes: seq![],
        ports: seq![(5432u16, 5432u16, "tcp"@), (8080u16, 8080u16, "tcp"@)],
    }
}

/// The teaching context of the database administration template.
pub open spec fn database_admin_context() -> ContextView {
    context_for(
        database_admin_config(),
        seq![
            "Can perform database administration tasks"@,
            "Understands performance tuning"@,
            "Can implement backup strategies"@,
            "Demonstrates security best practices"@,
        ],
        seq!["Database design"@, "Query optimization"@, "Data warehousing"@, "High availability"@],
    )
}

/// `t` with the changes `c` asks for: a new name, description, packages or
/// environment replaces the old, and a new entrypoint becomes the whole
/// entrypoint.
pub open spec fn customized(t: TemplateView, c: TemplateCustomizations) -> TemplateView {
    TemplateView {
        name: match c.name {
            Some(n) => n@,
            None => t.name,
        },
        description: match c.description {
            Some(d) => d@,
            None => t.description,
        },
        entrypoint: match c.entrypoint {
            Some(e) => Some(seq![e@]),
            None => t.entrypoint,
        },
        packages: match c.packages {
            Some(p) => texts(p@),
            None => t.packages,
        },
        environment: match c.environment {
            Some(e) => pair_texts(e@),
            None => t.environment,
        },
        ..t
    }
}

/// Whether `c` is the container configuration made from template `t`
/// under identifier `id`: named, imaged, commanded, configured and limited
/// as the template says, with no volumes, bridged on `multios-br0` with
/// Google's DNS servers and the template's ports, every namespace, and a
/// fresh identifier.
pub open spec fn config_from_template(c: ContainerConfig, t: TemplateView, id: Seq<char>) -> bool {
    &&& exists|u: u128| c.container_id@ == uuid_text(u)
    &&& c.name@ == t.name
    &&& c.image@ == t.image_base
    &&& texts(c.command@) == match t.command {
        Some(v) => v,
        None => Seq::<Seq<char>>::empty(),
    }
    &&& pair_texts(c.environment@) == t.environment
    &&& port_views(c.ports@) == t.ports
    &&& c.volumes@.len() == 0
    &&& c.resource_limits == t.resource_limits
    &&& c.security@ == t.security
    &&& c.network.network_mode@ == t.network_mode
    &&& c.network.bridge_name matches Some(b) && b@ == "multios-br0"@
    &&& c.network.ip_address is None
    &&& c.network.mac_address is None
    &&& texts(c.network.dns_servers@) == seq!["8.8.8.8"@, "8.8.4.4"@]
    &&& port_views(c.network.port_mappings@) == t.ports
    &&& c.namespace_mode == (NamespaceMode {
        pid: true,
        network: true,
        mount: true,
        ipc: true,
        uts: true,
        user: true,
        cgroup: true,
    })
    &&& c.template_id matches Some(x) && x@ == id
}

/// Whether `info` lists template `c` under `id` with teaching context `x`.
pub open spec fn info_of(info: TemplateInfo, id: Seq<char>, c: TemplateView, x: ContextView) -> bool {
    &&& info.id@ == id
    &&& info.name@ == c.name
    &&& info.description@ == c.description
    &&& info.difficulty_level == x.difficulty_level
    &&& info.estimated_duration == x.estimated_duration
    &&& texts(info.learning_objectives@) == x.learning_objectives
    &&& texts(info.prerequisites@) == x.prerequisites
}

/// Where templates are kept.
pub struct TemplateManager {
    pub template_root: String,
    pub educational_contexts: Vec<ContextRecord>,
}

/// A teaching context under the identifier of its template.
pub struct ContextRecord {
    pub template_id: String,
    pub context: EducationalContext,
}

impl Named for ContextRecord {
    open spec fn name_of(&self) -> Seq<char> {
        self.template_id@
    }

    fn name(&self) -> (k: &str) {
        self.template_id.as_str()
    }
}

impl TemplateManager {
    /// A manager of the templates under `/etc/multios/container-templates`,
    /// with no teaching contexts yet.
    pub fn new() -> (m: Self)
        ensures
            m.wf(),
            m.template_root@ == "/etc/multios/container-templates"@,
            m.contexts() == Map::<Seq<char>, ContextRecord>::empty(),
    {
        let m = TemplateManager {
            template_root: string_of("/etc/multios/container-templates"),
            educational_contexts: Vec::new(),
        };
        assert(m.contexts() =~= Map::<Seq<char>, ContextRecord>::empty());
        m
    }

    /// The invariant: one context per template.
    pub open spec fn wf(&self) -> bool {
        unique_names(self.educational_contexts@)
    }

    /// The teaching contexts, by template identifier.
    pub open spec fn contexts(&self) -> Map<Seq<char>, ContextRecord> {
        name_map(self.educational_contexts@)
    }

    /// The file of template `template_id`: `<root>/<id>.json`.
    pub fn template_path(&self, template_id: &str) -> (p: String)
        ensures
            p@ == joined_path(self.template_root@, template_id@ + ".json"@),
    {
        let mut name = string_of(template_id);
        push_text(&mut name, ".json");
        join_path(self.template_root.as_str(), name.as_str())
    }

    /// The directory of teaching contexts: `<root>/contexts`.
    pub fn contexts_dir(&self) -> (p: String)
        ensures
            p@ == joined_path(self.template_root@, "contexts"@),
    {
        join_path(self.template_root.as_str(), "contexts")
    }

    /// The file of the teaching context of template `template_id`:
    /// `<root>/contexts/<id>.json`.
    pub fn context_path(&self, template_id: &str) -> (p: String)
        ensures
            p@ == joined_path(joined_path(self.template_root@, "contexts"@), template_id@ + ".json"@),
    {
        let dir = self.contexts_dir();
        let mut name = string_of(template_id);
        push_text(&mut name, ".json");
        join_path(dir.as_str(), name.as_str())
    }

    /// Records the teaching context of template `template_id`, replacing
    /// any recorded before.
    pub fn register_context(&mut self, template_id: &str, context: EducationalContext)
        requires
            old(self).wf(),
        ensures
            final(self).wf(),
            final(self).template_root == old(self).template_root,
            final(self).contexts().dom() == old(self).contexts().dom().insert(template_id@),
            final(self).contexts()[template_id@].context == context,
            forall|k: Seq<char>|
                k != template_id@ && #[trigger] old(self).contexts().contains_key(k) ==> final(self).contexts()[k]
                    == old(self).contexts()[k],
    {
        let record = ContextRecord { template_id: string_of(template_id), context };
        upsert_named(&mut self.educational_contexts, record);
    }

    /// The teaching context of template `template_id`; a template error
    /// when none is recorded.
    pub fn get_educational_context(&self, template_id: &str) -> (r: Result<EducationalContext, ContainerError>)
        requires
            self.wf(),
        ensures
            self.contexts().contains_key(template_id@) ==> (r matches Ok(c) && c@
                == self.contexts()[template_id@].context@),
            !self.contexts().contains_key(template_id@) ==> (r matches Err(ContainerError::TemplateError(m)) && m@
                == "Educational context for template "@ + template_id@ + " not found"@),
    {
        match find_name(&self.educational_contexts, template_id) {
            Some(i) => {
                proof {
                    crate::keyed::lemma_name_index(self.educational_contexts@, i as int);
                }
                Ok(copy_context(&self.educational_contexts[i].context))
            },
            None => {
                let mut m = string_of("Educational context for template ");
                push_text(&mut m, template_id);
                push_text(&mut m, " not found");
                Err(ContainerError::TemplateError(m))
            },
        }
    }

    /// The listing of the templates read from the template directory, each
    /// given with its identifier, in the order given. A template error for
    /// the first one whose teaching context is not recorded.
    pub fn list_templates(&self, loaded: &Vec<(String, TemplateConfig)>) -> (r: Result<
        Vec<TemplateInfo>,
        ContainerError,
    >)
        requires
            self.wf(),
        ensures
            (forall|i: int| 0 <= i < loaded@.len() ==> self.contexts().contains_key(#[trigger] loaded@[i].0@)) ==> (r
                matches Ok(infos) && infos@.len() == loaded@.len() && forall|i: int|
                0 <= i < loaded@.len() ==> info_of(
                    #[trigger] infos@[i],
                    loaded@[i].0@,
                    loaded@[i].1@,
                    self.contexts()[loaded@[i].0@].context@,
                )),
            r is Err ==> exists|i: int|
                0 <= i < loaded@.len() && !self.contexts().contains_key(#[trigger] loaded@[i].0@) && (forall|j: int|
                    0 <= j < i ==> self.contexts().contains_key(#[trigger] loaded@[j].0@)) && (r matches Err(
                    ContainerError::TemplateError(m),
                ) && m@ == "Educational context for template "@ + loaded@[i].0@ + " not found"@),
    {
        let mut infos: Vec<TemplateInfo> = Vec::new();
        let mut i: usize = 0;
        while i < loaded.len()
            invariant
                self.wf(),
                i <= loaded@.len(),
                infos@.len() == i,
                forall|j: int| 0 <= j < i ==> self.contexts().contains_key(#[trigger] loaded@[j].0@),
                forall|j: int|
                    0 <= j < i ==> info_of(
                        #[trigger] infos@[j],
                        loaded@[j].0@,
                        loaded@[j].1@,
                        self.contexts()[loaded@[j].0@].context@,
                    ),
            decreases loaded@.len() - i,
        {
            let (id, config) = &loaded[i];
            match self.get_educational_context(id.as_str()) {
                Ok(context) => {
                    infos.push(
                        TemplateInfo {
                            id: id.clone(),
                            name: config.name.clone(),
                            description: config.description.clone(),
                            difficulty_level: context.difficulty_level,
                            estimated_duration: context.estimated_duration,
                            learning_objectives: context.learning_objectives,
                            prerequisites: context.prerequisites,
                        },
                    );
                },
                Err(e) => {
                    return Err(e);
                },
            }
            i = i + 1;
        }
        Ok(infos)
    }

    /// The five standard templates: beginner programming, system
    /// administration, network security, web development and database
    /// administration, in that order.
    pub fn create_default_templates(&self) -> (v: Vec<TemplateRecord>)
        ensures
            v@.len() == 5,
            v@[0].id@ == "beginner-programming"@ && v@[0].config@ == beginner_programming_config() && v@[0].context@
                == beginner_programming_context(),
            v@[1].id@ == "system-admin"@ && v@[1].config@ == system_admin_config() && v@[1].context@
                == system_admin_context(),
            v@[2].id@ == "network-security"@ && v@[2].config@ == network_security_config() && v@[2].context@
                == network_security_context(),
            v@[3].id@ == "web-development"@ && v@[3].config@ == web_development_config() && v@[3].context@
                == web_development_context(),
            v@[4].id@ == "database-admin"@ && v@[4].config@ == database_admin_config() && v@[4].context@
                == database_admin_context(),
    {
        let mut v: Vec<TemplateRecord> = Vec::new();
        v.push(self.create_beginner_programming_template());
        v.push(self.create_system_admin_template());
        v.push(self.create_network_security_template());
        v.push(self.create_web_development_template());
        v.push(self.create_database_admin_template());
        v
    }

    /// Applies the changes `customizations` asks for to `template_config`.
    /// It always succeeds.
    pub fn apply_customizations(
        &self,
        template_config: &mut TemplateConfig,
        customizations: &TemplateCustomizations,
    ) -> (r: Result<(), ContainerError>)
        ensures
            r is Ok,
            final(template_config)@ == customized(old(template_config)@, *customizations),
    {
        if let Some(name) = &customizations.name {
            template_config.name = name.clone();
        }
        if let Some(description) = &customizations.description {
            template_config.description = description.clone();
        }
        if let Some(entrypoint) = &customizations.entrypoint {
            let mut e: Vec<String> = Vec::new();
            e.push(entrypoint.clone());
            template_config.entrypoint = Some(e);
            assert(texts(e@) =~= seq![entrypoint@]);
        }
        if let Some(packages) = &customizations.packages {
            template_config.packages = copy_strings(packages);
        }
        if let Some(environment) = &customizations.environment {
            template_config.environment = copy_pairs(environment);
        }
        assert(template_config@ =~= customized(old(template_config)@, *customizations));
        Ok(())
    }

    /// The container configuration made from template `template_config`
    /// under identifier `template_id`, created now. It always succeeds.
    pub fn template_to_container_config(&self, template_config: &TemplateConfig, template_id: &str) -> (r: Result<
        ContainerConfig,
        ContainerError,
    >)
        ensures
            r matches Ok(c) && config_from_template(c, template_config@, template_id@),
    {
        let command = match &template_config.command {
            Some(c) => copy_strings(c),
            None => Vec::new(),
        };
        let id = fresh_id();
        let c = ContainerConfig {
            container_id: uuid_string(id),
            name: template_config.name.clone(),
            image: template_config.image_base.clone(),
            command,
            environment: copy_pairs(&template_config.environment),
            ports: copy_ports(&template_config.ports),
            volumes: Vec::new(),
            resource_limits: template_config.resource_limits,
            security: copy_security(&template_config.security),
            network: NetworkConfig {
                network_mode: copy_mode(&template_config.network_mode),
                bridge_name: Some(string_of("multios-br0")),
                ip_address: None,
                mac_address: None,
                dns_servers: strings(&["8.8.8.8", "8.8.4.4"]),
                port_mappings: copy_ports(&template_config.ports),
            },
            namespace_mode: NamespaceMode::default(),
            template_id: Some(string_of(template_id)),
            created_at: now_millis(),
        };
        assert(texts(c.command@) =~= match template_config@.command {
            Some(v) => v,
            None => Seq::<Seq<char>>::empty(),
        });
        assert(texts(c.network.dns_servers@) =~= seq!["8.8.8.8"@, "8.8.4.4"@]);
        Ok(c)
    }

    /// The container configuration made from template `template` (as read
    /// from its file) under identifier `template_id`, with the changes
    /// `customizations` asks for applied first.
    pub fn create_from_template(
        &self,
        template: TemplateConfig,
        template_id: &str,
        customizations: &TemplateCustomizations,
    ) -> (r: Result<ContainerConfig, ContainerError>)
        ensures
            r matches Ok(c) && config_from_template(c, customized(template@, *customizations), template_id@),
    {
        let mut template_config = template;
        let _ = self.apply_customizations(&mut template_config, customizations);
        self.template_to_container_config(&template_config, template_id)
    }

    /// The beginner programming template, under `beginner-programming`.
    pub fn create_beginner_programming_template(&self) -> (r: TemplateRecord)
        ensures
            r.id@ == "beginner-programming"@,
            r.config@ == beginner_programming_config(),
            r.context@ == beginner_programming_context(),
    {
        let config = TemplateConfig {
            name: string_of("Beginner Programming Environment"),
            description: string_of("Complete development environment for learning programming fundamentals"),
            difficulty_level: DifficultyLevel::Beginner,
            estimated_duration: 2 * HOUR_MS,
            learning_objectives: strings(
                &[
                    "Understand basic programming concepts",
                    "Learn to write and run simple programs",
                    "Practice debugging techniques",
                    "Understand file organization",
                ],
            ),
            prerequisites: strings(&["Basic computer literacy"]),
            image_base: string_of("ubuntu:20.04"),
            entrypoint: Some(strings(&["/bin/bash"])),
            command: None,
            environment: pairs(&[("LANG", "C.UTF-8"), ("PS1", "\\u@\\h:\\w\\$ ")]),
            packages: strings(
                &[
                    "build-essential",
                    "python3",
                    "python3-pip",
                    "git",
                    "vim",
                    "curl",
                    "wget",
                    "tree",
                    "nano",
                ],
            ),
            network_mode: NetworkMode::Bridge,
            resource_limits: ResourceLimits {
                cpu_millicores: Some(1000),
                memory_bytes: Some(GIB),
                disk_bytes: Some(10 * GIB),
                network_bandwidth: Some(10 * MIB),
                file_descriptors: Some(1024),
                processes: Some(64),
            },
            security: SecurityConfig {
                privileged: false,
                capabilities: strings(&["CHOWN", "SETGID", "SETUID"]),
                apparmor_profile: Some(string_of("multios-programming")),
                seccomp_profile: Some(string_of("default")),
                read_only_root: true,
                no_new_privileges: true,
                user_namespace: true,
            },
            educational_tools: strings(&["python3-interactive", "git-tutorial", "debugger-setup"]),
            volumes: Vec::new(),
            ports: Vec::new(),
        };
        let context = context_from(
            &config,
            strings(
                &[
                    "Can compile and run basic programs",
                    "Understands variable usage",
                    "Can use basic debugging tools",
                    "Demonstrates proper code organization",
                ],
            ),
            strings(
                &[
                    "Data types and structures",
                    "Control flow",
                    "Functions and modules",
                    "Version control basics",
                ],
            ),
        );
        let r = TemplateRecord { id: string_of("beginner-programming"), config, context };
        assert(r.config@ =~= beginner_programming_config());
        assert(r.context@ =~= beginner_programming_context());
        r
    }

    /// The system administration template, under `system-admin`.
    pub fn create_system_admin_template(&self) -> (r: TemplateRecord)
        ensures
            r.id@ == "system-admin"@,
            r.config@ == system_admin_config(),
            r.context@ == system_admin_context(),
    {
        let config = TemplateConfig {
            name: string_of("System Administration Lab"),
            description: string_of("Hands-on environment for learning system administration skills"),
            difficulty_level: DifficultyLevel::Intermediate,
            estimated_duration: 4 * HOUR_MS,
            learning_objectives: strings(
                &[
                    "Understand Linux system administration",
                    "Learn user and group management",
                    "Practice service configuration",
                    "Master log management",
                ],
            ),
            prerequisites: strings(&["Basic Linux command line knowledge", "Understanding of file permissions"]),
            image_base: string_of("ubuntu:20.04"),
            entrypoint: Some(strings(&["/bin/bash"])),
            command: None,
            environment: pairs(&[("LANG", "C.UTF-8"), ("TERM", "xterm-256color")]),
            packages: strings(
                &[
                    "sudo",
                    "nginx",
                    "mysql-server",
                    "redis",
                    "cron",
                    "rsync",
                    "htop",
                    "sysstat",
                    "logrotate",
                    "fail2ban",
                ],
            ),
            network_mode: NetworkMode::Bridge,
            resource_limits: ResourceLimits {
                cpu_millicores: Some(2000),
                memory_bytes: Some(2 * GIB),
                disk_bytes: Some(20 * GIB),
                network_bandwidth: Some(50 * MIB),
                file_descriptors: Some(2048),
                processes: Some(128),
            },
            security: SecurityConfig {
                privileged: false,
                capabilities: strings(&["CHOWN", "SETGID", "SETUID", "NET_BIND_SERVICE", "SYS_CHROOT"]),
                apparmor_profile: Some(string_of("multios-system-admin")),
                seccomp_profile: Some(string_of("default")),
                read_only_root: true,
                no_new_privileges: true,
                user_namespace: true,
            },
            educational_tools: strings(&["service-manager", "user-management", "log-analyzer", "performance-monitor"]),
            volumes: Vec::new(),
            ports: Vec::new(),
        };
        let context = context_from(
            &config,
            strings(
                &[
                    "Can manage users and groups effectively",
                    "Understands service management",
                    "Can analyze system logs",
                    "Demonstrates security best practices",
                ],
            ),
            strings(
                &[
                    "File system management",
                    "Network configuration",
                    "Process management",
                    "Security hardening",
                ],
            ),
        );
        let r = TemplateRecord { id: string_of("system-admin"), config, context };
        assert(r.config@ =~= system_admin_config());
        assert(r.context@ =~= system_admin_context());
        r
    }

    /// The network security template, under `network-security`.
    pub fn create_network_security_template(&self) -> (r: TemplateRecord)
        ensures
            r.id@ == "network-security"@,
            r.config@ == network_security_config(),
            r.context@ == network_security_context(),
    {
        let config = TemplateConfig {
            name: string_of("Network Security Lab"),
            description: string_of("Secure environment for practicing network security techniques"),
            difficulty_level: DifficultyLevel::Advanced,
            estimated_duration: 6 * HOUR_MS,
            learning_objectives: strings(
                &[
                    "Understand network security fundamentals",
                    "Practice penetration testing techniques",
                    "Learn network monitoring and analysis",
                    "Master firewall configuration",
                ],
            ),
            prerequisites: strings(
                &[
                    "Network fundamentals knowledge",
                    "Basic Linux administration",
                    "Understanding of security concepts",
                ],
            ),
            image_base: string_of("kalilinux/kali-rolling"),
            entrypoint: Some(strings(&["/bin/bash"])),
            command: None,
            environment: pairs(&[("LANG", "C.UTF-8"), ("DISPLAY", ":0")]),
            packages: strings(
                &[
                    "nmap",
                    "wireshark",
                    "tcpdump",
                    "netcat",
                    "openssl",
                    "iptables",
                    "fail2ban",
                    "snort",
                    "metasploit-framework",
                ],
            ),
            network_mode: NetworkMode::Custom(string_of("isolated")),
            resource_limits: ResourceLimits {
                cpu_millicores: Some(4000),
                memory_bytes: Some(4 * GIB),
                disk_bytes: Some(30 * GIB),
                network_bandwidth: Some(100 * MIB),
                file_descriptors: Some(4096),
                processes: Some(256),
            },
            security: SecurityConfig {
                privileged: false,
                capabilities: strings(&["CHOWN", "SETGID", "SETUID", "NET_RAW", "SYS_ADMIN"]),
                apparmor_profile: Some(string_of("multios-security")),
                seccomp_profile: Some(string_of("security")),
                read_only_root: false,
                no_new_privileges: false,
                user_namespace: true,
            },
            educational_tools: strings(&["network-analyzer", "security-scanner", "packet-capture", "firewall-manager"]),
            volumes: Vec::new(),
            ports: Vec::new(),
        };
        let context = context_from(
            &config,
            strings(
                &[
                    "Can perform network reconnaissance",
                    "Understands common vulnerabilities",
                    "Can implement security controls",
                    "Demonstrates ethical hacking practices",
                ],
            ),
            strings(&["Cryptography basics", "Wireless security", "Incident response", "Security auditing"]),
        );
        let r = TemplateRecord { id: string_of("network-security"), config, context };
        assert(r.config@ =~= network_security_config());
        assert(r.context@ =~= network_security_context());
        r
    }

    /// The web development template, under `web-development`.
    pub fn create_web_development_template(&self) -> (r: TemplateRecord)
        ensures
            r.id@ == "web-development"@,
            r.config@ == web_development_config(),
            r.context@ == web_development_context(),
    {
        let config = TemplateConfig {
            name: string_of("Web Development Environment"),
            description: string_of("Full-stack web development environment with modern tools"),
            difficulty_level: DifficultyLevel::Intermediate,
            estimated_duration: 3 * HOUR_MS,
            learning_objectives: strings(
                &[
                    "Set up complete web development environment",
                    "Learn front-end development workflows",
                    "Practice backend API development",
                    "Understand containerized deployment",
                ],
            ),
            prerequisites: strings(&["Basic programming knowledge", "Understanding of web concepts"]),
            image_base: string_of("node:18-alpine"),
            entrypoint: Some(strings(&["/bin/sh"])),
            command: None,
            environment: pairs(&[("NODE_ENV", "development"), ("LANG", "C.UTF-8")]),
            packages: strings(&["git", "nginx", "postgresql", "redis", "yarn", "typescript", "eslint", "webpack"]),
            network_mode: NetworkMode::Bridge,
            resource_limits: ResourceLimits {
                cpu_millicores: Some(2000),
                memory_bytes: Some(2 * GIB),
                disk_bytes: Some(15 * GIB),
                network_bandwidth: Some(50 * MIB),
                file_descriptors: Some(2048),
                processes: Some(128),
            },
            security: SecurityConfig {
                privileged: false,
                capabilities: strings(&["CHOWN", "SETGID", "SETUID", "NET_BIND_SERVICE"]),
                apparmor_profile: Some(string_of("multios-web-dev")),
                seccomp_profile: Some(string_of("default")),
                read_only_root: true,
                no_new_privileges: true,
                user_namespace: true,
            },
            educational_tools: strings(&["live-reload", "api-tester", "code-linter", "build-optimizer"]),
            volumes: Vec::new(),
            ports: vec![tcp_port(3000), tcp_port(8080)],
        };
        let context = context_from(
            &config,
            strings(
                &[
                    "Can create functional web applications",
                    "Understands development workflows",
                    "Demonstrates good coding practices",
                    "Can containerize applications",
                ],
            ),
            strings(
                &[
                    "JavaScript frameworks",
                    "REST API design",
                    "Database integration",
                    "DevOps fundamentals",
                ],
            ),
        );
        let r = TemplateRecord { id: string_of("web-development"), config, context };
        assert(r.config@ =~= web_development_config());
        assert(r.context@ =~= web_development_context());
        r
    }

    /// The database administration template, under `database-admin`.
    pub fn create_database_admin_template(&self) -> (r: TemplateRecord)
        ensures
            r.id@ == "database-admin"@,
            r.config@ == database_admin_config(),
            r.context@ == database_admin_context(),
    {
        let config = TemplateConfig {
            name: string_of("Database Administration Lab"),
            description: string_of("Comprehensive database administration and optimization environment"),
            difficulty_level: DifficultyLevel::Advanced,
            estimated_duration: 5 * HOUR_MS,
            learning_objectives: strings(
                &[
                    "Master database administration fundamentals",
                    "Learn performance optimization techniques",
                    "Practice backup and recovery procedures",
                    "Understand database security best practices",
                ],
            ),
            prerequisites: strings(&["SQL knowledge", "Database fundamentals", "Basic system administration"]),
            image_base: string_of("postgres:14"),
            entrypoint: Some(strings(&["/bin/bash"])),
            command: None,
            environment: pairs(&[("POSTGRES_DB", "lab_db"), ("POSTGRES_USER", "lab_user"), ("POSTGRES_PASSWORD", "lab_pass")]),
            packages: strings(
                &[
                    "postgresql-14",
                    "postgresql-contrib-14",
                    "pgbench",
                    "pgadmin4",
                    "mysqldump",
                    "redis-tools",
                    "mongodb",
                ],
            ),
            network_mode: NetworkMode::Bridge,
            resource_limits: ResourceLimits {
                cpu_millicores: Some(3000),
                memory_bytes: Some(4 * GIB),
                disk_bytes: Some(50 * GIB),
                network_bandwidth: Some(100 * MIB),
                file_descriptors: Some(4096),
                processes: Some(256),
            },
            security: SecurityConfig {
                privileged: false,
                capabilities: strings(&["CHOWN", "SETGID", "SETUID", "DAC_OVERRIDE"]),
                apparmor_profile: Some(string_of("multios-database")),
                seccomp_profile: Some(string_of("default")),
                read_only_root: true,
                no_new_privileges: true,
                user_namespace: true,
            },
            educational_tools: strings(&["query-analyzer", "performance-monitor", "backup-manager", "security-scanner"]),
            volumes: Vec::new(),
            ports: vec![tcp_port(5432), tcp_port(8080)],
        };
        let context = context_from(
            &config,
            strings(
                &[
                    "Can perform database administration tasks",
                    "Understands performance tuning",
                    "Can implement backup strategies",
                    "Demonstrates security best practices",
                ],
            ),
            strings(&["Database design", "Query optimization", "Data warehousing", "High availability"]),
        );
        let r = TemplateRecord { id: string_of("database-admin"), config, context };
        assert(r.config@ =~= database_admin_config());
        assert(r.context@ =~= database_admin_context());
        r
    }
}

} // verus!
