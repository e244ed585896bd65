use system_features::containers::container::{ContainerManager, ContainerManagerConfig};
use system_features::containers::image_manager::{ImageCreationConfig, ImageManager, ImageMetadata, PullAction};
use system_features::containers::lifecycle::{event_plan, LifecycleManager, OperationType, StateMachine, WaitOutcome};
use system_features::containers::network_manager::{
    network_stats_from_dev, parse_ipv4, ipv4_string, NetworkManager, NetworkStats,
};
use system_features::containers::orchestration::{
    service_to_container_config, validate_service_definition, ContainerStatus, HealthCheckConfig, LoadBalancer,
    OrchestrationEngine, ResourceRequirements, ScalePolicy, ScalingPolicy, ServiceDefinition, ServiceNetworking,
    ServiceRegistry, ServiceType, SessionAffinity,
};
use system_features::containers::runtime::{container_log_file, ContainerRuntime, StreamType};
use system_features::containers::templates::{TemplateCustomizations, TemplateManager};
use system_features::containers::{
    ContainerConfig, ContainerError, ContainerState, DifficultyLevel, NetworkConfig, NetworkMode, PortMapping,
};

fn service(id: &str, name: &str, replicas: usize) -> ServiceDefinition {
    ServiceDefinition {
        id: id.to_string(),
        name: name.to_string(),
        image: "nginx:latest".to_string(),
        version: "1".to_string(),
        replicas,
        resource_requirements: ResourceRequirements {
            cpu_request: Some(500),
            cpu_limit: Some(1000),
            memory_request: Some(64),
            memory_limit: Some(128),
            disk_request: None,
            disk_limit: None,
            network_bandwidth: None,
        },
        port_mappings: vec![PortMapping { container_port: 80, host_port: 8080, protocol: "tcp".to_string() }],
        environment: vec![("MODE".to_string(), "test".to_string())],
        dependencies: vec![],
        health_check: HealthCheckConfig {
            http_get: None,
            tcp_connect: None,
            exec_check: None,
            initial_delay_seconds: 0,
            period_seconds: 10,
            timeout_seconds: 1,
            success_threshold: 1,
            failure_threshold: 3,
        },
        scaling_policy: ScalingPolicy {
            min_replicas: 1,
            max_replicas: 5,
            target_cpu_utilization: None,
            target_memory_utilization: None,
            scale_up_policy: ScalePolicy { stabilization_window_seconds: 0, policies: vec![] },
            scale_down_policy: ScalePolicy { stabilization_window_seconds: 0, policies: vec![] },
        },
        networking: ServiceNetworking {
            cluster_ip: None,
            external_ip: None,
            load_balancer_ip: None,
            dns_name: "web.local".to_string(),
            service_type: ServiceType::ClusterIP,
            session_affinity: SessionAffinity { enabled: false, client_ip: false, cookie_name: None, timeout_seconds: None },
        },
        volumes: vec![],
        labels: vec![],
        created_at: 0,
    }
}

#[test]
fn default_templates_are_the_five_standard_ones() {
    let manager = TemplateManager::new();
    let templates = manager.create_default_templates();
    let ids: Vec<&str> = templates.iter().map(|t| t.id.as_str()).collect();
    assert_eq!(ids, vec!["beginner-programming", "system-admin", "network-security", "web-development", "database-admin"]);
    let beginner = &templates[0];
    assert_eq!(beginner.config.name, "Beginner Programming Environment");
    assert_eq!(beginner.config.estimated_duration, 2 * 3_600_000);
    assert_eq!(beginner.config.resource_limits.memory_bytes, Some(1024 * 1024 * 1024));
    assert_eq!(beginner.config.resource_limits.cpu_millicores, Some(1000));
    assert_eq!(beginner.context.evaluation_criteria.len(), 4);
    assert_eq!(beginner.context.difficulty_level, DifficultyLevel::Beginner);
    let security = &templates[2];
    assert_eq!(security.config.network_mode, NetworkMode::Custom("isolated".to_string()));
    assert!(!security.config.security.read_only_root);
    let web = &templates[3];
    assert_eq!(web.config.ports.len(), 2);
    assert_eq!(web.config.ports[0].host_port, 3000);
}

#[test]
fn template_paths_are_under_the_root() {
    let manager = TemplateManager::new();
    assert_eq!(manager.template_path("web-development"), "/etc/multios/container-templates/web-development.json");
    assert_eq!(manager.context_path("web-development"), "/etc/multios/container-templates/contexts/web-development.json");
}

#[test]
fn customized_template_becomes_a_container_configuration() {
    let manager = TemplateManager::new();
    let template = manager.create_web_development_template().config;
    let mut changes = TemplateCustomizations::default();
    changes.name = Some("My Web Lab".to_string());
    changes.entrypoint = Some("/bin/bash".to_string());
    let config = manager.create_from_template(template, "web-development", &changes).ok().unwrap();
    assert_eq!(config.name, "My Web Lab");
    assert_eq!(config.image, "node:18-alpine");
    assert_eq!(config.template_id, Some("web-development".to_string()));
    assert_eq!(config.network.dns_servers, vec!["8.8.8.8".to_string(), "8.8.4.4".to_string()]);
    assert_eq!(config.network.bridge_name, Some("multios-br0".to_string()));
    assert_eq!(config.ports.len(), 2);
    assert!(config.volumes.is_empty());
    assert_eq!(config.container_id.len(), 36);
}

#[test]
fn missing_teaching_context_is_a_template_error() {
    let mut manager = TemplateManager::new();
    let r = manager.get_educational_context("nope");
    assert_eq!(r.err().unwrap().to_string(), "Template error: Educational context for template nope not found");
    let record = manager.create_system_admin_template();
    manager.register_context("system-admin", record.context);
    let context = manager.get_educational_context("system-admin").ok().unwrap();
    assert_eq!(context.difficulty_level, DifficultyLevel::Intermediate);
    let listed = manager.list_templates(&vec![("system-admin".to_string(), record.config)]).ok().unwrap();
    assert_eq!(listed.len(), 1);
    assert_eq!(listed[0].name, "System Administration Lab");
}

#[test]
fn image_references_parse_with_a_default_tag() {
    let images = ImageManager::new();
    let spec = images.parse_image_spec("ubuntu").ok().unwrap();
    assert_eq!(spec.name, "ubuntu");
    assert_eq!(spec.tag, "latest");
    assert_eq!(spec.registry, "docker.io");
    let spec = images.parse_image_spec("ubuntu:20.04").ok().unwrap();
    assert_eq!(spec.tag, "20.04");
    let bad = images.parse_image_spec("a:b:c");
    assert_eq!(bad.err().unwrap().to_string(), "Invalid configuration: Invalid image specification: a:b:c");
}

#[test]
fn pulling_decides_by_what_is_present() {
    let images = ImageManager::new();
    match images.pull_decision("ubuntu:20.04", true) {
        Ok(PullAction::AlreadyPresent(r)) => assert_eq!(r, "ubuntu:20.04"),
        _ => panic!("expected the image to be present"),
    }
    match images.pull_decision("edu:python", false) {
        Ok(PullAction::FromTemplate(t)) => assert_eq!(t, "edu:python"),
        _ => panic!("expected a template build"),
    }
    match images.pull_decision("alpine", false) {
        Ok(PullAction::FromMirror(m, r)) => {
            assert_eq!(r, "alpine:latest");
            assert_eq!(m.size, 1_048_576);
            assert_eq!(m.description, "Educational image for alpine");
            assert!(m.id.starts_with("sha256:"));
            assert_eq!(m.id.len(), 7 + 32);
            assert!(!m.layers[0].contains('-'));
        },
        _ => panic!("expected a mirror pull"),
    }
}

#[test]
fn image_creation_checks_and_names_the_layer() {
    let images = ImageManager::new();
    let mut config = ImageCreationConfig::default();
    assert_eq!(images.check_image_config(&config, true).err().unwrap().to_string(), "Invalid configuration: Image name cannot be empty");
    config.name = "lab".to_string();
    assert_eq!(images.check_image_config(&config, true).err().unwrap().to_string(), "Invalid configuration: Source path cannot be empty");
    config.source_path = "/src".to_string();
    assert_eq!(images.check_image_config(&config, false).err().unwrap().to_string(), "Invalid configuration: Source path does not exist");
    assert!(images.check_image_config(&config, true).is_ok());
    assert_eq!(images.layer_hash_name(0xabc), "abc");
    assert_eq!(images.layer_hash_name(0), "0");
}

#[test]
fn template_customizations_apply_in_order() {
    let images = ImageManager::new();
    let changes = vec![
        ("name".to_string(), "first".to_string()),
        ("colour".to_string(), "blue".to_string()),
        ("name".to_string(), "second".to_string()),
        ("entrypoint".to_string(), "/bin/zsh".to_string()),
    ];
    let c = images.apply_template_customizations(ImageCreationConfig::default(), &changes).ok().unwrap();
    assert_eq!(c.name, "second");
    assert_eq!(c.entrypoint, Some(vec!["/bin/zsh".to_string()]));
    assert_eq!(c.tag, "latest");
}

#[test]
fn image_removal_drops_layers() {
    let mut images = ImageManager::new();
    let missing = images.remove_image("gone", false, None);
    assert_eq!(missing.err().unwrap().to_string(), "Container not found: Image gone not found");
    let metadata = images.mirror_metadata("alpine", "latest");
    let paths = images.remove_image("alpine:latest", false, Some(&metadata)).ok().unwrap();
    assert_eq!(paths.len(), 1);
    assert!(paths[0].starts_with("/var/lib/multios/images/layers/"));
}

#[test]
fn service_validation_messages() {
    let mut s = service("web", "", 1);
    assert_eq!(validate_service_definition(&s).err().unwrap().to_string(), "Invalid configuration: Service name cannot be empty");
    s.name = "web".to_string();
    s.replicas = 0;
    assert_eq!(validate_service_definition(&s).err().unwrap().to_string(), "Invalid configuration: Service must have at least 1 replica");
    s.replicas = 1;
    s.resource_requirements.cpu_request = Some(2000);
    assert_eq!(validate_service_definition(&s).err().unwrap().to_string(), "Invalid configuration: CPU request cannot exceed CPU limit");
    s.resource_requirements.cpu_request = Some(100);
    s.resource_requirements.memory_request = Some(256);
    assert_eq!(validate_service_definition(&s).err().unwrap().to_string(), "Invalid configuration: Memory request cannot exceed memory limit");
}

#[test]
fn replica_configuration_takes_the_service_settings() {
    let s = service("web", "frontend", 1);
    let c = service_to_container_config(&s, "web-1234-abcd").ok().unwrap();
    assert_eq!(c.name, "frontend-abcd");
    assert_eq!(c.image, "nginx:latest");
    assert_eq!(c.resource_limits.cpu_millicores, Some(1000));
    assert_eq!(c.resource_limits.memory_bytes, Some(128));
    assert_eq!(c.ports.len(), 1);
    assert!(c.command.is_empty());
}

#[test]
fn deploying_a_service_adds_its_replicas() {
    let mut engine = OrchestrationEngine::new();
    let id = engine.deploy_service(service("web", "frontend", 3)).ok().unwrap();
    assert_eq!(id, "deploy-web");
    let status = engine.get_service_status("web").ok().unwrap();
    assert_eq!(status.replicas, 3);
    assert_eq!(status.ready_replicas, 0);
    assert_eq!(status.observed_generation, 1);
    assert_eq!(status.container_statuses.len(), 3);
    assert_eq!(status.container_statuses[0].1, "Pending");
    assert!(status.container_statuses[0].0.starts_with("web-"));
    let listed = engine.list_services();
    assert_eq!(listed.len(), 1);
    assert_eq!(listed[0].replicas, 3);
}

#[test]
fn scaling_down_needs_running_replicas() {
    let mut engine = OrchestrationEngine::new();
    engine.deploy_service(service("web", "frontend", 2)).ok().unwrap();
    let r = engine.scale_service("web", 1);
    assert_eq!(r.err().unwrap().to_string(), "Invalid configuration: No running containers to remove");
    assert!(engine.scale_service("web", 4).is_ok());
    assert_eq!(engine.get_service_status("web").ok().unwrap().replicas, 4);
    let missing = engine.scale_service("db", 1);
    assert_eq!(missing.err().unwrap().to_string(), "Container not found: Service db not found");
}

#[test]
fn running_replicas_are_removed_first_in_order() {
    let mut engine = OrchestrationEngine::new();
    engine.deploy_service(service("web", "frontend", 3)).ok().unwrap();
    engine.deployments[0].containers[1].status = ContainerStatus::Running;
    let second = engine.deployments[0].containers[1].id.clone();
    assert!(engine.scale_service("web", 2).is_ok());
    let status = engine.get_service_status("web").ok().unwrap();
    assert_eq!(status.replicas, 2);
    assert!(status.container_statuses.iter().all(|(id, _)| *id != second));
}

#[test]
fn logs_and_exec_in_a_service() {
    let mut engine = OrchestrationEngine::new();
    engine.deploy_service(service("web", "frontend", 1)).ok().unwrap();
    let logs = engine.get_service_logs("web", None).ok().unwrap();
    let id = engine.deployments[0].containers[0].id.clone();
    assert_eq!(logs, format!("=== Container {} ===\n[Logs would be retrieved here]\n", id));
    let none = engine.get_service_logs("web", Some("other".to_string())).ok().unwrap();
    assert_eq!(none, "");
    let r = engine.exec_in_service("web", None, vec!["ls".to_string()]);
    assert_eq!(r.err().unwrap().to_string(), "Invalid configuration: No running containers found");
    let out = engine.exec_in_service("web", Some("c1".to_string()), vec!["ls".to_string(), "-l".to_string()]).ok().unwrap();
    assert_eq!(out, "Command executed in container c1: [\"ls\", \"-l\"]");
    let missing = engine.get_service_logs("db", None);
    assert_eq!(missing.err().unwrap().to_string(), "Container not found: Deployment for service db not found");
}

#[test]
fn deleting_an_empty_service() {
    let mut engine = OrchestrationEngine::new();
    engine.deploy_service(service("web", "frontend", 1)).ok().unwrap();
    engine.deployments[0].containers[0].status = ContainerStatus::Running;
    assert!(engine.delete_service("web", false).is_ok());
    assert!(engine.list_services().is_empty());
    assert!(engine.get_service_status("web").is_err());
}

#[test]
fn registry_and_backends() {
    let mut registry = ServiceRegistry::new();
    registry.register_service("web".to_string(), vec![]);
    assert!(registry.get_service("web").is_some());
    registry.remove_service("web");
    assert!(registry.get_service("web").is_none());

    let mut balancer = LoadBalancer::new();
    assert_eq!(balancer.select_backend("web", "round_robin"), Some("backend-0".to_string()));
    assert_eq!(balancer.select_backend("web", "round_robin"), Some("backend-1".to_string()));
    assert_eq!(balancer.select_backend("web", "round_robin"), Some("backend-2".to_string()));
    assert_eq!(balancer.select_backend("web", "round_robin"), Some("backend-0".to_string()));
    assert_eq!(balancer.select_backend("web", "least_connections"), Some("backend-0".to_string()));
    let r = balancer.select_backend("web", "random").unwrap();
    assert!(r == "backend-0" || r == "backend-1" || r == "backend-2");
    assert_eq!(balancer.select_backend("web", "weighted"), None);
}

#[test]
fn addresses_parse_as_the_standard_library_does() {
    assert_eq!(parse_ipv4("172.17.0.5"), Some(0xAC11_0005));
    assert_eq!(parse_ipv4("255.255.255.255"), Some(u32::MAX));
    assert_eq!(parse_ipv4("256.0.0.1"), None);
    assert_eq!(parse_ipv4("01.2.3.4"), None);
    assert_eq!(parse_ipv4("1.2.3"), None);
    assert_eq!(parse_ipv4("1.2.3.4.5"), None);
    assert_eq!(parse_ipv4("1.2.3.x"), None);
    assert_eq!(parse_ipv4("0.0.0.0"), Some(0));
    assert_eq!(parse_ipv4("10.0.0.1"), Some(0x0A00_0001));
    assert_eq!(parse_ipv4("192.168.1.254"), Some(0xC0A8_01FE));
    assert_eq!(ipv4_string(0xAC11_0001), "172.17.0.1");
}

#[test]
fn container_networks_by_mode() {
    let mut manager = NetworkManager::new();
    let mut config = NetworkConfig::default();
    assert!(manager.create_network_interface("c1", &config).is_ok());
    let info = manager.get_network_info("c1", &Ok(String::new())).ok().unwrap();
    assert_eq!(info.interface_name, "veth_c1");
    assert!(info.ip_address.starts_with("172.17."));
    assert_eq!(info.mac_address.len(), 17);
    assert!(info.mac_address.starts_with("02:"));

    config.network_mode = NetworkMode::Host;
    assert!(manager.create_network_interface("c2", &config).is_ok());
    let info = manager.get_network_info("c2", &Ok(String::new())).ok().unwrap();
    assert_eq!(info.ip_address, "127.0.0.1");
    assert_eq!(info.interface_name, "");

    config.network_mode = NetworkMode::Custom("lab".to_string());
    config.ip_address = Some("10.1.2.3".to_string());
    assert!(manager.create_network_interface("c3", &config).is_ok());
    assert_eq!(manager.get_network_info("c3", &Ok(String::new())).ok().unwrap().ip_address, "10.1.2.3");
    config.ip_address = Some("10.1.2".to_string());
    let bad = manager.create_network_interface("c4", &config);
    assert_eq!(bad.err().unwrap().to_string(), "Network error: Invalid IP address");

    let missing = manager.get_network_info("c9", &Ok(String::new()));
    assert_eq!(missing.err().unwrap().to_string(), "Container not found: Container c9 network not found");
    assert_eq!(manager.list_networks().len(), 3);
    let steps = manager.cleanup_network_interface("c1");
    assert_eq!(steps.len(), 1);
    assert_eq!(steps[0].command, "ip link delete veth_c1\n");
    assert_eq!(manager.list_networks().len(), 2);
}

#[test]
fn network_commands_and_forwarding() {
    let mut manager = NetworkManager::new();
    let steps = manager.initialization_steps(false);
    assert_eq!(steps.len(), 5);
    assert_eq!(steps[0].command, "ip link add multios-br0 type bridge\n");
    assert_eq!(steps[2].failure, Some("Failed to configure bridge multios-br0".to_string()));
    assert_eq!(manager.initialization_steps(true).len(), 4);
    let bridge = manager.bridge_interface_steps("c1", 0xAC11_0002);
    assert_eq!(bridge[2].command, "ip addr add 172.17.0.2/24 dev veth_c1\n");

    let port = PortMapping { container_port: 80, host_port: 8080, protocol: "UDP".to_string() };
    assert!(manager.port_forward_step("c1", &port).is_err());
    let mut config = NetworkConfig::default();
    config.network_mode = NetworkMode::Custom("lab".to_string());
    config.ip_address = Some("10.0.0.9".to_string());
    manager.create_network_interface("c1", &config).ok().unwrap();
    let forward = manager.port_forward_step("c1", &port).ok().unwrap();
    assert_eq!(forward.command, "iptables -t nat -A PREROUTING -u -p UDP --dport 8080 -j DNAT --to-dest 10.0.0.9:80\n");
    assert_eq!(forward.failure, None);
}

#[test]
fn proc_net_dev_counters() {
    let content = "Inter-|   Receive                                                |  Transmit\n face |bytes    packets errs drop fifo frame compressed multicast|bytes    packets errs drop fifo colls carrier compressed\nveth_c1: 1000 10 0 0 0 0 0 0 2000 20 0 0 0 0 0 0\n";
    let stats = network_stats_from_dev(content, "veth_c1");
    assert_eq!(stats.rx_bytes, 1000);
    assert_eq!(stats.rx_packets, 10);
    assert_eq!(stats.tx_bytes, 2000);
    assert_eq!(stats.tx_packets, 20);
    assert_eq!(network_stats_from_dev(content, "eth9"), NetworkStats::default());
}

#[test]
fn state_machine_transitions() {
    let machine = StateMachine::new();
    assert!(machine.is_transition_allowed(&ContainerState::Created, &OperationType::Start));
    assert!(!machine.is_transition_allowed(&ContainerState::Deleted, &OperationType::Start));
    assert_eq!(machine.next_state(&ContainerState::Running, &OperationType::Pause), Some(ContainerState::Paused));
    assert_eq!(machine.next_state(&ContainerState::Paused, &OperationType::Resume), Some(ContainerState::Running));
    assert_eq!(machine.next_state(&ContainerState::Running, &OperationType::Delete), None);
}

#[test]
fn lifecycle_operations_are_recorded_and_waited_for() {
    let mut lifecycle = LifecycleManager::new();
    assert_eq!(lifecycle.create_container("c1", 100).ok(), Some(300_000));
    let again = lifecycle.create_container("c1", 150);
    assert_eq!(again.err().unwrap().to_string(), "Invalid configuration: Container c1 is already being operated on");
    assert_eq!(lifecycle.stop_container("c1", None, 200), 40_000);
    assert_eq!(lifecycle.restart_container("c1", Some(5_500), 200), 15_000);
    assert_eq!(lifecycle.start_container("c1", 300), 120_000);
    assert!(matches!(lifecycle.poll_operation("c1", OperationType::Start, 400), WaitOutcome::Pending));
    lifecycle.complete_operation("c1", true, 450);
    match lifecycle.poll_operation("c1", OperationType::Start, 500) {
        WaitOutcome::Done(result) => {
            assert!(result.success);
            assert_eq!(result.duration, 200);
        },
        _ => panic!("expected a finished operation"),
    }
    let ops = lifecycle.list_active_operations();
    assert_eq!(ops.len(), 1);
    assert_eq!(ops[0].id, "start-c1");
    assert_eq!(lifecycle.delete_container("c1", true, 600), 300_000);
}

#[test]
fn runtime_checks_and_logs() {
    let mut runtime = ContainerRuntime::new();
    let mut config = ContainerConfig::default();
    config.name = "lab".to_string();
    let id = runtime.container_manager.create_container(config, 10).ok().unwrap();
    let r = runtime.check_exec_in_container(&id);
    assert_eq!(r.err().unwrap().to_string(), "Invalid configuration: Can only exec in running containers");
    let r = runtime.attach_to_container(&id, StreamType::All);
    assert_eq!(r.err().unwrap().to_string(), "Invalid configuration: Can only attach to running containers");
    let missing = runtime.check_exec_in_container("none");
    assert!(matches!(missing, Err(ContainerError::NotFound(_))));
    let logs = runtime.get_container_logs(&id, Some("a\nb\nc\n"), Some(2), None).ok().unwrap();
    assert_eq!(logs, "b\nc");
    let logs = runtime.get_container_logs(&id, Some("a\nb\n"), Some(5), None).ok().unwrap();
    assert_eq!(logs, "a\nb\n");
    let logs = runtime.get_container_logs(&id, Some("a\r\nb\n"), None, Some(0)).ok().unwrap();
    assert_eq!(logs, "a\nb");
    let none = runtime.get_container_logs(&id, None, None, None).ok().unwrap();
    assert_eq!(none, "No logs available");
    let waited = runtime.wait_for_container(&id, Some(0));
    assert_eq!(waited.err().unwrap().to_string(), "Invalid configuration: Container process PID not found");
    assert_eq!(container_log_file("c7"), "/var/lib/multios/containers/c7/logs/stdout.log");
    let out = runtime.exec_output(false, b"", b"boom");
    assert_eq!(out.err().unwrap().to_string(), "System error: Command failed: boom");
    assert_eq!(runtime.exec_output(true, b"ok", b"").ok().unwrap(), "ok");
}

#[test]
fn container_manager_basic_flow() {
    let mut manager = ContainerManager::new(ContainerManagerConfig::default());
    let mut config = ContainerConfig::default();
    config.name = String::new();
    let r = manager.create_container(config, 0);
    assert_eq!(r.err().unwrap().to_string(), "Invalid configuration: Container name cannot be empty");
    let mut config = ContainerConfig::default();
    config.name = "web".to_string();
    let id = manager.create_container(config, 5).ok().unwrap();
    assert!(manager.check_start(&id).is_ok());
    assert_eq!(manager.list_containers(), vec![id.clone()]);
}

#[test]
fn ipv4_text_parses_back_to_the_same_address() {
    for ip in [0u32, 1, 0x0A00_0001, 0xAC11_0005, 0xC0A8_FFFE, 0xFFFF_FFFF] {
        assert_eq!(parse_ipv4(&ipv4_string(ip)), Some(ip));
    }
}

fn named_config(id: &str, name: &str) -> ContainerConfig {
    let mut config = ContainerConfig::default();
    config.container_id = id.to_string();
    config.name = name.to_string();
    config
}

#[test]
fn container_manager_refuses_taken_ids_and_missing_profiles() {
    let mut manager = ContainerManager::new(ContainerManagerConfig::default());
    let id = manager.create_container(named_config("c1", "db"), 1).ok().unwrap();
    assert_eq!(id, "c1");
    match manager.create_container(named_config("c1", "db2"), 2) {
        Err(ContainerError::AlreadyExists(m)) => assert_eq!(m, "c1"),
        _ => panic!("a taken identifier was accepted"),
    }
    let mut guarded = named_config("c2", "guarded");
    guarded.security.apparmor_profile = Some("edu".to_string());
    match manager.create_container_checked(guarded, 3, false, true) {
        Err(ContainerError::SecurityViolation(m)) => assert_eq!(m, "AppArmor profile not found: edu"),
        _ => panic!("a missing profile was accepted"),
    }
    let mut guarded = named_config("c2", "guarded");
    guarded.security.apparmor_profile = Some("edu".to_string());
    assert_eq!(manager.create_container_checked(guarded, 3, true, true).ok(), Some("c2".to_string()));
    let mut bad = named_config("c3", "bad");
    bad.security.capabilities = vec!["CAP_SYS_ADMIN".to_string()];
    match manager.create_container(bad, 4) {
        Err(ContainerError::SecurityViolation(m)) => assert_eq!(m, "Invalid capability: CAP_SYS_ADMIN"),
        _ => panic!("a forbidden capability was accepted"),
    }
    assert_eq!(manager.list_containers(), vec!["c1".to_string(), "c2".to_string()]);
}

#[test]
fn pausing_a_running_container_pauses_it() {
    let mut manager = ContainerManager::new(ContainerManagerConfig::default());
    let id = manager.create_container(named_config("c1", "web"), 1).ok().unwrap();
    assert!(manager.pause_container(&id).is_err());
    manager.record_started(&id, 77, 2);
    assert_eq!(manager.pause_container(&id).ok(), Some(Some(77)));
    assert_eq!(manager.get_container(&id).ok().unwrap().state, ContainerState::Paused);
    assert!(manager.pause_container(&id).is_err());
    assert_eq!(manager.resume_container(&id).ok(), Some(Some(77)));
    assert_eq!(manager.get_container(&id).ok().unwrap().state, ContainerState::Running);
}

#[test]
fn created_containers_carry_their_configuration_and_security_context() {
    let mut manager = ContainerManager::new(ContainerManagerConfig::default());
    let mut config = named_config("c9", "svc");
    config.image = "ubuntu:22.04".to_string();
    config.security.capabilities = vec!["CHOWN".to_string()];
    let id = manager.create_container(config, 3).ok().unwrap();
    let c = manager.get_container(&id).ok().unwrap();
    assert_eq!(c.config.image, "ubuntu:22.04");
    assert_eq!(c.config.name, "svc");
    assert_eq!(c.runtime_data.security_context.capabilities, vec!["CHOWN".to_string()]);
    assert!(c.runtime_data.security_context.uid_map.is_none());
    assert_eq!(c.stats.memory_usage, 0);
    assert!(c.runtime_data.mount_points.is_empty());
    assert!(manager.security_manager.get_security_context(&id).is_ok());
}

#[test]
fn starting_follows_the_state_machine() {
    let mut manager = ContainerManager::new(ContainerManagerConfig::default());
    let id = manager.create_container(named_config("c1", "web"), 1).ok().unwrap();
    assert!(manager.start_container(&id, 41, 5).is_ok());
    let c = manager.get_container(&id).ok().unwrap();
    assert_eq!(c.state, ContainerState::Running);
    assert_eq!(c.pid, Some(41));
    assert_eq!(c.started_at, Some(5));
    assert!(StateMachine::new().is_transition_allowed(&ContainerState::Created, &OperationType::Start));
    match manager.start_container(&id, 42, 6) {
        Err(ContainerError::InvalidConfig(m)) => assert_eq!(m, "Cannot start container in state: Running"),
        _ => panic!("a running container was started again"),
    }
    match manager.start_container("none", 1, 1) {
        Err(ContainerError::NotFound(m)) => assert_eq!(m, "none"),
        _ => panic!("a missing container was started"),
    }
}

#[test]
fn lifecycle_events_follow_their_plans() {
    let start = event_plan(OperationType::Start);
    assert_eq!(start.steps, vec![(0, 0), (200, 500), (200, 1000)]);
    assert_eq!(start.repeat, None);
    let stop = event_plan(OperationType::Stop);
    assert_eq!(stop.steps.last(), Some(&(100, 1000)));
    assert_eq!(stop.repeat, Some(2));
}
