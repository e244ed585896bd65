use system_features::distributed::cluster::{Cluster, ClusterConfig, Node, NodeCapabilities, NodeStatus};
use system_features::distributed::communication::{
    create_heartbeat, ConnectionState, DeliveryStatus, MessagePriority, MessageType, NetworkClient,
    NetworkConnection, NetworkMessage, NetworkServer, PROTOCOL_VERSION,
};
use system_features::distributed::examples::{
    get_learning_path, BasicParallelExample, DifficultyLevel, EducationalExample, ExampleCategory, ExampleRegistry,
    WordCountExample, MatrixMultiplicationExample, SharedMemoryExample, FaultToleranceExample, MPICommunicationExample,
};
use system_features::distributed::fault_tolerance::{
    CheckpointManager, DetectedFault, FaultDetector, FaultSeverity, FaultType, RecoveryStatus,
};
use system_features::distributed::mapreduce::{
    map_records_of, split_bytes, word_count_job, Job, JobResult, MapFunction, MapReduceEngine, ReduceFunction,
    WordCountMapFunction, WordCountReduceFunction,
};
use system_features::distributed::monitoring::{
    AlertSeverity, DataPoint, MetricType, PerformanceAlert, PerformanceMonitor,
};
use system_features::distributed::mpi::{
    create_mpi_environment, perform_reduction, EducationalMPI, MPIError, MPIOperation, ReductionOp,
};
use system_features::distributed::scheduler::{ResourceRequirements, ScheduledTask, TaskPriority, TaskQueues};
use system_features::distributed::shared_memory::{
    ConsistencyModel, DistributedMemory, GlobalAddress, LocalAddress, SharedValue,
};
use system_features::distributed::DistributedFramework;
use system_features::distributed::error::DistributedError;

#[test]
fn test_connection_state_ordering() {
    assert!(ConnectionState::Active == ConnectionState::Active);
    assert_ne!(ConnectionState::Connected, ConnectionState::Failed);
}

#[test]
fn test_message_priority_ordering() {
    assert!(MessagePriority::Critical > MessagePriority::High);
    assert!(MessagePriority::High > MessagePriority::Normal);
    assert!(MessagePriority::Normal > MessagePriority::Low);
}

#[test]
fn test_delivery_status() {
    assert_eq!(DeliveryStatus::Pending, DeliveryStatus::Pending);
    assert_ne!(DeliveryStatus::Delivered, DeliveryStatus::Failed);
}

#[test]
fn test_message_creation() {
    let node_id: u128 = 0x1234_5678_9abc_def0_1234_5678_9abc_def0;
    let message = create_heartbeat(node_id, None);

    assert_eq!(message.message_type, MessageType::Heartbeat);
    assert_eq!(message.source_node, node_id);
    assert!(message.payload.is_empty());
}

#[test]
fn test_network_connection_structure() {
    let connection = NetworkConnection {
        connection_id: 1,
        remote_node: 2,
        local_address: "127.0.0.1:8080".to_string(),
        remote_address: "127.0.0.1:8081".to_string(),
        state: ConnectionState::Connected,
        created_at: 0,
        last_activity: 0,
        message_count: 0,
        bytes_sent: 0,
        bytes_received: 0,
        protocol_version: PROTOCOL_VERSION,
    };

    assert_eq!(connection.state, ConnectionState::Connected);
    assert_eq!(connection.protocol_version, PROTOCOL_VERSION);
}

#[test]
fn test_example_categories() {
    assert_eq!(format!("{:?}", ExampleCategory::Basics), "Basics");
    assert_eq!(format!("{:?}", ExampleCategory::MapReduce), "MapReduce");
    assert_eq!(format!("{:?}", ExampleCategory::MPI), "MPI");
}

#[test]
fn test_difficulty_levels() {
    assert!(DifficultyLevel::Beginner < DifficultyLevel::Intermediate);
    assert!(DifficultyLevel::Intermediate < DifficultyLevel::Advanced);
    assert!(DifficultyLevel::Advanced < DifficultyLevel::Expert);
}

#[test]
fn test_example_registry() {
    let registry = ExampleRegistry::new();
    let examples = registry.get_all_examples();

    assert!(!examples.is_empty());
}

#[test]
fn test_learning_path() {
    let beginner_path = get_learning_path(DifficultyLevel::Beginner);
    assert!(!beginner_path.is_empty());

    let intermediate_path = get_learning_path(DifficultyLevel::Intermediate);
    assert!(!intermediate_path.is_empty());
}

#[test]
fn test_basic_parallel_example() {
    let example = BasicParallelExample;

    assert_eq!(example.name(), "Basic Parallel Computation");
    assert_eq!(example.category(), ExampleCategory::Basics);
    assert_eq!(example.difficulty(), DifficultyLevel::Beginner);
}

#[test]
fn test_word_count_example() {
    let example = WordCountExample;

    let job = example.generate_job("test");
    assert_eq!(job.job_name(), "word_count");
}

#[test]
fn test_fault_severity_ordering() {
    assert!(FaultSeverity::Fatal > FaultSeverity::Critical);
    assert!(FaultSeverity::Critical > FaultSeverity::Major);
    assert!(FaultSeverity::Major > FaultSeverity::Minor);
    assert!(FaultSeverity::Minor > FaultSeverity::Warning);
    assert!(FaultSeverity::Warning > FaultSeverity::Info);
}

#[test]
fn test_recovery_status_ordering() {
    assert_eq!(RecoveryStatus::Pending, RecoveryStatus::Pending);
    assert_ne!(RecoveryStatus::Completed, RecoveryStatus::Failed);
}

#[test]
fn test_fault_types() {
    let fault_types = vec![
        FaultType::NodeFailure,
        FaultType::NetworkPartition,
        FaultType::MessageLoss,
        FaultType::TaskTimeout,
        FaultType::ResourceExhaustion,
        FaultType::DataCorruption,
        FaultType::PerformanceDegradation,
        FaultType::ConfigurationError,
        FaultType::SecurityBreach,
    ];

    assert_eq!(fault_types.len(), 9);

    for fault_type in &fault_types {
        let cloned = fault_type.clone();
        assert_eq!(*fault_type, cloned);
    }
}

#[test]
fn test_fault_detection_creation() {
    let detector = FaultDetector::new(None);
    assert!(detector.detection_strategy.heartbeat_timeout > 0);
}

#[test]
fn test_fault_detection() {
    let mut detector = FaultDetector::new(None);
    let fault = DetectedFault {
        fault_id: 7,
        fault_type: FaultType::NodeFailure,
        severity: FaultSeverity::Critical,
        affected_nodes: vec![],
        affected_tasks: vec![],
        detection_time: 0,
        description: "Test fault".to_string(),
        recovery_suggestions: vec![],
        metadata: vec![],
    };

    detector.handle_detected_fault(fault);
    assert_eq!(detector.active_fault_count(), 1);
}

#[test]
fn test_checkpoint_management() {
    let mut checkpoint_manager = CheckpointManager::new(5, 60_000);

    let checkpoint_id = checkpoint_manager.create_checkpoint(1, vec![], 1_000);
    assert_ne!(checkpoint_id, 0);

    let checkpoints = checkpoint_manager.list_checkpoints();
    assert_eq!(checkpoints.len(), 1);
}

#[test]
fn test_severity_ordering() {
    assert!(AlertSeverity::Critical > AlertSeverity::Error);
    assert!(AlertSeverity::Error > AlertSeverity::Warning);
    assert!(AlertSeverity::Warning > AlertSeverity::Info);
}

#[test]
fn test_metric_type_formatting() {
    assert_eq!(MetricType::Gauge.to_string(), "Gauge");
    assert_eq!(MetricType::Counter.to_string(), "Counter");
    assert_eq!(MetricType::Timer.to_string(), "Timer");
}

#[test]
fn test_data_point_structure() {
    let data_point = DataPoint { timestamp: 0, value: 100.5f64.to_bits(), tags: vec![] };

    assert!(f64::from_bits(data_point.value) >= 0.0);
}

#[test]
fn test_performance_monitor_creation() {
    let monitor = PerformanceMonitor::new(None);
    assert!(monitor.config.collection_interval != 0);
}

#[test]
fn test_metric_recording() {
    let mut monitor = PerformanceMonitor::new(None);
    let point = DataPoint { timestamp: 5, value: 42.0f64.to_bits(), tags: vec![] };

    monitor.record_metric("test.metric", point);
    assert_eq!(monitor.get_latest_metric_value("test.metric"), Some(42.0f64.to_bits()));
}

#[test]
fn test_alert_creation() {
    let mut monitor = PerformanceMonitor::new(None);
    let alert = PerformanceAlert {
        alert_id: 11,
        severity: AlertSeverity::Warning,
        metric_id: "test.metric".to_string(),
        node_id: None,
        threshold_value: 80.0f64.to_bits(),
        current_value: 90.0f64.to_bits(),
        message: "Test alert message".to_string(),
        timestamp: 0,
        acknowledged: false,
        resolved_at: None,
    };

    monitor.trigger_alert(alert);
    assert_eq!(monitor.get_alert_history(None).len(), 1);
    assert_eq!(monitor.statistics.total_alerts_generated, 1);
}

#[test]
fn test_monitoring_statistics() {
    let monitor = PerformanceMonitor::new(None);

    assert_eq!(monitor.statistics.total_metrics_collected, 0);
    assert_eq!(monitor.statistics.total_alerts_generated, 0);
}

#[test]
fn test_reduction_operations() {
    let data = vec![1i32, 2i32, 3i32, 4i32].into_iter().flat_map(|i| i.to_le_bytes()).collect::<Vec<_>>();

    let sum_result = perform_reduction(&data, &ReductionOp::Sum);
    assert!(sum_result.is_ok());

    let sum = i32::from_le_bytes(sum_result.ok().unwrap().try_into().unwrap());
    assert_eq!(sum, 10);
}

#[test]
fn test_mpi_error_types() {
    let error = MPIError::InvalidRank(10, 5);
    assert!(error.to_string().contains("Invalid rank"));

    let error = MPIError::Timeout(5_000);
    assert!(error.to_string().contains("Communication timeout"));
}

#[test]
fn test_mpi_initialization() {
    let mpi = EducationalMPI::init();
    assert_eq!(mpi.rank(), 0);
    assert_eq!(mpi.size(), 1);
}

#[test]
fn test_mpi_send_receive() {
    let mut mpi = EducationalMPI::init();

    let data = vec![1u8, 2, 3, 4, 5];
    let mut recv_buffer = vec![0u8; data.len()];

    let send_result = mpi.send(&data, 0, 0);
    assert!(send_result.is_ok());

    let recv_result = mpi.recv(&mut recv_buffer, 0, 0);
    assert!(recv_result.is_ok());

    let status = recv_result.ok().unwrap();
    assert_eq!(status.count, data.len());
}

#[test]
fn test_mpi_barrier() {
    let mut mpi = EducationalMPI::init();
    let barrier_result = mpi.barrier();
    assert!(barrier_result.is_ok());
}

#[test]
fn test_task_priority_ordering() {
    assert!(TaskPriority::Critical > TaskPriority::High);
    assert!(TaskPriority::High > TaskPriority::Normal);
    assert!(TaskPriority::Normal > TaskPriority::Low);
}

#[test]
fn test_task_submission() {
    let mut queues = TaskQueues::new();
    let task = ScheduledTask {
        id: 3,
        name: "test_task".to_string(),
        priority: TaskPriority::Normal,
        estimated_duration: 1_000,
        resource_requirements: ResourceRequirements {
            min_cpu_cores: 1,
            min_memory_gb: 1,
            network_bandwidth_mbps: 10,
            storage_gb: None,
        },
        dependencies: vec![],
        submission_time: 0,
        timeout: Some(5_000),
    };

    queues.submit(task);
    assert_eq!(queues.queued_count(), 1);
}

#[test]
fn test_address_formatting() {
    let global_addr = GlobalAddress(0x123456789ABCDEF0);
    assert_eq!(global_addr.to_string(), "0x123456789ABCDEF0");

    let local_addr = LocalAddress(0x12345678);
    assert_eq!(local_addr.to_string(), "0x12345678");
}

#[test]
fn test_shared_value() {
    let mut shared_i32 = SharedValue::new(42i32, 1);

    assert_eq!(*shared_i32.read(), 42);

    shared_i32.update(100, 2);
    assert_eq!(*shared_i32.read(), 100);

    let success = shared_i32.compare_and_swap(50, 200, 3);
    assert!(!success);
    assert_eq!(*shared_i32.read(), 100);

    let success = shared_i32.compare_and_swap(100, 200, 4);
    assert!(success);
    assert_eq!(*shared_i32.read(), 200);
}

#[test]
fn test_memory_allocation() {
    let mut memory = DistributedMemory::new(1, 1024);

    let region_id = memory.allocate_region("test_region", 1024, ConsistencyModel::Sequential, None, 0);
    assert!(region_id.is_ok());
    assert_ne!(region_id.ok().unwrap(), 0);
}

#[test]
fn test_consistency_models() {
    let mut memory = DistributedMemory::new(1, 1024);

    for model in [
        ConsistencyModel::Sequential,
        ConsistencyModel::Causal,
        ConsistencyModel::Eventual,
        ConsistencyModel::Release,
        ConsistencyModel::Entry,
        ConsistencyModel::Weak,
    ] {
        let region_id = memory.allocate_region(&format!("region_{:?}", model), 512, model, None, 0);
        assert!(region_id.is_ok());
        assert_ne!(region_id.ok().unwrap(), 0);
    }
}

#[test]
fn test_memory_release() {
    let mut memory = DistributedMemory::new(1, 1024);

    let region_id = memory.allocate_region("temp_region", 256, ConsistencyModel::Sequential, None, 0).ok().unwrap();

    let regions_before = memory.list_regions();
    assert_eq!(regions_before.len(), 1);

    assert!(memory.release_region(region_id).is_ok());

    let regions_after = memory.list_regions();
    assert_eq!(regions_after.len(), 0);
}

#[test]
fn read_after_write_in_an_allocated_region() {
    let mut memory = DistributedMemory::new(1, 1024);
    let region_id = memory.allocate_region("data", 64, ConsistencyModel::Sequential, None, 0).ok().unwrap();
    assert!(memory.get_region_info(region_id).is_ok());
    let second = memory.allocate_region("more", 16, ConsistencyModel::Sequential, None, 0).ok().unwrap();
    assert!(memory.get_region_info(second).is_ok());
    assert!(memory.write(GlobalAddress(0x1000 + 64), vec![7]).is_ok());
    let address = GlobalAddress(0x1000);
    let data = b"Hello, Distributed Memory!".to_vec();

    assert!(memory.write(address, data.clone()).is_ok());
    let read = memory.read(address, data.len());
    assert_eq!(read.ok().unwrap(), data);
}

#[test]
fn write_to_an_unmapped_address_is_refused() {
    let mut memory = DistributedMemory::new(1, 1024);
    let _ = memory.allocate_region("data", 64, ConsistencyModel::Sequential, None, 0);
    let r = memory.write(GlobalAddress(0x2000), vec![1, 2, 3]);
    assert!(r.is_err());
}

#[test]
fn test_basic_read_write() {
    let mut memory = DistributedMemory::new(1, 1024);
    let _region_id = memory.allocate_region("test_region", 1024, ConsistencyModel::Sequential, None, 0).ok().unwrap();
    let test_data = b"Hello, Distributed Memory!".to_vec();
    let address = GlobalAddress(0x1000);
    memory.write(address, test_data.clone()).ok().unwrap();
    let read_data = memory.read(address, test_data.len()).ok().unwrap();
    assert_eq!(read_data, test_data);
}

#[test]
fn test_job_creation() {
    let job = Job::new("test_job");
    assert_eq!(job.job_name(), "test_job");
    assert_ne!(job.id(), 0);
}

#[test]
fn test_job_task_generation() {
    let mut job = Job::new("test_job").input_data(b"line1\nline2\nline3\nline4".to_vec());

    job.generate_tasks().unwrap();
    assert_eq!(job.task_count(), 6);
}

#[test]
fn test_word_count_map() {
    let mapper = WordCountMapFunction;
    let result = mapper.map(vec![], b"hello world hello".to_vec()).unwrap();

    assert_eq!(result.len(), 3);
    let hello_count = result.iter().filter(|(k, _)| k == b"hello").count();
    assert_eq!(hello_count, 2);
}

#[test]
fn test_word_count_reduce() {
    let reducer = WordCountReduceFunction;
    let values = vec![b"1".to_vec(), b"1".to_vec(), b"1".to_vec()];
    let result = reducer.reduce(b"hello".to_vec(), values).unwrap();

    let result_str = String::from_utf8_lossy(&result);
    assert!(result_str.contains("hello: 3"));
}

#[test]
fn test_partitioning() {
    let engine = MapReduceEngine::new();

    let key1 = b"apple".to_vec();
    let key2 = b"banana".to_vec();
    let key3 = b"cherry".to_vec();

    let partition1 = engine.calculate_partition_index(&key1, 3);
    let partition2 = engine.calculate_partition_index(&key2, 3);
    let partition3 = engine.calculate_partition_index(&key3, 3);

    assert!(partition1 < 3);
    assert!(partition2 < 3);
    assert!(partition3 < 3);
}

#[test]
fn partition_index_is_the_byte_sum_modulo() {
    let engine = MapReduceEngine::new();
    let sum: usize = b"apple".iter().map(|b| *b as usize).sum();
    assert_eq!(engine.calculate_partition_index(b"apple", 3), sum % 3);
    assert_eq!(engine.calculate_partition_index(b"apple", 0), 0);
}

#[test]
fn test_cluster_creation() {
    let cluster = Cluster::new(ClusterConfig::default());
    assert!(cluster.nodes.is_empty());
}

#[test]
fn test_node_addition() {
    let mut cluster = Cluster::new(ClusterConfig::default());

    let node = Node {
        id: 42,
        address: "127.0.0.1:8080".to_string(),
        capabilities: NodeCapabilities {
            cpu_cores: 4,
            memory_gb: 8,
            network_bandwidth_mbps: 100,
            storage_gb: 500,
            supported_protocols: vec!["tcp".to_string()],
            max_concurrent_tasks: 8,
        },
        status: NodeStatus::Active,
        last_seen: 0,
        metrics: None,
    };

    cluster.add_node(node);

    let status = cluster.node_summary();
    assert_eq!(status.total_nodes, 1);
    assert_eq!(status.active_nodes, 1);
}

#[test]
fn test_framework_initialization() {
    let framework = DistributedFramework::new(ClusterConfig::default());
    assert!(framework.is_ok());
}

#[test]
fn unknown_example_is_a_configuration_error() {
    let framework = DistributedFramework::new(ClusterConfig::default()).ok().unwrap();
    let r = framework.find_example("No Such Example");
    assert!(r.is_err());
    assert_eq!(r.err().unwrap().to_string(), "Invalid configuration: Example 'No Such Example' not found");
    assert!(framework.find_example("Basic Parallel Computation").is_ok());
}

#[test]
fn test_network_client_creation() {
    let client = NetworkClient::new(10);

    assert_eq!(client.max_connections, 10);
    assert_eq!(client.connection_timeout, 30_000);
}

#[test]
fn test_mpi_broadcast() {
    let mut mpi = EducationalMPI::init();
    let mut data = vec![1u8, 2, 3, 4, 5];

    let broadcast_result = mpi.broadcast(&mut data, 0);
    assert!(broadcast_result.is_ok());
}

fn sent_to(op: &MPIOperation) -> (Vec<u8>, usize, i32) {
    match op {
        MPIOperation::Send { data, dest, tag } => (data.clone(), *dest, *tag),
        _ => panic!("not a send"),
    }
}

#[test]
fn broadcast_from_root_sends_to_every_other_rank() {
    let mut mpi = create_mpi_environment(1, 3).ok().unwrap();
    let mut data = vec![7u8, 8];
    assert!(mpi.broadcast(&mut data, 1).is_ok());
    assert_eq!(data, vec![7u8, 8]);
    assert_eq!(mpi.message_queue.len(), 2);
    assert_eq!(sent_to(&mpi.message_queue[0]), (vec![7u8, 8], 0, 0));
    assert_eq!(sent_to(&mpi.message_queue[1]), (vec![7u8, 8], 2, 0));
    assert_eq!(mpi.statistics.total_messages_sent, 2);
    assert_eq!(mpi.statistics.total_bytes_sent, 8);
    assert_eq!(mpi.statistics.collective_count, 1);
}

#[test]
fn broadcast_to_a_receiver_and_bad_root() {
    let mut mpi = create_mpi_environment(2, 3).ok().unwrap();
    let mut data = vec![7u8, 8];
    assert!(mpi.broadcast(&mut data, 0).is_ok());
    assert_eq!(data, vec![0u8, 0]);
    assert!(mpi.message_queue.is_empty());
    let mut other = vec![1u8];
    assert!(matches!(mpi.broadcast(&mut other, 3), Err(MPIError::InvalidRank(3, 3))));
    assert_eq!(other, vec![1u8]);
}

#[test]
fn scatter_splits_the_buffer_in_rank_order() {
    let mut mpi = create_mpi_environment(0, 3).ok().unwrap();
    let sendbuf = vec![1u8, 2, 3, 4, 5, 6, 7];
    let mut recvbuf = vec![9u8; 4];
    assert!(mpi.scatter(&sendbuf, &mut recvbuf, 0).is_ok());
    assert_eq!(recvbuf, vec![1u8, 2, 3, 9]);
    assert_eq!(sent_to(&mpi.message_queue[0]), (vec![4u8, 5], 1, 0));
    assert_eq!(sent_to(&mpi.message_queue[1]), (vec![6u8, 7], 2, 0));
    assert_eq!(mpi.statistics.total_bytes_sent, 4);
}

#[test]
fn scatter_at_a_receiver_takes_its_share() {
    let mut mpi = create_mpi_environment(2, 3).ok().unwrap();
    let sendbuf = vec![1u8, 2, 3, 4, 5, 6, 7];
    let mut recvbuf = vec![9u8; 3];
    assert!(mpi.scatter(&sendbuf, &mut recvbuf, 0).is_ok());
    assert_eq!(recvbuf, vec![0u8, 0, 9]);
}

#[test]
fn gather_places_blocks_by_rank() {
    let mut mpi = create_mpi_environment(1, 3).ok().unwrap();
    let sendbuf = vec![5u8, 6, 7];
    let mut recvbuf = vec![9u8; 4];
    assert!(mpi.gather(&sendbuf, &mut recvbuf, 1).is_ok());
    assert_eq!(recvbuf, vec![0u8, 6, 0, 9]);
    assert_eq!(mpi.statistics.collective_count, 1);

    let mut sender = create_mpi_environment(2, 3).ok().unwrap();
    let mut untouched = vec![4u8];
    assert!(sender.gather(&sendbuf, &mut untouched, 0).is_ok());
    assert_eq!(untouched, vec![4u8]);
    assert_eq!(sent_to(&sender.message_queue[0]), (vec![5u8, 6, 7], 0, 0));
}

#[test]
fn all_reduce_at_rank_zero_reduces_and_shares() {
    let mut mpi = create_mpi_environment(0, 2).ok().unwrap();
    let sendbuf: Vec<u8> = [3i32, 4i32].iter().flat_map(|v| v.to_le_bytes()).collect();
    let mut recvbuf = vec![0u8; 4];
    assert!(mpi.all_reduce(&sendbuf, &mut recvbuf, ReductionOp::Sum).is_ok());
    assert_eq!(i32::from_le_bytes([recvbuf[0], recvbuf[1], recvbuf[2], recvbuf[3]]), 7);
    assert_eq!(sent_to(&mpi.message_queue[0]), (7i32.to_le_bytes().to_vec(), 1, 0));

    let mut refused = create_mpi_environment(0, 2).ok().unwrap();
    let r = refused.all_reduce(&sendbuf, &mut recvbuf, ReductionOp::BitwiseAnd);
    match r {
        Err(MPIError::NotSupported(m)) => assert_eq!(m, "Reduction operation BitwiseAnd not implemented"),
        _ => panic!("expected NotSupported"),
    }
    assert!(refused.message_queue.is_empty());
}

#[test]
fn all_reduce_elsewhere_sends_to_rank_zero() {
    let mut mpi = create_mpi_environment(1, 2).ok().unwrap();
    let mut recvbuf = vec![5u8; 3];
    assert!(mpi.all_reduce(&[1u8, 2], &mut recvbuf, ReductionOp::Max).is_ok());
    assert_eq!(recvbuf, vec![0u8; 3]);
    assert_eq!(sent_to(&mpi.message_queue[0]), (vec![1u8, 2], 0, 0));
}

#[test]
fn requests_complete_and_time_out() {
    let mut mpi = create_mpi_environment(0, 2).ok().unwrap();
    let send = mpi.send_init(&[1u8, 2, 3], 1, 4).ok().unwrap();
    let status = mpi.wait(&send).ok().unwrap();
    assert_eq!((status.source, status.tag, status.count), (0, 4, 3));
    let (done, _) = mpi.test(&send).ok().unwrap();
    assert!(done);

    let recv = mpi.recv_init(&[0u8; 2], 1, 5).ok().unwrap();
    assert!(matches!(mpi.wait(&recv), Err(MPIError::Timeout(30_000))));
    let (done, status) = mpi.test(&recv).ok().unwrap();
    assert!(!done);
    assert_eq!(status.count, 2);
    assert_eq!(mpi.requests.active.len(), 1);
    assert!(mpi.finalize().is_ok());
    assert!(mpi.requests.active.is_empty());
    assert_eq!(mpi.requests.completed.len(), 1);
}

#[test]
fn submitted_job_tasks_are_queued_in_order() {
    let mut job = Job::new("sum").input_data(b"line1\nline2\nline3\nline4".to_vec());
    job.generate_tasks().unwrap();
    let mut queues = TaskQueues::new();
    let handle = queues.submit_job(&job, 42);
    assert_eq!(handle.id(), job.id());
    let ids = handle.tasks.clone();
    assert_eq!(ids.len(), job.task_count());
    assert_eq!(queues.queued_count(), job.task_count());
    let ready = queues.take_ready(ids.len());
    assert_eq!(ready.len(), ids.len());
    for (i, task) in ready.iter().enumerate() {
        assert_eq!(task.id, ids[i]);
        assert_eq!(task.name, format!("sum_task_{}", i));
        assert_eq!(task.priority, TaskPriority::Normal);
        assert_eq!(task.estimated_duration, 100);
        assert_eq!(task.submission_time, 42);
        assert_eq!(task.timeout, Some(60_000));
    }
}

#[test]
fn framework_submits_a_job_to_its_scheduler() {
    let mut framework = DistributedFramework::new(ClusterConfig::default()).ok().unwrap();
    let mut job = Job::new("frame").input_data(b"a b".to_vec());
    job.generate_tasks().unwrap();
    let handle = framework.submit_job(&job);
    assert_eq!(handle.tasks.len(), job.task_count());
    assert_eq!(framework.scheduler.queued_count(), handle.tasks.len());
}

fn node_with(id: u128, cores: usize, memory_gb: u64) -> Node {
    Node {
        id,
        address: "127.0.0.1:9000".to_string(),
        capabilities: NodeCapabilities {
            cpu_cores: cores,
            memory_gb,
            network_bandwidth_mbps: 100,
            storage_gb: 10,
            supported_protocols: vec![],
            max_concurrent_tasks: 2,
        },
        status: NodeStatus::Active,
        last_seen: 0,
        metrics: None,
    }
}

#[test]
fn cluster_totals_fit_until_they_overflow() {
    let mut cluster = Cluster::new(ClusterConfig::default());
    cluster.add_node(node_with(1, 4, 8));
    cluster.add_node(node_with(2, 2, 16));
    assert!(cluster.totals_fit());
    let summary = cluster.node_summary();
    assert_eq!((summary.total_cpu_cores, summary.total_memory_gb), (6, 24));
    cluster.add_node(node_with(3, 1, u64::MAX));
    assert!(!cluster.totals_fit());
}

#[test]
fn test_network_server_creation() {
    let server = NetworkServer::new(&ClusterConfig::default());

    assert!(server.server_id != 0);
    assert!(!server.is_running);
}

#[test]
fn server_tracks_connections_and_traffic() {
    let mut server = NetworkServer::new(&ClusterConfig::default());
    server.start();
    let a = server.accept_connection("10.0.0.2:4000".to_string(), 5);
    let b = server.accept_connection("10.0.0.3:4000".to_string(), 6);
    assert_eq!(server.get_status().active_connections, 2);
    server.record_received(a, 100, 9);
    let conn = server.connections.iter().find(|c| c.connection_id == a).unwrap();
    assert_eq!((conn.bytes_received, conn.message_count, conn.last_activity), (100, 1, 9));
    assert_eq!(server.metrics.messages_processed, 1);
    assert_eq!(server.metrics.bytes_transferred, 100);
    server.record_sent_on(b, 40, 11);
    let conn = server.connections.iter().find(|c| c.connection_id == b).unwrap();
    assert_eq!((conn.bytes_sent, conn.message_count), (40, 1));
    let targets = server.broadcast_targets();
    assert_eq!(targets.len(), 2);
    let nodes: Vec<u128> = targets.iter().map(|t| t.1).collect();
    let result = server.record_broadcast(nodes, &vec![true, false], 3);
    assert_eq!((result.successful_deliveries, result.failed_deliveries, result.delivery_time), (1, 1, 3));
    assert_eq!(server.metrics.messages_processed, 3);
    server.close_connection(a);
    assert_eq!(server.get_status().active_connections, 1);
    server.stop();
    assert!(!server.is_running);
    assert!(server.connections.is_empty());
}

#[test]
fn server_heartbeats_mark_members_active() {
    let mut cluster = Cluster::new(ClusterConfig::default());
    let mut node = node_with(7, 1, 1);
    node.status = NodeStatus::Unavailable;
    cluster.add_node(node);
    let mut server = NetworkServer::new(&ClusterConfig::default());
    let beat = create_heartbeat(1, Some(7));
    server.enqueue(NetworkMessage {
        message: beat,
        delivery_status: DeliveryStatus::Pending,
        retry_count: 0,
        max_retries: 3,
        created_at: 0,
        next_retry: None,
    });
    server.process_queued(&mut cluster, 77);
    assert!(server.message_queue.is_empty());
    assert_eq!(server.metrics.messages_processed, 1);
    assert_eq!(cluster.status_of(7), Some(NodeStatus::Active));
    assert_eq!(cluster.nodes[0].last_seen, 77);
}

#[test]
fn test_basic_job_submission() {
    let mut framework = DistributedFramework::new(ClusterConfig::default()).ok().unwrap();
    let example = BasicParallelExample;
    let job = example.generate_job("test");
    let mut handle = framework.submit_job(&job);
    assert_eq!(handle.id(), job.id());
    assert_eq!(handle.tasks.len(), job.task_count());
    assert!(handle.is_completed());
    assert!(matches!(handle.result(), Ok(JobResult::Success(ref v)) if v.is_empty()));
}

#[test]
fn framework_runs_builtin_examples_by_name() {
    let mut framework = DistributedFramework::new(ClusterConfig::default()).ok().unwrap();
    let r = framework.run_example("Word Count with MapReduce", "cfg");
    assert!(matches!(r, Ok(JobResult::Success(ref v)) if v.is_empty()));
    assert_eq!(framework.scheduler.queued_count(), 0);
    match framework.run_example("No Such Example", "cfg") {
        Err(DistributedError::Configuration(m)) => assert_eq!(m, "Example 'No Such Example' not found"),
        _ => panic!("unknown example accepted"),
    }
}

#[test]
fn records_are_lines_keyed_by_position() {
    let pieces = split_bytes(b"x\n\ny", b'\n');
    assert_eq!(pieces, vec![b"x".to_vec(), vec![], b"y".to_vec()]);
    let records = map_records_of(b"one\ntwo");
    assert_eq!(records, vec![(b"line_0".to_vec(), b"one".to_vec()), (b"line_1".to_vec(), b"two".to_vec())]);
}

#[test]
fn engine_runs_word_count_end_to_end() {
    let mut engine = MapReduceEngine::new();
    let job = word_count_job("a b a\nb");
    let id = job.id();
    let mut handle = engine.submit_job(job).ok().unwrap();
    assert_eq!(handle.id(), id);
    assert!(handle.is_completed());
    match engine.get_job_status(id) {
        Some(JobResult::Success(out)) => assert_eq!(out.as_slice(), b"[\"b: 2\", \"a: 2\"]"),
        _ => panic!("expected a success"),
    }
    let stats = engine.get_statistics();
    assert_eq!((stats.total_jobs_submitted, stats.total_map_tasks, stats.total_reduce_tasks), (1, 4, 2));
    assert_eq!((stats.total_jobs_completed, stats.total_processed_data_bytes), (1, 7));
    match handle.result() {
        Ok(JobResult::Success(v)) => assert!(v.is_empty()),
        _ => panic!("expected the empty success the channel holds"),
    }
    assert!(handle.result().is_err());
}

#[test]
fn job_examples_run_through_the_framework() {
    let mut framework = DistributedFramework::new(ClusterConfig::default()).ok().unwrap();
    let basic = BasicParallelExample.run(&mut framework, "cfg").ok().unwrap();
    assert_eq!(basic.example_name, "Basic Parallel Computation");
    assert!(basic.success);
    assert!(basic.output.is_empty());
    assert_eq!(basic.metrics.total_tasks, 1);
    assert_eq!(basic.learning_outcomes.len(), 2);
    let words = WordCountExample.run(&mut framework, "cfg").ok().unwrap();
    assert_eq!(words.metrics.successful_tasks, 4);
    assert_eq!(words.learning_outcomes[2], "Implementing word counting algorithm");
    let matrix = MatrixMultiplicationExample.run(&mut framework, "cfg").ok().unwrap();
    assert_eq!(matrix.metrics.total_tasks, 8);
    let faults = FaultToleranceExample.run(&mut framework, "cfg").ok().unwrap();
    assert_eq!(faults.metrics.total_tasks, 6);
    assert_eq!(faults.metrics.fault_count, 0);
    assert!(faults.nodes_used.is_empty());
    assert_eq!(framework.scheduler.queued_count(), 0);
}

#[test]
fn mpi_example_outputs_its_greeting() {
    let framework = DistributedFramework::new(ClusterConfig::default()).ok().unwrap();
    let r = MPICommunicationExample.run(&framework, "cfg").ok().unwrap();
    assert_eq!(r.example_name, "MPI Communication Patterns");
    assert_eq!(r.output, b"Hello, MPI World!".to_vec());
    assert_eq!(r.metrics.network_traffic_mb, 0);
    assert_eq!(r.learning_outcomes[0], "Understanding MPI communication patterns");
}

#[test]
fn shared_memory_example_reports_the_counter() {
    let framework = DistributedFramework::new(ClusterConfig::default()).ok().unwrap();
    let res = SharedMemoryExample.run(&framework, "cfg").ok().unwrap();
    assert_eq!(res.output, b"Counter value: 42".to_vec());
    assert_eq!(res.metrics.memory_usage_mb, 1);
    assert_eq!(res.learning_outcomes.len(), 3);
}

#[test]
fn checkpoints_beyond_the_limit_drop_the_oldest() {
    let mut manager = CheckpointManager::new(2, 60_000);
    let first = manager.create_checkpoint(1, vec![], 300);
    let second = manager.create_checkpoint(1, vec![], 100);
    let third = manager.create_checkpoint(1, vec![], 200);
    let ids: Vec<u128> = manager.list_checkpoints().iter().map(|c| c.0).collect();
    assert_eq!(ids.len(), 2);
    assert!(ids.contains(&first));
    assert!(!ids.contains(&second));
    assert!(ids.contains(&third));
    let mut single = CheckpointManager::new(1, 60_000);
    single.create_checkpoint(1, vec![], 5);
    let newest = single.create_checkpoint(1, vec![], 1);
    let ids: Vec<u128> = single.list_checkpoints().iter().map(|c| c.0).collect();
    assert_eq!(ids, vec![newest]);
}

#[test]
fn reductions_ignore_the_order_of_values() {
    let mut forward = Vec::new();
    let mut backward = Vec::new();
    for v in [3i32, -7, 12, 5] {
        forward.extend_from_slice(&v.to_le_bytes());
    }
    for v in [5i32, 12, -7, 3] {
        backward.extend_from_slice(&v.to_le_bytes());
    }
    for op in [ReductionOp::Sum, ReductionOp::Product, ReductionOp::Max, ReductionOp::Min] {
        assert_eq!(perform_reduction(&forward, &op).ok(), perform_reduction(&backward, &op).ok());
    }
    assert_eq!(perform_reduction(&forward, &ReductionOp::Sum).ok(), Some(13i32.to_le_bytes().to_vec()));
}

#[test]
fn generated_map_tasks_cover_the_input() {
    let mut job = Job::new("cover").input_data(b"abcdefghijklmnopqrstuvwxyz".to_vec());
    job.generate_tasks().unwrap();
    let maps = job.config().map_tasks;
    let joined: Vec<u8> = job.tasks()[..maps].iter().flat_map(|t| t.input_partition.clone()).collect();
    assert_eq!(joined, b"abcdefghijklmnopqrstuvwxyz".to_vec());
}

#[test]
fn little_endian_bytes_read_back_as_their_value() {
    for v in [0u64, 42, 0x0102_0304_0506_0708, u64::MAX] {
        assert_eq!(system_features::bytes::u64_from_le(&v.to_le_bytes().to_vec()), v);
    }
}

#[test]
fn checkpoint_identifiers_are_never_nil() {
    let mut manager = CheckpointManager::new(5, 60_000);
    let id = manager.create_checkpoint(1, vec![2, 3], 10);
    assert_ne!(id, 0);
    assert_eq!((id >> 76) & 0xf, 4);
    assert_eq!(manager.list_checkpoints().len(), 1);
}
