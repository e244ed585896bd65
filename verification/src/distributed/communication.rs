//! Messages between nodes, and the bookkeeping of the connections that carry
//! them: which connection a message goes out on, when it waits in the queue,
//! and what each transfer adds to the counters. Reading and writing sockets
//! is left to the caller, which reports back what happened.
use vstd::prelude::*;
use crate::ids::{fresh_id, now_millis};
use crate::text::{push_text, string_of};
use crate::keyed::{Keyed, find_key, key_map, remove_key, unique_keys, upsert};
use crate::distributed::cluster::{Cluster, ClusterConfig, NodeStatus};

verus! {

/// Protocol versions.
#[derive(Clone, Copy, PartialEq, Eq, Debug, Structural)]
pub enum ProtocolVersion {
    V1,
    V2,
}

/// The version number of a protocol version.
pub open spec fn protocol_number(v: ProtocolVersion) -> nat {
    match v {
        ProtocolVersion::V1 => 1,
        ProtocolVersion::V2 => 2,
    }
}

impl ProtocolVersion {
    /// The version number.
    pub fn number(&self) -> (n: u8)
        ensures
            n == protocol_number(*self),
    {
        match self {
            ProtocolVersion::V1 => 1,
            ProtocolVersion::V2 => 2,
        }
    }
}

/// The protocol version this library speaks.
pub const PROTOCOL_VERSION: ProtocolVersion = ProtocolVersion::V1;

/// Kinds of messages.
#[derive(Clone, PartialEq, Eq, Debug)]
pub enum MessageType {
    Heartbeat,
    TaskAssignment,
    TaskResult,
    Control,
    Data,
    Discovery,
    Auth,
    Error,
    Ack,
    Sync,
    Custom(String),
}

/// The display name of a message kind.
pub open spec fn message_type_text(t: MessageType) -> Seq<char> {
    match t {
        MessageType::Heartbeat => "Heartbeat"@,
        MessageType::TaskAssignment => "TaskAssignment"@,
        MessageType::TaskResult => "TaskResult"@,
        MessageType::Control => "Control"@,
        MessageType::Data => "Data"@,
        MessageType::Discovery => "Discovery"@,
        MessageType::Auth => "Auth"@,
        MessageType::Error => "Error"@,
        MessageType::Ack => "Ack"@,
        MessageType::Sync => "Sync"@,
        MessageType::Custom(c) => "Custom("@ + c@ + ")"@,
    }
}

impl MessageType {
    /// The display name of this message kind.
    pub fn to_string(&self) -> (s: String)
        ensures
            s@ == message_type_text(*self),
    {
        match self {
            MessageType::Heartbeat => string_of("Heartbeat"),
            MessageType::TaskAssignment => string_of("TaskAssignment"),
            MessageType::TaskResult => string_of("TaskResult"),
            MessageType::Control => string_of("Control"),
            MessageType::Data => string_of("Data"),
            MessageType::Discovery => string_of("Discovery"),
            MessageType::Auth => string_of("Auth"),
            MessageType::Error => string_of("Error"),
            MessageType::Ack => string_of("Ack"),
            MessageType::Sync => string_of("Sync"),
            MessageType::Custom(c) => {
                let mut s = string_of("Custom(");
                push_text(&mut s, c.as_str());
                push_text(&mut s, ")");
                s
            },
        }
    }
}

/// Message priorities, least urgent first.
#[derive(Clone, Copy, PartialEq, Eq, PartialOrd, Ord, Debug, Structural)]
pub enum MessagePriority {
    Low,
    Normal,
    High,
    Critical,
}

/// The urgency of a priority, 0 for `Low` up to 3 for `Critical`.
pub open spec fn message_priority_level(p: MessagePriority) -> nat {
    match p {
        MessagePriority::Low => 0,
        MessagePriority::Normal => 1,
        MessagePriority::High => 2,
        MessagePriority::Critical => 3,
    }
}

/// The display name of a priority.
pub open spec fn message_priority_text(p: MessagePriority) -> Seq<char> {
    match p {
        MessagePriority::Low => "Low"@,
        MessagePriority::Normal => "Normal"@,
        MessagePriority::High => "High"@,
        MessagePriority::Critical => "Critical"@,
    }
}

impl MessagePriority {
    /// The urgency of this priority.
    pub fn level(&self) -> (n: u8)
        ensures
            n == message_priority_level(*self),
    {
        match self {
            MessagePriority::Low => 0,
            MessagePriority::Normal => 1,
            MessagePriority::High => 2,
            MessagePriority::Critical => 3,
        }
    }

    /// The display name of this priority.
    pub fn to_string(&self) -> (s: String)
        ensures
            s@ == message_priority_text(*self),
    {
        match self {
            MessagePriority::Low => string_of("Low"),
            MessagePriority::Normal => string_of("Normal"),
            MessagePriority::High => string_of("High"),
            MessagePriority::Critical => string_of("Critical"),
        }
    }
}

/// States of a connection.
#[derive(Clone, Copy, PartialEq, Eq, Debug, Structural)]
pub enum ConnectionState {
    Disconnected,
    Connecting,
    Connected,
    Authenticating,
    Active,
    Closing,
    Failed,
}

/// The display name of a connection state.
pub open spec fn connection_state_text(s: ConnectionState) -> Seq<char> {
    match s {
        ConnectionState::Disconnected => "Disconnected"@,
        ConnectionState::Connecting => "Connecting"@,
        ConnectionState::Connected => "Connected"@,
        ConnectionState::Authenticating => "Authenticating"@,
        ConnectionState::Active => "Active"@,
        ConnectionState::Closing => "Closing"@,
        ConnectionState::Failed => "Failed"@,
    }
}

/// Whether messages can be sent on a connection in this state.
pub open spec fn usable_state(s: ConnectionState) -> bool {
    s == ConnectionState::Connected || s == ConnectionState::Active
}

impl ConnectionState {
    /// The display name of this state.
    pub fn to_string(&self) -> (s: String)
        ensures
            s@ == connection_state_text(*self),
    {
        match self {
            ConnectionState::Disconnected => string_of("Disconnected"),
            ConnectionState::Connecting => string_of("Connecting"),
            ConnectionState::Connected => string_of("Connected"),
            ConnectionState::Authenticating => string_of("Authenticating"),
            ConnectionState::Active => string_of("Active"),
            ConnectionState::Closing => string_of("Closing"),
            ConnectionState::Failed => string_of("Failed"),
        }
    }

    /// Whether messages can be sent in this state.
    pub fn is_usable(&self) -> (b: bool)
        ensures
            b == usable_state(*self),
    {
        match self {
            ConnectionState::Connected | ConnectionState::Active => true,
            _ => false,
        }
    }
}

/// Delivery states of a message.
#[derive(Clone, Copy, PartialEq, Eq, Debug, Structural)]
pub enum DeliveryStatus {
    Pending,
    InTransit,
    Delivered,
    Failed,
    TimedOut,
}

/// A message between nodes. Identifiers are 128-bit values, the timestamp is
/// in milliseconds since the Unix epoch, and the metadata is a list of
/// key/value pairs.
#[derive(Clone, Debug)]
pub struct Message {
    pub message_id: u128,
    pub message_type: MessageType,
    pub source_node: u128,
    pub target_node: Option<u128>,
    pub timestamp: u64,
    pub ttl: u8,
    pub payload: Vec<u8>,
    pub metadata: Vec<(String, String)>,
    pub priority: MessagePriority,
    pub protocol_version: ProtocolVersion,
}

/// What the message builders share: one hop, no metadata, this protocol.
pub open spec fn built_message(
    m: Message,
    kind: MessageType,
    source: u128,
    target: Option<u128>,
    payload: Seq<u8>,
    priority: MessagePriority,
) -> bool {
    &&& m.message_type == kind
    &&& m.source_node == source
    &&& m.target_node == target
    &&& m.ttl == 1
    &&& m.payload@ == payload
    &&& m.metadata@.len() == 0
    &&& m.priority == priority
    &&& m.protocol_version == PROTOCOL_VERSION
}

fn build_message(
    kind: MessageType,
    source: u128,
    target: Option<u128>,
    payload: Vec<u8>,
    priority: MessagePriority,
) -> (m: Message)
    ensures
        built_message(m, kind, source, target, payload@, priority),
{
    Message {
        message_id: fresh_id(),
        message_type: kind,
        source_node: source,
        target_node: target,
        timestamp: now_millis(),
        ttl: 1,
        payload,
        metadata: Vec::new(),
        priority,
        protocol_version: PROTOCOL_VERSION,
    }
}

/// A heartbeat from `source_node`, with a fresh identifier and the current
/// time: no payload, normal priority.
pub fn create_heartbeat(source_node: u128, target_node: Option<u128>) -> (m: Message)
    ensures
        built_message(m, MessageType::Heartbeat, source_node, target_node, Seq::empty(), MessagePriority::Normal),
{
    build_message(MessageType::Heartbeat, source_node, target_node, Vec::new(), MessagePriority::Normal)
}

/// A task assignment carrying `task_data`, at high priority.
pub fn create_task_assignment(source_node: u128, target_node: u128, task_data: Vec<u8>) -> (m: Message)
    ensures
        built_message(m, MessageType::TaskAssignment, source_node, Some(target_node), task_data@, MessagePriority::High),
{
    build_message(MessageType::TaskAssignment, source_node, Some(target_node), task_data, MessagePriority::High)
}

/// A task result carrying `result_data`, at high priority.
pub fn create_task_result(source_node: u128, target_node: u128, result_data: Vec<u8>) -> (m: Message)
    ensures
        built_message(m, MessageType::TaskResult, source_node, Some(target_node), result_data@, MessagePriority::High),
{
    build_message(MessageType::TaskResult, source_node, Some(target_node), result_data, MessagePriority::High)
}

/// A control message carrying `control_data`, at normal priority.
pub fn create_control_message(source_node: u128, target_node: Option<u128>, control_data: Vec<u8>) -> (m: Message)
    ensures
        built_message(m, MessageType::Control, source_node, target_node, control_data@, MessagePriority::Normal),
{
    build_message(MessageType::Control, source_node, target_node, control_data, MessagePriority::Normal)
}

/// A connection to another node. Addresses are `host:port` texts, times are
/// in milliseconds since the Unix epoch.
#[derive(Clone, Debug)]
pub struct NetworkConnection {
    pub connection_id: u128,
    pub remote_node: u128,
    pub local_address: String,
    pub remote_address: String,
    pub state: ConnectionState,
    pub created_at: u64,
    pub last_activity: u64,
    pub message_count: u64,
    pub bytes_sent: u64,
    pub bytes_received: u64,
    pub protocol_version: ProtocolVersion,
}

/// A message with its delivery bookkeeping.
#[derive(Clone, Debug)]
pub struct NetworkMessage {
    pub message: Message,
    pub delivery_status: DeliveryStatus,
    pub retry_count: u32,
    pub max_retries: u32,
    pub created_at: u64,
    pub next_retry: Option<u64>,
}

/// Counters of a client.
#[derive(Clone, Copy, Debug)]
pub struct ClientMetrics {
    pub messages_sent: u64,
    pub messages_received: u64,
    pub bytes_sent: u64,
    pub bytes_received: u64,
    pub connection_attempts: u64,
    pub successful_connections: u64,
    pub failed_connections: u64,
}

impl ClientMetrics {
    /// All counters at zero.
    pub fn new() -> (m: Self)
        ensures
            m == (ClientMetrics {
                messages_sent: 0,
                messages_received: 0,
                bytes_sent: 0,
                bytes_received: 0,
                connection_attempts: 0,
                successful_connections: 0,
                failed_connections: 0,
            }),
    {
        ClientMetrics {
            messages_sent: 0,
            messages_received: 0,
            bytes_sent: 0,
            bytes_received: 0,
            connection_attempts: 0,
            successful_connections: 0,
            failed_connections: 0,
        }
    }
}

/// The position of the connection to `node` among `conns`, if any.
pub open spec fn connection_index(conns: Seq<NetworkConnection>, node: u128) -> Option<int> {
    if exists|i: int| 0 <= i < conns.len() && (#[trigger] conns[i]).remote_node == node {
        Some(choose|i: int| 0 <= i < conns.len() && (#[trigger] conns[i]).remote_node == node)
    } else {
        None
    }
}

/// At most one connection per remote node.
pub open spec fn one_per_node(conns: Seq<NetworkConnection>) -> bool {
    forall|i: int, j: int|
        0 <= i < j < conns.len() ==> (#[trigger] conns[i]).remote_node != (#[trigger] conns[j]).remote_node
}

/// What becomes of a message handed to the client.
pub enum Dispatch {
    /// Write the message on this connection, then report the outcome.
    Transmit { connection_id: u128, message: Message },
    /// A connection to the node exists but cannot carry messages.
    Refused,
    /// No connection to the node: the message waits in the queue.
    Queued,
}

/// The outbound side: one connection per remote node, and the messages
/// waiting for a connection. Timeouts are in milliseconds.
pub struct NetworkClient {
    pub client_id: u128,
    pub connections: Vec<NetworkConnection>,
    pub message_queue: Vec<NetworkMessage>,
    pub metrics: ClientMetrics,
    pub max_connections: usize,
    pub connection_timeout: u64,
    pub message_timeout: u64,
}

impl NetworkClient {
    /// The connections, one per remote node.
    pub open spec fn connections_view(&self) -> Seq<NetworkConnection> {
        self.connections@
    }

    /// The messages waiting for a connection, oldest first.
    pub open spec fn queue_view(&self) -> Seq<NetworkMessage> {
        self.message_queue@
    }

    /// The counters.
    pub open spec fn metrics_view(&self) -> ClientMetrics {
        self.metrics
    }

    /// The client's invariant.
    pub open spec fn wf(&self) -> bool {
        one_per_node(self.connections_view())
    }

    /// A client with no connections, an empty queue and zero counters,
    /// waiting 30 s for a connection and 60 s for a message.
    pub fn new(max_connections: usize) -> (c: Self)
        ensures
            c.wf(),
            c.connections_view().len() == 0,
            c.queue_view().len() == 0,
            c.metrics_view() == ClientMetrics::new_spec(),
            c.max_connections == max_connections,
            c.connection_timeout == 30_000,
            c.message_timeout == 60_000,
    {
        NetworkClient {
            client_id: fresh_id(),
            connections: Vec::new(),
            message_queue: Vec::new(),
            metrics: ClientMetrics::new(),
            max_connections,
            connection_timeout: 30_000,
            message_timeout: 60_000,
        }
    }

    fn find(&self, node: u128) -> (r: Option<usize>)
        requires
            self.wf(),
        ensures
            r matches Some(i) ==> connection_index(self.connections@, node) == Some(i as int) && i
                < self.connections@.len(),
            r is None <==> connection_index(self.connections@, node) is None,
    {
        let mut i: usize = 0;
        while i < self.connections.len()
            invariant
                self.wf(),
                i <= self.connections@.len(),
                forall|j: int| 0 <= j < i ==> (#[trigger] self.connections@[j]).remote_node != node,
            decreases self.connections@.len() - i,
        {
            if self.connections[i].remote_node == node {
                proof {
                    let k = choose|k: int| 0 <= k < self.connections@.len() && (#[trigger] self.connections@[k]).remote_node == node;
                    assert(self.connections@[i as int].remote_node == node);
                    if k != i as int {
                        assert(self.connections@[k].remote_node == self.connections@[i as int].remote_node);
                    }
                }
                return Some(i);
            }
            i = i + 1;
        }
        None
    }

    /// Whether the client holds a connection to `node` that can carry
    /// messages.
    pub fn is_connected_to(&self, node: u128) -> (b: bool)
        requires
            self.wf(),
        ensures
            b == (connection_index(self.connections_view(), node) matches Some(i) && usable_state(
                self.connections_view()[i].state,
            )),
    {
        match self.find(node) {
            Some(i) => self.connections[i].state.is_usable(),
            None => false,
        }
    }

    /// The identifier of the usable connection to `node`, if there is one:
    /// connecting to a node already connected reuses that connection.
    pub fn reusable_connection(&self, node: u128) -> (r: Option<u128>)
        requires
            self.wf(),
        ensures
            r == (match connection_index(self.connections_view(), node) {
                Some(i) => if usable_state(self.connections_view()[i].state) {
                    Some(self.connections_view()[i].connection_id)
                } else {
                    None
                },
                None => None,
            }),
    {
        match self.find(node) {
            Some(i) => if self.connections[i].state.is_usable() {
                Some(self.connections[i].connection_id)
            } else {
                None
            },
            None => None,
        }
    }

    /// Records an established connection: it replaces any earlier connection
    /// to the same node, and counts one attempt and one success.
    pub fn register_connection(&mut self, conn: NetworkConnection)
        requires
            old(self).wf(),
            old(self).metrics_view().connection_attempts < u64::MAX,
            old(self).metrics_view().successful_connections < u64::MAX,
        ensures
            final(self).wf(),
            connection_index(final(self).connections_view(), conn.remote_node) matches Some(i)
                && final(self).connections_view()[i] == conn,
            forall|n: u128|
                n != conn.remote_node ==> connection_index(final(self).connections_view(), n) is Some
                    == connection_index(old(self).connections_view(), n) is Some,
            final(self).metrics_view() == (ClientMetrics {
                connection_attempts: (old(self).metrics_view().connection_attempts + 1) as u64,
                successful_connections: (old(self).metrics_view().successful_connections + 1) as u64,
                ..old(self).metrics_view()
            }),
            final(self).queue_view() == old(self).queue_view(),
    {
        let node = conn.remote_node;
        match self.find(node) {
            Some(i) => {
                let ghost before = self.connections@;
                self.connections.set(i, conn);
                proof {
                    assert(self.connections@[i as int].remote_node == node);
                    assert forall|j: int| 0 <= j < self.connections@.len() && j != i implies #[trigger] self.connections@[j]
                        == before[j] by {}
                    assert(connection_index(self.connections@, node) == Some(i as int)) by {
                        let k = choose|k: int| 0 <= k < self.connections@.len() && (#[trigger] self.connections@[k]).remote_node == node;
                        if k != i as int {
                            assert(before[k].remote_node == node);
                            assert(before[i as int].remote_node == node);
                        }
                    }
                    assert forall|n: u128| n != node implies connection_index(self.connections@, n) is Some
                        == connection_index(before, n) is Some by {
                        if connection_index(before, n) is Some {
                            let k = choose|k: int| 0 <= k < before.len() && (#[trigger] before[k]).remote_node == n;
                            assert(k != i);
                            assert(self.connections@[k].remote_node == n);
                        }
                        if connection_index(self.connections@, n) is Some {
                            let k = choose|k: int| 0 <= k < self.connections@.len() && (#[trigger] self.connections@[k]).remote_node == n;
                            assert(k != i);
                            assert(before[k].remote_node == n);
                        }
                    }
                }
            },
            None => {
                let ghost before = self.connections@;
                self.connections.push(conn);
                proof {
                    let last = before.len() as int;
                    assert(self.connections@[last].remote_node == node);
                    assert forall|j: int| 0 <= j < before.len() implies #[trigger] self.connections@[j] == before[j] by {}
                    assert(forall|j: int| 0 <= j < before.len() ==> (#[trigger] before[j]).remote_node != node);
                    assert(connection_index(self.connections@, node) == Some(last)) by {
                        let k = choose|k: int| 0 <= k < self.connections@.len() && (#[trigger] self.connections@[k]).remote_node == node;
                        if k != last {
                            assert(before[k].remote_node == node);
                        }
                    }
                    assert forall|n: u128| n != node implies connection_index(self.connections@, n) is Some
                        == connection_index(before, n) is Some by {
                        if connection_index(before, n) is Some {
                            let k = choose|k: int| 0 <= k < before.len() && (#[trigger] before[k]).remote_node == n;
                            assert(self.connections@[k].remote_node == n);
                        }
                        if connection_index(self.connections@, n) is Some {
                            let k = choose|k: int| 0 <= k < self.connections@.len() && (#[trigger] self.connections@[k]).remote_node == n;
                            assert(k != last);
                            assert(before[k].remote_node == n);
                        }
                    }
                }
            },
        }
        self.metrics.connection_attempts = self.metrics.connection_attempts + 1;
        self.metrics.successful_connections = self.metrics.successful_connections + 1;
    }

    /// Drops the connection to `node`, if there is one.
    pub fn disconnect_from(&mut self, node: u128)
        requires
            old(self).wf(),
        ensures
            final(self).wf(),
            connection_index(final(self).connections_view(), node) is None,
            forall|n: u128|
                n != node ==> connection_index(final(self).connections_view(), n) is Some
                    == connection_index(old(self).connections_view(), n) is Some,
            final(self).queue_view() == old(self).queue_view(),
            final(self).metrics_view() == old(self).metrics_view(),
    {
        if let Some(i) = self.find(node) {
            let ghost before = self.connections@;
            self.connections.remove(i);
            proof {
                assert forall|j: int| 0 <= j < self.connections@.len() implies #[trigger] self.connections@[j] == (if j
                    < i {
                    before[j]
                } else {
                    before[j + 1]
                }) by {}
                assert forall|a: int, b: int| 0 <= a < b < self.connections@.len() implies (#[trigger] self.connections@[a]).remote_node
                    != (#[trigger] self.connections@[b]).remote_node by {
                    let a0 = if a < i { a } else { a + 1 };
                    let b0 = if b < i { b } else { b + 1 };
                    assert(before[a0].remote_node != before[b0].remote_node);
                }
                assert(before[i as int].remote_node == node);
                if connection_index(self.connections@, node) is Some {
                    let k = choose|k: int| 0 <= k < self.connections@.len() && (#[trigger] self.connections@[k]).remote_node == node;
                    let k0 = if k < i { k } else { k + 1 };
                    assert(before[k0].remote_node == node);
                }
                assert forall|n: u128| n != node implies connection_index(self.connections@, n) is Some
                    == connection_index(before, n) is Some by {
                    if connection_index(before, n) is Some {
                        let k = choose|k: int| 0 <= k < before.len() && (#[trigger] before[k]).remote_node == n;
                        assert(k != i);
                        let k1 = if k < i { k } else { k - 1 };
                        assert(self.connections@[k1].remote_node == n);
                    }
                    if connection_index(self.connections@, n) is Some {
                        let k = choose|k: int| 0 <= k < self.connections@.len() && (#[trigger] self.connections@[k]).remote_node == n;
                        let k0 = if k < i { k } else { k + 1 };
                        assert(before[k0].remote_node == n);
                    }
                }
            }
        }
    }

    /// Decides what to do with `message` for `target_node` at time `now`:
    /// send it on the usable connection to that node; refuse it when the
    /// connection to that node cannot carry messages; queue it, pending with
    /// three retries due now, when there is no connection to that node.
    pub fn dispatch(&mut self, message: Message, target_node: u128, now: u64) -> (d: Dispatch)
        requires
            old(self).wf(),
        ensures
            final(self).wf(),
            final(self).connections_view() == old(self).connections_view(),
            final(self).metrics_view() == old(self).metrics_view(),
            match connection_index(old(self).connections_view(), target_node) {
                Some(i) => {
                    &&& final(self).queue_view() == old(self).queue_view()
                    &&& if usable_state(old(self).connections_view()[i].state) {
                        d matches Dispatch::Transmit { connection_id, message: m } && connection_id
                            == old(self).connections_view()[i].connection_id && m == message
                    } else {
                        d is Refused
                    }
                },
                None => {
                    &&& d is Queued
                    &&& final(self).queue_view() == old(self).queue_view().push(
                        NetworkMessage {
                            message,
                            delivery_status: DeliveryStatus::Pending,
                            retry_count: 0,
                            max_retries: 3,
                            created_at: now,
                            next_retry: Some(now),
                        },
                    )
                },
            },
    {
        match self.find(target_node) {
            Some(i) => {
                if self.connections[i].state.is_usable() {
                    Dispatch::Transmit { connection_id: self.connections[i].connection_id, message }
                } else {
                    Dispatch::Refused
                }
            },
            None => {
                self.message_queue.push(
                    NetworkMessage {
                        message,
                        delivery_status: DeliveryStatus::Pending,
                        retry_count: 0,
                        max_retries: 3,
                        created_at: now,
                        next_retry: Some(now),
                    },
                );
                Dispatch::Queued
            },
        }
    }

    /// The delivery status of a dispatch decision: pending when queued,
    /// failed when refused, and for a transmission what the write reported.
    pub fn dispatch_status(d: &Dispatch, written: bool) -> (s: DeliveryStatus)
        ensures
            s == match d {
                Dispatch::Queued => DeliveryStatus::Pending,
                Dispatch::Refused => DeliveryStatus::Failed,
                Dispatch::Transmit { .. } => if written {
                    DeliveryStatus::Delivered
                } else {
                    DeliveryStatus::Failed
                },
            },
    {
        match d {
            Dispatch::Queued => DeliveryStatus::Pending,
            Dispatch::Refused => DeliveryStatus::Failed,
            Dispatch::Transmit { .. } => if written {
                DeliveryStatus::Delivered
            } else {
                DeliveryStatus::Failed
            },
        }
    }

    /// Records a completed write of `wire_len` bytes carrying a payload of
    /// `payload_len` bytes to `target_node` at time `now`: the connection
    /// counts the bytes and one more message and was active now, and the
    /// client counts one more message sent and the payload bytes.
    pub fn record_sent(&mut self, target_node: u128, payload_len: u64, wire_len: u64, now: u64)
        requires
            old(self).wf(),
            old(self).metrics_view().messages_sent < u64::MAX,
            old(self).metrics_view().bytes_sent + payload_len <= u64::MAX,
            connection_index(old(self).connections_view(), target_node) matches Some(i) ==> {
                &&& old(self).connections_view()[i].bytes_sent + wire_len <= u64::MAX
                &&& old(self).connections_view()[i].message_count < u64::MAX
            },
        ensures
            final(self).wf(),
            final(self).queue_view() == old(self).queue_view(),
            final(self).metrics_view() == (ClientMetrics {
                messages_sent: (old(self).metrics_view().messages_sent + 1) as u64,
                bytes_sent: (old(self).metrics_view().bytes_sent + payload_len) as u64,
                ..old(self).metrics_view()
            }),
            match connection_index(old(self).connections_view(), target_node) {
                Some(i) => final(self).connections_view() == old(self).connections_view().update(
                    i,
                    NetworkConnection {
                        bytes_sent: (old(self).connections_view()[i].bytes_sent + wire_len) as u64,
                        message_count: (old(self).connections_view()[i].message_count + 1) as u64,
                        last_activity: now,
                        ..old(self).connections_view()[i]
                    },
                ),
                None => final(self).connections_view() == old(self).connections_view(),
            },
    {
        if let Some(i) = self.find(target_node) {
            let ghost before = self.connections@;
            let mut c = self.connections.remove(i);
            c.bytes_sent = c.bytes_sent + wire_len;
            c.message_count = c.message_count + 1;
            c.last_activity = now;
            self.connections.insert(i, c);
            assert(self.connections@ =~= before.update(i as int, c));
            proof {
                assert forall|a: int, b: int| 0 <= a < b < self.connections@.len() implies (#[trigger] self.connections@[a]).remote_node
                    != (#[trigger] self.connections@[b]).remote_node by {
                    assert(before[a].remote_node != before[b].remote_node);
                }
            }
        }
        self.metrics.messages_sent = self.metrics.messages_sent + 1;
        self.metrics.bytes_sent = self.metrics.bytes_sent + payload_len;
    }

    /// The counters.
    pub fn get_metrics(&self) -> (m: ClientMetrics)
        ensures
            m == self.metrics_view(),
    {
        self.metrics
    }

    /// The number of messages waiting for a connection.
    pub fn queued_messages(&self) -> (n: usize)
        ensures
            n == self.queue_view().len(),
    {
        self.message_queue.len()
    }
}

impl ClientMetrics {
    /// All counters at zero.
    pub open spec fn new_spec() -> ClientMetrics {
        ClientMetrics {
            messages_sent: 0,
            messages_received: 0,
            bytes_sent: 0,
            bytes_received: 0,
            connection_attempts: 0,
            successful_connections: 0,
            failed_connections: 0,
        }
    }
}


// ---------------------------------------------------------------------------
// The server side
// ---------------------------------------------------------------------------

impl Keyed for NetworkConnection {
    open spec fn key_of(&self) -> u128 {
        self.connection_id
    }

    fn key(&self) -> (k: u128) {
        self.connection_id
    }
}

/// Counters of a server. Durations are in milliseconds; the bandwidth and
/// the error rate are the bit patterns of doubles, which this library keeps
/// and does not compute with.
#[derive(Clone, Copy, PartialEq, Eq, Debug, Structural)]
pub struct ServerMetrics {
    pub connections_accepted: u64,
    pub connections_active: u64,
    pub messages_processed: u64,
    pub bytes_transferred: u64,
    pub average_connection_duration: u64,
    pub peak_connections: usize,
    pub bandwidth_mbps: u64,
    pub error_rate: u64,
    pub uptime: u64,
}

impl ServerMetrics {
    /// All counters at zero.
    pub open spec fn zero() -> ServerMetrics {
        ServerMetrics {
            connections_accepted: 0,
            connections_active: 0,
            messages_processed: 0,
            bytes_transferred: 0,
            average_connection_duration: 0,
            peak_connections: 0,
            bandwidth_mbps: 0,
            error_rate: 0,
            uptime: 0,
        }
    }
}

/// What a server reports of itself. The latency is in milliseconds; the
/// bandwidth and error rate are bit patterns of doubles.
#[derive(Clone, Debug)]
pub struct ServerStatus {
    pub is_running: bool,
    pub server_address: Option<String>,
    pub active_connections: usize,
    pub total_connections: u64,
    pub messages_processed: u64,
    pub average_latency: u64,
    pub bandwidth_utilization: u64,
    pub error_rate: u64,
}

/// The outcome of sending one message to every connection. The delivery
/// time is in milliseconds.
#[derive(Clone, Debug)]
pub struct BroadcastResult {
    pub successful_deliveries: usize,
    pub failed_deliveries: usize,
    pub delivery_time: u64,
    pub nodes_attempted: Vec<u128>,
}

/// The inbound side: the connections accepted, by connection identifier,
/// the messages waiting to be processed, and the counters. Listening,
/// reading and writing are done by the caller, which reports here what it
/// did.
pub struct NetworkServer {
    pub server_id: u128,
    pub server_address: String,
    pub is_running: bool,
    pub connections: Vec<NetworkConnection>,
    pub message_queue: Vec<NetworkMessage>,
    pub metrics: ServerMetrics,
}

/// The number of items of `outcomes` that are `true`.
pub open spec fn count_true(outcomes: Seq<bool>) -> nat
    decreases outcomes.len(),
{
    if outcomes.len() == 0 {
        0
    } else {
        count_true(outcomes.drop_last()) + if outcomes.last() {
            1nat
        } else {
            0nat
        }
    }
}

proof fn lemma_count_true_bound(outcomes: Seq<bool>)
    ensures
        count_true(outcomes) <= outcomes.len(),
    decreases outcomes.len(),
{
    if outcomes.len() > 0 {
        lemma_count_true_bound(outcomes.drop_last());
    }
}

/// The members after heartbeats `msgs`, processed in order at time `now`:
/// each heartbeat that names a member marks it active and seen now.
pub open spec fn members_after(
    members: Map<u128, crate::distributed::cluster::Node>,
    msgs: Seq<NetworkMessage>,
    now: u64,
) -> Map<u128, crate::distributed::cluster::Node>
    decreases msgs.len(),
{
    if msgs.len() == 0 {
        members
    } else {
        let prev = members_after(members, msgs.drop_last(), now);
        let m = msgs.last().message;
        if m.message_type is Heartbeat && m.target_node is Some && prev.contains_key(m.target_node->0) {
            let t = m.target_node->0;
            prev.insert(t, crate::distributed::cluster::Node { status: NodeStatus::Active, last_seen: now, ..prev[t] })
        } else {
            prev
        }
    }
}

impl NetworkServer {
    /// The connections, by connection identifier.
    pub open spec fn connections_map(&self) -> Map<u128, NetworkConnection> {
        key_map(self.connections@)
    }

    /// The server's invariant: one record per connection.
    pub open spec fn wf(&self) -> bool {
        unique_keys(self.connections@)
    }

    /// A stopped server for the cluster configured by `config`, to listen
    /// on its bind address, with no connections, nothing queued and zero
    /// counters.
    pub fn new(config: &ClusterConfig) -> (s: Self)
        ensures
            s.wf(),
            s.server_address@ == config.bind_address@,
            !s.is_running,
            s.connections@.len() == 0,
            s.message_queue@.len() == 0,
            s.metrics == ServerMetrics::zero(),
    {
        NetworkServer {
            server_id: fresh_id(),
            server_address: string_of(config.bind_address.as_str()),
            is_running: false,
            connections: Vec::new(),
            message_queue: Vec::new(),
            metrics: ServerMetrics {
                connections_accepted: 0,
                connections_active: 0,
                messages_processed: 0,
                bytes_transferred: 0,
                average_connection_duration: 0,
                peak_connections: 0,
                bandwidth_mbps: 0,
                error_rate: 0,
                uptime: 0,
            },
        }
    }

    /// Marks the server running, once its listener is bound.
    pub fn start(&mut self)
        ensures
            final(self).is_running,
            final(self).connections == old(self).connections,
            final(self).message_queue == old(self).message_queue,
            final(self).metrics == old(self).metrics,
    {
        self.is_running = true;
    }

    /// Stops the server: it no longer runs and every connection is closed
    /// and dropped.
    pub fn stop(&mut self)
        ensures
            final(self).wf(),
            !final(self).is_running,
            final(self).connections@.len() == 0,
            final(self).message_queue == old(self).message_queue,
            final(self).metrics == old(self).metrics,
    {
        self.is_running = false;
        self.connections = Vec::new();
    }

    /// Records a connection accepted at time `now` from `remote_address`:
    /// connected, on this server's address, with fresh connection and node
    /// identifiers (the node is learnt later) and nothing exchanged yet. Its
    /// identifier is returned.
    pub fn accept_connection(&mut self, remote_address: String, now: u64) -> (id: u128)
        requires
            old(self).wf(),
        ensures
            final(self).wf(),
            final(self).connections_map().contains_key(id),
            final(self).connections_map() == old(self).connections_map().insert(id, final(self).connections_map()[id]),
            ({
                let c = final(self).connections_map()[id];
                &&& c.connection_id == id
                &&& c.local_address@ == old(self).server_address@
                &&& c.remote_address@ == remote_address@
                &&& c.state == ConnectionState::Connected
                &&& c.created_at == now
                &&& c.last_activity == now
                &&& c.message_count == 0
                &&& c.bytes_sent == 0
                &&& c.bytes_received == 0
                &&& c.protocol_version == PROTOCOL_VERSION
            }),
            final(self).is_running == old(self).is_running,
            final(self).message_queue == old(self).message_queue,
            final(self).metrics == old(self).metrics,
    {
        let id = fresh_id();
        let conn = NetworkConnection {
            connection_id: id,
            remote_node: fresh_id(),
            local_address: string_of(self.server_address.as_str()),
            remote_address,
            state: ConnectionState::Connected,
            created_at: now,
            last_activity: now,
            message_count: 0,
            bytes_sent: 0,
            bytes_received: 0,
            protocol_version: PROTOCOL_VERSION,
        };
        upsert(&mut self.connections, conn);
        id
    }

    /// Records `n` bytes read from connection `connection_id` at time
    /// `now`: one more message processed and `n` more bytes transferred,
    /// and, when the connection is still recorded, its activity time, bytes
    /// received and message count.
    pub fn record_received(&mut self, connection_id: u128, n: u64, now: u64)
        requires
            old(self).wf(),
            old(self).metrics.messages_processed < u64::MAX,
            old(self).metrics.bytes_transferred + n <= u64::MAX,
            old(self).connections_map().contains_key(connection_id) ==> {
                &&& old(self).connections_map()[connection_id].bytes_received + n <= u64::MAX
                &&& old(self).connections_map()[connection_id].message_count < u64::MAX
            },
        ensures
            final(self).wf(),
            final(self).metrics == (ServerMetrics {
                messages_processed: (old(self).metrics.messages_processed + 1) as u64,
                bytes_transferred: (old(self).metrics.bytes_transferred + n) as u64,
                ..old(self).metrics
            }),
            old(self).connections_map().contains_key(connection_id) ==> final(self).connections_map()
                == old(self).connections_map().insert(
                connection_id,
                NetworkConnection {
                    last_activity: now,
                    bytes_received: (old(self).connections_map()[connection_id].bytes_received + n) as u64,
                    message_count: (old(self).connections_map()[connection_id].message_count + 1) as u64,
                    ..old(self).connections_map()[connection_id]
                },
            ),
            !old(self).connections_map().contains_key(connection_id) ==> final(self).connections_map()
                == old(self).connections_map(),
            final(self).is_running == old(self).is_running,
            final(self).message_queue == old(self).message_queue,
    {
        self.metrics.messages_processed = self.metrics.messages_processed + 1;
        self.metrics.bytes_transferred = self.metrics.bytes_transferred + n;
        if let Some(mut c) = remove_key(&mut self.connections, connection_id) {
            c.last_activity = now;
            c.bytes_received = c.bytes_received + n;
            c.message_count = c.message_count + 1;
            upsert(&mut self.connections, c);
            assert(self.connections_map() =~= old(self).connections_map().insert(connection_id, c));
        }
    }

    /// Records `wire_len` bytes written to connection `connection_id` at
    /// time `now`, when it is recorded.
    pub fn record_sent_on(&mut self, connection_id: u128, wire_len: u64, now: u64)
        requires
            old(self).wf(),
            old(self).connections_map().contains_key(connection_id) ==> {
                &&& old(self).connections_map()[connection_id].bytes_sent + wire_len <= u64::MAX
                &&& old(self).connections_map()[connection_id].message_count < u64::MAX
            },
        ensures
            final(self).wf(),
            old(self).connections_map().contains_key(connection_id) ==> final(self).connections_map()
                == old(self).connections_map().insert(
                connection_id,
                NetworkConnection {
                    last_activity: now,
                    bytes_sent: (old(self).connections_map()[connection_id].bytes_sent + wire_len) as u64,
                    message_count: (old(self).connections_map()[connection_id].message_count + 1) as u64,
                    ..old(self).connections_map()[connection_id]
                },
            ),
            !old(self).connections_map().contains_key(connection_id) ==> final(self).connections_map()
                == old(self).connections_map(),
            final(self).is_running == old(self).is_running,
            final(self).message_queue == old(self).message_queue,
            final(self).metrics == old(self).metrics,
    {
        if let Some(mut c) = remove_key(&mut self.connections, connection_id) {
            c.last_activity = now;
            c.bytes_sent = c.bytes_sent + wire_len;
            c.message_count = c.message_count + 1;
            upsert(&mut self.connections, c);
            assert(self.connections_map() =~= old(self).connections_map().insert(connection_id, c));
        }
    }

    /// Drops connection `connection_id`, once it is closed.
    pub fn close_connection(&mut self, connection_id: u128)
        requires
            old(self).wf(),
        ensures
            final(self).wf(),
            final(self).connections_map() == old(self).connections_map().remove(connection_id),
            final(self).is_running == old(self).is_running,
            final(self).message_queue == old(self).message_queue,
            final(self).metrics == old(self).metrics,
    {
        let _ = remove_key(&mut self.connections, connection_id);
    }

    /// Queues a message that arrived, for processing.
    pub fn enqueue(&mut self, message: NetworkMessage)
        ensures
            final(self).message_queue@ == old(self).message_queue@.push(message),
            final(self).connections == old(self).connections,
            final(self).is_running == old(self).is_running,
            final(self).metrics == old(self).metrics,
    {
        self.message_queue.push(message);
    }

    /// Processes one message at time `now`: a heartbeat that names a target
    /// node marks that member active in `cluster`; other kinds change
    /// nothing there. One more message is counted as processed.
    pub fn process_network_message(&mut self, message: &Message, cluster: &mut Cluster, now: u64)
        requires
            old(cluster).wf(),
            old(self).metrics.messages_processed < u64::MAX,
        ensures
            final(cluster).wf(),
            final(cluster).config == old(cluster).config,
            (message.message_type matches MessageType::Heartbeat && message.target_node is Some) ==> {
                let t = message.target_node->0;
                &&& old(cluster).members().contains_key(t) ==> final(cluster).members() == old(cluster).members().insert(
                    t,
                    crate::distributed::cluster::Node { status: NodeStatus::Active, last_seen: now, ..old(cluster).members()[t] },
                )
                &&& !old(cluster).members().contains_key(t) ==> final(cluster).members() == old(cluster).members()
            },
            !(message.message_type matches MessageType::Heartbeat && message.target_node is Some) ==> final(cluster).members()
                == old(cluster).members(),
            final(self).metrics == (ServerMetrics {
                messages_processed: (old(self).metrics.messages_processed + 1) as u64,
                ..old(self).metrics
            }),
            final(self).connections == old(self).connections,
            final(self).message_queue == old(self).message_queue,
            final(self).is_running == old(self).is_running,
    {
        match &message.message_type {
            MessageType::Heartbeat => {
                if let Some(t) = message.target_node {
                    cluster.update_node_status(t, NodeStatus::Active, now);
                }
            },
            _ => {},
        }
        self.metrics.messages_processed = self.metrics.messages_processed + 1;
    }

    /// Processes the queued messages in arrival order at time `now` (see
    /// `process_network_message`) and empties the queue.
    pub fn process_queued(&mut self, cluster: &mut Cluster, now: u64)
        requires
            old(cluster).wf(),
            old(self).metrics.messages_processed + old(self).message_queue@.len() <= u64::MAX,
        ensures
            final(cluster).wf(),
            final(cluster).config == old(cluster).config,
            final(cluster).members() == members_after(old(cluster).members(), old(self).message_queue@, now),
            final(self).message_queue@.len() == 0,
            final(self).metrics == (ServerMetrics {
                messages_processed: (old(self).metrics.messages_processed + old(self).message_queue@.len()) as u64,
                ..old(self).metrics
            }),
            final(self).connections == old(self).connections,
            final(self).is_running == old(self).is_running,
    {
        let mut queued: Vec<NetworkMessage> = Vec::new();
        std::mem::swap(&mut queued, &mut self.message_queue);
        let ghost q = queued@;
        let ghost m0 = cluster.members();
        let ghost c0 = cluster.config;
        let ghost s0 = self.metrics;
        let mut i: usize = 0;
        while i < queued.len()
            invariant
                i <= q.len(),
                q == queued@,
                cluster.wf(),
                cluster.config == c0,
                cluster.members() == members_after(m0, q.take(i as int), now),
                s0.messages_processed + q.len() <= u64::MAX,
                self.metrics == (ServerMetrics { messages_processed: (s0.messages_processed + i) as u64, ..s0 }),
                self.message_queue@.len() == 0,
                self.connections == old(self).connections,
                self.is_running == old(self).is_running,
            decreases q.len() - i,
        {
            proof {
                assert(q.take(i + 1).drop_last() =~= q.take(i as int));
                assert(q.take(i + 1).last() == q[i as int]);
            }
            self.process_network_message(&queued[i].message, cluster, now);
            i = i + 1;
        }
        assert(q.take(q.len() as int) =~= q);
    }

    /// The connections to send a broadcast on: each connection's
    /// identifier with its remote node, in table order.
    pub fn broadcast_targets(&self) -> (t: Vec<(u128, u128)>)
        ensures
            t@.len() == self.connections@.len(),
            forall|i: int|
                0 <= i < t@.len() ==> #[trigger] t@[i] == (
                    self.connections@[i].connection_id,
                    self.connections@[i].remote_node,
                ),
    {
        let mut t: Vec<(u128, u128)> = Vec::new();
        let mut i: usize = 0;
        while i < self.connections.len()
            invariant
                i <= self.connections@.len(),
                t@.len() == i,
                forall|j: int|
                    0 <= j < i ==> #[trigger] t@[j] == (
                        self.connections@[j].connection_id,
                        self.connections@[j].remote_node,
                    ),
            decreases self.connections@.len() - i,
        {
            t.push((self.connections[i].connection_id, self.connections[i].remote_node));
            i = i + 1;
        }
        t
    }

    /// Records a broadcast to the nodes `nodes_attempted`, whose deliveries
    /// succeeded where `delivered` says so, taking `elapsed_ms`: as many
    /// more messages processed as nodes attempted, and the tally.
    pub fn record_broadcast(&mut self, nodes_attempted: Vec<u128>, delivered: &Vec<bool>, elapsed_ms: u64) -> (r:
        BroadcastResult)
        requires
            delivered@.len() == nodes_attempted@.len(),
            old(self).metrics.messages_processed + nodes_attempted@.len() <= u64::MAX,
        ensures
            r.successful_deliveries == count_true(delivered@),
            r.failed_deliveries == delivered@.len() - count_true(delivered@),
            r.delivery_time == elapsed_ms,
            r.nodes_attempted@ == nodes_attempted@,
            final(self).metrics == (ServerMetrics {
                messages_processed: (old(self).metrics.messages_processed + nodes_attempted@.len()) as u64,
                ..old(self).metrics
            }),
            final(self).connections == old(self).connections,
            final(self).message_queue == old(self).message_queue,
            final(self).is_running == old(self).is_running,
    {
        let mut ok: usize = 0;
        let mut failed: usize = 0;
        let mut i: usize = 0;
        while i < delivered.len()
            invariant
                i <= delivered@.len(),
                ok == count_true(delivered@.take(i as int)),
                failed == i - count_true(delivered@.take(i as int)),
                count_true(delivered@.take(i as int)) <= i,
            decreases delivered@.len() - i,
        {
            proof {
                assert(delivered@.take(i + 1).drop_last() =~= delivered@.take(i as int));
                lemma_count_true_bound(delivered@.take(i + 1));
            }
            if delivered[i] {
                ok = ok + 1;
            } else {
                failed = failed + 1;
            }
            i = i + 1;
        }
        assert(delivered@.take(delivered@.len() as int) =~= delivered@);
        let attempted = nodes_attempted.len() as u64;
        self.metrics.messages_processed = self.metrics.messages_processed + attempted;
        BroadcastResult {
            successful_deliveries: ok,
            failed_deliveries: failed,
            delivery_time: elapsed_ms,
            nodes_attempted,
        }
    }

    /// The server's report: whether it runs, its address, how many
    /// connections it holds, and its counters.
    pub fn get_status(&self) -> (st: ServerStatus)
        ensures
            st.is_running == self.is_running,
            st.server_address matches Some(a) && a@ == self.server_address@,
            st.active_connections == self.connections@.len(),
            st.total_connections == self.metrics.connections_accepted,
            st.messages_processed == self.metrics.messages_processed,
            st.average_latency == self.metrics.average_connection_duration,
            st.bandwidth_utilization == self.metrics.bandwidth_mbps,
            st.error_rate == self.metrics.error_rate,
    {
        ServerStatus {
            is_running: self.is_running,
            server_address: Some(string_of(self.server_address.as_str())),
            active_connections: self.connections.len(),
            total_connections: self.metrics.connections_accepted,
            messages_processed: self.metrics.messages_processed,
            average_latency: self.metrics.average_connection_duration,
            bandwidth_utilization: self.metrics.bandwidth_mbps,
            error_rate: self.metrics.error_rate,
        }
    }
}

} // verus!
