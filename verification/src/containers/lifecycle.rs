//! Container lifecycle: the state machine of allowed transitions, and the
//! bookkeeping of the operation in progress on each container (what it is,
//! how far it got, how it ended, how long one may wait for it). The work of
//! each operation, and the waiting, are the caller's.
use vstd::prelude::*;
use crate::containers::{ContainerError, ContainerState, pair_texts};
use crate::keyed::{Named, find_name, has_name, name_map, remove_named, unique_names, upsert_named};
use crate::text::{decimal_text, push_decimal, push_text, string_of};

verus! {

/// Lifecycle operations.
#[derive(Clone, Copy, PartialEq, Eq, Hash, Debug, Structural)]
pub enum OperationType {
    Create,
    Start,
    Stop,
    Pause,
    Resume,
    Restart,
    Delete,
}

/// The lower-case name of an operation, used in operation identifiers.
pub open spec fn operation_word(op: OperationType) -> Seq<char> {
    match op {
        OperationType::Create => "create"@,
        OperationType::Start => "start"@,
        OperationType::Stop => "stop"@,
        OperationType::Pause => "pause"@,
        OperationType::Resume => "resume"@,
        OperationType::Restart => "restart"@,
        OperationType::Delete => "delete"@,
    }
}

/// The participle of an operation, used in messages.
pub open spec fn operation_participle(op: OperationType) -> Seq<char> {
    match op {
        OperationType::Create => "creating"@,
        OperationType::Start => "starting"@,
        OperationType::Stop => "stopping"@,
        OperationType::Pause => "pausing"@,
        OperationType::Resume => "resuming"@,
        OperationType::Restart => "restarting"@,
        OperationType::Delete => "deleting"@,
    }
}

impl OperationType {
    /// The lower-case name of this operation.
    pub fn word(&self) -> (s: &'static str)
        ensures
            s@ == operation_word(*self),
    {
        match self {
            OperationType::Create => "create",
            OperationType::Start => "start",
            OperationType::Stop => "stop",
            OperationType::Pause => "pause",
            OperationType::Resume => "resume",
            OperationType::Restart => "restart",
            OperationType::Delete => "delete",
        }
    }

    /// The participle of this operation.
    pub fn participle(&self) -> (s: &'static str)
        ensures
            s@ == operation_participle(*self),
    {
        match self {
            OperationType::Create => "creating",
            OperationType::Start => "starting",
            OperationType::Stop => "stopping",
            OperationType::Pause => "pausing",
            OperationType::Resume => "resuming",
            OperationType::Restart => "restarting",
            OperationType::Delete => "deleting",
        }
    }
}

/// States of an operation.
#[derive(Clone, Copy, PartialEq, Eq, Debug, Structural)]
pub enum OperationStatus {
    InProgress,
    Completed,
    Failed,
    Cancelled,
}

/// Lifecycle events.
#[derive(Clone, Copy, PartialEq, Eq, Debug, Structural)]
pub enum EventType {
    Create,
    Start,
    Stop,
    Pause,
    Resume,
    Restart,
    Delete,
    StateChange,
}

/// An operation on a container. Progress is in thousandths; details are
/// key/value pairs.
pub struct LifecycleOperation {
    pub id: String,
    pub operation_type: OperationType,
    pub status: OperationStatus,
    pub start_time: u64,
    pub end_time: Option<u64>,
    pub progress_permille: u32,
    pub details: Vec<(String, String)>,
}

/// The outcome of an operation; the duration is in milliseconds.
pub struct LifecycleResult {
    pub container_id: String,
    pub operation: OperationType,
    pub success: bool,
    pub message: String,
    pub duration: u64,
}

/// A transition of the state machine.
pub struct StateTransition {
    pub from_state: ContainerState,
    pub to_state: ContainerState,
    pub operation: OperationType,
    pub allowed: bool,
    pub conditions: Vec<String>,
}

/// A command run on a lifecycle event; the timeout is in milliseconds and
/// the environment a list of name/value pairs.
pub struct LifecycleHook {
    pub event: EventType,
    pub command: Vec<String>,
    pub timeout: u64,
    pub retry_count: usize,
    pub environment: Vec<(String, String)>,
}

/// The state an operation leads to from a state, when it is allowed: start
/// a created, stopped or exited container; stop or pause a running one;
/// resume a paused one; restart a running or paused one; delete a created,
/// stopped or exited one.
pub open spec fn transition_target(from: ContainerState, op: OperationType) -> Option<ContainerState> {
    match (from, op) {
        (ContainerState::Created, OperationType::Start) => Some(ContainerState::Running),
        (ContainerState::Running, OperationType::Stop) => Some(ContainerState::Stopped),
        (ContainerState::Running, OperationType::Pause) => Some(ContainerState::Paused),
        (ContainerState::Paused, OperationType::Resume) => Some(ContainerState::Running),
        (ContainerState::Stopped, OperationType::Start) => Some(ContainerState::Running),
        (ContainerState::Exited, OperationType::Start) => Some(ContainerState::Running),
        (ContainerState::Created, OperationType::Delete) => Some(ContainerState::Deleted),
        (ContainerState::Stopped, OperationType::Delete) => Some(ContainerState::Deleted),
        (ContainerState::Exited, OperationType::Delete) => Some(ContainerState::Deleted),
        (ContainerState::Running, OperationType::Restart) => Some(ContainerState::Running),
        (ContainerState::Paused, OperationType::Restart) => Some(ContainerState::Running),
        _ => None,
    }
}

/// The transition rules, in the order they are listed.
pub open spec fn transition_rules() -> Seq<(ContainerState, OperationType, ContainerState)> {
    seq![
        (ContainerState::Created, OperationType::Start, ContainerState::Running),
        (ContainerState::Running, OperationType::Stop, ContainerState::Stopped),
        (ContainerState::Running, OperationType::Pause, ContainerState::Paused),
        (ContainerState::Paused, OperationType::Resume, ContainerState::Running),
        (ContainerState::Stopped, OperationType::Start, ContainerState::Running),
        (ContainerState::Exited, OperationType::Start, ContainerState::Running),
        (ContainerState::Created, OperationType::Delete, ContainerState::Deleted),
        (ContainerState::Stopped, OperationType::Delete, ContainerState::Deleted),
        (ContainerState::Exited, OperationType::Delete, ContainerState::Deleted),
        (ContainerState::Running, OperationType::Restart, ContainerState::Running),
        (ContainerState::Paused, OperationType::Restart, ContainerState::Running),
    ]
}

/// Each rule's target is what `transition_target` gives for its state and
/// operation.
proof fn lemma_rule_target(k: int)
    requires
        0 <= k < transition_rules().len(),
    ensures
        transition_target(transition_rules()[k].0, transition_rules()[k].1) == Some(transition_rules()[k].2),
{
    let r = transition_rules();
    assert(r.len() == 11);
    if k == 0 {
    } else if k == 1 {
    } else if k == 2 {
    } else if k == 3 {
    } else if k == 4 {
    } else if k == 5 {
    } else if k == 6 {
    } else if k == 7 {
    } else if k == 8 {
    } else if k == 9 {
    } else {
        assert(k == 10);
    }
}

/// The state machine of container lifecycles.
pub struct StateMachine {
    pub transitions: Vec<StateTransition>,
}

/// The (from, operation, to) triple of a transition.
pub open spec fn rule_of(t: StateTransition) -> (ContainerState, OperationType, ContainerState) {
    (t.from_state, t.operation, t.to_state)
}

impl StateMachine {
    /// The table holds the transition rules, each allowed and without
    /// conditions.
    pub open spec fn wf(&self) -> bool {
        &&& self.transitions@.map_values(|t: StateTransition| rule_of(t)) == transition_rules()
        &&& forall|i: int|
            0 <= i < self.transitions@.len() ==> (#[trigger] self.transitions@[i]).allowed
                && self.transitions@[i].conditions@.len() == 0
    }

    /// The machine with the transition rules.
    pub fn new() -> (m: Self)
        ensures
            m.wf(),
    {
        let rules: [(ContainerState, OperationType, ContainerState); 11] = [
            (ContainerState::Created, OperationType::Start, ContainerState::Running),
            (ContainerState::Running, OperationType::Stop, ContainerState::Stopped),
            (ContainerState::Running, OperationType::Pause, ContainerState::Paused),
            (ContainerState::Paused, OperationType::Resume, ContainerState::Running),
            (ContainerState::Stopped, OperationType::Start, ContainerState::Running),
            (ContainerState::Exited, OperationType::Start, ContainerState::Running),
            (ContainerState::Created, OperationType::Delete, ContainerState::Deleted),
            (ContainerState::Stopped, OperationType::Delete, ContainerState::Deleted),
            (ContainerState::Exited, OperationType::Delete, ContainerState::Deleted),
            (ContainerState::Running, OperationType::Restart, ContainerState::Running),
            (ContainerState::Paused, OperationType::Restart, ContainerState::Running),
        ];
        assert(rules@ =~= transition_rules());
        let mut transitions: Vec<StateTransition> = Vec::new();
        let mut i: usize = 0;
        while i < 11
            invariant
                i <= 11,
                rules@ == transition_rules(),
                transitions@.len() == i,
                forall|j: int|
                    0 <= j < i ==> rule_of(#[trigger] transitions@[j]) == transition_rules()[j] && transitions@[j].allowed
                        && transitions@[j].conditions@.len() == 0,
            decreases 11 - i,
        {
            let (from_state, operation, to_state) = rules[i];
            transitions.push(
                StateTransition { from_state, to_state, operation, allowed: true, conditions: Vec::new() },
            );
            i = i + 1;
        }
        let m = StateMachine { transitions };
        assert(m.transitions@.map_values(|t: StateTransition| rule_of(t)) =~= transition_rules());
        m
    }

    /// Whether operation `operation` is allowed from state `current_state`.
    pub fn is_transition_allowed(&self, current_state: &ContainerState, operation: &OperationType) -> (b: bool)
        requires
            self.wf(),
        ensures
            b == transition_target(*current_state, *operation) is Some,
    {
        match self.next_state(current_state, operation) {
            Some(_) => true,
            None => false,
        }
    }

    /// The state operation `operation` leads to from `current_state`, when
    /// it is allowed.
    pub fn next_state(&self, current_state: &ContainerState, operation: &OperationType) -> (r: Option<ContainerState>)
        requires
            self.wf(),
        ensures
            r == transition_target(*current_state, *operation),
    {
        let mut i: usize = 0;
        while i < self.transitions.len()
            invariant
                self.wf(),
                i <= self.transitions@.len(),
                forall|j: int|
                    0 <= j < i ==> !((#[trigger] transition_rules()[j]).0 == *current_state && transition_rules()[j].1
                        == *operation),
            decreases self.transitions@.len() - i,
        {
            proof {
                assert(self.transitions@.map_values(|t: StateTransition| rule_of(t))[i as int] == transition_rules()[i as int]);
            }
            let t = &self.transitions[i];
            if t.from_state == *current_state && t.operation == *operation {
                if t.allowed {
                    proof {
                        lemma_rule_target(i as int);
                    }
                    return Some(t.to_state);
                } else {
                    return None;
                }
            }
            i = i + 1;
        }
        proof {
            assert(self.transitions@.map_values(|t: StateTransition| rule_of(t)).len() == 11);
        }
        None
    }
}

/// Pausing a running container and then resuming it brings it back to
/// running, and stopping and then starting it does too.
pub proof fn lemma_pause_resume_and_stop_start()
    ensures
        transition_target(ContainerState::Running, OperationType::Pause) matches Some(p) && transition_target(
            p,
            OperationType::Resume,
        ) == Some(ContainerState::Running),
        transition_target(ContainerState::Running, OperationType::Stop) matches Some(p) && transition_target(
            p,
            OperationType::Start,
        ) == Some(ContainerState::Running),
{
}

/// Which operation each state admits, and where it leads: a container not
/// running and not deleted (created, stopped or exited) may be started,
/// leading to running, or deleted, leading to deleted; a running one may be
/// stopped, paused or restarted; a paused one resumed or restarted;
/// restarts and resumes lead to running; nothing is ever created again.
pub proof fn lemma_allowed_operations(s: ContainerState)
    ensures
        (s == ContainerState::Created || s == ContainerState::Stopped || s == ContainerState::Exited) ==> {
            &&& transition_target(s, OperationType::Delete) == Some(ContainerState::Deleted)
            &&& transition_target(s, OperationType::Start) == Some(ContainerState::Running)
            &&& transition_target(s, OperationType::Stop) is None
            &&& transition_target(s, OperationType::Pause) is None
            &&& transition_target(s, OperationType::Resume) is None
            &&& transition_target(s, OperationType::Restart) is None
        },
        s == ContainerState::Running ==> {
            &&& transition_target(s, OperationType::Stop) == Some(ContainerState::Stopped)
            &&& transition_target(s, OperationType::Pause) == Some(ContainerState::Paused)
            &&& transition_target(s, OperationType::Restart) == Some(ContainerState::Running)
            &&& transition_target(s, OperationType::Start) is None
            &&& transition_target(s, OperationType::Resume) is None
            &&& transition_target(s, OperationType::Delete) is None
        },
        s == ContainerState::Paused ==> {
            &&& transition_target(s, OperationType::Resume) == Some(ContainerState::Running)
            &&& transition_target(s, OperationType::Restart) == Some(ContainerState::Running)
            &&& transition_target(s, OperationType::Start) is None
            &&& transition_target(s, OperationType::Stop) is None
            &&& transition_target(s, OperationType::Pause) is None
            &&& transition_target(s, OperationType::Delete) is None
        },
        transition_target(s, OperationType::Create) is None,
{
}

/// A deleted container admits no operation, and no operation leads back to
/// the created state.
pub proof fn lemma_deleted_is_final(s: ContainerState, op: OperationType)
    ensures
        transition_target(ContainerState::Deleted, op) is None,
        transition_target(s, op) != Some(ContainerState::Created),
{
}

/// Where an allowed operation leads depends on the operation alone: starts,
/// resumes and restarts lead to running, stops to stopped, pauses to
/// paused, deletions to deleted, and nothing is created.
pub proof fn lemma_target_by_operation(s: ContainerState, op: OperationType)
    requires
        transition_target(s, op) is Some,
    ensures
        transition_target(s, op) == Some(
            match op {
                OperationType::Start | OperationType::Resume | OperationType::Restart => ContainerState::Running,
                OperationType::Stop => ContainerState::Stopped,
                OperationType::Pause => ContainerState::Paused,
                OperationType::Delete => ContainerState::Deleted,
                OperationType::Create => ContainerState::Created,
            },
        ),
        op != OperationType::Create,
{
}

/// The operation in progress on a container.
pub struct ActiveOperation {
    pub container_id: String,
    pub operation: LifecycleOperation,
}

impl Named for ActiveOperation {
    open spec fn name_of(&self) -> Seq<char> {
        self.container_id@
    }

    fn name(&self) -> (k: &str) {
        self.container_id.as_str()
    }
}

/// The identifier of an operation on a container: the operation's name, a
/// hyphen and the container's identifier.
pub open spec fn operation_id(op: OperationType, container_id: Seq<char>) -> Seq<char> {
    operation_word(op) + "-"@ + container_id
}

/// How long one may wait for an operation, in milliseconds: five minutes
/// to create or delete, two to start, one to pause or resume, and ten
/// seconds beyond the given timeout (whole seconds of it) to stop or
/// restart.
pub open spec fn operation_deadline(op: OperationType, timeout_ms: u64) -> int {
    match op {
        OperationType::Create | OperationType::Delete => 300_000,
        OperationType::Start => 120_000,
        OperationType::Pause | OperationType::Resume => 60_000,
        OperationType::Stop | OperationType::Restart => (timeout_ms / 1000) * 1000 + 10_000,
    }
}

/// How long one may wait for an operation (see `operation_deadline`).
pub fn deadline(op: OperationType, timeout_ms: u64) -> (ms: u64)
    requires
        timeout_ms <= u64::MAX - 10_000,
    ensures
        ms == operation_deadline(op, timeout_ms),
{
    match op {
        OperationType::Create | OperationType::Delete => 300_000,
        OperationType::Start => 120_000,
        OperationType::Pause | OperationType::Resume => 60_000,
        OperationType::Stop | OperationType::Restart => (timeout_ms / 1000) * 1000 + 10_000,
    }
}

/// The message when waiting for an operation runs out of time.
pub open spec fn timeout_message(op: OperationType) -> Seq<char> {
    "Timeout "@ + operation_participle(op) + " container"@
}

/// The error when waiting for an operation runs out of time.
pub fn timeout_error(op: OperationType) -> (e: ContainerError)
    ensures
        e matches ContainerError::System(m) && m@ == timeout_message(op),
{
    let mut m = string_of("Timeout ");
    push_text(&mut m, op.participle());
    push_text(&mut m, " container");
    ContainerError::System(m)
}

/// What waiting for an operation finds: nothing yet while it is in
/// progress, or when the operation in progress is another kind or there is
/// none; else how it ended.
pub enum WaitOutcome {
    Pending,
    Done(LifecycleResult),
    Failed(ContainerError),
}

/// The bookkeeping of lifecycle operations: the one in progress on each
/// container.
pub struct LifecycleManager {
    pub active_operations: Vec<ActiveOperation>,
}

impl LifecycleManager {
    /// The invariant: one operation per container.
    pub open spec fn wf(&self) -> bool {
        unique_names(self.active_operations@)
    }

    /// The operations by container.
    pub open spec fn operations(&self) -> Map<Seq<char>, ActiveOperation> {
        name_map(self.active_operations@)
    }

    /// No operations.
    pub fn new() -> (m: Self)
        ensures
            m.wf(),
            m.operations() == Map::<Seq<char>, ActiveOperation>::empty(),
            m.active_operations@.len() == 0,
    {
        let m = LifecycleManager { active_operations: Vec::new() };
        assert(m.operations() =~= Map::<Seq<char>, ActiveOperation>::empty());
        m
    }

    /// The operation recorded on container `container_id`, if any.
    pub fn get_operation_status(&self, container_id: &str) -> (r: Option<&LifecycleOperation>)
        requires
            self.wf(),
        ensures
            r == (if self.operations().contains_key(container_id@) {
                Some(&self.operations()[container_id@].operation)
            } else {
                None
            }),
    {
        match find_name(&self.active_operations, container_id) {
            Some(i) => {
                proof {
                    crate::keyed::lemma_name_index(self.active_operations@, i as int);
                }
                Some(&self.active_operations[i].operation)
            },
            None => None,
        }
    }

    /// Begins operation `op` on container `container_id` at time `now`
    /// with the given details: it is in progress, at zero, under the
    /// identifier `operation_id`. A creation is refused while another
    /// operation is recorded on the container; any other operation replaces
    /// the one recorded.
    pub fn begin_operation(
        &mut self,
        container_id: &str,
        op: OperationType,
        now: u64,
        details: Vec<(String, String)>,
    ) -> (r: Result<(), ContainerError>)
        requires
            old(self).wf(),
        ensures
            final(self).wf(),
            op == OperationType::Create && old(self).operations().contains_key(container_id@) ==> (r matches Err(
                ContainerError::InvalidConfig(m),
            ) && m@ == "Container "@ + container_id@ + " is already being operated on"@) && final(self).operations()
                == old(self).operations(),
            !(op == OperationType::Create && old(self).operations().contains_key(container_id@)) ==> r is Ok && {
                let a = final(self).operations()[container_id@].operation;
                &&& final(self).operations().dom() == old(self).operations().dom().insert(container_id@)
                &&& forall|k: Seq<char>|
                    k != container_id@ && #[trigger] old(self).operations().contains_key(k) ==> final(self).operations()[k] == old(self).operations()[k]
                &&& a.id@ == operation_id(op, container_id@)
                &&& a.operation_type == op
                &&& a.status == OperationStatus::InProgress
                &&& a.start_time == now
                &&& a.end_time is None
                &&& a.progress_permille == 0
                &&& a.details@ == details@
            },
    {
        if op == OperationType::Create {
            if find_name(&self.active_operations, container_id).is_some() {
                let mut m = string_of("Container ");
                push_text(&mut m, container_id);
                push_text(&mut m, " is already being operated on");
                return Err(ContainerError::InvalidConfig(m));
            }
        }
        let mut id = string_of(op.word());
        push_text(&mut id, "-");
        push_text(&mut id, container_id);
        let operation = LifecycleOperation {
            id,
            operation_type: op,
            status: OperationStatus::InProgress,
            start_time: now,
            end_time: None,
            progress_permille: 0,
            details,
        };
        upsert_named(&mut self.active_operations, ActiveOperation { container_id: string_of(container_id), operation });
        proof {
            assert(self.operations().dom() =~= old(self).operations().dom().insert(container_id@));
        }
        Ok(())
    }

    /// Whether `b` is `a` with operation `op` begun on container
    /// `container_id` at `now` with details `details` (see
    /// `begin_operation`).
    pub open spec fn began(
        a: &Self,
        b: &Self,
        container_id: Seq<char>,
        op: OperationType,
        now: u64,
        details: Seq<(Seq<char>, Seq<char>)>,
    ) -> bool {
        let x = b.operations()[container_id].operation;
        &&& b.operations().dom() == a.operations().dom().insert(container_id)
        &&& forall|k: Seq<char>|
            k != container_id && #[trigger] a.operations().contains_key(k) ==> b.operations()[k] == a.operations()[k]
        &&& x.id@ == operation_id(op, container_id)
        &&& x.operation_type == op
        &&& x.status == OperationStatus::InProgress
        &&& x.start_time == now
        &&& x.end_time is None
        &&& x.progress_permille == 0
        &&& pair_texts(x.details@) == details
    }

    /// Begins creating container `container_id` at `now` and gives how
    /// long to wait for it, in milliseconds; refused while another
    /// operation is recorded on the container (see `begin_operation`).
    pub fn create_container(&mut self, container_id: &str, now: u64) -> (r: Result<u64, ContainerError>)
        requires
            old(self).wf(),
        ensures
            final(self).wf(),
            old(self).operations().contains_key(container_id@) ==> (r matches Err(ContainerError::InvalidConfig(m))
                && m@ == "Container "@ + container_id@ + " is already being operated on"@) && final(self).operations()
                == old(self).operations(),
            !old(self).operations().contains_key(container_id@) ==> r == Ok::<u64, ContainerError>(300_000)
                && Self::began(&*old(self), &*final(self), container_id@, OperationType::Create, now, Seq::empty()),
    {
        match self.begin_operation(container_id, OperationType::Create, now, Vec::new()) {
            Ok(()) => {
                proof {
                    let x = self.operations()[container_id@].operation;
                    assert(pair_texts(x.details@) =~= Seq::<(Seq<char>, Seq<char>)>::empty());
                }
                Ok(deadline(OperationType::Create, 0))
            },
            Err(e) => Err(e),
        }
    }

    /// Begins operation `op`, one without parameters, on container
    /// `container_id` at `now`, and gives how long to wait for it, in
    /// milliseconds.
    fn begin_plain(&mut self, container_id: &str, op: OperationType, now: u64) -> (ms: u64)
        requires
            old(self).wf(),
            op != OperationType::Create,
        ensures
            final(self).wf(),
            ms == operation_deadline(op, 0),
            Self::began(&*old(self), &*final(self), container_id@, op, now, Seq::empty()),
    {
        let _ = self.begin_operation(container_id, op, now, Vec::new());
        proof {
            let x = self.operations()[container_id@].operation;
            assert(pair_texts(x.details@) =~= Seq::<(Seq<char>, Seq<char>)>::empty());
        }
        deadline(op, 0)
    }

    /// Begins starting container `container_id` at `now`; gives how long
    /// to wait, two minutes.
    pub fn start_container(&mut self, container_id: &str, now: u64) -> (ms: u64)
        requires
            old(self).wf(),
        ensures
            final(self).wf(),
            ms == 120_000,
            Self::began(&*old(self), &*final(self), container_id@, OperationType::Start, now, Seq::empty()),
    {
        self.begin_plain(container_id, OperationType::Start, now)
    }

    /// Begins pausing container `container_id` at `now`; gives how long to
    /// wait, one minute.
    pub fn pause_container(&mut self, container_id: &str, now: u64) -> (ms: u64)
        requires
            old(self).wf(),
        ensures
            final(self).wf(),
            ms == 60_000,
            Self::began(&*old(self), &*final(self), container_id@, OperationType::Pause, now, Seq::empty()),
    {
        self.begin_plain(container_id, OperationType::Pause, now)
    }

    /// Begins resuming container `container_id` at `now`; gives how long to
    /// wait, one minute.
    pub fn resume_container(&mut self, container_id: &str, now: u64) -> (ms: u64)
        requires
            old(self).wf(),
        ensures
            final(self).wf(),
            ms == 60_000,
            Self::began(&*old(self), &*final(self), container_id@, OperationType::Resume, now, Seq::empty()),
    {
        self.begin_plain(container_id, OperationType::Resume, now)
    }

    /// Begins an operation with a timeout (given, or `default_ms`) recorded
    /// in whole seconds; gives how long to wait.
    fn begin_timed(&mut self, container_id: &str, op: OperationType, timeout_ms: Option<u64>, default_ms: u64, now: u64) -> (ms: u64)
        requires
            old(self).wf(),
            op == OperationType::Stop || op == OperationType::Restart,
            default_ms <= u64::MAX - 10_000,
            timeout_ms matches Some(t) ==> t <= u64::MAX - 10_000,
        ensures
            final(self).wf(),
            ({
                let t = match timeout_ms {
                    Some(t) => t,
                    None => default_ms,
                };
                &&& ms == operation_deadline(op, t)
                &&& Self::began(
                    &*old(self),
                    &*final(self),
                    container_id@,
                    op,
                    now,
                    seq![("timeout"@, decimal_text((t / 1000) as nat))],
                )
            }),
    {
        let t = match timeout_ms {
            Some(t) => t,
            None => default_ms,
        };
        let details = timeout_details(t);
        let ghost d = details@;
        let _ = self.begin_operation(container_id, op, now, details);
        proof {
            let x = self.operations()[container_id@].operation;
            assert(pair_texts(x.details@) =~= seq![("timeout"@, decimal_text((t / 1000) as nat))]);
        }
        deadline(op, t)
    }

    /// Begins stopping container `container_id` at `now` with a timeout
    /// (given, or thirty seconds) recorded in whole seconds; gives how long
    /// to wait: ten seconds beyond the timeout.
    pub fn stop_container(&mut self, container_id: &str, timeout_ms: Option<u64>, now: u64) -> (ms: u64)
        requires
            old(self).wf(),
            timeout_ms matches Some(t) ==> t <= u64::MAX - 10_000,
        ensures
            final(self).wf(),
            ({
                let t = match timeout_ms {
                    Some(t) => t,
                    None => 30_000,
                };
                &&& ms == (t / 1000) * 1000 + 10_000
                &&& Self::began(
                    &*old(self),
                    &*final(self),
                    container_id@,
                    OperationType::Stop,
                    now,
                    seq![("timeout"@, decimal_text((t / 1000) as nat))],
                )
            }),
    {
        self.begin_timed(container_id, OperationType::Stop, timeout_ms, 30_000, now)
    }

    /// Begins restarting container `container_id` at `now` with a timeout
    /// (given, or a minute) recorded in whole seconds; gives how long to
    /// wait: ten seconds beyond the timeout.
    pub fn restart_container(&mut self, container_id: &str, timeout_ms: Option<u64>, now: u64) -> (ms: u64)
        requires
            old(self).wf(),
            timeout_ms matches Some(t) ==> t <= u64::MAX - 10_000,
        ensures
            final(self).wf(),
            ({
                let t = match timeout_ms {
                    Some(t) => t,
                    None => 60_000,
                };
                &&& ms == (t / 1000) * 1000 + 10_000
                &&& Self::began(
                    &*old(self),
                    &*final(self),
                    container_id@,
                    OperationType::Restart,
                    now,
                    seq![("timeout"@, decimal_text((t / 1000) as nat))],
                )
            }),
    {
        self.begin_timed(container_id, OperationType::Restart, timeout_ms, 60_000, now)
    }

    /// Begins deleting container `container_id` at `now`, forced or not as
    /// recorded; gives how long to wait, five minutes.
    pub fn delete_container(&mut self, container_id: &str, force: bool, now: u64) -> (ms: u64)
        requires
            old(self).wf(),
        ensures
            final(self).wf(),
            ms == 300_000,
            Self::began(
                &*old(self),
                &*final(self),
                container_id@,
                OperationType::Delete,
                now,
                seq![(
                    "force"@,
                    if force {
                        "true"@
                    } else {
                        "false"@
                    },
                )],
            ),
    {
        let details = force_details(force);
        let _ = self.begin_operation(container_id, OperationType::Delete, now, details);
        proof {
            let x = self.operations()[container_id@].operation;
            assert(pair_texts(x.details@) =~= seq![(
                "force"@,
                if force {
                    "true"@
                } else {
                    "false"@
                },
            )]);
        }
        deadline(OperationType::Delete, 0)
    }

    /// Sets the progress of the operation on container `container_id`, if
    /// any.
    pub fn update_progress(&mut self, container_id: &str, progress_permille: u32)
        requires
            old(self).wf(),
        ensures
            final(self).wf(),
            old(self).operations().contains_key(container_id@) ==> final(self).operations() == old(self).operations().insert(container_id@, final(self).operations()[container_id@]) && final(self).operations()[container_id@].operation.progress_permille == progress_permille && final(self).operations()[container_id@].operation.status == old(self).operations()[container_id@].operation.status,
            !old(self).operations().contains_key(container_id@) ==> final(self).operations() == old(self).operations(),
    {
        if let Some(mut a) = remove_named(&mut self.active_operations, container_id) {
            a.operation.progress_permille = progress_permille;
            upsert_named(&mut self.active_operations, a);
            assert(self.operations() =~= old(self).operations().insert(container_id@, a));
        }
    }

    /// Ends the operation on container `container_id`, if any, at time
    /// `now`: completed when it succeeded, failed otherwise.
    pub fn complete_operation(&mut self, container_id: &str, success: bool, now: u64)
        requires
            old(self).wf(),
        ensures
            final(self).wf(),
            old(self).operations().contains_key(container_id@) ==> final(self).operations() == old(self).operations().insert(container_id@, final(self).operations()[container_id@]) && final(self).operations()[container_id@].operation.status == (if success {
                OperationStatus::Completed
            } else {
                OperationStatus::Failed
            }) && final(self).operations()[container_id@].operation.end_time == Some(now) && final(self).operations()[container_id@].operation.operation_type == old(self).operations()[container_id@].operation.operation_type,
            !old(self).operations().contains_key(container_id@) ==> final(self).operations() == old(self).operations(),
    {
        if let Some(mut a) = remove_named(&mut self.active_operations, container_id) {
            a.operation.status = if success {
                OperationStatus::Completed
            } else {
                OperationStatus::Failed
            };
            a.operation.end_time = Some(now);
            upsert_named(&mut self.active_operations, a);
            assert(self.operations() =~= old(self).operations().insert(container_id@, a));
        }
    }

    /// What waiting at time `now` for operation `op` on container
    /// `container_id` finds: when the operation recorded there is of that
    /// kind, a completed one gives a successful result lasting from its
    /// start until now, a failed or cancelled one an error; otherwise
    /// nothing yet.
    pub fn poll_operation(&self, container_id: &str, op: OperationType, now: u64) -> (w: WaitOutcome)
        requires
            self.wf(),
        ensures
            match (if self.operations().contains_key(container_id@) {
                Some(self.operations()[container_id@].operation)
            } else {
                None
            }) {
                Some(a) => if a.operation_type != op {
                    w is Pending
                } else {
                    match a.status {
                        OperationStatus::InProgress => w is Pending,
                        OperationStatus::Completed => w matches WaitOutcome::Done(res) && res.container_id@ == container_id@
                            && res.operation == op && res.success && res.message@ == "Operation completed successfully"@
                            && res.duration == (if now >= a.start_time {
                            (now - a.start_time) as u64
                        } else {
                            0
                        }),
                        OperationStatus::Failed => w matches WaitOutcome::Failed(ContainerError::System(m)) && m@
                            == "Operation failed"@,
                        OperationStatus::Cancelled => w matches WaitOutcome::Failed(ContainerError::System(m)) && m@
                            == "Operation was cancelled"@,
                    }
                },
                None => w is Pending,
            },
    {
        match find_name(&self.active_operations, container_id) {
            None => WaitOutcome::Pending,
            Some(i) => {
                proof {
                    crate::keyed::lemma_name_index(self.active_operations@, i as int);
                }
                let a = &self.active_operations[i].operation;
                if a.operation_type != op {
                    return WaitOutcome::Pending;
                }
                match a.status {
                    OperationStatus::InProgress => WaitOutcome::Pending,
                    OperationStatus::Completed => {
                        let duration = if now >= a.start_time {
                            now - a.start_time
                        } else {
                            0
                        };
                        WaitOutcome::Done(
                            LifecycleResult {
                                container_id: string_of(container_id),
                                operation: op,
                                success: true,
                                message: string_of("Operation completed successfully"),
                                duration,
                            },
                        )
                    },
                    OperationStatus::Failed => WaitOutcome::Failed(ContainerError::System(string_of("Operation failed"))),
                    OperationStatus::Cancelled => WaitOutcome::Failed(
                        ContainerError::System(string_of("Operation was cancelled")),
                    ),
                }
            },
        }
    }

    /// The operations recorded, in table order.
    pub fn list_active_operations(&self) -> (ops: Vec<&LifecycleOperation>)
        ensures
            ops@.len() == self.active_operations@.len(),
            forall|i: int| 0 <= i < ops@.len() ==> *(#[trigger] ops@[i]) == self.active_operations@[i].operation,
    {
        let mut ops: Vec<&LifecycleOperation> = Vec::new();
        let mut i: usize = 0;
        while i < self.active_operations.len()
            invariant
                i <= self.active_operations@.len(),
                ops@.len() == i,
                forall|j: int| 0 <= j < i ==> *(#[trigger] ops@[j]) == self.active_operations@[j].operation,
            decreases self.active_operations@.len() - i,
        {
            ops.push(&self.active_operations[i].operation);
            i = i + 1;
        }
        ops
    }
}

/// How the handling of an operation advances: before each step its delay
/// passes (in milliseconds), then the operation's progress is set to its
/// value (in thousandths); after the last step the operation completes.
/// The step at `repeat`, if any, is taken again and again until the
/// operation's timeout has passed.
pub struct EventPlan {
    pub steps: Vec<(u64, u32)>,
    pub repeat: Option<usize>,
}

/// The steps of handling operation `op`.
pub open spec fn event_steps(op: OperationType) -> Seq<(u64, u32)> {
    match op {
        OperationType::Create => seq![(0u64, 0u32), (100u64, 300u32), (100u64, 700u32), (100u64, 1000u32)],
        OperationType::Start => seq![(0u64, 0u32), (200u64, 500u32), (200u64, 1000u32)],
        OperationType::Stop => seq![(0u64, 0u32), (100u64, 300u32), (100u64, 500u32), (100u64, 800u32), (100u64, 1000u32)],
        OperationType::Pause => seq![(0u64, 0u32), (200u64, 1000u32)],
        OperationType::Resume => seq![(0u64, 0u32), (200u64, 1000u32)],
        OperationType::Restart => seq![(0u64, 0u32), (200u64, 500u32), (200u64, 1000u32)],
        OperationType::Delete => seq![(0u64, 0u32), (100u64, 300u32), (200u64, 700u32), (100u64, 1000u32)],
    }
}

/// The repeated step of handling operation `op`: the wait for a stop to
/// take effect.
pub open spec fn event_repeat(op: OperationType) -> Option<usize> {
    match op {
        OperationType::Stop => Some(2usize),
        _ => None,
    }
}

/// The plan for handling operation `op` (see `event_steps`).
pub fn event_plan(op: OperationType) -> (p: EventPlan)
    ensures
        p.steps@ == event_steps(op),
        p.repeat == event_repeat(op),
{
    let (steps, repeat): (Vec<(u64, u32)>, Option<usize>) = match op {
        OperationType::Create => (vec![(0, 0), (100, 300), (100, 700), (100, 1000)], None),
        OperationType::Start => (vec![(0, 0), (200, 500), (200, 1000)], None),
        OperationType::Stop => (vec![(0, 0), (100, 300), (100, 500), (100, 800), (100, 1000)], Some(2)),
        OperationType::Pause => (vec![(0, 0), (200, 1000)], None),
        OperationType::Resume => (vec![(0, 0), (200, 1000)], None),
        OperationType::Restart => (vec![(0, 0), (200, 500), (200, 1000)], None),
        OperationType::Delete => (vec![(0, 0), (100, 300), (200, 700), (100, 1000)], None),
    };
    assert(steps@ =~= event_steps(op));
    EventPlan { steps, repeat }
}

/// The details recorded for a stop or restart: the timeout in whole
/// seconds.
pub fn timeout_details(timeout_ms: u64) -> (d: Vec<(String, String)>)
    ensures
        d@.len() == 1,
        d@[0].0@ == "timeout"@,
        d@[0].1@ == decimal_text((timeout_ms / 1000) as nat),
{
    let mut v = String::new();
    push_decimal(&mut v, timeout_ms / 1000);
    vec![(string_of("timeout"), v)]
}

/// The details recorded for a deletion: whether it is forced.
pub fn force_details(force: bool) -> (d: Vec<(String, String)>)
    ensures
        d@.len() == 1,
        d@[0].0@ == "force"@,
        d@[0].1@ == (if force { "true"@ } else { "false"@ }),
{
    let v = if force {
        string_of("true")
    } else {
        string_of("false")
    };
    vec![(string_of("force"), v)]
}

} // verus!
