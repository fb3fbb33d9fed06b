//! Task state: statuses, logs and results, and the store that holds them per
//! task identifier.

pub mod code_gen_task;

use vstd::prelude::*;

verus! {

/// Where a task stands. `Completed`, `Cancelled` and `Failed` are terminal.
#[derive(Debug, Clone, Copy, PartialEq, Eq, Structural)]
pub enum TaskStatus {
    Pending,
    Running,
    Completed,
    Cancelled,
    Failed,
}

impl TaskStatus {
    pub open spec fn is_terminal_spec(self) -> bool {
        self is Completed || self is Cancelled || self is Failed
    }

    /// Pending first, then Running, then the terminal statuses.
    pub open spec fn rank(self) -> int {
        match self {
            TaskStatus::Pending => 0,
            TaskStatus::Running => 1,
            _ => 2,
        }
    }

    /// The status that a request to move to `to` leaves: a task only moves
    /// forward, Pending to Running, or from a non-terminal status to a
    /// terminal one; any other request leaves the status as it is.
    pub open spec fn advanced(self, to: TaskStatus) -> TaskStatus {
        if self.rank() < to.rank() {
            to
        } else {
            self
        }
    }

    #[verifier::when_used_as_spec(is_terminal_spec)]
    pub fn is_terminal(self) -> (r: bool)
        ensures
            r == self.is_terminal_spec(),
    {
        match self {
            TaskStatus::Completed | TaskStatus::Cancelled | TaskStatus::Failed => true,
            _ => false,
        }
    }

    pub fn advance(self, to: TaskStatus) -> (r: TaskStatus)
        ensures
            r == self.advanced(to),
    {
        let a: u8 = match self {
            TaskStatus::Pending => 0,
            TaskStatus::Running => 1,
            _ => 2,
        };
        let b: u8 = match to {
            TaskStatus::Pending => 0,
            TaskStatus::Running => 1,
            _ => 2,
        };
        if a < b {
            to
        } else {
            self
        }
    }
}

#[derive(Debug, Clone, Copy, PartialEq, Eq, Structural)]
pub enum TaskLogLevel {
    Warn,
    Info,
    Error,
}

/// One line of a task's progress, stamped in milliseconds since the Unix epoch.
#[derive(Debug, Clone)]
pub struct TaskLog {
    pub timestamp: u64,
    pub message: String,
    pub level: TaskLogLevel,
}

/// Relies on `SystemTime::now` read against `UNIX_EPOCH`: the wall clock in
/// milliseconds, 0 for a clock set before the epoch. Nothing is promised of
/// the value: the clock is the machine's.
#[verifier::external_body]
fn now_millis() -> u64 {
    std::time::SystemTime::now()
        .duration_since(std::time::UNIX_EPOCH)
        .unwrap_or(std::time::Duration::ZERO)
        .as_millis() as u64
}

impl TaskLog {
    /// A log line stamped with the current time.
    pub fn new(message: &str, level: TaskLogLevel) -> (r: TaskLog)
        ensures
            r.message@ == message@,
            r.level == level,
    {
        TaskLog { timestamp: now_millis(), message: message.to_string(), level }
    }

    pub fn copy(&self) -> (r: TaskLog)
        ensures
            r == *self,
    {
        TaskLog { timestamp: self.timestamp, message: self.message.clone(), level: self.level }
    }
}

/// A generated source file: its base name, where it is to be written, and
/// its text.
#[derive(Debug, Clone)]
pub struct TaskGenFile {
    pub name: String,
    pub path: Option<String>,
    pub content: String,
}

pub struct GenFileView {
    pub name: Seq<char>,
    pub path: Option<Seq<char>>,
    pub content: Seq<char>,
}

impl View for TaskGenFile {
    type V = GenFileView;

    open spec fn view(&self) -> GenFileView {
        GenFileView {
            name: self.name@,
            path: match self.path {
                Some(p) => Some(p@),
                None => None,
            },
            content: self.content@,
        }
    }
}

impl TaskGenFile {
    pub fn copy(&self) -> (r: TaskGenFile)
        ensures
            r == *self,
    {
        let path = match &self.path {
            Some(p) => Some(p.clone()),
            None => None,
        };
        TaskGenFile { name: self.name.clone(), path, content: self.content.clone() }
    }
}

#[derive(Debug, Clone)]
pub enum TaskResult {
    /// The files that a code-generation task produced, in order.
    CodeGen { files: Vec<TaskGenFile> },
    /// A task that returns nothing, or one that has not finished.
    Empty,
}

/// What a result holds.
pub enum TaskResultView {
    CodeGen { files: Seq<GenFileView> },
    Empty,
}

impl View for TaskResult {
    type V = TaskResultView;

    open spec fn view(&self) -> TaskResultView {
        match self {
            TaskResult::CodeGen { files } => TaskResultView::CodeGen {
                files: files@.map_values(|f: TaskGenFile| f@),
            },
            TaskResult::Empty => TaskResultView::Empty,
        }
    }
}

impl TaskResult {
    pub fn copy(&self) -> (r: TaskResult)
        ensures
            r@ == self@,
    {
        match self {
            TaskResult::CodeGen { files } => {
                let mut out: Vec<TaskGenFile> = Vec::new();
                let mut i: usize = 0;
                while i < files.len()
                    invariant
                        i <= files.len(),
                        out@ == files@.subrange(0, i as int),
                    decreases files.len() - i,
                {
                    out.push(files[i].copy());
                    i = i + 1;
                }
                assert(out@ =~= files@);
                assert(out@.map_values(|f: TaskGenFile| f@) =~= files@.map_values(
                    |f: TaskGenFile| f@,
                ));
                TaskResult::CodeGen { files: out }
            },
            TaskResult::Empty => TaskResult::Empty,
        }
    }
}

/// A copy of a sequence of log lines.
pub fn copy_logs(logs: &Vec<TaskLog>) -> (r: Vec<TaskLog>)
    ensures
        r@ == logs@,
{
    let mut out: Vec<TaskLog> = Vec::new();
    let mut i: usize = 0;
    while i < logs.len()
        invariant
            i <= logs.len(),
            out@ == logs@.subrange(0, i as int),
        decreases logs.len() - i,
    {
        out.push(logs[i].copy());
        i = i + 1;
    }
    assert(out@ =~= logs@);
    out
}

/// Why a task, or an operation on one, did not succeed.
#[derive(Debug, Clone)]
pub enum TaskError {
    /// No language-model provider is configured.
    ConfigMissing,
    /// A collaborator (the agent, the context source, the configuration
    /// store) failed; its own message.
    Provider(String),
    /// The intent classifier answered with something other than one of its
    /// three tokens; the answer, trimmed.
    InvalidIntent(String),
    /// The question is not a code-generation request.
    UnsupportedIntent,
    /// The generated reply held no usable list of files.
    MalformedResponse(String),
    /// The task saw its cancellation flag at a checkpoint.
    Cancelled,
    /// No task has the given identifier.
    UnknownTask,
}

pub enum TaskErrorView {
    ConfigMissing,
    Provider(Seq<char>),
    InvalidIntent(Seq<char>),
    UnsupportedIntent,
    MalformedResponse(Seq<char>),
    Cancelled,
    UnknownTask,
}

impl View for TaskError {
    type V = TaskErrorView;

    open spec fn view(&self) -> TaskErrorView {
        match self {
            TaskError::ConfigMissing => TaskErrorView::ConfigMissing,
            TaskError::Provider(m) => TaskErrorView::Provider(m@),
            TaskError::InvalidIntent(t) => TaskErrorView::InvalidIntent(t@),
            TaskError::UnsupportedIntent => TaskErrorView::UnsupportedIntent,
            TaskError::MalformedResponse(m) => TaskErrorView::MalformedResponse(m@),
            TaskError::Cancelled => TaskErrorView::Cancelled,
            TaskError::UnknownTask => TaskErrorView::UnknownTask,
        }
    }
}

pub open spec fn error_text(e: TaskErrorView) -> Seq<char> {
    match e {
        TaskErrorView::ConfigMissing => "当前未配置LLM供应商"@,
        TaskErrorView::Provider(m) => m,
        TaskErrorView::InvalidIntent(t) => "LLM returned invalid intent format: \""@ + t + "\""@,
        TaskErrorView::UnsupportedIntent => "当前不支持该类型的问题处理"@,
        TaskErrorView::MalformedResponse(m) => m,
        TaskErrorView::Cancelled => "任务已被取消"@,
        TaskErrorView::UnknownTask => "Task not found"@,
    }
}

impl TaskError {
    /// The error as text, as it appears in the task's log.
    pub fn message(&self) -> (r: String)
        ensures
            r@ == error_text(self@),
    {
        match self {
            TaskError::ConfigMissing => String::from_str("当前未配置LLM供应商"),
            TaskError::Provider(m) => m.clone(),
            TaskError::InvalidIntent(t) => {
                let mut r = String::from_str("LLM returned invalid intent format: \"");
                r.append(t.as_str());
                r.append("\"");
                r
            },
            TaskError::UnsupportedIntent => String::from_str(
                "当前不支持该类型的问题处理",
            ),
            TaskError::MalformedResponse(m) => m.clone(),
            TaskError::Cancelled => String::from_str("任务已被取消"),
            TaskError::UnknownTask => String::from_str("Task not found"),
        }
    }
}

/// What the store knows of one task.
pub struct TaskInfo {
    pub status: TaskStatus,
    pub logs: Vec<TaskLog>,
    pub task_result: TaskResult,
}

pub struct TaskInfoView {
    pub status: TaskStatus,
    pub logs: Seq<TaskLog>,
    pub result: TaskResultView,
}

impl View for TaskInfo {
    type V = TaskInfoView;

    open spec fn view(&self) -> TaskInfoView {
        TaskInfoView { status: self.status, logs: self.logs@, result: self.task_result@ }
    }
}

/// A task as it stands right after it was submitted.
pub open spec fn pending_info() -> TaskInfoView {
    TaskInfoView { status: TaskStatus::Pending, logs: Seq::empty(), result: TaskResultView::Empty }
}

/// Every known task whose status is not terminal, as it was.
pub open spec fn unfinished(m: Map<Seq<char>, TaskInfoView>) -> Map<Seq<char>, TaskInfoView> {
    Map::new(|k: Seq<char>| m.contains_key(k) && !m[k].status.is_terminal(), |k: Seq<char>| m[k])
}

/// No known task's status moved backwards, nor away from a terminal status.
pub open spec fn statuses_moved_forward(
    before: Map<Seq<char>, TaskInfoView>,
    after: Map<Seq<char>, TaskInfoView>,
) -> bool {
    forall|k: Seq<char>|
        #![auto]
        before.contains_key(k) && after.contains_key(k) ==> before[k].status.advanced(
            after[k].status,
        ) == after[k].status
}

/// The status reached from `s` by a run of requested transitions, applied in
/// order.
pub open spec fn status_after(s: TaskStatus, reqs: Seq<TaskStatus>) -> TaskStatus
    decreases reqs.len(),
{
    if reqs.len() == 0 {
        s
    } else {
        status_after(s, reqs.drop_last()).advanced(reqs.last())
    }
}

/// Statuses move one way, Pending to Running to terminal: along any run of
/// requested transitions a later status never ranks below an earlier one,
/// and once a status is terminal no later request changes it.
pub proof fn status_transitions_are_monotonic(
    s: TaskStatus,
    reqs: Seq<TaskStatus>,
    i: int,
    j: int,
)
    requires
        0 <= i <= j <= reqs.len(),
    ensures
        status_after(s, reqs.subrange(0, i)).rank() <= status_after(s, reqs.subrange(0, j)).rank(),
        status_after(s, reqs.subrange(0, i)).is_terminal() ==> status_after(s, reqs.subrange(0, j))
            == status_after(s, reqs.subrange(0, i)),
    decreases j - i,
{
    if i < j {
        status_transitions_are_monotonic(s, reqs, i, j - 1);
        assert(reqs.subrange(0, j).drop_last() =~= reqs.subrange(0, j - 1));
    }
}

/// `log`, stamped no earlier than the last of `logs`: a clock that stepped
/// back does not reorder a task's logs in time.
pub open spec fn stamped_after(logs: Seq<TaskLog>, log: TaskLog) -> TaskLog {
    if logs.len() > 0 && log.timestamp < logs.last().timestamp {
        TaskLog { timestamp: logs.last().timestamp, ..log }
    } else {
        log
    }
}

/// Every timestamp is no later than those after it.
pub open spec fn timestamps_nondecreasing(logs: Seq<TaskLog>) -> bool {
    forall|i: int, j: int| 0 <= i <= j < logs.len() ==> logs[i].timestamp <= logs[j].timestamp
}

/// Log lines are kept in the order they arrive: an appended line comes after
/// all earlier ones, which stay as they were; and a line stamped no earlier
/// than the last one keeps the timestamps non-decreasing.
pub proof fn logs_keep_arrival_order(logs: Seq<TaskLog>, log: TaskLog)
    requires
        timestamps_nondecreasing(logs),
        logs.len() == 0 || logs.last().timestamp <= log.timestamp,
    ensures
        logs.push(log).subrange(0, logs.len() as int) == logs,
        logs.push(log).last() == log,
        timestamps_nondecreasing(logs.push(log)),
{
    assert(logs.push(log).subrange(0, logs.len() as int) =~= logs);
}

struct TaskSlot {
    id: String,
    info: TaskInfo,
}

spec fn ids_unique(s: Seq<TaskSlot>) -> bool {
    forall|i: int, j: int| 0 <= i < s.len() && 0 <= j < s.len() && i != j ==> s[i].id@ != s[j].id@
}

spec fn slots_logs_ordered(s: Seq<TaskSlot>) -> bool {
    forall|i: int| 0 <= i < s.len() ==> timestamps_nondecreasing(#[trigger] s[i].info.logs@)
}

spec fn has_id(s: Seq<TaskSlot>, k: Seq<char>) -> bool {
    exists|i: int| 0 <= i < s.len() && s[i].id@ == k
}

spec fn slots_map(s: Seq<TaskSlot>) -> Map<Seq<char>, TaskInfoView> {
    Map::new(
        |k: Seq<char>| has_id(s, k),
        |k: Seq<char>| s[choose|i: int| 0 <= i < s.len() && s[i].id@ == k].info@,
    )
}

proof fn lemma_slot_lookup(s: Seq<TaskSlot>, i: int)
    requires
        ids_unique(s),
        0 <= i < s.len(),
    ensures
        slots_map(s).contains_key(s[i].id@),
        slots_map(s)[s[i].id@] == s[i].info@,
{
    let k = s[i].id@;
    assert(has_id(s, k));
    let j = choose|j: int| 0 <= j < s.len() && s[j].id@ == k;
    assert(j == i);
}

proof fn lemma_slot_update(s: Seq<TaskSlot>, i: int, t: TaskSlot)
    requires
        ids_unique(s),
        0 <= i < s.len(),
        t.id@ == s[i].id@,
    ensures
        ids_unique(s.update(i, t)),
        slots_map(s.update(i, t)) == slots_map(s).insert(t.id@, t.info@),
{
    let s2 = s.update(i, t);
    assert(ids_unique(s2));
    assert forall|k: Seq<char>| has_id(s2, k) == has_id(s, k) by {
        if has_id(s, k) {
            let j = choose|j: int| 0 <= j < s.len() && s[j].id@ == k;
            assert(s2[j].id@ == k);
        }
        if has_id(s2, k) {
            let j = choose|j: int| 0 <= j < s2.len() && s2[j].id@ == k;
            assert(s[j].id@ == k);
        }
    }
    assert forall|k: Seq<char>| #[trigger]
        slots_map(s2).contains_key(k) implies slots_map(s2)[k] == slots_map(s).insert(
        t.id@,
        t.info@,
    )[k] by {
        let j = choose|j: int| 0 <= j < s2.len() && s2[j].id@ == k;
        lemma_slot_lookup(s2, j);
        if j != i {
            lemma_slot_lookup(s, j);
        } else {
            lemma_slot_lookup(s, i);
        }
    }
    assert(slots_map(s2) =~= slots_map(s).insert(t.id@, t.info@));
}

proof fn lemma_slot_push(s: Seq<TaskSlot>, t: TaskSlot)
    requires
        ids_unique(s),
        !has_id(s, t.id@),
    ensures
        ids_unique(s.push(t)),
        slots_map(s.push(t)) == slots_map(s).insert(t.id@, t.info@),
{
    let s2 = s.push(t);
    assert(ids_unique(s2));
    assert forall|k: Seq<char>| has_id(s2, k) == (has_id(s, k) || k == t.id@) by {
        if has_id(s, k) {
            let j = choose|j: int| 0 <= j < s.len() && s[j].id@ == k;
            assert(s2[j].id@ == k);
        }
        if k == t.id@ {
            assert(s2[s.len() as int].id@ == k);
        }
    }
    assert forall|k: Seq<char>| #[trigger]
        slots_map(s2).contains_key(k) implies slots_map(s2)[k] == slots_map(s).insert(
        t.id@,
        t.info@,
    )[k] by {
        let j = choose|j: int| 0 <= j < s2.len() && s2[j].id@ == k;
        lemma_slot_lookup(s2, j);
        if j < s.len() {
            lemma_slot_lookup(s, j);
        }
    }
    assert(slots_map(s2) =~= slots_map(s).insert(t.id@, t.info@));
}

/// Relies on `uuid::Uuid::new_v4` written in its hyphenated form: a fresh
/// random identifier. Nothing is promised of its value.
#[verifier::external_body]
fn new_task_id() -> String {
    uuid::Uuid::new_v4().to_string()
}

/// The status, logs and result of every task, keyed by task identifier.
pub struct TaskInfoStore {
    slots: Vec<TaskSlot>,
}

impl View for TaskInfoStore {
    type V = Map<Seq<char>, TaskInfoView>;

    closed spec fn view(&self) -> Map<Seq<char>, TaskInfoView> {
        slots_map(self.slots@)
    }
}

impl TaskInfoStore {
    pub closed spec fn wf(&self) -> bool {
        ids_unique(self.slots@) && slots_logs_ordered(self.slots@)
    }

    /// Every task's logs are in non-decreasing timestamp order.
    pub proof fn logs_are_in_time_order(&self, id: Seq<char>)
        requires
            self.wf(),
            self@.contains_key(id),
        ensures
            timestamps_nondecreasing(self@[id].logs),
    {
        let j = choose|j: int| 0 <= j < self.slots@.len() && self.slots@[j].id@ == id;
        lemma_slot_lookup(self.slots@, j);
    }

    pub fn new() -> (r: TaskInfoStore)
        ensures
            r.wf(),
            r@ == Map::<Seq<char>, TaskInfoView>::empty(),
    {
        let r = TaskInfoStore { slots: Vec::new() };
        assert(r@ =~= Map::<Seq<char>, TaskInfoView>::empty());
        r
    }

    fn find(&self, id: &String) -> (r: Option<usize>)
        requires
            self.wf(),
        ensures
            match r {
                Some(i) => i < self.slots.len() && self.slots@[i as int].id@ == id@,
                None => !self@.contains_key(id@),
            },
    {
        let mut i: usize = 0;
        while i < self.slots.len()
            invariant
                i <= self.slots.len(),
                forall|j: int| 0 <= j < i ==> self.slots@[j].id@ != id@,
            decreases self.slots.len() - i,
        {
            if self.slots[i].id == *id {
                return Some(i);
            }
            i = i + 1;
        }
        None
    }

    proof fn lemma_changed_at(
        before: Seq<TaskSlot>,
        after: Seq<TaskSlot>,
        i: int,
    )
        requires
            ids_unique(before),
            slots_logs_ordered(before),
            0 <= i < before.len(),
            after.len() == before.len(),
            after[i].id@ == before[i].id@,
            timestamps_nondecreasing(after[i].info.logs@),
            forall|j: int| 0 <= j < before.len() && j != i ==> after[j] == before[j],
        ensures
            ids_unique(after),
            slots_logs_ordered(after),
            slots_map(after) == slots_map(before).insert(before[i].id@, after[i].info@),
    {
        assert(after =~= before.update(i, after[i]));
        lemma_slot_update(before, i, after[i]);
        assert forall|j: int| 0 <= j < after.len() implies timestamps_nondecreasing(
            #[trigger] after[j].info.logs@,
        ) by {
            if j != i {
                assert(after[j] == before[j]);
            }
        }
    }

    /// Records a newly submitted task: Pending, with no logs and no result.
    /// An identifier is never reused: one that is already known is refused
    /// (`false`) and the store is left as it is.
    pub fn register(&mut self, id: &str) -> (r: bool)
        requires
            old(self).wf(),
        ensures
            final(self).wf(),
            statuses_moved_forward(old(self)@, final(self)@),
            r == !old(self)@.contains_key(id@),
            final(self)@ == (if r {
                old(self)@.insert(id@, pending_info())
            } else {
                old(self)@
            }),
    {
        let key = id.to_string();
        match self.find(&key) {
            Some(i) => {
                proof {
                    lemma_slot_lookup(self.slots@, i as int);
                }
                false
            },
            None => {
                let slot = TaskSlot {
                    id: key,
                    info: TaskInfo {
                        status: TaskStatus::Pending,
                        logs: Vec::new(),
                        task_result: TaskResult::Empty,
                    },
                };
                proof {
                    if has_id(self.slots@, id@) {
                        let j = choose|j: int|
                            0 <= j < self.slots@.len() && self.slots@[j].id@ == id@;
                        lemma_slot_lookup(self.slots@, j);
                    }
                    lemma_slot_push(self.slots@, slot);
                }
                self.slots.push(slot);
                assert(self@ =~= old(self)@.insert(id@, pending_info()));
                true
            },
        }
    }

    /// Submits a new task under a fresh random identifier and returns it; the
    /// task is Pending, with no logs and no result. Should the identifier
    /// drawn be one already known, nothing is recorded and `None` comes back.
    pub fn submit(&mut self) -> (r: Option<String>)
        requires
            old(self).wf(),
        ensures
            final(self).wf(),
            statuses_moved_forward(old(self)@, final(self)@),
            match r {
                Some(id) => !old(self)@.contains_key(id@) && final(self)@ == old(self)@.insert(
                    id@,
                    pending_info(),
                ),
                None => final(self)@ == old(self)@ && exists|k: Seq<char>| old(self)@.contains_key(k),
            },
    {
        let id = new_task_id();
        if self.register(id.as_str()) {
            Some(id)
        } else {
            None
        }
    }

    /// Moves the task's status as far as `to` allows (see `advanced`); a task
    /// that is not known is left alone.
    pub fn update_task_status(&mut self, id: &str, to: TaskStatus)
        requires
            old(self).wf(),
        ensures
            statuses_moved_forward(old(self)@, final(self)@),
            final(self).wf(),
            final(self)@ == (if old(self)@.contains_key(id@) {
                old(self)@.insert(
                    id@,
                    TaskInfoView { status: old(self)@[id@].status.advanced(to), ..old(self)@[id@] },
                )
            } else {
                old(self)@
            }),
    {
        let key = id.to_string();
        match self.find(&key) {
            Some(i) => {
                let ghost before = self.slots@;
                proof {
                    lemma_slot_lookup(before, i as int);
                }
                let next = self.slots[i].info.status.advance(to);
                self.slots[i].info.status = next;
                proof {
                    Self::lemma_changed_at(before, self.slots@, i as int);
                }
            },
            None => {},
        }
    }

    /// Stores the task's result; a task that is not known is left alone.
    pub fn update_task_result(&mut self, id: &str, result: TaskResult)
        requires
            old(self).wf(),
        ensures
            statuses_moved_forward(old(self)@, final(self)@),
            final(self).wf(),
            final(self)@ == (if old(self)@.contains_key(id@) {
                old(self)@.insert(id@, TaskInfoView { result: result@, ..old(self)@[id@] })
            } else {
                old(self)@
            }),
    {
        let key = id.to_string();
        match self.find(&key) {
            Some(i) => {
                let ghost before = self.slots@;
                proof {
                    lemma_slot_lookup(before, i as int);
                }
                self.slots[i].info.task_result = result;
                proof {
                    Self::lemma_changed_at(before, self.slots@, i as int);
                }
            },
            None => {},
        }
    }

    /// Appends a log line to the task's logs, stamped no earlier than the
    /// line before it (see `stamped_after`); a task that is not known is left
    /// alone.
    pub fn push_log(&mut self, id: &str, log: TaskLog)
        requires
            old(self).wf(),
        ensures
            statuses_moved_forward(old(self)@, final(self)@),
            final(self).wf(),
            final(self)@ == (if old(self)@.contains_key(id@) {
                old(self)@.insert(
                    id@,
                    TaskInfoView {
                        logs: old(self)@[id@].logs.push(stamped_after(old(self)@[id@].logs, log)),
                        ..old(self)@[id@]
                    },
                )
            } else {
                old(self)@
            }),
    {
        let key = id.to_string();
        match self.find(&key) {
            Some(i) => {
                let ghost before = self.slots@;
                proof {
                    lemma_slot_lookup(before, i as int);
                }
                let n = self.slots[i].info.logs.len();
                let stamped = if n > 0 && log.timestamp < self.slots[i].info.logs[n - 1].timestamp {
                    TaskLog {
                        timestamp: self.slots[i].info.logs[n - 1].timestamp,
                        message: log.message,
                        level: log.level,
                    }
                } else {
                    log
                };
                proof {
                    logs_keep_arrival_order(before[i as int].info.logs@, stamped);
                }
                self.slots[i].info.logs.push(stamped);
                proof {
                    Self::lemma_changed_at(before, self.slots@, i as int);
                }
            },
            None => {},
        }
    }

    /// Whether the task is known and its status is terminal; `false` for an
    /// unknown identifier.
    pub fn is_finished(&self, id: &str) -> (r: bool)
        requires
            self.wf(),
        ensures
            r == (self@.contains_key(id@) && self@[id@].status.is_terminal()),
    {
        let key = id.to_string();
        match self.find(&key) {
            Some(i) => {
                proof {
                    lemma_slot_lookup(self.slots@, i as int);
                }
                self.slots[i].info.status.is_terminal()
            },
            None => false,
        }
    }

    /// The task's status, or `None` for an unknown identifier.
    pub fn status(&self, id: &str) -> (r: Option<TaskStatus>)
        requires
            self.wf(),
        ensures
            r == (if self@.contains_key(id@) {
                Some(self@[id@].status)
            } else {
                None
            }),
    {
        let key = id.to_string();
        match self.find(&key) {
            Some(i) => {
                proof {
                    lemma_slot_lookup(self.slots@, i as int);
                }
                Some(self.slots[i].info.status)
            },
            None => None,
        }
    }

    /// A snapshot of the task's logs in the order they arrived, or `None` for
    /// an unknown identifier.
    pub fn logs(&self, id: &str) -> (r: Option<Vec<TaskLog>>)
        requires
            self.wf(),
        ensures
            r is Some <==> self@.contains_key(id@),
            r is Some ==> r->0@ == self@[id@].logs,
    {
        let key = id.to_string();
        match self.find(&key) {
            Some(i) => {
                proof {
                    lemma_slot_lookup(self.slots@, i as int);
                }
                Some(copy_logs(&self.slots[i].info.logs))
            },
            None => None,
        }
    }

    /// A snapshot of the task's result, or `None` for an unknown identifier.
    pub fn result(&self, id: &str) -> (r: Option<TaskResult>)
        requires
            self.wf(),
        ensures
            r is Some <==> self@.contains_key(id@),
            r is Some ==> r->0@ == self@[id@].result,
    {
        let key = id.to_string();
        match self.find(&key) {
            Some(i) => {
                proof {
                    lemma_slot_lookup(self.slots@, i as int);
                }
                Some(self.slots[i].info.task_result.copy())
            },
            None => None,
        }
    }

    /// Records how a task's body ended. On success the status moves to
    /// Completed and the result is stored; on failure the status moves to
    /// Failed. A status that is already terminal (a task cancelled while it
    /// ran) stays as it is, but a result is stored all the same. Returns the
    /// closing log line, which the caller delivers after the task's own logs.
    pub fn record_outcome(&mut self, id: &str, outcome: Result<TaskResult, TaskError>) -> (r:
        TaskLog)
        requires
            old(self).wf(),
        ensures
            final(self).wf(),
            statuses_moved_forward(old(self)@, final(self)@),
            match outcome {
                Ok(res) => {
                    &&& final(self)@ == (if old(self)@.contains_key(id@) {
                        old(self)@.insert(
                            id@,
                            TaskInfoView {
                                status: old(self)@[id@].status.advanced(TaskStatus::Completed),
                                result: res@,
                                ..old(self)@[id@]
                            },
                        )
                    } else {
                        old(self)@
                    })
                    &&& r.level == TaskLogLevel::Info
                    &&& r.message@ == "任务执行完成"@
                },
                Err(e) => {
                    &&& final(self)@ == (if old(self)@.contains_key(id@) {
                        old(self)@.insert(
                            id@,
                            TaskInfoView {
                                status: old(self)@[id@].status.advanced(TaskStatus::Failed),
                                ..old(self)@[id@]
                            },
                        )
                    } else {
                        old(self)@
                    })
                    &&& r.level == TaskLogLevel::Error
                    &&& r.message@ == "任务执行失败: "@ + error_text(e@)
                },
            },
    {
        match outcome {
            Ok(res) => {
                self.update_task_status(id, TaskStatus::Completed);
                self.update_task_result(id, res);
                proof {
                    if old(self)@.contains_key(id@) {
                        assert(self@ =~= old(self)@.insert(
                            id@,
                            TaskInfoView {
                                status: old(self)@[id@].status.advanced(TaskStatus::Completed),
                                result: res@,
                                ..old(self)@[id@]
                            },
                        ));
                    }
                }
                TaskLog::new("任务执行完成", TaskLogLevel::Info)
            },
            Err(e) => {
                self.update_task_status(id, TaskStatus::Failed);
                let mut text = String::from_str("任务执行失败: ");
                let m = e.message();
                text.append(m.as_str());
                TaskLog::new(text.as_str(), TaskLogLevel::Error)
            },
        }
    }

    /// Removes every task whose status is terminal at the time of the call,
    /// however long ago it finished; the others stay as they are.
    pub fn sweep_finished(&mut self)
        requires
            old(self).wf(),
        ensures
            final(self).wf(),
            final(self)@ == unfinished(old(self)@),
    {
        let ghost m = self@;
        let mut all: Vec<TaskSlot> = Vec::new();
        std::mem::swap(&mut all, &mut self.slots);
        let ghost src = all@;
        let mut kept: Vec<TaskSlot> = Vec::new();
        while all.len() > 0
            invariant
                ids_unique(src),
                all@.len() <= src.len(),
                all@ == src.subrange(0, all@.len() as int),
                ids_unique(kept@),
                forall|a: int|
                    0 <= a < kept@.len() ==> exists|b: int|
                        all@.len() <= b < src.len() && src[b] == #[trigger] kept@[a]
                            && !src[b].info.status.is_terminal(),
                forall|b: int|
                    all@.len() <= b < src.len() && !src[b].info.status.is_terminal() ==> exists|a: int|
                        0 <= a < kept@.len() && #[trigger] src[b] == kept@[a],
            decreases all@.len(),
        {
            let ghost prev = all@;
            let slot = all.pop().unwrap();
            let ghost idx = all@.len() as int;
            assert(prev[idx] == src[idx]);
            assert(all@ =~= src.subrange(0, idx));
            if !slot.info.status.is_terminal() {
                proof {
                    assert forall|a: int| 0 <= a < kept@.len() implies kept@[a].id@ != slot.id@ by {
                        let b = choose|b: int|
                            idx < b < src.len() && src[b] == #[trigger] kept@[a]
                                && !src[b].info.status.is_terminal();
                    }
                }
                let ghost before = kept@;
                kept.push(slot);
                proof {
                    assert forall|b: int|
                        idx <= b < src.len() && !src[b].info.status.is_terminal() implies exists|a: int|
                        0 <= a < kept@.len() && #[trigger] src[b] == kept@[a] by {
                        if b == idx {
                            assert(src[b] == kept@[kept@.len() - 1]);
                        } else {
                            let a = choose|a: int| 0 <= a < before.len() && #[trigger] src[b] == before[a];
                            assert(src[b] == kept@[a]);
                        }
                    }
                    assert forall|a: int|
                        0 <= a < kept@.len() implies exists|b: int|
                        idx <= b < src.len() && src[b] == #[trigger] kept@[a]
                            && !src[b].info.status.is_terminal() by {
                        if a == kept@.len() - 1 {
                            assert(src[idx] == kept@[a]);
                        } else {
                            let b = choose|b: int|
                                idx < b < src.len() && src[b] == #[trigger] before[a]
                                    && !src[b].info.status.is_terminal();
                            assert(src[b] == kept@[a]);
                        }
                    }
                }
            }
        }
        proof {
            assert(m == slots_map(src));
            assert forall|k: Seq<char>|
                #[trigger] slots_map(kept@).contains_key(k) == unfinished(m).contains_key(k) by {
                if has_id(kept@, k) {
                    let a = choose|a: int| 0 <= a < kept@.len() && kept@[a].id@ == k;
                    let b = choose|b: int|
                        0 <= b < src.len() && src[b] == #[trigger] kept@[a]
                            && !src[b].info.status.is_terminal();
                    lemma_slot_lookup(src, b);
                }
                if unfinished(m).contains_key(k) {
                    let b = choose|b: int| 0 <= b < src.len() && src[b].id@ == k;
                    lemma_slot_lookup(src, b);
                    let a = choose|a: int| 0 <= a < kept@.len() && #[trigger] src[b] == kept@[a];
                    assert(kept@[a].id@ == k);
                }
            }
            assert forall|k: Seq<char>| #[trigger]
                slots_map(kept@).contains_key(k) implies slots_map(kept@)[k] == unfinished(m)[k] by {
                let a = choose|a: int| 0 <= a < kept@.len() && kept@[a].id@ == k;
                let b = choose|b: int|
                    0 <= b < src.len() && src[b] == #[trigger] kept@[a]
                        && !src[b].info.status.is_terminal();
                lemma_slot_lookup(src, b);
                lemma_slot_lookup(kept@, a);
            }
            assert(slots_map(kept@) =~= unfinished(m));
        }
        self.slots = kept;
    }
}

struct RegistryEntry<T> {
    id: String,
    task: T,
}

spec fn entry_ids_unique<T>(s: Seq<RegistryEntry<T>>) -> bool {
    forall|i: int, j: int| 0 <= i < s.len() && 0 <= j < s.len() && i != j ==> s[i].id@ != s[j].id@
}

spec fn entry_has_id<T>(s: Seq<RegistryEntry<T>>, k: Seq<char>) -> bool {
    exists|i: int| 0 <= i < s.len() && s[i].id@ == k
}

spec fn entries_map<T>(s: Seq<RegistryEntry<T>>) -> Map<Seq<char>, T> {
    Map::new(
        |k: Seq<char>| entry_has_id(s, k),
        |k: Seq<char>| s[choose|i: int| 0 <= i < s.len() && s[i].id@ == k].task,
    )
}

proof fn lemma_entry_lookup<T>(s: Seq<RegistryEntry<T>>, i: int)
    requires
        entry_ids_unique(s),
        0 <= i < s.len(),
    ensures
        entries_map(s).contains_key(s[i].id@),
        entries_map(s)[s[i].id@] == s[i].task,
{
    let k = s[i].id@;
    assert(entry_has_id(s, k));
    let j = choose|j: int| 0 <= j < s.len() && s[j].id@ == k;
    assert(j == i);
}

/// The submitted task instances, keyed by task identifier.
pub struct TaskRegistry<T> {
    entries: Vec<RegistryEntry<T>>,
}

impl<T> View for TaskRegistry<T> {
    type V = Map<Seq<char>, T>;

    closed spec fn view(&self) -> Map<Seq<char>, T> {
        entries_map(self.entries@)
    }
}

impl<T> TaskRegistry<T> {
    pub closed spec fn wf(&self) -> bool {
        entry_ids_unique(self.entries@)
    }

    pub fn new() -> (r: TaskRegistry<T>)
        ensures
            r.wf(),
            r@ == Map::<Seq<char>, T>::empty(),
    {
        let r = TaskRegistry { entries: Vec::new() };
        assert(r@ =~= Map::<Seq<char>, T>::empty());
        r
    }

    fn position(&self, id: &String) -> (r: Option<usize>)
        requires
            self.wf(),
        ensures
            match r {
                Some(i) => i < self.entries.len() && self.entries@[i as int].id@ == id@,
                None => !self@.contains_key(id@),
            },
    {
        let mut i: usize = 0;
        while i < self.entries.len()
            invariant
                i <= self.entries.len(),
                forall|j: int| 0 <= j < i ==> self.entries@[j].id@ != id@,
            decreases self.entries.len() - i,
        {
            if self.entries[i].id == *id {
                return Some(i);
            }
            i = i + 1;
        }
        None
    }

    /// Records `task` under `id`, in place of any task recorded under it.
    pub fn insert(&mut self, id: &str, task: T)
        requires
            old(self).wf(),
        ensures
            final(self).wf(),
            final(self)@ == old(self)@.insert(id@, task),
    {
        let key = id.to_string();
        let ghost before = self.entries@;
        match self.position(&key) {
            Some(i) => {
                let entry = RegistryEntry { id: key, task };
                self.entries.set(i, entry);
                proof {
                    let s2 = self.entries@;
                    assert(entry_ids_unique(s2));
                    assert forall|k: Seq<char>| entry_has_id(s2, k) == entry_has_id(before, k) by {
                        if entry_has_id(before, k) {
                            let j = choose|j: int| 0 <= j < before.len() && before[j].id@ == k;
                            assert(s2[j].id@ == k);
                        }
                        if entry_has_id(s2, k) {
                            let j = choose|j: int| 0 <= j < s2.len() && s2[j].id@ == k;
                            assert(before[j].id@ == k);
                        }
                    }
                    assert forall|k: Seq<char>| #[trigger]
                        entries_map(s2).contains_key(k) implies entries_map(s2)[k]
                        == entries_map(before).insert(id@, task)[k] by {
                        let j = choose|j: int| 0 <= j < s2.len() && s2[j].id@ == k;
                        lemma_entry_lookup(s2, j);
                        if j != i {
                            lemma_entry_lookup(before, j);
                        }
                    }
                    assert(entries_map(s2) =~= entries_map(before).insert(id@, task));
                }
            },
            None => {
                let entry = RegistryEntry { id: key, task };
                self.entries.push(entry);
                proof {
                    let s2 = self.entries@;
                    assert(entry_ids_unique(s2));
                    assert forall|k: Seq<char>|
                        entry_has_id(s2, k) == (entry_has_id(before, k) || k == id@) by {
                        if entry_has_id(before, k) {
                            let j = choose|j: int| 0 <= j < before.len() && before[j].id@ == k;
                            assert(s2[j].id@ == k);
                        }
                        if k == id@ {
                            assert(s2[before.len() as int].id@ == k);
                        }
                    }
                    assert forall|k: Seq<char>| #[trigger]
                        entries_map(s2).contains_key(k) implies entries_map(s2)[k]
                        == entries_map(before).insert(id@, task)[k] by {
                        let j = choose|j: int| 0 <= j < s2.len() && s2[j].id@ == k;
                        lemma_entry_lookup(s2, j);
                        if j < before.len() {
                            lemma_entry_lookup(before, j);
                        }
                    }
                    assert(entries_map(s2) =~= entries_map(before).insert(id@, task));
                }
            },
        }
    }

    /// The task recorded under `id`, if any.
    pub fn get(&self, id: &str) -> (r: Option<&T>)
        requires
            self.wf(),
        ensures
            match r {
                Some(t) => self@.contains_key(id@) && *t == self@[id@],
                None => !self@.contains_key(id@),
            },
    {
        let key = id.to_string();
        match self.position(&key) {
            Some(i) => {
                proof {
                    lemma_entry_lookup(self.entries@, i as int);
                }
                Some(&self.entries[i].task)
            },
            None => None,
        }
    }
}

/// A submitted task as the runner sees it. Starting one is the runtime's
/// business; what every task offers the runner is a cooperative stop.
pub trait Task {
    /// A stop has been asked of the task.
    spec fn stop_requested(&self) -> bool;

    /// Asks the task to stop at its next checkpoint.
    fn cancel(&mut self)
        ensures
            final(self).stop_requested(),
    ;
}

impl<T: Task> TaskRegistry<T> {
    /// Asks the task recorded under `id` to stop; `false`, and nothing done,
    /// where no task is recorded under it.
    pub fn request_stop(&mut self, id: &str) -> (r: bool)
        requires
            old(self).wf(),
        ensures
            final(self).wf(),
            r == old(self)@.contains_key(id@),
            r ==> final(self)@ == old(self)@.insert(id@, final(self)@[id@])
                && final(self)@[id@].stop_requested(),
            !r ==> final(self)@ == old(self)@,
    {
        let key = id.to_string();
        match self.position(&key) {
            Some(i) => {
                let ghost before = self.entries@;
                proof {
                    lemma_entry_lookup(before, i as int);
                }
                self.entries[i].task.cancel();
                proof {
                    let s2 = self.entries@;
                    assert(s2 =~= before.update(i as int, s2[i as int]));
                    assert(entry_ids_unique(s2));
                    assert forall|k: Seq<char>| entry_has_id(s2, k) == entry_has_id(before, k) by {
                        if entry_has_id(before, k) {
                            let j = choose|j: int| 0 <= j < before.len() && before[j].id@ == k;
                            assert(s2[j].id@ == k);
                        }
                        if entry_has_id(s2, k) {
                            let j = choose|j: int| 0 <= j < s2.len() && s2[j].id@ == k;
                            assert(before[j].id@ == k);
                        }
                    }
                    lemma_entry_lookup(s2, i as int);
                    assert forall|k: Seq<char>| #[trigger]
                        entries_map(s2).contains_key(k) implies entries_map(s2)[k]
                        == entries_map(before).insert(id@, entries_map(s2)[id@])[k] by {
                        let j = choose|j: int| 0 <= j < s2.len() && s2[j].id@ == k;
                        lemma_entry_lookup(s2, j);
                        if j != i {
                            lemma_entry_lookup(before, j);
                        }
                    }
                    assert(entries_map(s2) =~= entries_map(before).insert(id@, entries_map(s2)[id@]));
                }
                true
            },
            None => false,
        }
    }
}

/// Cancels the task submitted under `id`: `UnknownTask` where none was;
/// otherwise its status moves to Cancelled right away (a terminal status
/// stays as it is) and the task itself is asked to stop, whether or not it
/// ever looks again.
pub fn cancel_task<T: Task>(
    registry: &mut TaskRegistry<T>,
    infos: &mut TaskInfoStore,
    id: &str,
) -> (r: Result<(), TaskError>)
    requires
        old(registry).wf(),
        old(infos).wf(),
    ensures
        final(registry).wf(),
        final(infos).wf(),
        r is Err <==> !old(registry)@.contains_key(id@),
        r is Err ==> r == Err::<(), TaskError>(TaskError::UnknownTask) && final(infos)@ == old(
            infos,
        )@ && final(registry)@ == old(registry)@,
        r is Ok ==> final(registry)@ == old(registry)@.insert(id@, final(registry)@[id@])
            && final(registry)@[id@].stop_requested(),
        r is Ok ==> final(infos)@ == (if old(infos)@.contains_key(id@) {
            old(infos)@.insert(
                id@,
                TaskInfoView {
                    status: old(infos)@[id@].status.advanced(TaskStatus::Cancelled),
                    ..old(infos)@[id@]
                },
            )
        } else {
            old(infos)@
        }),
{
    if registry.request_stop(id) {
        infos.update_task_status(id, TaskStatus::Cancelled);
        Ok(())
    } else {
        Err(TaskError::UnknownTask)
    }
}

} // verus!
