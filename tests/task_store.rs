use resource2code::task::{
    TaskError, TaskGenFile, TaskInfoStore, TaskLog, TaskLogLevel, TaskResult, TaskStatus,
};
use resource2code::task::TaskRegistry;

fn one_file() -> TaskResult {
    TaskResult::CodeGen {
        files: vec![TaskGenFile {
            name: "A.java".to_string(),
            path: Some("/p/A.java".to_string()),
            content: "class A {}".to_string(),
        }],
    }
}

fn registered(id: &str) -> TaskInfoStore {
    let mut store = TaskInfoStore::new();
    assert!(store.register(id));
    store
}

#[test]
fn new_task_is_pending_and_empty() {
    let store = registered("t1");
    assert_eq!(store.status("t1"), Some(TaskStatus::Pending));
    assert_eq!(store.logs("t1").map(|l| l.len()), Some(0));
    assert!(matches!(store.result("t1"), Some(TaskResult::Empty)));
    assert!(!store.is_finished("t1"));
}

#[test]
fn identifiers_are_not_reused() {
    let mut store = registered("t1");
    store.update_task_status("t1", TaskStatus::Running);
    assert!(!store.register("t1"));
    assert_eq!(store.status("t1"), Some(TaskStatus::Running));
}

#[test]
fn submit_draws_distinct_identifiers() {
    let mut store = TaskInfoStore::new();
    let a = store.submit().unwrap();
    let b = store.submit().unwrap();
    assert_ne!(a, b);
    assert_eq!(a.len(), 36);
    assert_eq!(store.status(&a), Some(TaskStatus::Pending));
    assert_eq!(store.status(&b), Some(TaskStatus::Pending));
}

#[test]
fn statuses_move_forward_only() {
    let mut store = registered("t");
    store.update_task_status("t", TaskStatus::Running);
    assert_eq!(store.status("t"), Some(TaskStatus::Running));
    store.update_task_status("t", TaskStatus::Pending);
    assert_eq!(store.status("t"), Some(TaskStatus::Running));
    store.update_task_status("t", TaskStatus::Completed);
    assert_eq!(store.status("t"), Some(TaskStatus::Completed));
    store.update_task_status("t", TaskStatus::Failed);
    store.update_task_status("t", TaskStatus::Cancelled);
    store.update_task_status("t", TaskStatus::Running);
    assert_eq!(store.status("t"), Some(TaskStatus::Completed));
}

#[test]
fn is_finished_only_for_terminal_statuses() {
    for (to, finished) in [
        (TaskStatus::Pending, false),
        (TaskStatus::Running, false),
        (TaskStatus::Completed, true),
        (TaskStatus::Cancelled, true),
        (TaskStatus::Failed, true),
    ] {
        let mut store = registered("t");
        store.update_task_status("t", to);
        assert_eq!(store.is_finished("t"), finished);
    }
    assert!(!TaskInfoStore::new().is_finished("unknown"));
}

#[test]
fn unknown_ids_are_absent() {
    let mut store = registered("t");
    assert_eq!(store.status("u"), None);
    assert!(store.logs("u").is_none());
    assert!(store.result("u").is_none());
    store.push_log("u", TaskLog::new("x", TaskLogLevel::Info));
    store.update_task_status("u", TaskStatus::Running);
    assert_eq!(store.status("u"), None);
    assert_eq!(store.logs("t").unwrap().len(), 0);
}

#[test]
fn logs_keep_arrival_order() {
    let mut store = registered("t");
    let mut stamps = Vec::new();
    for (i, m) in ["one", "two", "three"].iter().enumerate() {
        let log = TaskLog { timestamp: 100 + i as u64, message: m.to_string(), level: TaskLogLevel::Info };
        stamps.push(log.timestamp);
        store.push_log("t", log);
    }
    let logs = store.logs("t").unwrap();
    let messages: Vec<&str> = logs.iter().map(|l| l.message.as_str()).collect();
    assert_eq!(messages, vec!["one", "two", "three"]);
    assert!(logs.windows(2).all(|w| w[0].timestamp <= w[1].timestamp));
}

#[test]
fn new_log_lines_carry_a_timestamp() {
    let a = TaskLog::new("first", TaskLogLevel::Warn);
    let b = TaskLog::new("second", TaskLogLevel::Error);
    assert!(a.timestamp > 0);
    assert!(a.timestamp <= b.timestamp);
    assert_eq!(a.message, "first");
    assert_eq!(b.level, TaskLogLevel::Error);
}

#[test]
fn completion_stores_result_and_closing_line() {
    let mut store = registered("t");
    store.update_task_status("t", TaskStatus::Running);
    let closing = store.record_outcome("t", Ok(one_file()));
    assert_eq!(closing.level, TaskLogLevel::Info);
    assert_eq!(closing.message, "任务执行完成");
    assert_eq!(store.status("t"), Some(TaskStatus::Completed));
    match store.result("t") {
        Some(TaskResult::CodeGen { files }) => {
            assert_eq!(files.len(), 1);
            assert_eq!(files[0].name, "A.java");
            assert_eq!(files[0].path.as_deref(), Some("/p/A.java"));
        },
        other => panic!("unexpected result {:?}", other),
    }
}

#[test]
fn failure_sets_failed_and_reports_error_text() {
    let mut store = registered("t");
    store.update_task_status("t", TaskStatus::Running);
    let closing = store.record_outcome("t", Err(TaskError::UnsupportedIntent));
    assert_eq!(closing.level, TaskLogLevel::Error);
    assert_eq!(closing.message, "任务执行失败: 当前不支持该类型的问题处理");
    assert_eq!(store.status("t"), Some(TaskStatus::Failed));
    assert!(matches!(store.result("t"), Some(TaskResult::Empty)));
}

#[test]
fn cancelled_task_that_runs_on_still_gets_its_result() {
    let mut store = registered("t");
    store.update_task_status("t", TaskStatus::Running);
    store.update_task_status("t", TaskStatus::Cancelled);
    assert!(store.is_finished("t"));
    store.record_outcome("t", Ok(one_file()));
    assert_eq!(store.status("t"), Some(TaskStatus::Cancelled));
    assert!(matches!(store.result("t"), Some(TaskResult::CodeGen { .. })));
}

#[test]
fn sweep_removes_finished_tasks_at_the_tick() {
    let mut store = TaskInfoStore::new();
    for id in ["done", "running", "pending", "failed", "cancelled"] {
        assert!(store.register(id));
    }
    store.update_task_status("running", TaskStatus::Running);
    store.update_task_status("failed", TaskStatus::Failed);
    store.update_task_status("cancelled", TaskStatus::Cancelled);
    store.update_task_status("done", TaskStatus::Running);
    store.record_outcome("done", Ok(one_file()));
    // Before the tick a finished task stays queryable.
    assert!(store.is_finished("done"));
    assert!(store.logs("done").is_some());
    assert!(matches!(store.result("done"), Some(TaskResult::CodeGen { .. })));
    store.sweep_finished();
    for id in ["done", "failed", "cancelled"] {
        assert!(store.logs(id).is_none());
        assert!(store.result(id).is_none());
        assert!(!store.is_finished(id));
    }
    assert_eq!(store.status("running"), Some(TaskStatus::Running));
    assert_eq!(store.status("pending"), Some(TaskStatus::Pending));
}

#[test]
fn sweep_of_empty_store() {
    let mut store = TaskInfoStore::new();
    store.sweep_finished();
    assert!(store.status("x").is_none());
}

#[test]
fn error_messages() {
    assert_eq!(TaskError::ConfigMissing.message(), "当前未配置LLM供应商");
    assert_eq!(TaskError::Provider("boom".to_string()).message(), "boom");
    assert_eq!(
        TaskError::InvalidIntent("maybe".to_string()).message(),
        "LLM returned invalid intent format: \"maybe\""
    );
    assert_eq!(TaskError::MalformedResponse("bad".to_string()).message(), "bad");
    assert_eq!(TaskError::Cancelled.message(), "任务已被取消");
    assert_eq!(TaskError::UnknownTask.message(), "Task not found");
}

#[test]
fn registry_records_and_replaces() {
    let mut reg: TaskRegistry<u32> = TaskRegistry::new();
    assert_eq!(reg.get("a"), None);
    reg.insert("a", 1);
    reg.insert("b", 2);
    assert_eq!(reg.get("a"), Some(&1));
    reg.insert("a", 3);
    assert_eq!(reg.get("a"), Some(&3));
    assert_eq!(reg.get("b"), Some(&2));
}

#[test]
fn log_timestamps_never_go_back() {
    let mut store = registered("t");
    for (stamp, m) in [(200u64, "a"), (150, "b"), (300, "c"), (100, "d")] {
        store.push_log("t", TaskLog { timestamp: stamp, message: m.to_string(), level: TaskLogLevel::Info });
    }
    let logs = store.logs("t").unwrap();
    let stamps: Vec<u64> = logs.iter().map(|l| l.timestamp).collect();
    assert_eq!(stamps, vec![200, 200, 300, 300]);
    let messages: Vec<&str> = logs.iter().map(|l| l.message.as_str()).collect();
    assert_eq!(messages, vec!["a", "b", "c", "d"]);
}
