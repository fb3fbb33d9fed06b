use resource2code::llm::context_builder::{
    generate_directory_structure, CodeGenRequest, LLMContextBuilder, ResourceKind, ResourceMeta,
};
use resource2code::llm::FileModifyResult;
use resource2code::storage::CodeSample;
use resource2code::task::code_gen_task::{
    build_generated_files, build_intent_prompt, classify_intent, CodeGenAction, CodeGenEvent,
    CodeGenStep, CodeGenTask, Intent, Transition,
};
use resource2code::task::{TaskError, TaskLogLevel, TaskResult};
use resource2code::task::{cancel_task, Task, TaskInfoStore, TaskRegistry, TaskStatus};

fn request(question: &str) -> CodeGenRequest {
    CodeGenRequest {
        question: question.to_string(),
        sample_ids: vec![],
        resources: vec![],
        auto_detect_dir: false,
        current_src_dir: String::new(),
    }
}

const VALID_REPLY: &str = "<think>plan</think>[{\"filePath\": \"src/A.java\", \"fileContent\": \"class A {}\"}]";

/// Drives a task up to its first generation request, collecting its logs.
fn to_first_generation(task: &CodeGenTask, logs: &mut Vec<(TaskLogLevel, String)>) -> Transition {
    let mut t = task.advance(CodeGenStep::Start, CodeGenEvent::Begin);
    collect(&t, logs);
    assert!(matches!(t.action, CodeGenAction::ClassifyIntent { .. }));
    t = task.advance(t.state, CodeGenEvent::IntentReply(Ok(" \"CodeGen\"\n".to_string())));
    collect(&t, logs);
    assert!(matches!(t.action, CodeGenAction::BuildContext));
    t = task.advance(t.state, CodeGenEvent::Context(Ok("the context".to_string())));
    collect(&t, logs);
    assert!(matches!(t.action, CodeGenAction::OpenGenerator));
    t = task.advance(t.state, CodeGenEvent::GeneratorReady(Ok(())));
    collect(&t, logs);
    match &t.action {
        CodeGenAction::Generate { prompt } => assert_eq!(prompt, "the context"),
        _ => panic!("expected a generation request"),
    }
    t
}

fn collect(t: &Transition, logs: &mut Vec<(TaskLogLevel, String)>) {
    for l in &t.logs {
        logs.push((l.level, l.message.clone()));
    }
}

fn warnings(logs: &[(TaskLogLevel, String)]) -> usize {
    logs.iter().filter(|(level, _)| *level == TaskLogLevel::Warn).count()
}

#[test]
fn retry_succeeds_on_third_reply() {
    let task = CodeGenTask::new(request("make a class"));
    let mut logs = Vec::new();
    let mut t = to_first_generation(&task, &mut logs);
    let mut generations = 1;
    for _ in 0..2 {
        t = task.advance(t.state, CodeGenEvent::Reply(Ok("sorry, no json".to_string())));
        collect(&t, &mut logs);
        assert!(matches!(t.action, CodeGenAction::Generate { .. }));
        generations += 1;
    }
    t = task.advance(t.state, CodeGenEvent::Reply(Ok(VALID_REPLY.to_string())));
    collect(&t, &mut logs);
    let json = match &t.action {
        CodeGenAction::Parse { json } => json.clone(),
        _ => panic!("expected a parse request"),
    };
    assert_eq!(json, "[{\"filePath\": \"src/A.java\", \"fileContent\": \"class A {}\"}]");
    let files = vec![FileModifyResult {
        file_path: "src/A.java".to_string(),
        file_content: "class A {}".to_string(),
    }];
    t = task.advance(t.state, CodeGenEvent::Parsed(Ok(files)));
    assert!(matches!(t.action, CodeGenAction::ReadRootDir));
    t = task.advance(t.state, CodeGenEvent::RootDir(Ok(Some("/proj/src".to_string()))));
    match t.action {
        CodeGenAction::Finish(Ok(TaskResult::CodeGen { files })) => {
            assert_eq!(files.len(), 1);
            assert_eq!(files[0].name, "A.java");
            assert_eq!(files[0].path.as_deref(), Some("/proj/src/A.java"));
            assert_eq!(files[0].content, "class A {}");
        },
        _ => panic!("expected success"),
    }
    assert_eq!(generations, 3);
    assert_eq!(warnings(&logs), 2);
    assert!(logs.iter().any(|(_, m)| m == "LLM回复格式错误，正在重试 (1/3)"));
    assert!(logs.iter().any(|(_, m)| m == "LLM回复格式错误，正在重试 (2/3)"));
}

#[test]
fn retry_gives_up_after_three_replies() {
    let task = CodeGenTask::new(request("make a class"));
    let mut logs = Vec::new();
    let mut t = to_first_generation(&task, &mut logs);
    let mut generations = 1;
    loop {
        t = task.advance(t.state, CodeGenEvent::Reply(Ok("not json".to_string())));
        collect(&t, &mut logs);
        match &t.action {
            CodeGenAction::Generate { .. } => generations += 1,
            CodeGenAction::Finish(Err(TaskError::MalformedResponse(m))) => {
                assert_eq!(m, "LLM响应格式错误：not json");
                break;
            },
            _ => panic!("unexpected action"),
        }
    }
    assert_eq!(generations, 3);
    assert_eq!(warnings(&logs), 2);
}

#[test]
fn parse_failures_count_as_retries() {
    let task = CodeGenTask::new(request("q"));
    let mut logs = Vec::new();
    let mut t = to_first_generation(&task, &mut logs);
    for round in 0..3 {
        t = task.advance(t.state, CodeGenEvent::Reply(Ok("[1]".to_string())));
        assert!(matches!(t.action, CodeGenAction::Parse { .. }));
        t = task.advance(t.state, CodeGenEvent::Parsed(Err("expected a map".to_string())));
        collect(&t, &mut logs);
        if round < 2 {
            assert!(matches!(t.action, CodeGenAction::Generate { .. }));
        }
    }
    assert!(matches!(t.action, CodeGenAction::Finish(Err(TaskError::MalformedResponse(_)))));
    assert_eq!(warnings(&logs), 2);
}

#[test]
fn missing_root_dir_places_files_relative() {
    let task = CodeGenTask::new(request("q"));
    let mut logs = Vec::new();
    let mut t = to_first_generation(&task, &mut logs);
    t = task.advance(t.state, CodeGenEvent::Reply(Ok("[]".to_string())));
    let files = vec![FileModifyResult { file_path: String::new(), file_content: "x".to_string() }];
    t = task.advance(t.state, CodeGenEvent::Parsed(Ok(files)));
    t = task.advance(t.state, CodeGenEvent::RootDir(Ok(None)));
    match t.action {
        CodeGenAction::Finish(Ok(TaskResult::CodeGen { files })) => {
            assert_eq!(files[0].name, "unknown");
            assert_eq!(files[0].path.as_deref(), Some(""));
        },
        _ => panic!("expected success"),
    }
}

#[test]
fn cancelled_task_stops_at_next_checkpoint() {
    let task = CodeGenTask::new(request("q"));
    let mut canceller = task.handle();
    let t = task.advance(CodeGenStep::Start, CodeGenEvent::Begin);
    assert_eq!(t.logs.len(), 2);
    assert_eq!(t.logs[0].message, "开始执行代码生成任务");
    assert_eq!(t.logs[1].message, "正在分析用户意图");
    canceller.cancel();
    assert!(matches!(task.check_cancelled(), Err(TaskError::Cancelled)));
    let t = task.advance(t.state, CodeGenEvent::IntentReply(Ok("CodeGen".to_string())));
    assert!(t.logs.is_empty());
    assert!(matches!(t.action, CodeGenAction::Finish(Err(TaskError::Cancelled))));
}

#[test]
fn cancelled_before_start() {
    let mut task = CodeGenTask::new(request("q"));
    assert!(task.check_cancelled().is_ok());
    task.cancel();
    let t = task.advance(CodeGenStep::Start, CodeGenEvent::Begin);
    assert!(t.logs.is_empty());
    assert!(matches!(t.action, CodeGenAction::Finish(Err(TaskError::Cancelled))));
}

#[test]
fn unsupported_and_invalid_intents_fail() {
    let task = CodeGenTask::new(request("q"));
    let t = task.advance(CodeGenStep::Start, CodeGenEvent::Begin);
    let t = task.advance(t.state, CodeGenEvent::IntentReply(Ok("ExecuteSQL".to_string())));
    assert!(matches!(t.action, CodeGenAction::Finish(Err(TaskError::UnsupportedIntent))));

    let t = task.advance(CodeGenStep::Start, CodeGenEvent::Begin);
    let t = task.advance(t.state, CodeGenEvent::IntentReply(Ok(" \"codegen\" ".to_string())));
    match t.action {
        CodeGenAction::Finish(Err(TaskError::InvalidIntent(a))) => assert_eq!(a, "codegen"),
        _ => panic!("expected an invalid intent"),
    }
}

#[test]
fn collaborator_errors_are_fatal() {
    let task = CodeGenTask::new(request("q"));
    let t = task.advance(CodeGenStep::Start, CodeGenEvent::Begin);
    let t = task.advance(t.state, CodeGenEvent::IntentReply(Err(TaskError::ConfigMissing)));
    assert!(matches!(t.action, CodeGenAction::Finish(Err(TaskError::ConfigMissing))));
    assert!(matches!(t.state, CodeGenStep::Done));
    let t = task.advance(t.state, CodeGenEvent::Begin);
    assert!(matches!(t.action, CodeGenAction::Finish(Err(TaskError::Provider(_)))));
}

#[test]
fn intent_classification() {
    assert!(matches!(classify_intent("\"CodeGen\""), Ok(Intent::CodeGen)));
    assert!(matches!(classify_intent("  Other \n"), Ok(Intent::Other)));
    assert!(matches!(classify_intent("\" ExecuteSQL \""), Ok(Intent::ExecuteSQL)));
    assert!(matches!(classify_intent("Code Gen"), Err(TaskError::InvalidIntent(_))));
    assert_eq!(Intent::parse("CodeGen"), Some(Intent::CodeGen));
    assert_eq!(Intent::parse("CODEGEN"), None);
}

#[test]
fn intent_prompt_embeds_question() {
    let p = build_intent_prompt("add a login page");
    assert!(p.contains("Question: \"add a login page\""));
    assert!(p.contains("\"CodeGen\""));
}

#[test]
fn generated_files_are_named_and_placed() {
    let results = vec![
        FileModifyResult { file_path: "proj/src/x.go".to_string(), file_content: "package x".to_string() },
        FileModifyResult { file_path: "a/..".to_string(), file_content: "y".to_string() },
    ];
    let files = build_generated_files("/proj/src", &results);
    assert_eq!(files.len(), 2);
    assert_eq!(files[0].name, "x.go");
    assert_eq!(files[0].path.as_deref(), Some("/proj/src/x.go"));
    assert_eq!(files[1].name, "unknown");
    assert_eq!(files[1].path.as_deref(), Some("/proj/src/a"));
}

#[test]
fn context_is_composed_in_order() {
    let req = CodeGenRequest {
        question: "Q".to_string(),
        sample_ids: vec!["s1".to_string()],
        resources: vec![
            ResourceMeta { resource_type: "table".to_string(), name: "users".to_string(), data: "ds1".to_string() },
            ResourceMeta { resource_type: "file".to_string(), name: "/a/b.rs".to_string(), data: "b.rs".to_string() },
        ],
        auto_detect_dir: true,
        current_src_dir: "/a".to_string(),
    };
    let samples = vec![CodeSample { id: "s1".to_string(), name: "S".to_string(), content: "code".to_string() }];
    let texts = vec!["CREATE TABLE users".to_string(), "fn main() {}".to_string()];
    let dirs = vec!["src".to_string(), "src\\util".to_string()];
    let builder = LLMContextBuilder::new();
    let ctx = builder.build(&req, &samples, &texts, &dirs).unwrap();
    let expected = "#用户问题：\"Q\"\n\n\
##引用代码示例： S\n```\ncode\n```\
##引用数据表schema：users\n```\n##引用数据表schema: CREATE TABLE users\n\n```\
##引用代码文件内容：b.rs\n```\n##引用文件： /a/b.rs\n```\nfn main() {}\n```\n```\
#当前源码目录结构：```\n/src\n/src/util\n```\n";
    assert_eq!(ctx, expected);
}

#[test]
fn context_rejects_unknown_resource_type() {
    let mut req = request("Q");
    req.resources.push(ResourceMeta { resource_type: "image".to_string(), name: "n".to_string(), data: "d".to_string() });
    let texts = vec![String::new()];
    let r = LLMContextBuilder::new().build(&req, &vec![], &texts, &vec![]);
    match r {
        Err(TaskError::Provider(m)) => assert_eq!(m, "Unsupported resource type"),
        _ => panic!("expected an error"),
    }
    assert_eq!(LLMContextBuilder::resource_kind(&req.resources[0]), None);
}

#[test]
fn context_without_extras() {
    let ctx = LLMContextBuilder::new().build(&request("Q"), &vec![], &vec![], &vec![]).unwrap();
    assert_eq!(ctx, "#用户问题：\"Q\"\n\n");
    let r = ResourceMeta { resource_type: "file".to_string(), name: String::new(), data: String::new() };
    assert_eq!(LLMContextBuilder::resource_kind(&r), Some(ResourceKind::File));
}

#[test]
fn empty_directory_tree() {
    assert_eq!(generate_directory_structure(&vec![]), "```\n```\n");
}

#[test]
fn cancel_marks_status_and_raises_flag() {
    let mut registry = TaskRegistry::new();
    let mut infos = TaskInfoStore::new();
    assert!(infos.register("t"));
    registry.insert("t", CodeGenTask::new(request("q")));
    assert!(registry.get("t").unwrap().check_cancelled().is_ok());
    infos.update_task_status("t", TaskStatus::Running);
    assert!(cancel_task(&mut registry, &mut infos, "t").is_ok());
    assert_eq!(infos.status("t"), Some(TaskStatus::Cancelled));
    assert!(matches!(registry.get("t").unwrap().check_cancelled(), Err(TaskError::Cancelled)));
    assert!(matches!(cancel_task(&mut registry, &mut infos, "nope"), Err(TaskError::UnknownTask)));
}

#[test]
fn cancel_after_completion_keeps_completed() {
    let mut registry = TaskRegistry::new();
    let mut infos = TaskInfoStore::new();
    assert!(infos.register("t"));
    registry.insert("t", CodeGenTask::new(request("q")));
    infos.update_task_status("t", TaskStatus::Running);
    infos.record_outcome("t", Ok(TaskResult::Empty));
    assert!(cancel_task(&mut registry, &mut infos, "t").is_ok());
    assert_eq!(infos.status("t"), Some(TaskStatus::Completed));
}

#[test]
fn stop_request_through_registry_reaches_running_task() {
    let running = CodeGenTask::new(request("q"));
    let mut registry = TaskRegistry::new();
    let mut infos = TaskInfoStore::new();
    assert!(infos.register("t"));
    registry.insert("t", running.handle());
    assert!(registry.request_stop("t"));
    assert!(!registry.request_stop("other"));
    assert!(matches!(running.check_cancelled(), Err(TaskError::Cancelled)));
    assert_eq!(infos.status("t"), Some(TaskStatus::Pending));
}

#[test]
fn intent_prompt_keeps_layout() {
    let p = build_intent_prompt("q");
    assert!(p.starts_with("Analyze the user's question and determine the intent. \n        Question: \"q\"\n"));
    assert!(p.ends_with("- Do not include any additional text or explanation"));
}
