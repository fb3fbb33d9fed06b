//! The code-generation task as a step machine. Each step takes what the
//! outside world answered to the previous action (a model's reply, the
//! assembled context, a parsed file list) and says which log lines to emit,
//! what to do next, and in which state to wait for the answer.

use std::sync::atomic::{AtomicBool, Ordering};
use std::sync::Arc;

use vstd::prelude::*;

use crate::file::{base_name, file_name, merge_paths, merged_path};
use crate::llm::agent::{remove_think_tags, without_reasoning};
use crate::llm::context_builder::CodeGenRequest;
use crate::llm::{extract_json_from_llm_response, extracted_json, FileModifyResult};
use crate::task::{
    GenFileView, Task, TaskError, TaskErrorView, TaskGenFile, TaskLog, TaskLogLevel, TaskResult,
    TaskResultView,
};
use crate::text::{trim, trim_quotes, trim_quotes_spec, trim_spec};

verus! {

/// What a question asks for.
#[derive(Debug, Clone, Copy, PartialEq, Eq, Structural)]
pub enum Intent {
    CodeGen,
    ExecuteSQL,
    Other,
}

/// The intent that `s`, trimmed of white space, names exactly.
pub open spec fn intent_named(s: Seq<char>) -> Option<Intent> {
    if trim_spec(s) == "CodeGen"@ {
        Some(Intent::CodeGen)
    } else if trim_spec(s) == "ExecuteSQL"@ {
        Some(Intent::ExecuteSQL)
    } else if trim_spec(s) == "Other"@ {
        Some(Intent::Other)
    } else {
        None
    }
}

impl Intent {
    /// The intent that `s`, trimmed of white space, names exactly; `None` for
    /// any other text (the tokens are case-sensitive).
    pub fn parse(s: &str) -> (r: Option<Intent>)
        ensures
            r == intent_named(s@),
    {
        let t = trim(s);
        if t == String::from_str("CodeGen") {
            Some(Intent::CodeGen)
        } else if t == String::from_str("ExecuteSQL") {
            Some(Intent::ExecuteSQL)
        } else if t == String::from_str("Other") {
            Some(Intent::Other)
        } else {
            None
        }
    }
}

/// A classifier's answer with white space and then quotes trimmed.
pub open spec fn intent_answer(reply: Seq<char>) -> Seq<char> {
    trim_quotes_spec(trim_spec(reply))
}

/// The intent of a classifier's reply, or the error for a reply that names
/// none.
pub open spec fn classified(reply: Seq<char>) -> Result<Intent, TaskErrorView> {
    match intent_named(intent_answer(reply)) {
        Some(i) => Ok(i),
        None => Err(TaskErrorView::InvalidIntent(intent_answer(reply))),
    }
}

/// Classifies a reply of the intent agent.
pub fn classify_intent(reply: &str) -> (r: Result<Intent, TaskError>)
    ensures
        match r {
            Ok(i) => classified(reply@) == Ok::<Intent, TaskErrorView>(i),
            Err(e) => classified(reply@) == Err::<Intent, TaskErrorView>(e@),
        },
{
    let answer = trim_quotes(trim(reply).as_str());
    match Intent::parse(answer.as_str()) {
        Some(i) => Ok(i),
        None => Err(TaskError::InvalidIntent(answer)),
    }
}

pub open spec fn intent_prompt(question: Seq<char>) -> Seq<char> {
    "Analyze the user's question and determine the intent. \n        Question: \""@ + question
        + "\"\n        \n        Possible intent classifications:\n        1. If the question involves generating or modifying code, respond with exactly \"CodeGen\"\n        2. If the question involves executing SQL queries, respond with exactly \"ExecuteSQL\"\n        3. For all other cases, respond with exactly \"Other\"\n        \n        Important:\n        - Only respond with one of the exact enum values: CodeGen, ExecuteSQL or Other\n        - Do not include any additional text or explanation"@
}

/// The instruction that asks the intent agent to classify `question`.
pub fn build_intent_prompt(question: &str) -> (r: String)
    ensures
        r@ == intent_prompt(question@),
{
    let mut p = String::from_str("Analyze the user's question and determine the intent. \n        Question: \"");
    p.append(question);
    p.append(
        "\"\n        \n        Possible intent classifications:\n        1. If the question involves generating or modifying code, respond with exactly \"CodeGen\"\n        2. If the question involves executing SQL queries, respond with exactly \"ExecuteSQL\"\n        3. For all other cases, respond with exactly \"Other\"\n        \n        Important:\n        - Only respond with one of the exact enum values: CodeGen, ExecuteSQL or Other\n        - Do not include any additional text or explanation",
    );
    p
}

/// The file that one entry of a generation reply becomes: named by its base
/// name (`unknown` where it has none) and placed under `root`.
pub open spec fn generated_file(root: Seq<char>, f: FileModifyResult) -> GenFileView {
    GenFileView {
        name: match base_name(f.file_path@) {
            Some(n) => n,
            None => "unknown"@,
        },
        path: Some(merged_path(root, f.file_path@)),
        content: f.file_content@,
    }
}

pub open spec fn generated_files(root: Seq<char>, fs: Seq<FileModifyResult>) -> Seq<GenFileView> {
    fs.map_values(|f: FileModifyResult| generated_file(root, f))
}

/// The files of a parsed generation reply, in order, placed under
/// `root_dir`.
pub fn build_generated_files(root_dir: &str, results: &Vec<FileModifyResult>) -> (r: Vec<
    TaskGenFile,
>)
    ensures
        r@.map_values(|f: TaskGenFile| f@) == generated_files(root_dir@, results@),
{
    let mut out: Vec<TaskGenFile> = Vec::new();
    let mut i: usize = 0;
    while i < results.len()
        invariant
            i <= results.len(),
            out@.len() == i,
            forall|j: int| 0 <= j < i ==> #[trigger] out@[j]@ == generated_file(root_dir@, results@[j]),
        decreases results.len() - i,
    {
        let f = &results[i];
        let name = match file_name(f.file_path.as_str()) {
            Some(n) => n,
            None => String::from_str("unknown"),
        };
        let path = merge_paths(root_dir, f.file_path.as_str());
        out.push(TaskGenFile { name, path: Some(path), content: f.file_content.clone() });
        i = i + 1;
    }
    assert(out@.map_values(|f: TaskGenFile| f@) =~= generated_files(root_dir@, results@));
    out
}

/// How many replies in a row may fail to hold a file list before the task
/// gives up.
pub const MAX_RETRIES: usize = 3;

/// Where the machine stands: what it waits for next.
pub enum CodeGenStep {
    Start,
    AwaitIntent,
    AwaitContext,
    AwaitGenerator { context: String },
    AwaitReply { failures: usize, context: String },
    AwaitParse { failures: usize, context: String },
    AwaitRoot { files: Vec<FileModifyResult> },
    Done,
}

/// What the outside world answered to the last action.
pub enum CodeGenEvent {
    /// The task starts.
    Begin,
    /// The intent agent's raw reply.
    IntentReply(Result<String, TaskError>),
    /// The assembled context.
    Context(Result<String, TaskError>),
    /// The generation agent is ready, or could not be made.
    GeneratorReady(Result<(), TaskError>),
    /// The generation agent's raw reply.
    Reply(Result<String, TaskError>),
    /// The framed JSON parsed as a file list, or the parser's message.
    Parsed(Result<Vec<FileModifyResult>, String>),
    /// The configured source root, if any.
    RootDir(Result<Option<String>, TaskError>),
}

/// What the outside world is to do next.
pub enum CodeGenAction {
    /// Ask the intent agent, with no system preamble, this prompt.
    ClassifyIntent { prompt: String },
    /// Assemble the context of the request.
    BuildContext,
    /// Make the generation agent, with the file-generation preamble.
    OpenGenerator,
    /// Ask the generation agent this prompt.
    Generate { prompt: String },
    /// Parse this JSON as a list of files.
    Parse { json: String },
    /// Read the configured source root.
    ReadRootDir,
    /// The task is over, with this outcome.
    Finish(Result<TaskResult, TaskError>),
}

/// The outcome of one step: the state to wait in, the log lines to emit in
/// order, and the next action.
pub struct Transition {
    pub state: CodeGenStep,
    pub logs: Vec<TaskLog>,
    pub action: CodeGenAction,
}

/// What a step state holds, with texts as character sequences.
pub enum StepView {
    Start,
    AwaitIntent,
    AwaitContext,
    AwaitGenerator { context: Seq<char> },
    AwaitReply { failures: nat, context: Seq<char> },
    AwaitParse { failures: nat, context: Seq<char> },
    AwaitRoot { files: Seq<FileModifyResult> },
    Done,
}

pub enum EventView {
    Begin,
    IntentReply(Result<Seq<char>, TaskErrorView>),
    Context(Result<Seq<char>, TaskErrorView>),
    GeneratorReady(Result<(), TaskErrorView>),
    Reply(Result<Seq<char>, TaskErrorView>),
    Parsed(Result<Seq<FileModifyResult>, Seq<char>>),
    RootDir(Result<Option<Seq<char>>, TaskErrorView>),
}

pub enum ActionView {
    ClassifyIntent(Seq<char>),
    BuildContext,
    OpenGenerator,
    Generate(Seq<char>),
    Parse(Seq<char>),
    ReadRootDir,
    Finish(Result<TaskResultView, TaskErrorView>),
}

pub struct TransitionView {
    pub state: StepView,
    pub logs: Seq<(TaskLogLevel, Seq<char>)>,
    pub action: ActionView,
}

pub open spec fn text_result_view(r: Result<String, TaskError>) -> Result<Seq<char>, TaskErrorView> {
    match r {
        Ok(s) => Ok(s@),
        Err(e) => Err(e@),
    }
}

impl View for CodeGenStep {
    type V = StepView;

    open spec fn view(&self) -> StepView {
        match self {
            CodeGenStep::Start => StepView::Start,
            CodeGenStep::AwaitIntent => StepView::AwaitIntent,
            CodeGenStep::AwaitContext => StepView::AwaitContext,
            CodeGenStep::AwaitGenerator { context } => StepView::AwaitGenerator { context: context@ },
            CodeGenStep::AwaitReply { failures, context } => StepView::AwaitReply {
                failures: *failures as nat,
                context: context@,
            },
            CodeGenStep::AwaitParse { failures, context } => StepView::AwaitParse {
                failures: *failures as nat,
                context: context@,
            },
            CodeGenStep::AwaitRoot { files } => StepView::AwaitRoot { files: files@ },
            CodeGenStep::Done => StepView::Done,
        }
    }
}

impl View for CodeGenEvent {
    type V = EventView;

    open spec fn view(&self) -> EventView {
        match self {
            CodeGenEvent::Begin => EventView::Begin,
            CodeGenEvent::IntentReply(r) => EventView::IntentReply(text_result_view(*r)),
            CodeGenEvent::Context(r) => EventView::Context(text_result_view(*r)),
            CodeGenEvent::GeneratorReady(r) => EventView::GeneratorReady(
                match r {
                    Ok(_) => Ok(()),
                    Err(e) => Err(e@),
                },
            ),
            CodeGenEvent::Reply(r) => EventView::Reply(text_result_view(*r)),
            CodeGenEvent::Parsed(r) => EventView::Parsed(
                match r {
                    Ok(fs) => Ok(fs@),
                    Err(m) => Err(m@),
                },
            ),
            CodeGenEvent::RootDir(r) => EventView::RootDir(
                match r {
                    Ok(Some(s)) => Ok(Some(s@)),
                    Ok(None) => Ok(None),
                    Err(e) => Err(e@),
                },
            ),
        }
    }
}

impl View for CodeGenAction {
    type V = ActionView;

    open spec fn view(&self) -> ActionView {
        match self {
            CodeGenAction::ClassifyIntent { prompt } => ActionView::ClassifyIntent(prompt@),
            CodeGenAction::BuildContext => ActionView::BuildContext,
            CodeGenAction::OpenGenerator => ActionView::OpenGenerator,
            CodeGenAction::Generate { prompt } => ActionView::Generate(prompt@),
            CodeGenAction::Parse { json } => ActionView::Parse(json@),
            CodeGenAction::ReadRootDir => ActionView::ReadRootDir,
            CodeGenAction::Finish(r) => ActionView::Finish(
                match r {
                    Ok(t) => Ok(t@),
                    Err(e) => Err(e@),
                },
            ),
        }
    }
}

pub open spec fn log_lines(logs: Seq<TaskLog>) -> Seq<(TaskLogLevel, Seq<char>)> {
    logs.map_values(|l: TaskLog| (l.level, l.message@))
}

impl View for Transition {
    type V = TransitionView;

    open spec fn view(&self) -> TransitionView {
        TransitionView { state: self.state@, logs: log_lines(self.logs@), action: self.action@ }
    }
}

pub open spec fn info(m: Seq<char>) -> (TaskLogLevel, Seq<char>) {
    (TaskLogLevel::Info, m)
}

pub open spec fn retry_text(n: nat) -> Seq<char> {
    "LLM回复格式错误，正在重试 ("@ + (if n == 1 {
        "1"@
    } else {
        "2"@
    }) + "/3)"@
}

pub open spec fn malformed_reply_text(reply: Seq<char>) -> Seq<char> {
    "LLM响应格式错误："@ + reply
}

/// The end of the task, with this outcome.
pub open spec fn finish(r: Result<TaskResultView, TaskErrorView>) -> TransitionView {
    TransitionView { state: StepView::Done, logs: Seq::empty(), action: ActionView::Finish(r) }
}

/// A step that emits `logs`: each emission is a cancellation checkpoint, so
/// a cancelled task ends there instead.
pub open spec fn emit(
    cancelled: bool,
    logs: Seq<(TaskLogLevel, Seq<char>)>,
    state: StepView,
    action: ActionView,
) -> TransitionView {
    if cancelled {
        finish(Err(TaskErrorView::Cancelled))
    } else {
        TransitionView { state, logs, action }
    }
}

/// After a reply that held no file list: give up with `err_text` once
/// `MAX_RETRIES` replies in a row have failed, else warn and ask again.
pub open spec fn retry(
    cancelled: bool,
    failures: nat,
    context: Seq<char>,
    err_text: Seq<char>,
) -> TransitionView {
    if failures + 1 >= 3 {
        finish(Err(TaskErrorView::MalformedResponse(err_text)))
    } else {
        emit(
            cancelled,
            seq![
                (TaskLogLevel::Warn, retry_text(failures + 1)),
                info("开始提交问题到LLM"@),
            ],
            StepView::AwaitReply { failures: failures + 1, context },
            ActionView::Generate(context),
        )
    }
}

/// One step of the machine, for a task whose question is `q`, where
/// `cancelled` is what the cancellation checkpoints of the step observe.
pub open spec fn transition(q: Seq<char>, s: StepView, e: EventView, cancelled: bool) -> TransitionView {
    match (s, e) {
        (StepView::Start, EventView::Begin) => emit(
            cancelled,
            seq![info("开始执行代码生成任务"@), info("正在分析用户意图"@)],
            StepView::AwaitIntent,
            ActionView::ClassifyIntent(intent_prompt(q)),
        ),
        (StepView::AwaitIntent, EventView::IntentReply(Err(err))) => finish(Err(err)),
        (StepView::AwaitIntent, EventView::IntentReply(Ok(raw))) => match classified(
            without_reasoning(raw),
        ) {
            Err(err) => finish(Err(err)),
            Ok(Intent::CodeGen) => emit(
                cancelled,
                seq![info("正在构建与问题相关联的上下文"@)],
                StepView::AwaitContext,
                ActionView::BuildContext,
            ),
            Ok(_) => finish(Err(TaskErrorView::UnsupportedIntent)),
        },
        (StepView::AwaitContext, EventView::Context(Err(err))) => finish(Err(err)),
        (StepView::AwaitContext, EventView::Context(Ok(ctx))) => emit(
            cancelled,
            seq![info("上下文已构建完成"@)],
            StepView::AwaitGenerator { context: ctx },
            ActionView::OpenGenerator,
        ),
        (StepView::AwaitGenerator { context }, EventView::GeneratorReady(Err(err))) => finish(
            Err(err),
        ),
        (StepView::AwaitGenerator { context }, EventView::GeneratorReady(Ok(_))) => emit(
            cancelled,
            seq![info("开始提交问题到LLM"@)],
            StepView::AwaitReply { failures: 0, context },
            ActionView::Generate(context),
        ),
        (StepView::AwaitReply { failures, context }, EventView::Reply(Err(err))) => finish(
            Err(err),
        ),
        (StepView::AwaitReply { failures, context }, EventView::Reply(Ok(raw))) => {
            let text = without_reasoning(raw);
            let answered = info("LLM已完成回答"@);
            if cancelled {
                finish(Err(TaskErrorView::Cancelled))
            } else {
                match extracted_json(text) {
                    Some(json) => TransitionView {
                        state: StepView::AwaitParse { failures, context },
                        logs: seq![answered],
                        action: ActionView::Parse(json),
                    },
                    None => {
                        let next = retry(false, failures, context, malformed_reply_text(text));
                        TransitionView { logs: seq![answered] + next.logs, ..next }
                    },
                }
            }
        },
        (StepView::AwaitParse { failures, context }, EventView::Parsed(Err(m))) => retry(
            cancelled,
            failures,
            context,
            m,
        ),
        (StepView::AwaitParse { failures, context }, EventView::Parsed(Ok(files))) => TransitionView {
            state: StepView::AwaitRoot { files },
            logs: Seq::empty(),
            action: ActionView::ReadRootDir,
        },
        (StepView::AwaitRoot { files }, EventView::RootDir(Err(err))) => finish(Err(err)),
        (StepView::AwaitRoot { files }, EventView::RootDir(Ok(root))) => finish(
            Ok(
                TaskResultView::CodeGen {
                    files: generated_files(
                        match root {
                            Some(r) => r,
                            None => Seq::empty(),
                        },
                        files,
                    ),
                },
            ),
        ),
        _ => finish(Err(TaskErrorView::Provider("unexpected event"@))),
    }
}

/// Replies that hold no file list are retried a bounded number of times,
/// whether their JSON could not be framed or the framed JSON did not parse as
/// a file list: after the first and second such reply in a row the task warns
/// and asks again with the same context, counting the failure; after the
/// third it fails with the malformed-response error, with no further warning.
pub proof fn malformed_replies_are_retried_at_most_twice(
    q: Seq<char>,
    failures: nat,
    context: Seq<char>,
    raw: Seq<char>,
    parse_error: Seq<char>,
)
    requires
        extracted_json(without_reasoning(raw)) is None,
    ensures
        ({
            let t = transition(
                q,
                StepView::AwaitReply { failures, context },
                EventView::Reply(Ok(raw)),
                false,
            );
            if failures + 1 < 3 {
                &&& t.state == StepView::AwaitReply { failures: failures + 1, context }
                &&& t.action == ActionView::Generate(context)
                &&& t.logs.len() == 3
                &&& t.logs[1] == (TaskLogLevel::Warn, retry_text(failures + 1))
            } else {
                &&& t.action == ActionView::Finish(
                    Err(TaskErrorView::MalformedResponse(malformed_reply_text(without_reasoning(raw)))),
                )
                &&& t.logs.len() == 1 && t.logs[0].0 == TaskLogLevel::Info
            }
        }),
        ({
            let t = transition(
                q,
                StepView::AwaitParse { failures, context },
                EventView::Parsed(Err(parse_error)),
                false,
            );
            if failures + 1 < 3 {
                &&& t.state == StepView::AwaitReply { failures: failures + 1, context }
                &&& t.action == ActionView::Generate(context)
                &&& t.logs.len() == 2
                &&& t.logs[0] == (TaskLogLevel::Warn, retry_text(failures + 1))
            } else {
                &&& t.action == ActionView::Finish(Err(TaskErrorView::MalformedResponse(parse_error)))
                &&& t.logs.len() == 0
            }
        }),
{
}

fn done(outcome: Result<TaskResult, TaskError>) -> (t: Transition)
    ensures
        t@ == finish(
            match outcome {
                Ok(r) => Ok(r@),
                Err(e) => Err(e@),
            },
        ),
{
    let t = Transition { state: CodeGenStep::Done, logs: Vec::new(), action: CodeGenAction::Finish(outcome) };
    assert(log_lines(t.logs@) =~= Seq::empty());
    t
}

fn emit_step(cancelled: bool, logs: Vec<TaskLog>, state: CodeGenStep, action: CodeGenAction) -> (t:
    Transition)
    ensures
        t@ == emit(cancelled, log_lines(logs@), state@, action@),
{
    if cancelled {
        done(Err(TaskError::Cancelled))
    } else {
        Transition { state, logs, action }
    }
}

fn info_line(message: &str) -> (r: TaskLog)
    ensures
        (r.level, r.message@) == info(message@),
{
    TaskLog::new(message, TaskLogLevel::Info)
}

fn retry_step(
    cancelled: bool,
    failures: usize,
    context: String,
    err_text: String,
    prefix: Vec<TaskLog>,
) -> (t: Transition)
    ensures
        t@ == ({
            let next = retry(cancelled, failures as nat, context@, err_text@);
            TransitionView { logs: log_lines(prefix@) + next.logs, ..next }
        }),
{
    let ghost next = retry(cancelled, failures as nat, context@, err_text@);
    if failures >= MAX_RETRIES - 1 {
        let t = Transition {
            state: CodeGenStep::Done,
            logs: prefix,
            action: CodeGenAction::Finish(Err(TaskError::MalformedResponse(err_text))),
        };
        assert(log_lines(prefix@) + next.logs =~= log_lines(prefix@));
        t
    } else if cancelled {
        let t = Transition {
            state: CodeGenStep::Done,
            logs: prefix,
            action: CodeGenAction::Finish(Err(TaskError::Cancelled)),
        };
        assert(log_lines(prefix@) + next.logs =~= log_lines(prefix@));
        t
    } else {
        let mut warn = String::from_str("LLM回复格式错误，正在重试 (");
        if failures == 0 {
            warn.append("1");
        } else {
            warn.append("2");
        }
        warn.append("/3)");
        let mut logs = prefix;
        let ghost before = logs@;
        logs.push(TaskLog::new(warn.as_str(), TaskLogLevel::Warn));
        logs.push(info_line("开始提交问题到LLM"));
        let prompt = context.clone();
        let t = Transition {
            state: CodeGenStep::AwaitReply { failures: failures + 1, context },
            logs,
            action: CodeGenAction::Generate { prompt },
        };
        assert(log_lines(t.logs@) =~= log_lines(before) + next.logs);
        t
    }
}

fn unexpected() -> (t: Transition)
    ensures
        t@ == finish(Err(TaskErrorView::Provider("unexpected event"@))),
{
    done(Err(TaskError::Provider(String::from_str("unexpected event"))))
}

/// One step of the machine for a task whose question is `question`;
/// `cancelled` is what the step's cancellation checkpoints observe.
pub fn next_step(question: &str, state: CodeGenStep, event: CodeGenEvent, cancelled: bool) -> (r:
    Transition)
    ensures
        r@ == transition(question@, state@, event@, cancelled),
{
    match state {
        CodeGenStep::Start => match event {
            CodeGenEvent::Begin => {
                let logs = vec![
                    info_line("开始执行代码生成任务"),
                    info_line("正在分析用户意图"),
                ];
                assert(log_lines(logs@) =~= seq![
                    info("开始执行代码生成任务"@),
                    info("正在分析用户意图"@),
                ]);
                let prompt = build_intent_prompt(question);
                emit_step(
                    cancelled,
                    logs,
                    CodeGenStep::AwaitIntent,
                    CodeGenAction::ClassifyIntent { prompt },
                )
            },
            _ => unexpected(),
        },
        CodeGenStep::AwaitIntent => match event {
            CodeGenEvent::IntentReply(Err(e)) => done(Err(e)),
            CodeGenEvent::IntentReply(Ok(raw)) => {
                let text = remove_think_tags(raw.as_str());
                match classify_intent(text.as_str()) {
                    Err(e) => done(Err(e)),
                    Ok(Intent::CodeGen) => {
                        let logs = vec![info_line("正在构建与问题相关联的上下文")];
                        assert(log_lines(logs@) =~= seq![
                            info("正在构建与问题相关联的上下文"@),
                        ]);
                        emit_step(cancelled, logs, CodeGenStep::AwaitContext, CodeGenAction::BuildContext)
                    },
                    Ok(_) => done(Err(TaskError::UnsupportedIntent)),
                }
            },
            _ => unexpected(),
        },
        CodeGenStep::AwaitContext => match event {
            CodeGenEvent::Context(Err(e)) => done(Err(e)),
            CodeGenEvent::Context(Ok(context)) => {
                let logs = vec![info_line("上下文已构建完成")];
                assert(log_lines(logs@) =~= seq![info("上下文已构建完成"@)]);
                emit_step(
                    cancelled,
                    logs,
                    CodeGenStep::AwaitGenerator { context },
                    CodeGenAction::OpenGenerator,
                )
            },
            _ => unexpected(),
        },
        CodeGenStep::AwaitGenerator { context } => match event {
            CodeGenEvent::GeneratorReady(Err(e)) => done(Err(e)),
            CodeGenEvent::GeneratorReady(Ok(())) => {
                let logs = vec![info_line("开始提交问题到LLM")];
                assert(log_lines(logs@) =~= seq![info("开始提交问题到LLM"@)]);
                let prompt = context.clone();
                emit_step(
                    cancelled,
                    logs,
                    CodeGenStep::AwaitReply { failures: 0, context },
                    CodeGenAction::Generate { prompt },
                )
            },
            _ => unexpected(),
        },
        CodeGenStep::AwaitReply { failures, context } => match event {
            CodeGenEvent::Reply(Err(e)) => done(Err(e)),
            CodeGenEvent::Reply(Ok(raw)) => {
                let text = remove_think_tags(raw.as_str());
                if cancelled {
                    done(Err(TaskError::Cancelled))
                } else {
                    let logs = vec![info_line("LLM已完成回答")];
                    assert(log_lines(logs@) =~= seq![info("LLM已完成回答"@)]);
                    match extract_json_from_llm_response(text.as_str()) {
                        Some(json) => Transition {
                            state: CodeGenStep::AwaitParse { failures, context },
                            logs,
                            action: CodeGenAction::Parse { json },
                        },
                        None => {
                            let mut m = String::from_str("LLM响应格式错误：");
                            m.append(text.as_str());
                            retry_step(false, failures, context, m, logs)
                        },
                    }
                }
            },
            _ => unexpected(),
        },
        CodeGenStep::AwaitParse { failures, context } => match event {
            CodeGenEvent::Parsed(Err(m)) => {
                let t = retry_step(cancelled, failures, context, m, Vec::new());
                assert(log_lines(Seq::<TaskLog>::empty()) + retry(
                    cancelled,
                    failures as nat,
                    context@,
                    m@,
                ).logs =~= retry(cancelled, failures as nat, context@, m@).logs);
                t
            },
            CodeGenEvent::Parsed(Ok(files)) => {
                let t = Transition {
                    state: CodeGenStep::AwaitRoot { files },
                    logs: Vec::new(),
                    action: CodeGenAction::ReadRootDir,
                };
                assert(log_lines(t.logs@) =~= Seq::empty());
                t
            },
            _ => unexpected(),
        },
        CodeGenStep::AwaitRoot { files } => match event {
            CodeGenEvent::RootDir(Err(e)) => done(Err(e)),
            CodeGenEvent::RootDir(Ok(root)) => {
                let root_dir = match root {
                    Some(r) => r,
                    None => String::new(),
                };
                let generated = build_generated_files(root_dir.as_str(), &files);
                done(Ok(TaskResult::CodeGen { files: generated }))
            },
            _ => unexpected(),
        },
        CodeGenStep::Done => unexpected(),
    }
}

/// A code-generation request, submitted as a task, with its own cooperative
/// cancellation flag.
pub struct CodeGenTask {
    req: CodeGenRequest,
    is_cancelled: Arc<AtomicBool>,
    stop_requested: bool,
}

impl CodeGenTask {
    pub closed spec fn request_spec(&self) -> CodeGenRequest {
        self.req
    }

    pub fn new(req: CodeGenRequest) -> (r: CodeGenTask)
        ensures
            r.request_spec() == req,
            !r.stop_requested(),
    {
        CodeGenTask { req, is_cancelled: Arc::new(AtomicBool::new(false)), stop_requested: false }
    }

    /// A second handle on the same task: the same request and the same
    /// cancellation flag, so that cancelling through one handle stops the
    /// task running through the other.
    pub fn handle(&self) -> (r: CodeGenTask)
        ensures
            !r.stop_requested(),
    {
        CodeGenTask {
            req: self.req.clone(),
            is_cancelled: self.is_cancelled.clone(),
            stop_requested: false,
        }
    }

    pub fn request(&self) -> (r: &CodeGenRequest)
        ensures
            *r == self.request_spec(),
    {
        &self.req
    }

    /// Fails with `Cancelled` once the task has been asked to stop. The flag
    /// is set from elsewhere at any time, so nothing else is known of the
    /// answer.
    pub fn check_cancelled(&self) -> (r: Result<(), TaskError>)
        ensures
            r is Err ==> r->Err_0 == TaskError::Cancelled,
    {
        if self.is_cancelled.load(Ordering::Relaxed) {
            Err(TaskError::Cancelled)
        } else {
            Ok(())
        }
    }

    /// Advances by one step; the checkpoints of the step observe the cancellation flag
    /// once, at the start of the step.
    pub fn advance(&self, state: CodeGenStep, event: CodeGenEvent) -> (r: Transition)
        ensures
            r@ == transition(self.request_spec().question@, state@, event@, false) || r@
                == transition(self.request_spec().question@, state@, event@, true),
    {
        let cancelled = self.check_cancelled().is_err();
        next_step(self.req.question.as_str(), state, event, cancelled)
    }
}

impl Task for CodeGenTask {
    closed spec fn stop_requested(&self) -> bool {
        self.stop_requested
    }

    /// Raises the shared flag. Cancellation is advisory: a step already
    /// under way runs to its end.
    fn cancel(&mut self) {
        self.is_cancelled.store(true, Ordering::Relaxed);
        self.stop_requested = true;
    }
}

} // verus!
