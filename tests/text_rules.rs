use resource2code::db::{get_database_ops, DatabaseType};
use resource2code::file::{file_name, find_max_common_suffix, get_normal_components, merge_paths};
use resource2code::llm::agent::{provider_config, remove_think_tags};
use resource2code::llm::extract_json_from_llm_response;
use resource2code::llm::Intent as FirstIntent;
use resource2code::task::TaskError;
use resource2code::text::{trim, trim_quotes};

fn strings(v: &[&str]) -> Vec<String> {
    v.iter().map(|s| s.to_string()).collect()
}

#[test]
fn strip_removes_one_block() {
    assert_eq!(remove_think_tags("A<think>secret</think>B"), "AB");
}

#[test]
fn strip_leaves_text_without_tags() {
    assert_eq!(remove_think_tags("plain text, a < b > c"), "plain text, a < b > c");
    assert_eq!(remove_think_tags(""), "");
}

#[test]
fn strip_unterminated_block_runs_to_end() {
    assert_eq!(remove_think_tags("<think>never closed"), "");
    assert_eq!(remove_think_tags("keep<think>drop"), "keep");
}

#[test]
fn strip_adjacent_blocks() {
    assert_eq!(remove_think_tags("<think>x</think><think>y</think>"), "");
}

#[test]
fn strip_is_case_insensitive() {
    assert_eq!(remove_think_tags("<THINK>secret</Think>B"), "B");
    assert_eq!(remove_think_tags("x<ThInK>y</tHiNk>z"), "xz");
}

#[test]
fn strip_does_not_nest() {
    assert_eq!(remove_think_tags("a<think>b<think>c</think>d</think>e"), "ade");
}

#[test]
fn strip_close_tag_outside_block_is_dropped() {
    assert_eq!(remove_think_tags("a</think>b"), "ab");
}

#[test]
fn strip_keeps_multibyte_text() {
    assert_eq!(remove_think_tags("代码<think>思考</think>生成"), "代码生成");
}

#[test]
fn merge_one_segment_overlap() {
    assert_eq!(merge_paths("/proj/src", "src/Foo.java"), "/proj/src/Foo.java");
}

#[test]
fn merge_no_overlap() {
    assert_eq!(merge_paths("/proj", "a/b.txt"), "/proj/a/b.txt");
}

#[test]
fn merge_two_segment_overlap() {
    assert_eq!(merge_paths("/proj/src", "proj/src/x.go"), "/proj/src/x.go");
}

#[test]
fn merge_full_overlap_returns_root() {
    assert_eq!(merge_paths("/proj/src", "proj/src"), "/proj/src");
}

#[test]
fn merge_edge_roots() {
    assert_eq!(merge_paths("", "a/b.txt"), "a/b.txt");
    assert_eq!(merge_paths("/proj/", "a.txt"), "/proj/a.txt");
    assert_eq!(merge_paths("/", "a.txt"), "/a.txt");
    assert_eq!(merge_paths("/proj", "./x/../y.txt"), "/proj/x/y.txt");
    assert_eq!(merge_paths("/proj", ""), "/proj");
}

#[test]
fn normal_components_skip_root_dots_and_empty() {
    assert_eq!(get_normal_components("/a//b/./c/../d/"), strings(&["a", "b", "c", "d"]));
    assert_eq!(get_normal_components(""), strings(&[]));
    assert_eq!(get_normal_components("..."), strings(&["..."]));
}

#[test]
fn max_common_suffix_picks_largest() {
    let root = strings(&["a", "b", "a", "b"]);
    let sub = strings(&["a", "b", "a", "b", "c"]);
    assert_eq!(find_max_common_suffix(&root, &sub), 4);
    let sub2 = strings(&["b", "c"]);
    assert_eq!(find_max_common_suffix(&root, &sub2), 1);
    assert_eq!(find_max_common_suffix(&root, &strings(&["x"])), 0);
    assert_eq!(find_max_common_suffix(&strings(&[]), &sub), 0);
}

#[test]
fn base_names() {
    assert_eq!(file_name("src/main/User.java"), Some("User.java".to_string()));
    assert_eq!(file_name("a/b/"), Some("b".to_string()));
    assert_eq!(file_name("./a"), Some("a".to_string()));
    assert_eq!(file_name("a/.."), None);
    assert_eq!(file_name("/"), None);
    assert_eq!(file_name(""), None);
    assert_eq!(file_name("."), None);
}

#[test]
fn json_found_between_brackets() {
    let r = extract_json_from_llm_response("Here you go: [{\"a\": 1}] done");
    assert_eq!(r, Some("[{\"a\": 1}]".to_string()));
}

#[test]
fn json_object_when_no_array() {
    let r = extract_json_from_llm_response("x {\"k\": \"v\"} y");
    assert_eq!(r, Some("{\"k\": \"v\"}".to_string()));
}

#[test]
fn json_missing_or_invalid() {
    assert_eq!(extract_json_from_llm_response("no json here"), None);
    assert_eq!(extract_json_from_llm_response("[1,,2]"), None);
    assert_eq!(extract_json_from_llm_response("] then ["), None);
    assert_eq!(extract_json_from_llm_response(""), None);
}

#[test]
fn json_control_characters_cleaned() {
    let raw = "[\"a\u{1}b\"]";
    assert_eq!(extract_json_from_llm_response(raw), Some("[\"ab\"]".to_string()));
}

#[test]
fn trims() {
    assert_eq!(trim("  \t x y \n"), "x y");
    assert_eq!(trim("\u{3000}z\u{a0}"), "z");
    assert_eq!(trim("   "), "");
    assert_eq!(trim_quotes("\"\"CodeGen\""), "CodeGen");
    assert_eq!(trim_quotes("\"\"\""), "");
}

#[test]
fn first_intent_vocabulary() {
    assert_eq!(FirstIntent::parse(" ModifyFile\n"), Some(FirstIntent::ModifyFile));
    assert_eq!(FirstIntent::parse("ExecuteSQL"), Some(FirstIntent::ExecuteSQL));
    assert_eq!(FirstIntent::parse("Other"), Some(FirstIntent::Other));
    assert_eq!(FirstIntent::parse("other"), None);
}

#[test]
fn database_types() {
    assert_eq!(get_database_ops("mysql"), Ok(DatabaseType::MySQL));
    assert_eq!(get_database_ops("postgres"), Ok(DatabaseType::PostgreSQL));
    assert_eq!(get_database_ops("sqlite"), Ok(DatabaseType::SQLite));
    assert_eq!(get_database_ops("sqlserver"), Ok(DatabaseType::SQLServer));
    assert_eq!(get_database_ops("clickhouse"), Ok(DatabaseType::ClickHouse));
    assert_eq!(get_database_ops("oracle"), Err("Unsupported database type: oracle".to_string()));
}

#[test]
fn provider_config_required() {
    assert!(matches!(provider_config(None), Err(TaskError::ConfigMissing)));
    assert_eq!(provider_config(Some("{}".to_string())).ok(), Some("{}".to_string()));
}
