use chat_to_chat::blocks::{parse_tool_calls, parse_write_blocks};
use chat_to_chat::paths::{checked_existing_path, checked_target_path, AllowedPath};
use chat_to_chat::reports::{read_file_report, write_block_target};
use chat_to_chat::search::GrepSearch;
use chat_to_chat::store::{delete_task, get_task, list_tasks, upsert_task};
use chat_to_chat::model::{DisplayMode, SuccessMode, TaskRecord, TaskStatus};

fn task(id: &str, updated_at: &str, goal: &str) -> TaskRecord {
    TaskRecord {
        id: id.to_string(),
        user_goal: goal.to_string(),
        max_rounds: 1,
        status: TaskStatus::Running,
        success_mode: SuccessMode::Keyword,
        display_mode: DisplayMode::Timeline,
        rounds: vec![],
        final_result: String::new(),
        error: None,
        created_at: updated_at.to_string(),
        updated_at: updated_at.to_string(),
    }
}

#[test]
fn documented_write_block_round_trips() {
    let blocks = parse_write_blocks("<write_file path=\"D:\\example\\output.txt\">\n文件内容\n</write_file>");
    assert_eq!(blocks.len(), 1);
    assert_eq!(blocks[0].path, "D:\\example\\output.txt");
    assert_eq!(blocks[0].content, "文件内容");
    let empty = parse_write_blocks("<write_file path=\"/e\">\n\n</write_file>");
    assert_eq!(empty[0].content, "");
}

#[test]
fn documented_tool_block_round_trips_when_json() {
    let calls = parse_tool_calls("<tool_call name=\"file_info\">\n{\"path\":\"/x\"}\n</tool_call>");
    assert_eq!(calls.len(), 1);
    assert_eq!((calls[0].name.as_str(), calls[0].args.as_str()), ("file_info", "{\"path\":\"/x\"}"));
    assert!(parse_tool_calls("<tool_call name=\"file_info\">\n{path:/x}\n</tool_call>").is_empty());
}

#[test]
fn stored_task_is_read_back_and_deleted_task_is_gone() {
    let mut tasks = vec![task("a", "1", "x"), task("b", "2", "y")];
    upsert_task(&mut tasks, task("b", "3", "z"));
    assert_eq!(get_task(&tasks, "b").unwrap().user_goal, "z");
    delete_task(&mut tasks, "a");
    assert!(get_task(&tasks, "a").is_none());
}

#[test]
fn listing_keeps_order_of_equal_times() {
    let tasks = vec![task("1", "t", "a"), task("2", "u", "b"), task("3", "t", "c"), task("4", "t", "d")];
    let listed = list_tasks(tasks);
    let same: Vec<&str> = listed.iter().filter(|t| t.updated_at == "t").map(|t| t.id.as_str()).collect();
    assert_eq!(same, vec!["1", "3", "4"]);
    assert_eq!(listed[0].id, "2");
}

#[test]
fn only_authorised_paths_pass_the_checks() {
    let allowed = vec![AllowedPath { path: "/ok".into(), is_file: false }];
    for p in ["/ok/a", "/other", "/okay"] {
        let inside = p.starts_with("/ok/");
        assert_eq!(checked_existing_path(Ok(p.into()), true, &allowed).is_ok(), inside);
        assert_eq!(checked_target_path(Ok(p.into()), &allowed).is_ok(), inside);
        assert_eq!(write_block_target(Ok(p.into()), &allowed).is_ok(), inside);
    }
    assert!(checked_target_path(Ok("/ok/a".into()), &[]).is_err());
}

#[test]
fn grep_never_exceeds_its_limit() {
    let mut g = GrepSearch::new("a".into());
    for i in 0..10 {
        g.grep_file(&format!("f{i}"), "a\n".repeat(30).as_bytes());
        assert!(g.hits.len() <= 80);
    }
    assert_eq!(g.hits.len(), 80);
}

#[test]
fn read_window_stays_inside_the_file() {
    let report = read_file_report("f", b"0123456789", 8, 5);
    assert!(report.starts_with("path: f\noffset: 8\nlength: 2\n"));
}
