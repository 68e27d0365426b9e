use chat_to_chat::blocks::{parse_tool_calls, parse_write_blocks};
use chat_to_chat::model::{PromptTemplate, SuccessMode};
use chat_to_chat::prompts::{compose_ai2_prompt, detect_success, should_run_round};

#[test]
fn compose_prompt_uses_prefix_content_suffix() {
    let template = PromptTemplate {
        id: "t".into(),
        name: "T".into(),
        prefix: "前缀".into(),
        suffix: "后缀".into(),
    };

    assert_eq!(
        compose_ai2_prompt(&template, "正文", "文件"),
        "前缀\n\n正文\n\n文件\n\n后缀"
    );
}

#[test]
fn max_round_zero_means_unlimited() {
    assert!(should_run_round(1, 0));
    assert!(should_run_round(100, 0));
    assert!(should_run_round(2, 2));
    assert!(!should_run_round(3, 2));
}

#[test]
fn success_modes_are_distinct() {
    assert!(detect_success(
        &SuccessMode::Ai1Judgement,
        &[],
        "",
        "审核结论：成功"
    ));
    assert!(!detect_success(
        &SuccessMode::Ai1Judgement,
        &[],
        "",
        "还没有成功，需要继续"
    ));
    assert!(detect_success(
        &SuccessMode::Keyword,
        &["DONE".to_string()],
        "result: DONE",
        ""
    ));
    assert!(!detect_success(
        &SuccessMode::Manual,
        &["DONE".to_string()],
        "result: DONE",
        "成功"
    ));
}

#[test]
fn parses_ai2_write_blocks() {
    let blocks = parse_write_blocks(
        "done\n<write_file path=\"C:\\\\tmp\\\\a.txt\">\nhello\n</write_file>",
    );

    assert_eq!(blocks.len(), 1);
    assert_eq!(blocks[0].path, "C:\\\\tmp\\\\a.txt");
    assert_eq!(blocks[0].content, "hello");
}

#[test]
fn parses_ai2_tool_calls() {
    let calls = parse_tool_calls(
        "<tool_call name=\"read_file\">\n{\"path\":\"D:\\\\p\\\\a.txt\"}\n</tool_call>",
    );

    assert_eq!(calls.len(), 1);
    assert_eq!(calls[0].name, "read_file");
    // The arguments are kept as written: the JSON text holds the path with
    // escaped backslashes, `D:\\p\\a.txt`.
    assert_eq!(calls[0].args, "{\"path\":\"D:\\\\p\\\\a.txt\"}");
    // Read as JSON, each `\\` escape stands for one backslash, so the path
    // member is `D:\p\a.txt`, not the escaped text.
    let args: serde_json::Value = serde_json::from_str(&calls[0].args).unwrap();
    assert_eq!(args["path"], "D:\\p\\a.txt");
    assert_ne!(args["path"], "D:\\\\p\\\\a.txt");
}
