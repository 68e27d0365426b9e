use chat_to_chat::blocks::{keep_parsed, parse_tool_calls, parse_write_blocks, scan_tool_blocks, Ai2ToolCall};
use chat_to_chat::paths::AllowedPath;
use chat_to_chat::tools::{arg_path, arg_string, arg_u64, execute_ai2_tool, ToolRequest};

fn call(name: &str, args: &str) -> Ai2ToolCall {
    Ai2ToolCall { name: name.to_string(), args: args.to_string() }
}

fn allowed() -> Vec<AllowedPath> {
    vec![AllowedPath { path: "/data".to_string(), is_file: false }]
}

#[test]
fn write_blocks_in_order_and_incomplete_tail_ignored() {
    let blocks = parse_write_blocks(
        "<write_file path=\" /a \">\n\nx\n\n</write_file> mid <write_file path=\"/b\">y</write_file><write_file path=\"/c\">z",
    );
    assert_eq!(blocks.len(), 2);
    assert_eq!((blocks[0].path.as_str(), blocks[0].content.as_str()), ("/a", "x"));
    assert_eq!((blocks[1].path.as_str(), blocks[1].content.as_str()), ("/b", "y"));
}

#[test]
fn no_write_block_in_plain_text() {
    assert!(parse_write_blocks("nothing to write").is_empty());
    assert!(parse_write_blocks("<write_file path=\"/a\" no close").is_empty());
}

#[test]
fn tool_calls_with_invalid_json_are_dropped() {
    let input = "<tool_call name=\"grep\">{\"root\":\"/d\",\"query\":\"x\"}</tool_call>\
                 <tool_call name=\"list_dir\">not json</tool_call>\
                 <tool_call name=\" file_info \"> {\"path\":\"/d/f\"} </tool_call>";
    let all = scan_tool_blocks(input);
    assert_eq!(all.len(), 3);
    assert_eq!(all[1].args, "not json");
    let calls = parse_tool_calls(input);
    assert_eq!(calls.len(), 2);
    assert_eq!(calls[0].name, "grep");
    assert_eq!(calls[1].name, "file_info");
    assert_eq!(calls[1].args, "{\"path\":\"/d/f\"}");
}

#[test]
fn keep_parsed_keeps_flagged_calls() {
    let cands = vec![call("a", "1"), call("b", "2"), call("c", "3")];
    let kept = keep_parsed(&cands, &[true, false, true]);
    assert_eq!(kept.iter().map(|c| c.name.as_str()).collect::<Vec<_>>(), vec!["a", "c"]);
}

#[test]
fn json_members_are_read_with_serde_json() {
    assert_eq!(parse_tool_calls("<tool_call name=\"a\">{\"a\":1}</tool_call>").len(), 1);
    assert!(parse_tool_calls("<tool_call name=\"a\">{a:1}</tool_call>").is_empty());
    assert_eq!(arg_string("{\"k\":\"v\\n\"}", "k"), Ok("v\n".to_string()));
    assert!(arg_string("{\"k\":3}", "k").is_err());
    assert_eq!(arg_u64("{\"n\":42}", "n"), Some(42));
    assert_eq!(arg_u64("{\"n\":-1}", "n"), None);
    assert_eq!(arg_u64("oops", "n"), None);
}

#[test]
fn string_arguments_must_be_present_and_not_blank() {
    assert_eq!(arg_string("{\"path\":\"/d\"}", "path"), Ok("/d".to_string()));
    assert_eq!(arg_string("{\"path\":\"  \"}", "path"), Err("工具参数缺少字符串字段: path".to_string()));
    assert_eq!(arg_path("{}", "root"), Err("工具参数缺少字符串字段: root".to_string()));
    assert_eq!(arg_u64("{\"offset\":7}", "offset"), Some(7));
    assert_eq!(arg_u64("{\"offset\":\"7\"}", "offset"), None);
}

#[test]
fn tools_are_refused_without_authorised_paths() {
    let r = execute_ai2_tool(&call("list_dir", "{\"path\":\"/data\"}"), &[]);
    assert_eq!(r.unwrap_err(), "用户还没有授权任何本地路径。请先在设置中选择文件或目录。");
}

#[test]
fn unknown_tool_is_refused() {
    let r = execute_ai2_tool(&call("rm_rf", "{}"), &allowed());
    assert_eq!(r.unwrap_err(), "未知工具: rm_rf");
}

#[test]
fn read_file_defaults_offset_and_length() {
    match execute_ai2_tool(&call("read_file", "{\"path\":\"/data/a\"}"), &allowed()).unwrap() {
        ToolRequest::ReadFile { path, offset, length } => {
            assert_eq!((path.as_str(), offset, length), ("/data/a", 0, 61440));
        }
        other => panic!("unexpected {other:?}"),
    }
    match execute_ai2_tool(&call("read_file", "{\"path\":\"/data/a\",\"offset\":5,\"length\":9}"), &allowed()).unwrap() {
        ToolRequest::ReadFile { offset, length, .. } => assert_eq!((offset, length), (5, 9)),
        other => panic!("unexpected {other:?}"),
    }
}

#[test]
fn each_tool_reads_its_arguments() {
    let a = allowed();
    assert!(matches!(
        execute_ai2_tool(&call("write_file", "{\"path\":\"/data/x\",\"content\":\"hi\"}"), &a).unwrap(),
        ToolRequest::WriteFile { ref path, ref content } if path == "/data/x" && content == "hi"
    ));
    assert_eq!(
        execute_ai2_tool(&call("write_file", "{\"path\":\"/data/x\"}"), &a).unwrap_err(),
        "工具参数缺少字符串字段: content"
    );
    assert!(matches!(
        execute_ai2_tool(&call("search_files", "{\"root\":\"/data\",\"query\":\"q\"}"), &a).unwrap(),
        ToolRequest::SearchFiles { ref root, ref query } if root == "/data" && query == "q"
    ));
    assert!(matches!(
        execute_ai2_tool(&call("grep", "{\"root\":\"/data\",\"query\":\"q\"}"), &a).unwrap(),
        ToolRequest::Grep { .. }
    ));
    assert!(matches!(
        execute_ai2_tool(&call("file_info", "{\"path\":\"/data\"}"), &a).unwrap(),
        ToolRequest::FileInfo { .. }
    ));
    assert!(matches!(
        execute_ai2_tool(&call("analyze_pe_basic", "{\"path\":\"/data/a.exe\"}"), &a).unwrap(),
        ToolRequest::AnalyzePeBasic { .. }
    ));
    assert!(matches!(
        execute_ai2_tool(&call("list_dir", "{\"path\":\"/data\"}"), &a).unwrap(),
        ToolRequest::ListDir { .. }
    ));
}
