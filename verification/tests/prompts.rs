use chat_to_chat::prompts::chat_reply;
use chat_to_chat::model::{ProviderConfig, SuccessMode};
use chat_to_chat::prompts::{
    ai2_tool_instructions, append_write_summary, build_ai1_prompt, build_review_prompt, call_chat,
    chat_endpoint, check_provider, compose_ai2_prompt, connection_success_message, connection_test_prompt,
    detect_success, reply_text, should_run_round,
};
use chat_to_chat::model::PromptTemplate;

fn provider(base_url: &str, api_key: &str, model: &str) -> ProviderConfig {
    ProviderConfig {
        id: "p".to_string(),
        name: "P".to_string(),
        base_url: base_url.to_string(),
        api_key: api_key.to_string(),
        model: model.to_string(),
        temperature_bits: 0.5f32.to_bits(),
    }
}

#[test]
fn first_round_plan_prompt_has_no_previous_result() {
    assert_eq!(
        build_ai1_prompt("写一首诗", 1, "ignored"),
        "用户目标:\n写一首诗\n\n请分析需求，给出可以直接交给 AI2 执行的方案。"
    );
}

#[test]
fn later_round_plan_prompt_carries_previous_result() {
    assert_eq!(
        build_ai1_prompt("goal", 2, "prev"),
        "用户目标:\ngoal\n\n上一轮 AI2 执行结果:\nprev\n\n请审核上一轮结果，给出下一轮可以直接交给 AI2 执行的改进方案。"
    );
}

#[test]
fn review_prompt_numbers_the_round() {
    assert_eq!(
        build_review_prompt("goal", 12, "out"),
        "用户目标:\ngoal\n\n第 12 轮 AI2 执行结果:\nout\n\n请审核结果是否已经达到用户目标。如果达到，请明确写出“成功”；如果没有达到，请明确写出“继续”并说明下一步。"
    );
}

#[test]
fn compose_prompt_trims_and_drops_empty_parts() {
    let template = PromptTemplate {
        id: "t".into(),
        name: "T".into(),
        prefix: "  ".into(),
        suffix: "\n尾\n".into(),
    };
    assert_eq!(compose_ai2_prompt(&template, "  计划 ", ""), "计划\n\n尾");
    let empty = PromptTemplate { id: "e".into(), name: "E".into(), prefix: String::new(), suffix: String::new() };
    assert_eq!(compose_ai2_prompt(&empty, " ", "\t"), "");
}

#[test]
fn keyword_success_uses_trimmed_nonblank_keywords() {
    let keywords = vec!["  ".to_string(), " OK ".to_string()];
    assert!(detect_success(&SuccessMode::Keyword, &keywords, "", "review says OK"));
    assert!(!detect_success(&SuccessMode::Keyword, &keywords, "nothing", "here"));
    assert!(!detect_success(&SuccessMode::Keyword, &["  ".to_string()], "anything", "at all"));
}

#[test]
fn judgement_needs_both_characters_and_no_continue() {
    assert!(detect_success(&SuccessMode::Ai1Judgement, &[], "", "功能完成"));
    assert!(!detect_success(&SuccessMode::Ai1Judgement, &[], "成功", "未完成"));
    assert!(!detect_success(&SuccessMode::Ai1Judgement, &[], "", "成功了，但请继续"));
}

#[test]
fn round_limit_boundaries() {
    assert!(should_run_round(u32::MAX, 0));
    assert!(should_run_round(1, 1));
    assert!(!should_run_round(2, 1));
}

#[test]
fn endpoint_is_appended_once() {
    assert_eq!(chat_endpoint(" https://api.openai.com/v1/ "), "https://api.openai.com/v1/chat/completions");
    assert_eq!(chat_endpoint("http://h/v1/chat/completions//"), "http://h/v1/chat/completions");
    assert_eq!(chat_endpoint(""), "/chat/completions");
}

#[test]
fn chat_has_system_then_user_message() {
    let m = call_chat("sys", "usr");
    assert_eq!(m.len(), 2);
    assert_eq!((m[0].role.as_str(), m[0].content.as_str()), ("system", "sys"));
    assert_eq!((m[1].role.as_str(), m[1].content.as_str()), ("user", "usr"));
}

#[test]
fn provider_checks_name_the_missing_field() {
    assert_eq!(check_provider(&provider(" ", "k", "m")), Err("P 的 base URL 不能为空".to_string()));
    assert_eq!(check_provider(&provider("u", "", "m")), Err("P 的 API key 不能为空".to_string()));
    assert_eq!(check_provider(&provider("u", "k", "\t")), Err("P 的 model 不能为空".to_string()));
    assert_eq!(check_provider(&provider("u", "k", "m")), Ok(()));
}

#[test]
fn reply_text_prefers_message_content() {
    assert_eq!(reply_text(Some(" hi ".into()), Some("other".into())), Some("hi".to_string()));
    assert_eq!(reply_text(None, Some(" text ".into())), Some("text".to_string()));
    assert_eq!(reply_text(Some("  ".into()), Some("text".into())), None);
    assert_eq!(reply_text(None, None), None);
}

#[test]
fn connection_message_keeps_eighty_characters() {
    assert_eq!(connection_test_prompt(), "请只回复 OK，用于测试模型连接。");
    assert_eq!(connection_success_message("OK"), "连接成功：OK");
    let long: String = "字".repeat(100);
    assert_eq!(connection_success_message(&long), format!("连接成功：{}", "字".repeat(80)));
}

#[test]
fn write_summary_is_appended_only_when_files_were_written() {
    assert_eq!(append_write_summary("r".into(), vec![]), "r");
    assert_eq!(
        append_write_summary("r".into(), vec!["a".into(), "b".into()]),
        "r\n\n[本地文件写入结果]\na\nb"
    );
}

#[test]
fn tool_instructions_list_the_tools() {
    let text = ai2_tool_instructions();
    for tool in ["list_dir", "read_file", "write_file", "file_info", "search_files", "grep", "analyze_pe_basic"] {
        assert!(text.contains(tool), "{tool}");
    }
}

#[test]
fn endpoint_of_an_endpoint_is_itself() {
    for base in ["https://h/v1/", " x ", "", "http://h/chat/completions", "a///"] {
        let once = chat_endpoint(base);
        assert!(once.ends_with("/chat/completions"));
        assert_eq!(chat_endpoint(&once), once);
    }
}

#[test]
fn chat_reply_reads_status_and_body() {
    assert_eq!(
        chat_reply("P", false, "404 Not Found", "{\"error\":\"x\"}"),
        Err("P 返回错误 404 Not Found: {\"error\":\"x\"}".to_string())
    );
    assert_eq!(
        chat_reply("P", true, "200 OK", "{\"choices\":[{\"message\":{\"content\":\" hi \"}}]}"),
        Ok("hi".to_string())
    );
    assert_eq!(chat_reply("P", true, "200 OK", "{\"choices\":[{\"text\":\"t\"}]}"), Ok("t".to_string()));
    assert_eq!(
        chat_reply("P", true, "200 OK", "{\"choices\":[{\"message\":{\"content\":\"  \"},\"text\":\"t\"}]}"),
        Err("P 响应中没有可用文本: {\"choices\":[{\"message\":{\"content\":\"  \"},\"text\":\"t\"}]}".to_string())
    );
    assert_eq!(chat_reply("P", true, "200 OK", "{}"), Err("P 响应中没有可用文本: {}".to_string()));
}
