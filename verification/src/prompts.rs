//! The texts sent to the two models, the success rule, and the small
//! decisions around a chat request.

use vstd::prelude::*;
use crate::json::{json_reply_content, json_reply_text, reply_content_member, reply_text_member};
use crate::model::{ChatMessage, PromptTemplate, ProviderConfig, SuccessMode};
use crate::text::{
    chars_of, contains, decimal, decimal_string, ends_with, is_blank,
    is_whitespace, join, join_strings, push_range, push_str, str_contains, str_contains_char,
    strip_bounds, strip_end, strip_start, string_of_range, strips, trim, trim_str, views, Strip,
};

verus! {

broadcast use vstd::string::group_string_axioms;

// ---------------------------------------------------------------------------
// Prompts
// ---------------------------------------------------------------------------

/// The planning prompt of round `round_index`.
pub open spec fn ai1_prompt(user_goal: Seq<char>, round_index: u32, previous: Seq<char>) -> Seq<
    char,
> {
    if round_index == 1 {
        "用户目标:\n"@ + user_goal + "\n\n请分析需求，给出可以直接交给 AI2 执行的方案。"@
    } else {
        "用户目标:\n"@ + user_goal + "\n\n上一轮 AI2 执行结果:\n"@ + previous
            + "\n\n请审核上一轮结果，给出下一轮可以直接交给 AI2 执行的改进方案。"@
    }
}

/// The review prompt of round `round_index`.
pub open spec fn review_prompt(user_goal: Seq<char>, round_index: u32, ai2_result: Seq<char>) -> Seq<
    char,
> {
    "用户目标:\n"@ + user_goal + "\n\n第 "@ + decimal(round_index as nat) + " 轮 AI2 执行结果:\n"@
        + ai2_result
        + "\n\n请审核结果是否已经达到用户目标。如果达到，请明确写出“成功”；如果没有达到，请明确写出“继续”并说明下一步。"@
}

/// The parts that are not empty, in order.
pub open spec fn non_empty_parts(parts: Seq<Seq<char>>) -> Seq<Seq<char>>
    decreases parts.len(),
{
    if parts.len() == 0 {
        Seq::empty()
    } else if parts.last().len() > 0 {
        non_empty_parts(parts.drop_last()).push(parts.last())
    } else {
        non_empty_parts(parts.drop_last())
    }
}

/// The prompt handed to the executing model: the template prefix, the plan,
/// the local file context and the template suffix, each trimmed, empty ones
/// left out, separated by blank lines.
pub open spec fn ai2_prompt(
    prefix: Seq<char>,
    ai1_content: Seq<char>,
    local_context: Seq<char>,
    suffix: Seq<char>,
) -> Seq<char> {
    join(
        non_empty_parts(seq![trim(prefix), trim(ai1_content), trim(local_context), trim(suffix)]),
        "\n\n"@,
    )
}

/// The planning prompt: the goal, and from the second round on the previous
/// execution result.
pub fn build_ai1_prompt(user_goal: &str, round_index: u32, previous_ai2_result: &str) -> (p: String)
    ensures
        p@ == ai1_prompt(user_goal@, round_index, previous_ai2_result@),
{
    let mut p = String::from_str("用户目标:\n");
    push_str(&mut p, user_goal);
    if round_index == 1 {
        push_str(&mut p, "\n\n请分析需求，给出可以直接交给 AI2 执行的方案。");
    } else {
        push_str(&mut p, "\n\n上一轮 AI2 执行结果:\n");
        push_str(&mut p, previous_ai2_result);
        push_str(&mut p, "\n\n请审核上一轮结果，给出下一轮可以直接交给 AI2 执行的改进方案。");
    }
    p
}

/// The review prompt: the goal, the round number and the execution result.
pub fn build_review_prompt(user_goal: &str, round_index: u32, ai2_result: &str) -> (p: String)
    ensures
        p@ == review_prompt(user_goal@, round_index, ai2_result@),
{
    let mut p = String::from_str("用户目标:\n");
    push_str(&mut p, user_goal);
    push_str(&mut p, "\n\n第 ");
    let n = decimal_string(round_index as u64);
    push_str(&mut p, n.as_str());
    push_str(&mut p, " 轮 AI2 执行结果:\n");
    push_str(&mut p, ai2_result);
    push_str(
        &mut p,
        "\n\n请审核结果是否已经达到用户目标。如果达到，请明确写出“成功”；如果没有达到，请明确写出“继续”并说明下一步。",
    );
    p
}

/// The prompt for the executing model built from the template, the plan and
/// the local file context.
pub fn compose_ai2_prompt(template: &PromptTemplate, ai1_content: &str, local_context: &str) -> (p:
    String)
    ensures
        p@ == ai2_prompt(template.prefix@, ai1_content@, local_context@, template.suffix@),
{
    let ghost trimmed = seq![
        trim(template.prefix@),
        trim(ai1_content@),
        trim(local_context@),
        trim(template.suffix@),
    ];
    let mut kept: Vec<String> = Vec::new();
    let a = trim_str(template.prefix.as_str());
    let b = trim_str(ai1_content);
    let c = trim_str(local_context);
    let d = trim_str(template.suffix.as_str());
    let ghost t1 = trimmed.take(1);
    let ghost t2 = trimmed.take(2);
    let ghost t3 = trimmed.take(3);
    assert(t1.drop_last() == trimmed.take(0));
    assert(t2.drop_last() == t1);
    assert(t3.drop_last() == t2);
    assert(trimmed.drop_last() == t3);
    assert(non_empty_parts(trimmed.take(0)) == Seq::<Seq<char>>::empty());
    if !a.as_str().is_empty() {
        kept.push(a);
    }
    assert(views(kept@) == non_empty_parts(t1));
    if !b.as_str().is_empty() {
        kept.push(b);
    }
    assert(views(kept@) == non_empty_parts(t2));
    if !c.as_str().is_empty() {
        kept.push(c);
    }
    assert(views(kept@) == non_empty_parts(t3));
    if !d.as_str().is_empty() {
        kept.push(d);
    }
    assert(views(kept@) == non_empty_parts(trimmed));
    join_strings(&kept, "\n\n")
}

/// The instructions that teach the executing model the file tools.
pub open spec fn tool_instructions() -> Seq<char> {
    TOOL_INSTRUCTIONS@
}

/// The text of the file-tool instructions.
pub const TOOL_INSTRUCTIONS: &'static str =
    r#"AI2 文件工具能力已启用。你可以像 Codex 一样按需读取、搜索、分析和改写用户授权路径内的文件。

可用工具：
- list_dir: {"path":"绝对路径"}
- read_file: {"path":"绝对路径","offset":0,"length":60000}
- write_file: {"path":"绝对路径","content":"完整文件内容"}
- file_info: {"path":"绝对路径"}
- search_files: {"root":"绝对路径","query":"文件名关键词"}
- grep: {"root":"绝对路径","query":"文本关键词"}
- analyze_pe_basic: {"path":"DLL或EXE绝对路径"}

调用工具时，只输出工具块：
<tool_call name="工具名">
{"path":"D:\\example\\file.txt"}
</tool_call>

工具结果会由后端返回给你。拿到足够信息后，输出最终答案，不要再说“没有文件读取能力”。所有工具都只能访问用户在设置中授权的路径。"#;

/// The instructions that teach the executing model the file tools.
pub fn ai2_tool_instructions() -> (s: &'static str)
    ensures
        s@ == tool_instructions(),
{
    TOOL_INSTRUCTIONS
}

// ---------------------------------------------------------------------------
// Success and round limits
// ---------------------------------------------------------------------------

/// `keyword`, trimmed, is not empty and occurs in the result or the review.
pub open spec fn keyword_matches(keyword: Seq<char>, ai2_result: Seq<char>, ai1_review: Seq<char>) -> bool {
    &&& trim(keyword).len() > 0
    &&& (contains(ai2_result, trim(keyword)) || contains(ai1_review, trim(keyword)))
}

/// Some keyword matches the result or the review.
pub open spec fn keyword_hit(keywords: Seq<String>, ai2_result: Seq<char>, ai1_review: Seq<char>) -> bool {
    exists|i: int| 0 <= i < keywords.len() && keyword_matches(#[trigger] keywords[i]@, ai2_result, ai1_review)
}

/// Whether a round succeeded under `mode`.
pub open spec fn succeeded(
    mode: SuccessMode,
    keywords: Seq<String>,
    ai2_result: Seq<char>,
    ai1_review: Seq<char>,
) -> bool {
    match mode {
        SuccessMode::Manual => false,
        SuccessMode::Ai1Judgement => ai1_review.contains('成') && ai1_review.contains('功')
            && !contains(ai1_review, "继续"@),
        SuccessMode::Keyword => keyword_hit(keywords, ai2_result, ai1_review),
    }
}

/// Whether a round succeeded. In `Manual` mode never. In `Ai1Judgement`
/// mode when the review contains both 成 and 功 and not 继续. In `Keyword`
/// mode when a non-blank keyword occurs in the result or the review.
pub fn detect_success(mode: &SuccessMode, keywords: &[String], ai2_result: &str, ai1_review: &str) -> (b:
    bool)
    ensures
        b == succeeded(*mode, keywords@, ai2_result@, ai1_review@),
{
    match *mode {
        SuccessMode::Manual => false,
        SuccessMode::Ai1Judgement => {
            str_contains_char(ai1_review, '成') && str_contains_char(ai1_review, '功')
                && !str_contains(ai1_review, "继续")
        },
        SuccessMode::Keyword => any_keyword_matches(keywords, ai2_result, ai1_review),
    }
}

/// In keyword mode a round succeeds exactly when some configured keyword,
/// trimmed, is not blank and occurs in the execution result or in the
/// review; every keyword of the list counts.
pub proof fn law_keyword_success(keywords: Seq<String>, ai2_result: Seq<char>, ai1_review: Seq<char>)
    ensures
        succeeded(SuccessMode::Keyword, keywords, ai2_result, ai1_review) <==> exists|i: int|
            0 <= i < keywords.len() && trim((#[trigger] keywords[i])@).len() > 0 && (contains(
                ai2_result,
                trim(keywords[i]@),
            ) || contains(ai1_review, trim(keywords[i]@))),
        forall|i: int|
            0 <= i < keywords.len() && trim((#[trigger] keywords[i])@).len() > 0 && contains(
                ai2_result,
                trim(keywords[i]@),
            ) ==> succeeded(SuccessMode::Keyword, keywords, ai2_result, ai1_review),
{
    if succeeded(SuccessMode::Keyword, keywords, ai2_result, ai1_review) {
        let i = choose|i: int|
            0 <= i < keywords.len() && keyword_matches(#[trigger] keywords[i]@, ai2_result, ai1_review);
        assert(0 <= i < keywords.len() && trim(keywords[i]@).len() > 0);
    }
    assert forall|i: int|
        0 <= i < keywords.len() && trim((#[trigger] keywords[i])@).len() > 0 && (contains(
            ai2_result,
            trim(keywords[i]@),
        ) || contains(ai1_review, trim(keywords[i]@))) implies succeeded(
        SuccessMode::Keyword,
        keywords,
        ai2_result,
        ai1_review,
    ) by {
        assert(keyword_matches(keywords[i]@, ai2_result, ai1_review));
    }
}

/// Whether some keyword matches the result or the review.
fn any_keyword_matches(keywords: &[String], ai2_result: &str, ai1_review: &str) -> (b: bool)
    ensures
        b == keyword_hit(keywords@, ai2_result@, ai1_review@),
{
    let mut i: usize = 0;
    while i < keywords.len()
        invariant
            i <= keywords.len(),
            forall|j: int| 0 <= j < i ==> !keyword_matches(#[trigger] keywords@[j]@, ai2_result@, ai1_review@),
        decreases keywords.len() - i,
    {
        let k = trim_str(keywords[i].as_str());
        if !k.as_str().is_empty() {
            if str_contains(ai2_result, k.as_str()) || str_contains(ai1_review, k.as_str()) {
                assert(keyword_matches(keywords@[i as int]@, ai2_result@, ai1_review@));
                return true;
            }
        }
        i += 1;
    }
    false
}

/// Whether round `round_index` may run: always when `max_rounds` is zero,
/// otherwise while the index does not exceed it.
pub fn should_run_round(round_index: u32, max_rounds: u32) -> (b: bool)
    ensures
        b == (max_rounds == 0 || round_index <= max_rounds),
{
    max_rounds == 0 || round_index <= max_rounds
}

// ---------------------------------------------------------------------------
// Chat requests
// ---------------------------------------------------------------------------

/// The chat-completions URL for a base URL.
pub open spec fn endpoint(base_url: Seq<char>) -> Seq<char> {
    let clean = strip_end(trim(base_url), Strip::Slash);
    if ends_with(clean, "/chat/completions"@) {
        clean
    } else {
        clean + "/chat/completions"@
    }
}

/// What is left after stripping a class from the end is a prefix of the
/// text, and does not end with a character of that class.
proof fn lemma_strip_end_prefix(s: Seq<char>, cls: Strip)
    ensures
        strip_end(s, cls).len() <= s.len(),
        strip_end(s, cls) == s.take(strip_end(s, cls).len() as int),
        strip_end(s, cls).len() > 0 ==> !strips(cls, strip_end(s, cls).last()),
    decreases s.len(),
{
    if s.len() > 0 && strips(cls, s.last()) {
        lemma_strip_end_prefix(s.drop_last(), cls);
        let r = strip_end(s.drop_last(), cls);
        assert(s.drop_last().take(r.len() as int) == s.take(r.len() as int));
    } else {
        assert(s.take(s.len() as int) == s);
    }
}

/// What is left after stripping a class from the start does not start with
/// a character of that class.
proof fn lemma_strip_start_first(s: Seq<char>, cls: Strip)
    ensures
        strip_start(s, cls).len() > 0 ==> !strips(cls, strip_start(s, cls)[0]),
    decreases s.len(),
{
    if s.len() > 0 && strips(cls, s[0]) {
        lemma_strip_start_first(s.drop_first(), cls);
    }
}

/// The chat-completions URL always ends with `/chat/completions`, and
/// building it again from itself gives the same URL.
pub proof fn law_endpoint_idempotent(base_url: Seq<char>)
    ensures
        ends_with(endpoint(base_url), "/chat/completions"@),
        endpoint(endpoint(base_url)) == endpoint(base_url),
{
    reveal_strlit("/chat/completions");
    let suffix = "/chat/completions"@;
    let t = trim(base_url);
    let clean = strip_end(t, Strip::Slash);
    let e = endpoint(base_url);
    lemma_strip_start_first(base_url, Strip::Whitespace);
    lemma_strip_end_prefix(strip_start(base_url, Strip::Whitespace), Strip::Whitespace);
    lemma_strip_end_prefix(t, Strip::Slash);
    if clean.len() > 0 {
        assert(clean[0] == t[0]);
        assert(t[0] == strip_start(base_url, Strip::Whitespace)[0]);
        assert(!is_whitespace(clean[0]));
    }
    if !ends_with(clean, suffix) {
        assert((clean + suffix).subrange(clean.len() as int, (clean + suffix).len() as int) == suffix);
        if clean.len() > 0 {
            assert(e[0] == clean[0]);
        }
    }
    // the URL starts with no whitespace and ends with `s`
    assert(e.len() > 0);
    assert(e.last() == suffix.last()) by {
        assert(e.subrange(e.len() - suffix.len(), e.len() as int) == suffix);
        assert(e.last() == e.subrange(e.len() - suffix.len(), e.len() as int)[suffix.len() - 1]);
    }
    assert(!is_whitespace(e[0]));
    assert(!is_whitespace(e.last()));
    assert(strip_start(e, Strip::Whitespace) == e);
    assert(strip_end(e, Strip::Whitespace) == e);
    assert(trim(e) == e);
    assert(strip_end(e, Strip::Slash) == e);
}

/// The chat-completions URL: the trimmed base URL without trailing slashes,
/// with `/chat/completions` appended unless it already ends so.
pub fn chat_endpoint(base_url: &str) -> (url: String)
    ensures
        url@ == endpoint(base_url@),
{
    let v = chars_of(base_url);
    let (a, b) = strip_bounds(&v, 0, v.len(), Strip::Whitespace);
    assert(v@.subrange(0, v@.len() as int) == v@);
    let d = crate::text::strip_end_bound(&v, a, b, Strip::Slash);
    let clean = string_of_range(&v, a, d);
    let tail = "/chat/completions";
    if crate::text::str_ends_with(clean.as_str(), tail) {
        clean
    } else {
        let mut url = clean;
        push_str(&mut url, tail);
        url
    }
}

/// The two messages of a plain chat request.
pub fn call_chat(system_prompt: &str, user_prompt: &str) -> (m: Vec<ChatMessage>)
    ensures
        m@.len() == 2,
        m@[0].role@ == "system"@,
        m@[0].content@ == system_prompt@,
        m@[1].role@ == "user"@,
        m@[1].content@ == user_prompt@,
{
    let mut m = Vec::new();
    m.push(ChatMessage { role: String::from_str("system"), content: String::from_str(system_prompt) });
    m.push(ChatMessage { role: String::from_str("user"), content: String::from_str(user_prompt) });
    m
}

/// Checks that a provider names an endpoint, a key and a model.
pub fn check_provider(provider: &ProviderConfig) -> (r: Result<(), String>)
    ensures
        trim(provider.base_url@).len() == 0 ==> (r matches Err(e) && e@ == provider.name@
            + " 的 base URL 不能为空"@),
        trim(provider.base_url@).len() > 0 && trim(provider.api_key@).len() == 0 ==> (r matches Err(
            e,
        ) && e@ == provider.name@ + " 的 API key 不能为空"@),
        trim(provider.base_url@).len() > 0 && trim(provider.api_key@).len() > 0 && trim(
            provider.model@,
        ).len() == 0 ==> (r matches Err(e) && e@ == provider.name@ + " 的 model 不能为空"@),
        trim(provider.base_url@).len() > 0 && trim(provider.api_key@).len() > 0 && trim(
            provider.model@,
        ).len() > 0 ==> r is Ok,
{
    let mut e = provider.name.clone();
    if is_blank(provider.base_url.as_str()) {
        push_str(&mut e, " 的 base URL 不能为空");
        return Err(e);
    }
    if is_blank(provider.api_key.as_str()) {
        push_str(&mut e, " 的 API key 不能为空");
        return Err(e);
    }
    if is_blank(provider.model.as_str()) {
        push_str(&mut e, " 的 model 不能为空");
        return Err(e);
    }
    Ok(())
}

/// The reply text of a chat response: the message content if the response
/// has one, else the completion text, trimmed; none if that is empty.
pub fn reply_text(message_content: Option<String>, completion_text: Option<String>) -> (r: Option<
    String,
>)
    ensures
        ({
            let chosen = if message_content is Some {
                message_content
            } else {
                completion_text
            };
            match chosen {
                Some(t) => if trim(t@).len() > 0 {
                    r matches Some(s) && s@ == trim(t@)
                } else {
                    r is None
                },
                None => r is None,
            }
        }),
{
    let chosen = match message_content {
        Some(t) => Some(t),
        None => completion_text,
    };
    match chosen {
        Some(t) => {
            let s = trim_str(t.as_str());
            if !s.as_str().is_empty() {
                Some(s)
            } else {
                None
            }
        },
        None => None,
    }
}

/// The outcome of a chat request whose response had status `status`
/// (`status_ok` when it is a success) and the JSON body `body`: an error
/// naming the status and body, else the reply text chosen as `reply_text`
/// chooses it, else an error saying that the body has no usable text.
pub open spec fn chat_outcome(name: Seq<char>, status_ok: bool, status: Seq<char>, body: Seq<char>) -> Result<
    Seq<char>,
    Seq<char>,
> {
    if !status_ok {
        Err(name + " 返回错误 "@ + status + ": "@ + body)
    } else {
        let chosen = match json_reply_content(body) {
            Some(c) => Some(c),
            None => json_reply_text(body),
        };
        match chosen {
            Some(t) => if trim(t).len() > 0 {
                Ok(trim(t))
            } else {
                Err(name + " 响应中没有可用文本: "@ + body)
            },
            None => Err(name + " 响应中没有可用文本: "@ + body),
        }
    }
}

/// The reply of the provider named `provider_name` from the status and the
/// JSON body of its response.
pub fn chat_reply(provider_name: &str, status_ok: bool, status: &str, body: &str) -> (r: Result<String, String>)
    ensures
        crate::paths::result_view(r) == chat_outcome(provider_name@, status_ok, status@, body@),
{
    let mut e = String::from_str(provider_name);
    if !status_ok {
        push_str(&mut e, " 返回错误 ");
        push_str(&mut e, status);
        push_str(&mut e, ": ");
        push_str(&mut e, body);
        return Err(e);
    }
    match reply_text(reply_content_member(body), reply_text_member(body)) {
        Some(t) => Ok(t),
        None => {
            push_str(&mut e, " 响应中没有可用文本: ");
            push_str(&mut e, body);
            Err(e)
        },
    }
}

/// The prompt used to test a provider.
pub fn connection_test_prompt() -> (s: &'static str)
    ensures
        s@ == "请只回复 OK，用于测试模型连接。"@,
{
    "请只回复 OK，用于测试模型连接。"
}

/// The report of a successful provider test: the first 80 characters of the
/// reply.
pub fn connection_success_message(response: &str) -> (s: String)
    ensures
        s@ == "连接成功："@ + response@.take(if response@.len() < 80 {
            response@.len() as int
        } else {
            80
        }),
{
    let v = chars_of(response);
    let n = if v.len() < 80 {
        v.len()
    } else {
        80
    };
    let mut s = String::from_str("连接成功：");
    push_range(&mut s, &v, 0, n);
    assert(v@.subrange(0, n as int) == v@.take(n as int));
    s
}

// ---------------------------------------------------------------------------
// Local writes
// ---------------------------------------------------------------------------

/// The execution result followed by the list of files written, if any.
pub fn append_write_summary(ai2_result: String, summaries: Vec<String>) -> (s: String)
    ensures
        summaries@.len() == 0 ==> s@ == ai2_result@,
        summaries@.len() > 0 ==> s@ == ai2_result@ + "\n\n[本地文件写入结果]\n"@ + join(
            views(summaries@),
            "\n"@,
        ),
{
    if summaries.len() == 0 {
        return ai2_result;
    }
    let mut s = ai2_result;
    push_str(&mut s, "\n\n[本地文件写入结果]\n");
    let joined = join_strings(&summaries, "\n");
    push_str(&mut s, joined.as_str());
    s
}

} // verus!
