//! The data the application stores and exchanges: model providers, role and
//! template settings, task records and their rounds.

use vstd::prelude::*;

verus! {

/// One OpenAI-compatible chat endpoint.
#[derive(Clone, Debug)]
pub struct ProviderConfig {
    pub id: String,
    pub name: String,
    pub base_url: String,
    pub api_key: String,
    pub model: String,
    /// The sampling temperature, held as the IEEE-754 single-precision bit
    /// pattern of the `f32` value sent to the endpoint.
    pub temperature_bits: u32,
}

/// Which provider plays each role, and each role's system prompt.
#[derive(Clone, Debug)]
pub struct RoleConfig {
    pub ai1_provider_id: String,
    pub ai2_provider_id: String,
    pub ai1_system_prompt: String,
    pub ai2_system_prompt: String,
}

/// Text wrapped around the plan that is handed to the executing model.
#[derive(Clone, Debug)]
pub struct PromptTemplate {
    pub id: String,
    pub name: String,
    pub prefix: String,
    pub suffix: String,
}

/// How the interface lays out a task's rounds.
#[derive(Clone, Copy, Debug, PartialEq, Eq, Structural)]
pub enum DisplayMode {
    Dual,
    Timeline,
    Focus,
}

/// How a round is judged successful.
#[derive(Clone, Copy, Debug, PartialEq, Eq, Structural)]
pub enum SuccessMode {
    /// The reviewing model says so.
    Ai1Judgement,
    /// Only the user decides, by stopping the task.
    Manual,
    /// A configured keyword appears in the result or the review.
    Keyword,
}

/// The interface colour theme.
#[derive(Clone, Copy, Debug, PartialEq, Eq, Structural)]
pub enum ThemeMode {
    Dark,
    Light,
}

/// Everything the user configures.
#[derive(Clone, Debug)]
pub struct Settings {
    pub providers: Vec<ProviderConfig>,
    pub role_config: RoleConfig,
    pub templates: Vec<PromptTemplate>,
    pub active_template_id: String,
    pub ai2_local_paths: Vec<String>,
    pub display_mode: DisplayMode,
    pub success_mode: SuccessMode,
    pub success_keywords: Vec<String>,
    pub theme: ThemeMode,
}

/// Where a task stands.
#[derive(Clone, Copy, Debug, PartialEq, Eq, Structural)]
pub enum TaskStatus {
    Running,
    Paused,
    Stopped,
    Succeeded,
    Failed,
    LimitReached,
}

/// How a round ended.
#[derive(Clone, Copy, Debug, PartialEq, Eq, Structural)]
pub enum RoundStatus {
    Completed,
    Succeeded,
    Failed,
}

/// One plan / execute / review cycle of a task.
#[derive(Clone, Debug)]
pub struct Round {
    pub index: u32,
    pub ai1_plan: String,
    pub ai2_prompt: String,
    pub ai2_result: String,
    pub ai1_review: String,
    pub status: RoundStatus,
    pub duration_ms: u128,
}

/// A task and its history.
#[derive(Clone, Debug)]
pub struct TaskRecord {
    pub id: String,
    pub user_goal: String,
    pub max_rounds: u32,
    pub status: TaskStatus,
    pub success_mode: SuccessMode,
    pub display_mode: DisplayMode,
    pub rounds: Vec<Round>,
    pub final_result: String,
    pub error: Option<String>,
    pub created_at: String,
    pub updated_at: String,
}

/// What the interface sends to start a task.
#[derive(Clone, Debug)]
pub struct StartTaskRequest {
    pub user_goal: String,
    pub max_rounds: u32,
    pub settings: Settings,
}

/// What the interface sends to test a provider.
#[derive(Clone, Debug)]
pub struct TestProviderRequest {
    pub provider: ProviderConfig,
    pub system_prompt: String,
}

/// One message of a chat-completion request.
#[derive(Clone, Debug)]
pub struct ChatMessage {
    pub role: String,
    pub content: String,
}

/// The whole persisted state: settings and the task history.
#[derive(Clone, Debug)]
pub struct StoredData {
    pub settings: Settings,
    pub tasks: Vec<TaskRecord>,
}

/// The contents of a round, with texts as character sequences.
#[verifier::ext_equal]
pub struct RoundView {
    pub index: u32,
    pub ai1_plan: Seq<char>,
    pub ai2_prompt: Seq<char>,
    pub ai2_result: Seq<char>,
    pub ai1_review: Seq<char>,
    pub status: RoundStatus,
    pub duration_ms: u128,
}

impl View for Round {
    type V = RoundView;

    open spec fn view(&self) -> RoundView {
        RoundView {
            index: self.index,
            ai1_plan: self.ai1_plan@,
            ai2_prompt: self.ai2_prompt@,
            ai2_result: self.ai2_result@,
            ai1_review: self.ai1_review@,
            status: self.status,
            duration_ms: self.duration_ms,
        }
    }
}

/// The view of an optional text.
pub open spec fn opt_view(o: Option<String>) -> Option<Seq<char>> {
    match o {
        Some(s) => Some(s@),
        None => None,
    }
}

/// The contents of a task record, with texts as character sequences.
#[verifier::ext_equal]
pub struct TaskView {
    pub id: Seq<char>,
    pub user_goal: Seq<char>,
    pub max_rounds: u32,
    pub status: TaskStatus,
    pub success_mode: SuccessMode,
    pub display_mode: DisplayMode,
    pub rounds: Seq<RoundView>,
    pub final_result: Seq<char>,
    pub error: Option<Seq<char>>,
    pub created_at: Seq<char>,
    pub updated_at: Seq<char>,
}

/// The views of a sequence of rounds.
pub open spec fn round_views(rounds: Seq<Round>) -> Seq<RoundView> {
    rounds.map_values(|r: Round| r@)
}

impl View for TaskRecord {
    type V = TaskView;

    open spec fn view(&self) -> TaskView {
        TaskView {
            id: self.id@,
            user_goal: self.user_goal@,
            max_rounds: self.max_rounds,
            status: self.status,
            success_mode: self.success_mode,
            display_mode: self.display_mode,
            rounds: round_views(self.rounds@),
            final_result: self.final_result@,
            error: opt_view(self.error),
            created_at: self.created_at@,
            updated_at: self.updated_at@,
        }
    }
}

/// The bit pattern of `0.2f32`, the default reviewing temperature.
pub const AI1_DEFAULT_TEMPERATURE_BITS: u32 = 0x3e4c_cccd;

/// The bit pattern of `0.4f32`, the default executing temperature.
pub const AI2_DEFAULT_TEMPERATURE_BITS: u32 = 0x3ecc_cccd;

/// `p` is a provider with the given fields and no API key.
pub open spec fn is_keyless_provider(
    p: ProviderConfig,
    id: Seq<char>,
    name: Seq<char>,
    temperature_bits: u32,
) -> bool {
    &&& p.id@ == id
    &&& p.name@ == name
    &&& p.base_url@ == "https://api.openai.com/v1"@
    &&& p.api_key@.len() == 0
    &&& p.model@ == "gpt-4.1-mini"@
    &&& p.temperature_bits == temperature_bits
}

/// The settings a fresh installation starts with.
pub open spec fn is_default_settings(s: Settings) -> bool {
    &&& s.providers.len() == 2
    &&& is_keyless_provider(
        s.providers[0],
        "ai1-default"@,
        "AI1 审核模型"@,
        AI1_DEFAULT_TEMPERATURE_BITS,
    )
    &&& is_keyless_provider(
        s.providers[1],
        "ai2-default"@,
        "AI2 执行模型"@,
        AI2_DEFAULT_TEMPERATURE_BITS,
    )
    &&& s.role_config.ai1_provider_id@ == "ai1-default"@
    &&& s.role_config.ai2_provider_id@ == "ai2-default"@
    &&& s.role_config.ai1_system_prompt@
        == "你是 AI1，负责分析用户需求、拆解执行方案，并审核 AI2 的结果是否达到目标。"@
    &&& s.role_config.ai2_system_prompt@ == "你是 AI2，负责严格执行 AI1 给出的方案，只返回执行结果。"@
    &&& s.templates.len() == 1
    &&& s.templates[0].id@ == "default"@
    &&& s.templates[0].name@ == "默认执行模板"@
    &&& s.templates[0].prefix@ == "请根据下面的方案执行。"@
    &&& s.templates[0].suffix@ == "你的目标是尽量完整、准确地完成用户需求。"@
    &&& s.active_template_id@ == "default"@
    &&& s.ai2_local_paths.len() == 0
    &&& s.display_mode == DisplayMode::Dual
    &&& s.success_mode == SuccessMode::Ai1Judgement
    &&& s.success_keywords.len() == 1
    &&& s.success_keywords[0]@ == "成功"@
    &&& s.theme == ThemeMode::Dark
}

fn keyless_provider(id: &str, name: &str, temperature_bits: u32) -> (p: ProviderConfig)
    ensures
        is_keyless_provider(p, id@, name@, temperature_bits),
{
    ProviderConfig {
        id: String::from_str(id),
        name: String::from_str(name),
        base_url: String::from_str("https://api.openai.com/v1"),
        api_key: String::new(),
        model: String::from_str("gpt-4.1-mini"),
        temperature_bits,
    }
}

/// The settings a fresh installation starts with.
pub fn default_settings() -> (s: Settings)
    ensures
        is_default_settings(s),
{
    let mut providers = Vec::new();
    providers.push(keyless_provider("ai1-default", "AI1 审核模型", AI1_DEFAULT_TEMPERATURE_BITS));
    providers.push(keyless_provider("ai2-default", "AI2 执行模型", AI2_DEFAULT_TEMPERATURE_BITS));
    let mut templates = Vec::new();
    templates.push(
        PromptTemplate {
            id: String::from_str("default"),
            name: String::from_str("默认执行模板"),
            prefix: String::from_str("请根据下面的方案执行。"),
            suffix: String::from_str("你的目标是尽量完整、准确地完成用户需求。"),
        },
    );
    let mut success_keywords = Vec::new();
    success_keywords.push(String::from_str("成功"));
    Settings {
        providers,
        role_config: RoleConfig {
            ai1_provider_id: String::from_str("ai1-default"),
            ai2_provider_id: String::from_str("ai2-default"),
            ai1_system_prompt: String::from_str(
                "你是 AI1，负责分析用户需求、拆解执行方案，并审核 AI2 的结果是否达到目标。",
            ),
            ai2_system_prompt: String::from_str("你是 AI2，负责严格执行 AI1 给出的方案，只返回执行结果。"),
        },
        templates,
        active_template_id: String::from_str("default"),
        ai2_local_paths: Vec::new(),
        display_mode: DisplayMode::Dual,
        success_mode: SuccessMode::Ai1Judgement,
        success_keywords,
        theme: ThemeMode::Dark,
    }
}

impl Default for StoredData {
    /// Default settings and no tasks.
    fn default() -> (d: Self)
        ensures
            is_default_settings(d.settings),
            d.tasks.len() == 0,
    {
        StoredData { settings: default_settings(), tasks: Vec::new() }
    }
}

} // verus!
