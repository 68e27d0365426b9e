//! The executing model's tool loop as a state machine: the model is asked,
//! the tool calls in its reply are run by the application, their results are
//! fed back, until a reply has no tool call or eight rounds of tools have run.

use vstd::prelude::*;
use crate::blocks::{call_views, parse_tool_calls, tool_calls, Ai2ToolCall};
use crate::model::ChatMessage;
use crate::prompts::{ai2_tool_instructions, tool_instructions};
use crate::text::{contains, join, join_strings, lemma_join_contains, occurs_at, push_str, views};

verus! {

broadcast use vstd::string::group_string_axioms;

/// The most rounds of tool calls one run of the executing model may make.
pub const MAX_TOOL_TURNS: u32 = 8;

/// Where the tool loop stands.
#[derive(Clone, Copy, Debug, PartialEq, Eq, Structural)]
pub enum AgentStage {
    /// Waiting for the model's reply to the messages so far.
    AwaitReply,
    /// Waiting for the results of the tool calls of the last reply.
    AwaitTools,
    /// The loop ended.
    Finished,
}

/// What the application must do next.
pub enum AgentAction {
    /// Send `messages` to the executing model and report its reply.
    Ask,
    /// Run these tool calls, in order, and report their outcomes.
    RunTools(Vec<Ai2ToolCall>),
    /// The loop ended with this result.
    Finish(String),
}

/// The outcome of one tool call.
pub struct ToolOutcome {
    pub name: String,
    pub result: Result<String, String>,
}

/// A run of the executing model with its file tools.
pub struct AgentRun {
    pub messages: Vec<ChatMessage>,
    pub tool_log: Vec<String>,
    pub turns: u32,
    pub stage: AgentStage,
}

/// The state of a tool loop, with texts as character sequences.
#[verifier::ext_equal]
pub struct AgentView {
    pub messages: Seq<(Seq<char>, Seq<char>)>,
    pub tool_log: Seq<Seq<char>>,
    pub turns: u32,
    pub stage: AgentStage,
}

/// The (role, content) pairs of messages.
pub open spec fn message_views(m: Seq<ChatMessage>) -> Seq<(Seq<char>, Seq<char>)> {
    m.map_values(|c: ChatMessage| (c.role@, c.content@))
}

impl View for AgentRun {
    type V = AgentView;

    open spec fn view(&self) -> AgentView {
        AgentView {
            messages: message_views(self.messages@),
            tool_log: views(self.tool_log@),
            turns: self.turns,
            stage: self.stage,
        }
    }
}

/// An action, with texts as character sequences.
pub enum AgentActionView {
    Ask,
    RunTools(Seq<(Seq<char>, Seq<char>)>),
    Finish(Seq<char>),
}

impl View for AgentAction {
    type V = AgentActionView;

    open spec fn view(&self) -> AgentActionView {
        match self {
            AgentAction::Ask => AgentActionView::Ask,
            AgentAction::RunTools(c) => AgentActionView::RunTools(call_views(c@)),
            AgentAction::Finish(r) => AgentActionView::Finish(r@),
        }
    }
}

/// How a tool outcome is reported, to the model and in the log.
pub open spec fn rendered_outcome(name: Seq<char>, result: Result<Seq<char>, Seq<char>>) -> Seq<char> {
    match result {
        Ok(output) => "tool="@ + name + " status=ok\n"@ + output,
        Err(error) => "tool="@ + name + " status=error\n"@ + error,
    }
}

/// The rendered outcomes, in order.
pub open spec fn rendered_outcomes(outcomes: Seq<ToolOutcome>) -> Seq<Seq<char>> {
    outcomes.map_values(
        |o: ToolOutcome|
            rendered_outcome(
                o.name@,
                match o.result {
                    Ok(s) => Ok(s@),
                    Err(e) => Err(e@),
                },
            ),
    )
}

/// The heading of the tool log in a result.
pub open spec fn log_heading() -> Seq<char> {
    "\n\n[AI2 工具调用记录]\n"@
}

/// The message that hands tool results back to the model.
pub open spec fn results_message(chunks: Seq<Seq<char>>) -> Seq<char> {
    "工具执行结果如下。请基于结果继续；如果还需要文件信息，可以继续调用工具；如果已经足够，请输出最终答案，不要再输出工具调用块。\n\n"@
        + join(chunks, "\n\n---\n\n"@)
}

/// The result when the tool-round limit is reached.
pub open spec fn limit_result(log: Seq<Seq<char>>) -> Seq<char> {
    "AI2 工具调用达到上限，已停止继续调用。"@ + log_heading() + join(log, "\n\n"@)
}

/// The state a tool loop starts in.
pub open spec fn agent_start(system_prompt: Seq<char>, user_prompt: Seq<char>) -> AgentView {
    AgentView {
        messages: seq![
            ("system"@, system_prompt + "\n\n"@ + tool_instructions()),
            ("user"@, user_prompt),
        ],
        tool_log: Seq::empty(),
        turns: 0,
        stage: AgentStage::AwaitReply,
    }
}

/// The next state and action of the loop `m` on the model's reply.
pub open spec fn agent_on_reply(m: AgentView, response: Seq<char>) -> (AgentView, AgentActionView) {
    let calls = tool_calls(response);
    if calls.len() == 0 {
        (
            AgentView { stage: AgentStage::Finished, ..m },
            AgentActionView::Finish(
                if m.tool_log.len() == 0 {
                    response
                } else {
                    response + log_heading() + join(m.tool_log, "\n\n"@)
                },
            ),
        )
    } else {
        (
            AgentView {
                messages: m.messages.push(("assistant"@, response)),
                stage: AgentStage::AwaitTools,
                ..m
            },
            AgentActionView::RunTools(calls),
        )
    }
}

/// The next state and action of the loop `m` on the tools' outcomes.
pub open spec fn agent_on_outcomes(m: AgentView, outcomes: Seq<ToolOutcome>) -> (
    AgentView,
    AgentActionView,
) {
    let chunks = rendered_outcomes(outcomes);
    let log = m.tool_log + chunks;
    let turns = (m.turns + 1) as u32;
    let next = AgentView {
        messages: m.messages.push(("user"@, results_message(chunks))),
        tool_log: log,
        turns,
        stage: if turns >= MAX_TOOL_TURNS {
            AgentStage::Finished
        } else {
            AgentStage::AwaitReply
        },
    };
    if turns >= MAX_TOOL_TURNS {
        (next, AgentActionView::Finish(limit_result(log)))
    } else {
        (next, AgentActionView::Ask)
    }
}

fn render_outcome(o: &ToolOutcome) -> (s: String)
    ensures
        s@ == rendered_outcome(
            o.name@,
            match o.result {
                Ok(s) => Ok(s@),
                Err(e) => Err(e@),
            },
        ),
{
    let mut s = String::from_str("tool=");
    push_str(&mut s, o.name.as_str());
    match &o.result {
        Ok(output) => {
            push_str(&mut s, " status=ok\n");
            push_str(&mut s, output.as_str());
        },
        Err(error) => {
            push_str(&mut s, " status=error\n");
            push_str(&mut s, error.as_str());
        },
    }
    s
}

impl AgentRun {
    /// A tool loop for the executing model with `system_prompt` (followed by
    /// the tool instructions) and `user_prompt`.
    pub fn new(system_prompt: &str, user_prompt: &str) -> (r: AgentRun)
        ensures
            r@ == agent_start(system_prompt@, user_prompt@),
    {
        let mut tool_prompt = String::from_str(system_prompt);
        push_str(&mut tool_prompt, "\n\n");
        push_str(&mut tool_prompt, ai2_tool_instructions());
        let mut messages = Vec::new();
        messages.push(ChatMessage { role: String::from_str("system"), content: tool_prompt });
        messages.push(ChatMessage { role: String::from_str("user"), content: String::from_str(user_prompt) });
        AgentRun { messages, tool_log: Vec::new(), turns: 0, stage: AgentStage::AwaitReply }
    }

    /// The next action on the model's reply `response`.
    pub fn on_reply(&mut self, response: String) -> (a: AgentAction)
        requires
            old(self).stage == AgentStage::AwaitReply,
        ensures
            (final(self)@, a@) == agent_on_reply(old(self)@, response@),
    {
        let calls = parse_tool_calls(response.as_str());
        if calls.len() == 0 {
            self.stage = AgentStage::Finished;
            if self.tool_log.len() == 0 {
                return AgentAction::Finish(response);
            }
            let mut r = response;
            push_str(&mut r, "\n\n[AI2 工具调用记录]\n");
            let log = join_strings(self.tool_log.as_slice(), "\n\n");
            push_str(&mut r, log.as_str());
            AgentAction::Finish(r)
        } else {
            let ghost before = self.messages@;
            self.messages.push(ChatMessage { role: String::from_str("assistant"), content: response });
            assert(message_views(self.messages@) == message_views(before).push(
                ("assistant"@, response@),
            ));
            self.stage = AgentStage::AwaitTools;
            AgentAction::RunTools(calls)
        }
    }

    /// The next action on the outcomes of the last reply's tool calls.
    pub fn on_tool_outcomes(&mut self, outcomes: &[ToolOutcome]) -> (a: AgentAction)
        requires
            old(self).stage == AgentStage::AwaitTools,
            old(self).turns < MAX_TOOL_TURNS,
        ensures
            (final(self)@, a@) == agent_on_outcomes(old(self)@, outcomes@),
    {
        let ghost log0 = views(self.tool_log@);
        let mut chunks: Vec<String> = Vec::new();
        let mut i: usize = 0;
        while i < outcomes.len()
            invariant
                i <= outcomes.len(),
                views(chunks@) == rendered_outcomes(outcomes@.take(i as int)),
                views(self.tool_log@) == log0 + views(chunks@),
                log0 == views(old(self).tool_log@),
                self.turns == old(self).turns,
                self.turns < MAX_TOOL_TURNS,
                self.messages@ == old(self).messages@,
            decreases outcomes.len() - i,
        {
            let r = render_outcome(&outcomes[i]);
            let ghost c0 = chunks@;
            let ghost l0 = self.tool_log@;
            self.tool_log.push(r.clone());
            chunks.push(r);
            proof {
                assert(outcomes@.take(i + 1).drop_last() == outcomes@.take(i as int));
                assert(views(chunks@) == views(c0).push(r@));
                assert(views(self.tool_log@) == views(l0).push(r@));
                assert(rendered_outcomes(outcomes@.take(i + 1)) == rendered_outcomes(
                    outcomes@.take(i as int),
                ).push(r@));
            }
            i += 1;
        }
        assert(outcomes@.take(outcomes.len() as int) == outcomes@);
        let mut content = String::from_str(
            "工具执行结果如下。请基于结果继续；如果还需要文件信息，可以继续调用工具；如果已经足够，请输出最终答案，不要再输出工具调用块。\n\n",
        );
        let joined = join_strings(chunks.as_slice(), "\n\n---\n\n");
        push_str(&mut content, joined.as_str());
        let ghost before = self.messages@;
        self.messages.push(ChatMessage { role: String::from_str("user"), content });
        assert(message_views(self.messages@) == message_views(before).push(
            ("user"@, results_message(views(chunks@))),
        ));
        self.turns = self.turns + 1;
        if self.turns >= MAX_TOOL_TURNS {
            self.stage = AgentStage::Finished;
            let mut r = String::from_str("AI2 工具调用达到上限，已停止继续调用。");
            push_str(&mut r, "\n\n[AI2 工具调用记录]\n");
            let log = join_strings(self.tool_log.as_slice(), "\n\n");
            push_str(&mut r, log.as_str());
            AgentAction::Finish(r)
        } else {
            self.stage = AgentStage::AwaitReply;
            AgentAction::Ask
        }
    }
}

/// What holds of every state of a tool loop: at most eight rounds of tools
/// have run, and the model is asked again only while fewer have.
pub open spec fn agent_inv(m: AgentView) -> bool {
    &&& m.turns <= MAX_TOOL_TURNS
    &&& m.stage != AgentStage::Finished ==> m.turns < MAX_TOOL_TURNS
}

/// A tool loop starts with no tool round run and the model about to be
/// asked.
pub proof fn law_agent_starts_fresh(system_prompt: Seq<char>, user_prompt: Seq<char>)
    ensures
        agent_inv(agent_start(system_prompt, user_prompt)),
        agent_start(system_prompt, user_prompt).stage == AgentStage::AwaitReply,
        agent_start(system_prompt, user_prompt).tool_log.len() == 0,
{
}

/// Every step of the loop keeps the bound on tool rounds: the executing
/// model makes at most eight rounds of tool calls per run, and after the
/// eighth the loop ends with the limit result.
pub proof fn law_agent_bounded(m: AgentView, response: Seq<char>, outcomes: Seq<ToolOutcome>)
    requires
        agent_inv(m),
    ensures
        m.stage == AgentStage::AwaitReply ==> agent_inv(agent_on_reply(m, response).0),
        m.stage == AgentStage::AwaitTools ==> agent_inv(agent_on_outcomes(m, outcomes).0),
        m.stage == AgentStage::AwaitTools && m.turns + 1 == MAX_TOOL_TURNS ==> agent_on_outcomes(
            m,
            outcomes,
        ).1 == AgentActionView::Finish(limit_result(m.tool_log + rendered_outcomes(outcomes))),
{
}

/// A reply without tool calls ends the loop with that reply, followed by the
/// tool log when tools ran before.
pub proof fn law_agent_plain_reply_finishes(m: AgentView, response: Seq<char>)
    requires
        tool_calls(response).len() == 0,
    ensures
        agent_on_reply(m, response).0.stage == AgentStage::Finished,
        m.tool_log.len() == 0 ==> agent_on_reply(m, response).1 == AgentActionView::Finish(
            response,
        ),
{
}

/// After a round of tools every outcome goes back to the model, in order:
/// the message added is the fixed heading followed by each call's report
/// (`tool=<name> status=ok|error`, a line feed, then the output or the
/// error) joined with `---` lines, so each report occurs in it; and every
/// report is added to the tool log.
pub proof fn law_tool_results_all_sent(m: AgentView, outcomes: Seq<ToolOutcome>)
    ensures
        ({
            let r = agent_on_outcomes(m, outcomes).0;
            let shown = Seq::new(
                outcomes.len(),
                |i: int|
                    "tool="@ + outcomes[i].name@ + match outcomes[i].result {
                        Ok(o) => " status=ok\n"@ + o@,
                        Err(e) => " status=error\n"@ + e@,
                    },
            );
            let msg =
                "工具执行结果如下。请基于结果继续；如果还需要文件信息，可以继续调用工具；如果已经足够，请输出最终答案，不要再输出工具调用块。\n\n"@
                + join(shown, "\n\n---\n\n"@);
            &&& r.messages == m.messages.push(("user"@, msg))
            &&& r.tool_log == m.tool_log + shown
            &&& forall|i: int| 0 <= i < outcomes.len() ==> contains(msg, #[trigger] shown[i])
        }),
{
    let shown = Seq::new(
        outcomes.len(),
        |i: int|
            "tool="@ + outcomes[i].name@ + match outcomes[i].result {
                Ok(o) => " status=ok\n"@ + o@,
                Err(e) => " status=error\n"@ + e@,
            },
    );
    let chunks = rendered_outcomes(outcomes);
    assert forall|i: int| 0 <= i < outcomes.len() implies chunks[i] == shown[i] by {
        match outcomes[i].result {
            Ok(o) => {
                assert(chunks[i] == "tool="@ + outcomes[i].name@ + " status=ok\n"@ + o@);
                assert("tool="@ + outcomes[i].name@ + " status=ok\n"@ + o@ == "tool="@ + outcomes[i].name@
                    + (" status=ok\n"@ + o@));
            },
            Err(e) => {
                assert(chunks[i] == "tool="@ + outcomes[i].name@ + " status=error\n"@ + e@);
                assert("tool="@ + outcomes[i].name@ + " status=error\n"@ + e@ == "tool="@
                    + outcomes[i].name@ + (" status=error\n"@ + e@));
            },
        }
    }
    assert(chunks == shown);
    let msg =
        "工具执行结果如下。请基于结果继续；如果还需要文件信息，可以继续调用工具；如果已经足够，请输出最终答案，不要再输出工具调用块。\n\n"@
        + join(shown, "\n\n---\n\n"@);
    assert forall|i: int| 0 <= i < outcomes.len() implies contains(msg, #[trigger] shown[i]) by {
        lemma_join_contains(shown, "\n\n---\n\n"@, i);
        let j = join(shown, "\n\n---\n\n"@);
        let k = choose|k: int| occurs_at(j, shown[i], k);
        let h: int = (msg.len() - j.len()) as int;
        assert(msg.subrange(h + k, h + k + shown[i].len()) == j.subrange(k, k + shown[i].len()));
        assert(occurs_at(msg, shown[i], h + k));
    }
}

} // verus!
