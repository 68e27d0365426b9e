//! The run of a task as a state machine. Each round plans with the reviewing
//! model, gathers the local file context, lets the executing model work,
//! applies its file writes and asks the reviewing model for a verdict; before
//! planning and before executing, the user's pause and stop requests are
//! honoured. The machine decides; the application performs each action it
//! names (model calls, file access, persistence, waiting) and reports back.

use vstd::prelude::*;
use crate::config::{
    find_provider, find_template, missing_provider_error, missing_template_error, provider_index,
    template_index,
};
use crate::model::{
    Round, RoundStatus, RoundView, Settings, SuccessMode, TaskRecord, TaskStatus, TaskView,
    round_views,
};
use crate::prompts::{
    ai1_prompt, ai2_prompt, append_write_summary, build_ai1_prompt, build_review_prompt,
    compose_ai2_prompt, detect_success, review_prompt, should_run_round, succeeded,
};
use crate::model::PromptTemplate;
use crate::text::{join, views};

verus! {

broadcast use vstd::string::group_string_axioms;

/// The two points of a round where pause and stop requests are honoured.
#[derive(Clone, Copy, Debug, PartialEq, Eq, Structural)]
pub enum Checkpoint {
    /// Before asking for the plan.
    Plan,
    /// Before executing the plan.
    Execute,
}

/// Where a run stands.
#[derive(Clone, Copy, Debug, PartialEq, Eq, Structural)]
pub enum RunStage {
    /// Waiting while the task is paused, before a checkpoint.
    PauseWait(Checkpoint),
    /// Reading the stop request at a checkpoint.
    StopCheck(Checkpoint),
    /// Waiting for the plan of the round.
    AwaitPlan,
    /// Waiting for the local file context.
    AwaitContext,
    /// Waiting for the executing model's result.
    AwaitExecution,
    /// Waiting for the file writes of that result to be applied.
    AwaitWrites,
    /// Waiting for the review of the round.
    AwaitReview,
    /// A round ended without success; the next one may start.
    BetweenRounds,
    /// The task ended.
    Finished,
}

/// What the application reports to the machine.
pub enum RunEvent {
    /// The current pause and stop requests.
    Controls { paused: bool, stopped: bool },
    /// The reviewing model's plan.
    Plan(String),
    /// The local file context.
    Context(String),
    /// The executing model's raw result.
    Execution(String),
    /// One summary line per file written.
    Writes(Vec<String>),
    /// The reviewing model's verdict, and how long the round took.
    Review { text: String, duration_ms: u128 },
    /// Go on with the next round.
    Proceed,
    /// A step of the run failed with this message.
    Failed(String),
}

/// What the machine asks the application to do next.
pub enum RunAction {
    /// Read the pause and stop requests and report them as `Controls`.
    CheckControls,
    /// Wait a quarter of a second, then read the requests again.
    Sleep,
    /// Ask the reviewing model for a plan with this prompt; report `Plan`.
    AskPlanner(String),
    /// Gather the local file context; report `Context`.
    GatherContext,
    /// Let the executing model work on this prompt; report `Execution`.
    RunExecutor(String),
    /// Apply the file writes found in this result; report `Writes`.
    ApplyWrites(String),
    /// Ask the reviewing model to review with this prompt; report `Review`.
    AskReviewer(String),
    /// Report `Proceed`.
    NextRound,
    /// Nothing more: the run is over.
    Done,
}

/// One decision of the machine: whether to store and announce the task
/// record as it now stands, then what to do.
pub struct Step {
    pub persist: bool,
    pub action: RunAction,
}

/// A task being run.
pub struct TaskRun {
    pub task: TaskRecord,
    pub stage: RunStage,
    /// The number of the current round, from 1.
    pub round_index: u32,
    pub previous_ai2_result: String,
    /// Whether the current pause has already been recorded.
    pub pause_announced: bool,
    pub ai1_plan: String,
    pub ai2_prompt: String,
    pub ai2_result: String,
    pub template_prefix: String,
    pub template_suffix: String,
    pub success_keywords: Vec<String>,
    /// Position in the settings of the reviewing model's provider.
    pub ai1_provider: usize,
    /// Position in the settings of the executing model's provider.
    pub ai2_provider: usize,
}

// ---------------------------------------------------------------------------
// The abstract machine
// ---------------------------------------------------------------------------

/// The state of a run, with texts as character sequences.
#[verifier::ext_equal]
pub struct RunView {
    pub task: TaskView,
    pub stage: RunStage,
    pub round_index: u32,
    pub previous_ai2_result: Seq<char>,
    pub pause_announced: bool,
    pub ai1_plan: Seq<char>,
    pub ai2_prompt: Seq<char>,
    pub ai2_result: Seq<char>,
    pub template_prefix: Seq<char>,
    pub template_suffix: Seq<char>,
    pub success_keywords: Seq<String>,
    pub ai1_provider: usize,
    pub ai2_provider: usize,
}

impl View for TaskRun {
    type V = RunView;

    open spec fn view(&self) -> RunView {
        RunView {
            task: self.task@,
            stage: self.stage,
            round_index: self.round_index,
            previous_ai2_result: self.previous_ai2_result@,
            pause_announced: self.pause_announced,
            ai1_plan: self.ai1_plan@,
            ai2_prompt: self.ai2_prompt@,
            ai2_result: self.ai2_result@,
            template_prefix: self.template_prefix@,
            template_suffix: self.template_suffix@,
            success_keywords: self.success_keywords@,
            ai1_provider: self.ai1_provider,
            ai2_provider: self.ai2_provider,
        }
    }
}

/// An event, with texts as character sequences.
pub enum EventView {
    Controls { paused: bool, stopped: bool },
    Plan(Seq<char>),
    Context(Seq<char>),
    Execution(Seq<char>),
    Writes(Seq<Seq<char>>),
    Review { text: Seq<char>, duration_ms: u128 },
    Proceed,
    Failed(Seq<char>),
}

impl View for RunEvent {
    type V = EventView;

    open spec fn view(&self) -> EventView {
        match self {
            RunEvent::Controls { paused, stopped } => EventView::Controls {
                paused: *paused,
                stopped: *stopped,
            },
            RunEvent::Plan(t) => EventView::Plan(t@),
            RunEvent::Context(t) => EventView::Context(t@),
            RunEvent::Execution(t) => EventView::Execution(t@),
            RunEvent::Writes(w) => EventView::Writes(views(w@)),
            RunEvent::Review { text, duration_ms } => EventView::Review {
                text: text@,
                duration_ms: *duration_ms,
            },
            RunEvent::Proceed => EventView::Proceed,
            RunEvent::Failed(e) => EventView::Failed(e@),
        }
    }
}

/// An action, with texts as character sequences.
pub enum ActionView {
    CheckControls,
    Sleep,
    AskPlanner(Seq<char>),
    GatherContext,
    RunExecutor(Seq<char>),
    ApplyWrites(Seq<char>),
    AskReviewer(Seq<char>),
    NextRound,
    Done,
}

impl View for RunAction {
    type V = ActionView;

    open spec fn view(&self) -> ActionView {
        match self {
            RunAction::CheckControls => ActionView::CheckControls,
            RunAction::Sleep => ActionView::Sleep,
            RunAction::AskPlanner(p) => ActionView::AskPlanner(p@),
            RunAction::GatherContext => ActionView::GatherContext,
            RunAction::RunExecutor(p) => ActionView::RunExecutor(p@),
            RunAction::ApplyWrites(r) => ActionView::ApplyWrites(r@),
            RunAction::AskReviewer(p) => ActionView::AskReviewer(p@),
            RunAction::NextRound => ActionView::NextRound,
            RunAction::Done => ActionView::Done,
        }
    }
}

/// A decision, with texts as character sequences.
pub struct StepView {
    pub persist: bool,
    pub action: ActionView,
}

impl View for Step {
    type V = StepView;

    open spec fn view(&self) -> StepView {
        StepView { persist: self.persist, action: self.action@ }
    }
}

/// The text recorded when the user stops a task.
pub open spec fn stopped_text() -> Seq<char> {
    "用户已停止任务"@
}

/// The text recorded when the round limit is reached.
pub open spec fn limit_text() -> Seq<char> {
    "已达到最大轮数"@
}

/// The text reported when a task has no goal.
pub open spec fn empty_goal_error() -> Seq<char> {
    "用户目标不能为空"@
}

/// `t` ended with `status` and `final_result` at time `now`.
pub open spec fn finished(t: TaskView, status: TaskStatus, final_result: Seq<char>, now: Seq<char>) -> TaskView {
    TaskView { status, final_result, updated_at: now, ..t }
}

/// `t` failed with `error` at time `now`.
pub open spec fn failed(t: TaskView, error: Seq<char>, now: Seq<char>) -> TaskView {
    TaskView { status: TaskStatus::Failed, error: Some(error), updated_at: now, ..t }
}

/// `t` with `status` at time `now`.
pub open spec fn restatused(t: TaskView, status: TaskStatus, now: Seq<char>) -> TaskView {
    TaskView { status, updated_at: now, ..t }
}

/// A decision.
pub open spec fn step(persist: bool, action: ActionView) -> StepView {
    StepView { persist, action }
}

/// Whether the machine in stage `stage` accepts event `e`.
pub open spec fn accepts(stage: RunStage, e: EventView) -> bool {
    match e {
        EventView::Failed(_) => true,
        EventView::Controls { .. } => stage is PauseWait || stage is StopCheck,
        EventView::Plan(_) => stage == RunStage::AwaitPlan,
        EventView::Context(_) => stage == RunStage::AwaitContext,
        EventView::Execution(_) => stage == RunStage::AwaitExecution,
        EventView::Writes(_) => stage == RunStage::AwaitWrites,
        EventView::Review { .. } => stage == RunStage::AwaitReview,
        EventView::Proceed => stage == RunStage::BetweenRounds,
    }
}

/// The run ends with the task failed.
pub open spec fn fail_run(m: RunView, error: Seq<char>, now: Seq<char>) -> (RunView, StepView) {
    (
        RunView { task: failed(m.task, error, now), stage: RunStage::Finished, ..m },
        step(true, ActionView::Done),
    )
}

/// The start of round `m.round_index`: wait for pause and stop requests
/// before planning, or end the task when the round limit is passed.
pub open spec fn begin_round(m: RunView, now: Seq<char>) -> (RunView, StepView) {
    if m.task.max_rounds == 0 || m.round_index <= m.task.max_rounds {
        (
            RunView {
                stage: RunStage::PauseWait(Checkpoint::Plan),
                pause_announced: false,
                ..m
            },
            step(false, ActionView::CheckControls),
        )
    } else {
        (
            RunView {
                task: finished(m.task, TaskStatus::LimitReached, limit_text(), now),
                stage: RunStage::Finished,
                ..m
            },
            step(true, ActionView::Done),
        )
    }
}

/// The round's record once it is reviewed.
pub open spec fn round_record(m: RunView, review: Seq<char>, duration_ms: u128) -> RoundView {
    RoundView {
        index: m.round_index,
        ai1_plan: m.ai1_plan,
        ai2_prompt: m.ai2_prompt,
        ai2_result: m.ai2_result,
        ai1_review: review,
        status: if succeeded(m.task.success_mode, m.success_keywords, m.ai2_result, review) {
            RoundStatus::Succeeded
        } else {
            RoundStatus::Completed
        },
        duration_ms,
    }
}

/// The execution result followed by the list of files written, if any.
pub open spec fn with_write_summary(result: Seq<char>, summaries: Seq<Seq<char>>) -> Seq<char> {
    if summaries.len() == 0 {
        result
    } else {
        result + "\n\n[本地文件写入结果]\n"@ + join(summaries, "\n"@)
    }
}

/// The next state and decision of the run `m` on event `e` at time `now`.
pub open spec fn run_step(m: RunView, e: EventView, now: Seq<char>) -> (RunView, StepView) {
    match e {
        EventView::Failed(error) => fail_run(m, error, now),
        EventView::Controls { paused, stopped } => match m.stage {
            RunStage::PauseWait(cp) => if paused && stopped {
                (RunView { stage: RunStage::StopCheck(cp), ..m }, step(false, ActionView::CheckControls))
            } else if paused {
                if m.pause_announced {
                    (m, step(false, ActionView::Sleep))
                } else {
                    (
                        RunView {
                            task: restatused(m.task, TaskStatus::Paused, now),
                            pause_announced: true,
                            ..m
                        },
                        step(true, ActionView::Sleep),
                    )
                }
            } else if m.pause_announced {
                (
                    RunView {
                        task: restatused(m.task, TaskStatus::Running, now),
                        stage: RunStage::StopCheck(cp),
                        pause_announced: false,
                        ..m
                    },
                    step(true, ActionView::CheckControls),
                )
            } else {
                (RunView { stage: RunStage::StopCheck(cp), ..m }, step(false, ActionView::CheckControls))
            },
            RunStage::StopCheck(cp) => if stopped {
                (
                    RunView {
                        task: finished(m.task, TaskStatus::Stopped, stopped_text(), now),
                        stage: RunStage::Finished,
                        ..m
                    },
                    step(true, ActionView::Done),
                )
            } else if cp == Checkpoint::Plan {
                (
                    RunView { stage: RunStage::AwaitPlan, ..m },
                    step(
                        false,
                        ActionView::AskPlanner(
                            ai1_prompt(m.task.user_goal, m.round_index, m.previous_ai2_result),
                        ),
                    ),
                )
            } else {
                (RunView { stage: RunStage::AwaitContext, ..m }, step(false, ActionView::GatherContext))
            },
            _ => (m, step(false, ActionView::Done)),
        },
        EventView::Plan(plan) => (
            RunView {
                ai1_plan: plan,
                stage: RunStage::PauseWait(Checkpoint::Execute),
                pause_announced: false,
                ..m
            },
            step(false, ActionView::CheckControls),
        ),
        EventView::Context(context) => {
            let p = ai2_prompt(m.template_prefix, m.ai1_plan, context, m.template_suffix);
            (
                RunView { ai2_prompt: p, stage: RunStage::AwaitExecution, ..m },
                step(false, ActionView::RunExecutor(p)),
            )
        },
        EventView::Execution(result) => (
            RunView { ai2_result: result, stage: RunStage::AwaitWrites, ..m },
            step(false, ActionView::ApplyWrites(result)),
        ),
        EventView::Writes(summaries) => {
            let r = with_write_summary(m.ai2_result, summaries);
            (
                RunView { ai2_result: r, stage: RunStage::AwaitReview, ..m },
                step(
                    false,
                    ActionView::AskReviewer(review_prompt(m.task.user_goal, m.round_index, r)),
                ),
            )
        },
        EventView::Review { text, duration_ms } => {
            let ok = succeeded(m.task.success_mode, m.success_keywords, m.ai2_result, text);
            let t = TaskView {
                rounds: m.task.rounds.push(round_record(m, text, duration_ms)),
                final_result: if ok {
                    m.ai2_result
                } else {
                    text
                },
                status: if ok {
                    TaskStatus::Succeeded
                } else {
                    TaskStatus::Running
                },
                updated_at: now,
                ..m.task
            };
            if ok {
                (RunView { task: t, stage: RunStage::Finished, ..m }, step(true, ActionView::Done))
            } else {
                (
                    RunView {
                        task: t,
                        stage: RunStage::BetweenRounds,
                        previous_ai2_result: m.ai2_result,
                        ..m
                    },
                    step(true, ActionView::NextRound),
                )
            }
        },
        EventView::Proceed => begin_round(
            RunView { round_index: (m.round_index + 1) as u32, ..m },
            now,
        ),
    }
}

/// How a run of `t` with `s` starts at time `now`: it fails at once when the
/// goal is empty, a role's provider is missing or there is no template;
/// otherwise round 1 begins.
pub open spec fn run_start(t: TaskView, s: Settings, now: Seq<char>) -> (RunView, StepView) {
    let blank = RunView {
        task: t,
        stage: RunStage::Finished,
        round_index: 1,
        previous_ai2_result: Seq::empty(),
        pause_announced: false,
        ai1_plan: Seq::empty(),
        ai2_prompt: Seq::empty(),
        ai2_result: Seq::empty(),
        template_prefix: Seq::empty(),
        template_suffix: Seq::empty(),
        success_keywords: s.success_keywords@,
        ai1_provider: 0,
        ai2_provider: 0,
    };
    if t.user_goal.len() == 0 {
        fail_run(blank, empty_goal_error(), now)
    } else {
        match provider_index(s.providers@, s.role_config.ai1_provider_id@) {
            None => fail_run(blank, missing_provider_error(s.role_config.ai1_provider_id@), now),
            Some(a1) => match provider_index(s.providers@, s.role_config.ai2_provider_id@) {
                None => fail_run(blank, missing_provider_error(s.role_config.ai2_provider_id@), now),
                Some(a2) => match template_index(s) {
                    None => fail_run(blank, missing_template_error(), now),
                    Some(ti) => begin_round(
                        RunView {
                            template_prefix: s.templates@[ti].prefix@,
                            template_suffix: s.templates@[ti].suffix@,
                            ai1_provider: a1 as usize,
                            ai2_provider: a2 as usize,
                            ..blank
                        },
                        now,
                    ),
                },
            },
        }
    }
}

// ---------------------------------------------------------------------------
// Task record updates
// ---------------------------------------------------------------------------

/// Ends `task` with `status` and `final_result` at time `now`.
pub fn finish_task(task: &mut TaskRecord, status: TaskStatus, final_result: &str, now: &str)
    ensures
        final(task)@ == finished(old(task)@, status, final_result@, now@),
{
    task.status = status;
    task.final_result = String::from_str(final_result);
    task.updated_at = String::from_str(now);
}

/// Marks `task` failed with `error` at time `now`.
pub fn fail_task(task: &mut TaskRecord, error: String, now: &str)
    ensures
        final(task)@ == failed(old(task)@, error@, now@),
{
    task.status = TaskStatus::Failed;
    task.error = Some(error);
    task.updated_at = String::from_str(now);
}

/// Sets the status of `task` at time `now`.
pub fn set_status(task: &mut TaskRecord, status: TaskStatus, now: &str)
    ensures
        final(task)@ == restatused(old(task)@, status, now@),
{
    task.status = status;
    task.updated_at = String::from_str(now);
}

// ---------------------------------------------------------------------------
// The executable machine
// ---------------------------------------------------------------------------

impl TaskRun {
    fn fail(&mut self, error: String, now: &str) -> (s: Step)
        ensures
            (final(self)@, s@) == fail_run(old(self)@, error@, now@),
    {
        fail_task(&mut self.task, error, now);
        self.stage = RunStage::Finished;
        Step { persist: true, action: RunAction::Done }
    }

    fn begin_round(&mut self, now: &str) -> (s: Step)
        ensures
            (final(self)@, s@) == begin_round(old(self)@, now@),
    {
        if should_run_round(self.round_index, self.task.max_rounds) {
            self.stage = RunStage::PauseWait(Checkpoint::Plan);
            self.pause_announced = false;
            Step { persist: false, action: RunAction::CheckControls }
        } else {
            finish_task(&mut self.task, TaskStatus::LimitReached, "已达到最大轮数", now);
            self.stage = RunStage::Finished;
            Step { persist: true, action: RunAction::Done }
        }
    }

    /// Starts running `task` with `settings` at time `now`.
    pub fn start(task: TaskRecord, settings: &Settings, now: &str) -> (r: (TaskRun, Step))
        ensures
            (r.0@, r.1@) == run_start(task@, *settings, now@),
    {
        let mut run = TaskRun {
            task,
            stage: RunStage::Finished,
            round_index: 1,
            previous_ai2_result: String::new(),
            pause_announced: false,
            ai1_plan: String::new(),
            ai2_prompt: String::new(),
            ai2_result: String::new(),
            template_prefix: String::new(),
            template_suffix: String::new(),
            success_keywords: settings.success_keywords.clone(),
            ai1_provider: 0,
            ai2_provider: 0,
        };
        if run.task.user_goal.as_str().is_empty() {
            let s = run.fail(String::from_str("用户目标不能为空"), now);
            return (run, s);
        }
        let a1 = match crate::config::provider_position(
            settings.providers.as_slice(),
            settings.role_config.ai1_provider_id.as_str(),
        ) {
            Some(i) => i,
            None => {
                let e = match find_provider(settings, settings.role_config.ai1_provider_id.as_str()) {
                    Ok(_) => String::new(),
                    Err(e) => e,
                };
                let s = run.fail(e, now);
                return (run, s);
            },
        };
        let a2 = match crate::config::provider_position(
            settings.providers.as_slice(),
            settings.role_config.ai2_provider_id.as_str(),
        ) {
            Some(i) => i,
            None => {
                let e = match find_provider(settings, settings.role_config.ai2_provider_id.as_str()) {
                    Ok(_) => String::new(),
                    Err(e) => e,
                };
                let s = run.fail(e, now);
                return (run, s);
            },
        };
        match find_template(settings) {
            Ok(t) => {
                run.template_prefix = t.prefix.clone();
                run.template_suffix = t.suffix.clone();
            },
            Err(e) => {
                let s = run.fail(e, now);
                return (run, s);
            },
        }
        run.ai1_provider = a1;
        run.ai2_provider = a2;
        let s = run.begin_round(now);
        (run, s)
    }

    /// The next decision of the run on `event`, reported at time `now`.
    pub fn step(&mut self, event: RunEvent, now: &str) -> (s: Step)
        requires
            accepts(old(self).stage, event@),
            old(self).stage == RunStage::BetweenRounds ==> old(self).round_index < u32::MAX,
        ensures
            (final(self)@, s@) == run_step(old(self)@, event@, now@),
    {
        match event {
            RunEvent::Failed(error) => self.fail(error, now),
            RunEvent::Controls { paused, stopped } => match self.stage {
                RunStage::PauseWait(cp) => {
                    if paused && stopped {
                        self.stage = RunStage::StopCheck(cp);
                        Step { persist: false, action: RunAction::CheckControls }
                    } else if paused {
                        if self.pause_announced {
                            Step { persist: false, action: RunAction::Sleep }
                        } else {
                            set_status(&mut self.task, TaskStatus::Paused, now);
                            self.pause_announced = true;
                            Step { persist: true, action: RunAction::Sleep }
                        }
                    } else if self.pause_announced {
                        set_status(&mut self.task, TaskStatus::Running, now);
                        self.stage = RunStage::StopCheck(cp);
                        self.pause_announced = false;
                        Step { persist: true, action: RunAction::CheckControls }
                    } else {
                        self.stage = RunStage::StopCheck(cp);
                        Step { persist: false, action: RunAction::CheckControls }
                    }
                },
                RunStage::StopCheck(cp) => {
                    if stopped {
                        finish_task(&mut self.task, TaskStatus::Stopped, "用户已停止任务", now);
                        self.stage = RunStage::Finished;
                        Step { persist: true, action: RunAction::Done }
                    } else if cp == Checkpoint::Plan {
                        self.stage = RunStage::AwaitPlan;
                        let p = build_ai1_prompt(
                            self.task.user_goal.as_str(),
                            self.round_index,
                            self.previous_ai2_result.as_str(),
                        );
                        Step { persist: false, action: RunAction::AskPlanner(p) }
                    } else {
                        self.stage = RunStage::AwaitContext;
                        Step { persist: false, action: RunAction::GatherContext }
                    }
                },
                _ => Step { persist: false, action: RunAction::Done },
            },
            RunEvent::Plan(plan) => {
                self.ai1_plan = plan;
                self.stage = RunStage::PauseWait(Checkpoint::Execute);
                self.pause_announced = false;
                Step { persist: false, action: RunAction::CheckControls }
            },
            RunEvent::Context(context) => {
                let template = PromptTemplate {
                    id: String::new(),
                    name: String::new(),
                    prefix: self.template_prefix.clone(),
                    suffix: self.template_suffix.clone(),
                };
                let p = compose_ai2_prompt(&template, self.ai1_plan.as_str(), context.as_str());
                self.ai2_prompt = p.clone();
                self.stage = RunStage::AwaitExecution;
                Step { persist: false, action: RunAction::RunExecutor(p) }
            },
            RunEvent::Execution(result) => {
                self.ai2_result = result.clone();
                self.stage = RunStage::AwaitWrites;
                Step { persist: false, action: RunAction::ApplyWrites(result) }
            },
            RunEvent::Writes(summaries) => {
                let raw = self.ai2_result.clone();
                let r = append_write_summary(raw, summaries);
                let p = build_review_prompt(self.task.user_goal.as_str(), self.round_index, r.as_str());
                self.ai2_result = r;
                self.stage = RunStage::AwaitReview;
                Step { persist: false, action: RunAction::AskReviewer(p) }
            },
            RunEvent::Review { text, duration_ms } => {
                let ok = detect_success(
                    &self.task.success_mode,
                    self.success_keywords.as_slice(),
                    self.ai2_result.as_str(),
                    text.as_str(),
                );
                let round = Round {
                    index: self.round_index,
                    ai1_plan: self.ai1_plan.clone(),
                    ai2_prompt: self.ai2_prompt.clone(),
                    ai2_result: self.ai2_result.clone(),
                    ai1_review: text.clone(),
                    status: if ok {
                        RoundStatus::Succeeded
                    } else {
                        RoundStatus::Completed
                    },
                    duration_ms,
                };
                let ghost old_rounds = self.task.rounds@;
                self.task.rounds.push(round);
                assert(round_views(self.task.rounds@) == round_views(old_rounds).push(round@));
                self.task.final_result = if ok {
                    self.ai2_result.clone()
                } else {
                    text
                };
                self.task.status = if ok {
                    TaskStatus::Succeeded
                } else {
                    TaskStatus::Running
                };
                self.task.updated_at = String::from_str(now);
                if ok {
                    self.stage = RunStage::Finished;
                    Step { persist: true, action: RunAction::Done }
                } else {
                    self.previous_ai2_result = self.ai2_result.clone();
                    self.stage = RunStage::BetweenRounds;
                    Step { persist: true, action: RunAction::NextRound }
                }
            },
            RunEvent::Proceed => {
                self.round_index = self.round_index + 1;
                self.begin_round(now)
            },
        }
    }
}

// ---------------------------------------------------------------------------
// Properties of the machine
// ---------------------------------------------------------------------------

/// What holds of every run state the machine reaches: rounds are numbered
/// 1, 2, ... in order; the current round number follows the recorded
/// rounds; and with a positive round limit no more rounds than the limit are
/// recorded or started.
pub open spec fn run_inv(m: RunView) -> bool {
    &&& forall|i: int| 0 <= i < m.task.rounds.len() ==> #[trigger] m.task.rounds[i].index == i + 1
    &&& m.stage == RunStage::BetweenRounds ==> m.round_index == m.task.rounds.len()
    &&& m.stage != RunStage::BetweenRounds && m.stage != RunStage::Finished ==> m.round_index
        == m.task.rounds.len() + 1
    &&& m.task.max_rounds > 0 ==> m.task.rounds.len() <= m.task.max_rounds
    &&& m.task.max_rounds > 0 && m.stage != RunStage::BetweenRounds && m.stage
        != RunStage::Finished ==> m.round_index <= m.task.max_rounds
}

/// A run of a task that has no rounds yet starts in a state the invariant
/// describes.
pub proof fn law_start_establishes_invariant(t: TaskView, s: Settings, now: Seq<char>)
    requires
        t.rounds.len() == 0,
    ensures
        run_inv(run_start(t, s, now).0),
{
}

/// Every step the machine takes keeps the invariant: in particular a task
/// with a positive round limit never records more rounds than the limit, and
/// round `k` is recorded as the `k`-th round.
pub proof fn law_step_keeps_invariant(m: RunView, e: EventView, now: Seq<char>)
    requires
        run_inv(m),
        accepts(m.stage, e),
        m.stage == RunStage::BetweenRounds ==> m.round_index < u32::MAX,
    ensures
        run_inv(run_step(m, e, now).0),
{
    let r = run_step(m, e, now).0;
    if let EventView::Review { text, duration_ms } = e {
        assert forall|i: int| 0 <= i < r.task.rounds.len() implies #[trigger] r.task.rounds[i].index
            == i + 1 by {
            if i < m.task.rounds.len() {
                assert(r.task.rounds[i] == m.task.rounds[i]);
            }
        }
    }
}

/// A run of a task with round limit 0 never ends because of the limit: it
/// runs until a round succeeds, the user stops it or a step fails.
pub proof fn law_zero_limit_is_unlimited(m: RunView, e: EventView, now: Seq<char>)
    requires
        m.task.max_rounds == 0,
        m.task.status != TaskStatus::LimitReached,
        accepts(m.stage, e),
    ensures
        run_step(m, e, now).0.task.status != TaskStatus::LimitReached,
{
}

/// A round limit is honoured: when the next round would pass a positive
/// limit, the run ends with the limit reached instead of asking for a plan.
pub proof fn law_limit_ends_run(m: RunView, now: Seq<char>)
    requires
        m.stage == RunStage::BetweenRounds,
        m.round_index < u32::MAX,
        m.task.max_rounds > 0,
        m.round_index + 1 > m.task.max_rounds,
    ensures
        run_step(m, EventView::Proceed, now).0.task.status == TaskStatus::LimitReached,
        run_step(m, EventView::Proceed, now).0.task.final_result == limit_text(),
        run_step(m, EventView::Proceed, now).0.stage == RunStage::Finished,
        run_step(m, EventView::Proceed, now).1 == step(true, ActionView::Done),
{
}

/// A stop request seen at a checkpoint ends the run: the task is recorded as
/// stopped by the user, and no model is asked anything more.
pub proof fn law_stop_ends_run(m: RunView, cp: Checkpoint, paused: bool, now: Seq<char>)
    requires
        m.stage == RunStage::StopCheck(cp),
    ensures
        run_step(m, EventView::Controls { paused, stopped: true }, now).0.task.status
            == TaskStatus::Stopped,
        run_step(m, EventView::Controls { paused, stopped: true }, now).0.task.final_result
            == stopped_text(),
        run_step(m, EventView::Controls { paused, stopped: true }, now).0.stage
            == RunStage::Finished,
        run_step(m, EventView::Controls { paused, stopped: true }, now).1 == step(
            true,
            ActionView::Done,
        ),
{
}

/// While the task is paused and not stopped the run only waits: the first
/// wait records the task as paused, later ones change nothing.
pub proof fn law_pause_waits(m: RunView, cp: Checkpoint, now: Seq<char>)
    requires
        m.stage == RunStage::PauseWait(cp),
    ensures
        ({
            let (r, st) = run_step(m, EventView::Controls { paused: true, stopped: false }, now);
            &&& st.action == ActionView::Sleep
            &&& r.stage == m.stage
            &&& r.task.status == (if m.pause_announced {
                m.task.status
            } else {
                TaskStatus::Paused
            })
            &&& r.task.rounds == m.task.rounds
        }),
{
}

/// Resuming after a recorded pause records the task as running again before
/// the stop request is read.
pub proof fn law_resume_runs(m: RunView, cp: Checkpoint, stopped: bool, now: Seq<char>)
    requires
        m.stage == RunStage::PauseWait(cp),
        m.pause_announced,
    ensures
        run_step(m, EventView::Controls { paused: false, stopped }, now).0.task.status
            == TaskStatus::Running,
        run_step(m, EventView::Controls { paused: false, stopped }, now).0.stage
            == RunStage::StopCheck(cp),
{
}

/// A successful review ends the run: the task succeeds with the execution
/// result as its final result. An unsuccessful one records the review as the
/// final result so far and moves on to the next round.
pub proof fn law_review_outcome(m: RunView, text: Seq<char>, duration_ms: u128, now: Seq<char>)
    requires
        m.stage == RunStage::AwaitReview,
    ensures
        ({
            let (r, st) = run_step(m, EventView::Review { text, duration_ms }, now);
            &&& r.task.rounds.len() == m.task.rounds.len() + 1
            &&& r.task.rounds.last().ai1_review == text
            &&& r.task.rounds.last().ai2_result == m.ai2_result
            &&& if succeeded(m.task.success_mode, m.success_keywords, m.ai2_result, text) {
                &&& r.task.status == TaskStatus::Succeeded
                &&& r.task.final_result == m.ai2_result
                &&& r.stage == RunStage::Finished
                &&& st == step(true, ActionView::Done)
            } else {
                &&& r.task.status == TaskStatus::Running
                &&& r.task.final_result == text
                &&& r.stage == RunStage::BetweenRounds
                &&& r.previous_ai2_result == m.ai2_result
                &&& st == step(true, ActionView::NextRound)
            }
        }),
{
}

/// Under manual judgement no round succeeds: the run ends only when the
/// user stops it, the limit is reached or a step fails.
pub proof fn law_manual_never_succeeds(m: RunView, e: EventView, now: Seq<char>)
    requires
        m.task.success_mode == SuccessMode::Manual,
        m.task.status != TaskStatus::Succeeded,
        accepts(m.stage, e),
    ensures
        run_step(m, e, now).0.task.status != TaskStatus::Succeeded,
{
}

/// A failure at any point ends the run with the task failed and the error
/// recorded.
pub proof fn law_failure_ends_run(m: RunView, error: Seq<char>, now: Seq<char>)
    ensures
        run_step(m, EventView::Failed(error), now).0.task.status == TaskStatus::Failed,
        run_step(m, EventView::Failed(error), now).0.task.error == Some(error),
        run_step(m, EventView::Failed(error), now).0.stage == RunStage::Finished,
        run_step(m, EventView::Failed(error), now).1 == step(true, ActionView::Done),
{
}

/// The planner of round 1 sees the goal alone; from round 2 on it also sees
/// the execution result of the round before. Leaving the stop check before
/// planning without a stop request asks the planner exactly this.
pub proof fn law_planner_sees_previous_result(m: RunView, paused: bool, now: Seq<char>)
    requires
        m.stage == RunStage::StopCheck(Checkpoint::Plan),
    ensures
        m.round_index == 1 ==> run_step(m, EventView::Controls { paused, stopped: false }, now).1.action
            == ActionView::AskPlanner(
            "用户目标:\n"@ + m.task.user_goal + "\n\n请分析需求，给出可以直接交给 AI2 执行的方案。"@,
        ),
        m.round_index != 1 ==> run_step(m, EventView::Controls { paused, stopped: false }, now).1.action
            == ActionView::AskPlanner(
            "用户目标:\n"@ + m.task.user_goal + "\n\n上一轮 AI2 执行结果:\n"@ + m.previous_ai2_result
                + "\n\n请审核上一轮结果，给出下一轮可以直接交给 AI2 执行的改进方案。"@,
        ),
        run_step(m, EventView::Controls { paused, stopped: false }, now).0.stage == RunStage::AwaitPlan,
{
}

/// The result the next planner sees is this round's execution result with
/// its write summary: the write step appends the summary lines (when files
/// were written), an unsuccessful review keeps the result as the previous
/// one, and neither going on to the next round nor reading the pause and
/// stop requests changes it.
pub proof fn law_previous_result_carried(
    m: RunView,
    summaries: Seq<Seq<char>>,
    text: Seq<char>,
    duration_ms: u128,
    paused: bool,
    stopped: bool,
    now: Seq<char>,
)
    ensures
        m.stage == RunStage::AwaitWrites ==> run_step(m, EventView::Writes(summaries), now).0.ai2_result == (
        if summaries.len() == 0 {
            m.ai2_result
        } else {
            m.ai2_result + "\n\n[本地文件写入结果]\n"@ + join(summaries, "\n"@)
        }),
        m.stage == RunStage::AwaitReview && run_step(m, EventView::Review { text, duration_ms }, now).0.stage
            == RunStage::BetweenRounds ==> run_step(
            m,
            EventView::Review { text, duration_ms },
            now,
        ).0.previous_ai2_result == m.ai2_result,
        m.stage == RunStage::BetweenRounds && m.round_index < u32::MAX ==> run_step(
            m,
            EventView::Proceed,
            now,
        ).0.previous_ai2_result == m.previous_ai2_result,
        (m.stage is PauseWait || m.stage is StopCheck) ==> run_step(
            m,
            EventView::Controls { paused, stopped },
            now,
        ).0.previous_ai2_result == m.previous_ai2_result,
{
}

} // verus!
