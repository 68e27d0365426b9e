use chat_to_chat::agent::{AgentAction, AgentRun, AgentStage, ToolOutcome, MAX_TOOL_TURNS};
use chat_to_chat::config::{find_provider, find_template};
use chat_to_chat::model::{
    default_settings, DisplayMode, PromptTemplate, RoundStatus, StartTaskRequest, StoredData, SuccessMode,
    TaskRecord, TaskStatus, ThemeMode,
};
use chat_to_chat::run::{Checkpoint, RunAction, RunEvent, RunStage, TaskRun};
use chat_to_chat::store::{delete_task, get_task, list_tasks, new_task, update_task_status, upsert_task, TaskControl};

fn task(id: &str, updated_at: &str) -> TaskRecord {
    TaskRecord {
        id: id.to_string(),
        user_goal: "goal".to_string(),
        max_rounds: 0,
        status: TaskStatus::Running,
        success_mode: SuccessMode::Ai1Judgement,
        display_mode: DisplayMode::Dual,
        rounds: vec![],
        final_result: String::new(),
        error: None,
        created_at: updated_at.to_string(),
        updated_at: updated_at.to_string(),
    }
}

fn ids(tasks: &[TaskRecord]) -> Vec<&str> {
    tasks.iter().map(|t| t.id.as_str()).collect()
}

#[test]
fn default_settings_are_keyless_openai_providers() {
    let s = default_settings();
    assert_eq!(s.providers.len(), 2);
    assert_eq!(s.providers[0].id, "ai1-default");
    assert_eq!(f32::from_bits(s.providers[0].temperature_bits), 0.2f32);
    assert_eq!(f32::from_bits(s.providers[1].temperature_bits), 0.4f32);
    assert!(s.providers.iter().all(|p| p.api_key.is_empty() && p.base_url == "https://api.openai.com/v1"));
    assert_eq!(s.templates[0].id, "default");
    assert_eq!(s.success_keywords, vec!["成功".to_string()]);
    assert_eq!(s.theme, ThemeMode::Dark);
    let d = StoredData::default();
    assert!(d.tasks.is_empty());
    assert_eq!(d.settings.active_template_id, "default");
}

#[test]
fn providers_and_templates_are_found_by_id() {
    let mut s = default_settings();
    assert_eq!(find_provider(&s, "ai2-default").unwrap().name, "AI2 执行模型");
    assert_eq!(find_provider(&s, "x").unwrap_err(), "找不到供应商配置: x");
    s.templates.push(PromptTemplate { id: "t2".into(), name: "T2".into(), prefix: "p".into(), suffix: "s".into() });
    s.active_template_id = "t2".into();
    assert_eq!(find_template(&s).unwrap().id, "t2");
    s.active_template_id = "gone".into();
    assert_eq!(find_template(&s).unwrap().id, "default");
    s.templates.clear();
    assert_eq!(find_template(&s).unwrap_err(), "至少需要一个提示词模板");
}

#[test]
fn listing_is_newest_first_and_stable() {
    let tasks = vec![task("a", "2024-01-01"), task("b", "2024-03-01"), task("c", "2024-01-01"), task("d", "2024-02-01")];
    let listed = list_tasks(tasks);
    assert_eq!(ids(&listed), vec!["b", "d", "a", "c"]);
}

#[test]
fn stored_task_is_found_again_and_deleted() {
    let mut tasks = vec![task("a", "1"), task("b", "2")];
    let mut newer = task("a", "3");
    newer.final_result = "done".into();
    upsert_task(&mut tasks, newer);
    assert_eq!(ids(&tasks), vec!["a", "b"]);
    assert_eq!(get_task(&tasks, "a").unwrap().final_result, "done");
    upsert_task(&mut tasks, task("c", "4"));
    assert_eq!(ids(&tasks), vec!["a", "b", "c"]);
    delete_task(&mut tasks, "b");
    assert_eq!(ids(&tasks), vec!["a", "c"]);
    assert!(get_task(&tasks, "b").is_none());
}

#[test]
fn status_updates_touch_only_the_named_task() {
    let mut tasks = vec![task("a", "1"), task("b", "1")];
    assert_eq!(update_task_status(&mut tasks, "b", TaskStatus::Paused, "9"), Some(1));
    assert_eq!(tasks[1].status, TaskStatus::Paused);
    assert_eq!(tasks[1].updated_at, "9");
    assert_eq!(tasks[0].status, TaskStatus::Running);
    assert_eq!(update_task_status(&mut tasks, "zz", TaskStatus::Stopped, "9"), None);
}

#[test]
fn controls_pause_resume_and_stop() {
    let mut c = TaskControl::default();
    assert_eq!(c.pause(), TaskStatus::Paused);
    assert!(c.paused);
    assert_eq!(c.resume(), TaskStatus::Running);
    assert!(!c.paused);
    c.pause();
    assert_eq!(c.stop(), TaskStatus::Stopped);
    assert!(c.stopped && !c.paused);
}

fn request(goal: &str, max_rounds: u32) -> StartTaskRequest {
    StartTaskRequest { user_goal: goal.to_string(), max_rounds, settings: default_settings() }
}

#[test]
fn new_task_trims_the_goal() {
    let t = new_task(&request("  目标  ", 3), "id1".into(), "now");
    assert_eq!(t.user_goal, "目标");
    assert_eq!(t.status, TaskStatus::Running);
    assert_eq!(t.max_rounds, 3);
    assert!(t.rounds.is_empty());
}

#[test]
fn empty_goal_fails_at_once() {
    let t = new_task(&request("   ", 1), "id".into(), "now");
    let (run, step) = TaskRun::start(t, &default_settings(), "t1");
    assert!(step.persist);
    assert!(matches!(step.action, RunAction::Done));
    assert_eq!(run.task.status, TaskStatus::Failed);
    assert_eq!(run.task.error.as_deref(), Some("用户目标不能为空"));
}

#[test]
fn missing_provider_fails_the_run() {
    let mut settings = default_settings();
    settings.role_config.ai2_provider_id = "nope".into();
    let t = new_task(&request("g", 1), "id".into(), "now");
    let (run, _) = TaskRun::start(t, &settings, "t1");
    assert_eq!(run.task.error.as_deref(), Some("找不到供应商配置: nope"));
}

#[test]
fn one_successful_round() {
    let t = new_task(&request("写报告", 2), "id".into(), "t0");
    let (mut run, step) = TaskRun::start(t, &default_settings(), "t1");
    assert!(matches!(step.action, RunAction::CheckControls));
    let step = run.step(RunEvent::Controls { paused: false, stopped: false }, "t2");
    assert!(matches!(step.action, RunAction::CheckControls));
    let step = run.step(RunEvent::Controls { paused: false, stopped: false }, "t2");
    match step.action {
        RunAction::AskPlanner(p) => assert!(p.starts_with("用户目标:\n写报告")),
        _ => panic!("expected the planner"),
    }
    run.step(RunEvent::Plan("计划".into()), "t3");
    run.step(RunEvent::Controls { paused: false, stopped: false }, "t3");
    let step = run.step(RunEvent::Controls { paused: false, stopped: false }, "t3");
    assert!(matches!(step.action, RunAction::GatherContext));
    let step = run.step(RunEvent::Context(String::new()), "t4");
    match step.action {
        RunAction::RunExecutor(p) => {
            assert_eq!(p, "请根据下面的方案执行。\n\n计划\n\n你的目标是尽量完整、准确地完成用户需求。")
        }
        _ => panic!("expected the executor"),
    }
    run.step(RunEvent::Execution("结果".into()), "t5");
    let step = run.step(RunEvent::Writes(vec!["已写入 /a (1 字符)".into()]), "t6");
    assert!(matches!(step.action, RunAction::AskReviewer(_)));
    let step = run.step(RunEvent::Review { text: "审核：成功".into(), duration_ms: 42 }, "t7");
    assert!(step.persist);
    assert!(matches!(step.action, RunAction::Done));
    assert_eq!(run.task.status, TaskStatus::Succeeded);
    assert_eq!(run.task.final_result, "结果\n\n[本地文件写入结果]\n已写入 /a (1 字符)");
    assert_eq!(run.task.rounds.len(), 1);
    assert_eq!(run.task.rounds[0].status, RoundStatus::Succeeded);
    assert_eq!(run.task.rounds[0].duration_ms, 42);
    assert_eq!(run.task.updated_at, "t7");
}

fn run_one_round(run: &mut TaskRun, review: &str) -> RunAction {
    run.step(RunEvent::Controls { paused: false, stopped: false }, "t");
    run.step(RunEvent::Controls { paused: false, stopped: false }, "t");
    run.step(RunEvent::Plan("p".into()), "t");
    run.step(RunEvent::Controls { paused: false, stopped: false }, "t");
    run.step(RunEvent::Controls { paused: false, stopped: false }, "t");
    run.step(RunEvent::Context(String::new()), "t");
    run.step(RunEvent::Execution("r".into()), "t");
    run.step(RunEvent::Writes(vec![]), "t");
    run.step(RunEvent::Review { text: review.into(), duration_ms: 1 }, "t").action
}

#[test]
fn round_limit_ends_the_task() {
    let t = new_task(&request("g", 1), "id".into(), "t0");
    let (mut run, _) = TaskRun::start(t, &default_settings(), "t1");
    assert!(matches!(run_one_round(&mut run, "继续"), RunAction::NextRound));
    assert_eq!(run.stage, RunStage::BetweenRounds);
    let step = run.step(RunEvent::Proceed, "t9");
    assert!(matches!(step.action, RunAction::Done));
    assert_eq!(run.task.status, TaskStatus::LimitReached);
    assert_eq!(run.task.final_result, "已达到最大轮数");
}

#[test]
fn zero_limit_keeps_going() {
    let t = new_task(&request("g", 0), "id".into(), "t0");
    let (mut run, _) = TaskRun::start(t, &default_settings(), "t1");
    for round in 1..=5u32 {
        assert!(matches!(run_one_round(&mut run, "继续"), RunAction::NextRound));
        assert_eq!(run.round_index, round);
        let step = run.step(RunEvent::Proceed, "t");
        assert!(matches!(step.action, RunAction::CheckControls));
    }
    assert_eq!(run.task.rounds.len(), 5);
    assert_eq!(run.task.status, TaskStatus::Running);
}

#[test]
fn pause_is_recorded_once_then_stop_ends_the_run() {
    let t = new_task(&request("g", 0), "id".into(), "t0");
    let (mut run, _) = TaskRun::start(t, &default_settings(), "t1");
    let step = run.step(RunEvent::Controls { paused: true, stopped: false }, "t2");
    assert!(step.persist && matches!(step.action, RunAction::Sleep));
    assert_eq!(run.task.status, TaskStatus::Paused);
    let step = run.step(RunEvent::Controls { paused: true, stopped: false }, "t3");
    assert!(!step.persist && matches!(step.action, RunAction::Sleep));
    let step = run.step(RunEvent::Controls { paused: false, stopped: false }, "t4");
    assert!(step.persist);
    assert_eq!(run.task.status, TaskStatus::Running);
    assert_eq!(run.stage, RunStage::StopCheck(Checkpoint::Plan));
    let step = run.step(RunEvent::Controls { paused: false, stopped: true }, "t5");
    assert!(matches!(step.action, RunAction::Done));
    assert_eq!(run.task.status, TaskStatus::Stopped);
    assert_eq!(run.task.final_result, "用户已停止任务");
}

#[test]
fn manual_mode_never_succeeds() {
    let mut settings = default_settings();
    settings.success_mode = SuccessMode::Manual;
    let req = StartTaskRequest { user_goal: "g".into(), max_rounds: 0, settings: settings.clone() };
    let t = new_task(&req, "id".into(), "t0");
    let (mut run, _) = TaskRun::start(t, &settings, "t1");
    assert!(matches!(run_one_round(&mut run, "成功"), RunAction::NextRound));
    assert_eq!(run.task.rounds[0].status, RoundStatus::Completed);
}

#[test]
fn a_failed_step_fails_the_task() {
    let t = new_task(&request("g", 0), "id".into(), "t0");
    let (mut run, _) = TaskRun::start(t, &default_settings(), "t1");
    let step = run.step(RunEvent::Failed("网络错误".into()), "t2");
    assert!(step.persist && matches!(step.action, RunAction::Done));
    assert_eq!(run.task.status, TaskStatus::Failed);
    assert_eq!(run.task.error.as_deref(), Some("网络错误"));
}

#[test]
fn agent_answers_directly_without_tools() {
    let mut a = AgentRun::new("sys", "do it");
    assert_eq!(a.messages.len(), 2);
    assert!(a.messages[0].content.starts_with("sys\n\nAI2 文件工具能力已启用"));
    match a.on_reply("final answer".into()) {
        AgentAction::Finish(r) => assert_eq!(r, "final answer"),
        _ => panic!("expected the end"),
    }
    assert_eq!(a.stage, AgentStage::Finished);
}

#[test]
fn agent_runs_tools_and_logs_them() {
    let mut a = AgentRun::new("sys", "do it");
    let reply = "<tool_call name=\"list_dir\">{\"path\":\"/d\"}</tool_call>";
    match a.on_reply(reply.into()) {
        AgentAction::RunTools(calls) => assert_eq!(calls.len(), 1),
        _ => panic!("expected tools"),
    }
    let outcomes = vec![ToolOutcome { name: "list_dir".into(), result: Ok("file\t/d/a\t1 bytes".into()) }];
    assert!(matches!(a.on_tool_outcomes(&outcomes), AgentAction::Ask));
    assert_eq!(a.messages.len(), 4);
    assert!(a.messages[3].content.ends_with("tool=list_dir status=ok\nfile\t/d/a\t1 bytes"));
    match a.on_reply("done".into()) {
        AgentAction::Finish(r) => {
            assert_eq!(r, "done\n\n[AI2 工具调用记录]\ntool=list_dir status=ok\nfile\t/d/a\t1 bytes")
        }
        _ => panic!("expected the end"),
    }
}

#[test]
fn agent_stops_after_eight_tool_rounds() {
    let mut a = AgentRun::new("sys", "loop");
    let reply = "<tool_call name=\"grep\">{}</tool_call>";
    let outcomes = vec![ToolOutcome { name: "grep".into(), result: Err("工具参数缺少字符串字段: root".into()) }];
    for turn in 1..=MAX_TOOL_TURNS {
        assert!(matches!(a.on_reply(reply.into()), AgentAction::RunTools(_)));
        let action = a.on_tool_outcomes(&outcomes);
        if turn < MAX_TOOL_TURNS {
            assert!(matches!(action, AgentAction::Ask));
        } else {
            match action {
                AgentAction::Finish(r) => assert!(r.starts_with("AI2 工具调用达到上限，已停止继续调用。")),
                _ => panic!("expected the end"),
            }
        }
    }
    assert_eq!(a.turns, 8);
    assert_eq!(a.stage, AgentStage::Finished);
}
