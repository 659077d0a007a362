use ralph::config::core_config::CoreConfig;
use ralph::config::hats::{HatBackend, HatConfig};
use ralph::config::ralph_config::RalphConfig;
use ralph::config::scratchpad::ScratchpadConfig;
use ralph::config::settings::{
    CliConfig, FeaturesConfig, InjectMode, MemoriesConfig, PreflightConfig, RobotConfig,
    SkillsConfig,
};
use ralph::event_loop::building::{
    bus_hats, events_reader_path, indexed_skills, response_events_path, tasks_path, PromptRequest,
};
use ralph::event_loop::event::{Event, Evidence, IncomingEvent, MalformedLine, ParseResult};
use ralph::event_loop::guidance::{guidance_entry, parse_human_interact_context};
use ralph::event_loop::mutation::{
    format_mutation_message, mutation_warning_reason, warn_on_mutation_evidence, MutationEvidence,
    MutationScore, MutationStatus,
};
use ralph::event_loop::orchestrator::EventLoop;
use ralph::event_loop::processing::{
    answered_batch, extract_task_id, first_question, make_reply_event, restart_requested,
    validate_event, HumanReply,
};
use ralph::event_loop::prompt::{
    choose_prompt_id, extract_prompt_id, generate_prompt_id, HatQueue, MemoryText, Skill,
    SkillContext,
};
use ralph::event_loop::registry::{Hat, HatRegistry, TopicRoute};
use ralph::event_loop::routing::{
    determine_active_hat_ids, determine_active_hats, effective_regular_events, format_event,
    is_entrypoint_topic, is_kickoff_or_recovery_event, PendingHats,
};
use ralph::event_loop::scratchpad::{
    guidance_path, prepend_scratchpad, scratchpad_complete, scratchpad_path, show_scratchpad,
    ScratchpadStatus,
};
use ralph::event_loop::tasks::{
    count_tasks, current_loop_id, filter_tasks_by_loop, get_open_task_list, prepend_ready_tasks,
    verify_tasks_complete, Task, TaskLists, TaskStatus,
};

fn default_config() -> RalphConfig {
    RalphConfig::with_sections(
        CoreConfig::in_workspace(None, Some("/work".to_string())),
        CliConfig {
            backend: "gemini".to_string(),
            command: None,
            default_mode: "autonomous".to_string(),
            idle_timeout_secs: 30,
        },
        MemoriesConfig {
            enabled: true,
            inject: InjectMode::Auto,
            budget: 0,
        },
        SkillsConfig {
            enabled: true,
            dirs: vec![],
        },
        FeaturesConfig {
            parallel: true,
            auto_merge: false,
            preflight: PreflightConfig {
                enabled: true,
                strict: false,
                skip: vec![],
            },
        },
        RobotConfig {
            enabled: true,
            timeout_seconds: None,
            checkin_interval_seconds: Some(10),
            fault: None,
        },
    )
}

fn text(s: &str) -> String {
    s.to_string()
}

fn hat_config(publishes: &[&str]) -> HatConfig {
    HatConfig {
        name: text("Builder"),
        description: Some(text("builds")),
        triggers: vec![text("build.task")],
        publishes: publishes.iter().map(|t| t.to_string()).collect(),
        instructions: String::new(),
        extra_instructions: vec![],
        backend: None,
        backend_args: None,
        default_publishes: None,
        max_activations: None,
        disallowed_tools: vec![],
        scratchpad: None,
        concurrency: 1,
        aggregate: false,
    }
}

fn hat(id: &str, config: HatConfig) -> Hat {
    Hat {
        id: text(id),
        name: config.name.clone(),
        subscriptions: config.triggers.clone(),
        publishes: config.publishes.clone(),
        config: Some(config),
    }
}

fn route(topic: &str, hat: &str, publishers: &[&str]) -> TopicRoute {
    TopicRoute {
        topic: text(topic),
        subscribed: true,
        handler: Some(text(hat)),
        triggered: Some(text(hat)),
        publishers: publishers.iter().map(|p| p.to_string()).collect(),
    }
}

fn registry(hats: Vec<Hat>, routes: Vec<TopicRoute>) -> HatRegistry {
    let mut registry = HatRegistry::new(hats);
    for route in routes {
        assert!(registry.add_route(route));
    }
    registry
}

fn solo() -> EventLoop {
    EventLoop::new(default_config(), registry(vec![], vec![]))
}

fn with_builder(config: HatConfig) -> EventLoop {
    EventLoop::new(
        default_config(),
        registry(
            vec![hat("builder", config)],
            vec![
                route("build.task", "builder", &[]),
                TopicRoute {
                    topic: text("build.done"),
                    subscribed: false,
                    handler: None,
                    triggered: None,
                    publishers: vec![text("builder")],
                },
            ],
        ),
    )
}

fn incoming(topic: &str, payload: &str, evidence: Evidence) -> IncomingEvent {
    IncomingEvent {
        topic: text(topic),
        payload: Some(text(payload)),
        wave_id: None,
        evidence,
    }
}

fn read(events: Vec<IncomingEvent>) -> ParseResult {
    ParseResult {
        events,
        malformed: vec![],
    }
}

fn topics(events: &[Event]) -> Vec<&str> {
    events.iter().map(|e| e.topic.as_str()).collect()
}

#[test]
fn solo_loops_always_have_a_scratchpad() {
    let mut config = default_config();
    config.core.scratchpad.enabled = false;
    let event_loop = EventLoop::new(config, registry(vec![], vec![]));
    assert!(event_loop.config().core.scratchpad.enabled);
    assert!(event_loop.active_scratchpad.enabled);
    assert_eq!(event_loop.state().iteration, 0);
    assert!(event_loop.registry().hats.is_empty());
}

#[test]
fn loops_start_with_their_event() {
    let mut event_loop = solo();
    event_loop.initialize("Do it");
    assert_eq!(event_loop.objective.as_deref(), Some("Do it"));
    let out = event_loop.take_outbox();
    assert_eq!(topics(&out), vec!["task.start"]);
    assert_eq!(out[0].payload, "Do it");
    event_loop.initialize_resume("Do it");
    assert_eq!(topics(&event_loop.take_outbox()), vec!["task.resume"]);
    event_loop.config.event_loop.starting_event = Some(text("work.start"));
    event_loop.initialize("Do it");
    assert_eq!(topics(&event_loop.take_outbox()), vec!["work.start"]);
    event_loop.initialize_resume("Do it");
    assert_eq!(topics(&event_loop.take_outbox()), vec!["task.resume"]);
    event_loop.start("Do it", false);
    assert_eq!(topics(&event_loop.take_outbox()), vec!["work.start"]);
    event_loop.start("Go on", true);
    let out = event_loop.take_outbox();
    assert_eq!(topics(&out), vec!["task.resume"]);
    assert_eq!(out[0].payload, "Go on");
}

#[test]
fn new_loops_have_a_fresh_state() {
    let event_loop = solo();
    let state = event_loop.state();
    assert_eq!((state.iteration, state.consecutive_failures), (0, 0));
    assert!(!state.completion_requested && !state.cancellation_requested);
    assert!(state.last_hat.is_none() && state.last_active_hat_ids.is_empty());
    assert!(state.exhausted_hats.is_empty() && state.abandoned_tasks.is_empty());
    assert_eq!(state.hat_activation_counts.get("builder"), 0);
}

#[test]
fn routes_name_registered_hats_only() {
    let mut registry = registry(
        vec![hat("builder", hat_config(&[]))],
        vec![route("build.task", "builder", &["builder"])],
    );
    assert!(!registry.add_route(route("build.task", "builder", &[])));
    assert!(!registry.add_route(route("other", "nobody", &[])));
    assert!(!registry.add_route(route("other", "builder", &["nobody"])));
    assert_eq!(registry.routes.len(), 1);
    assert!(registry.add_route(route("other", "builder", &["builder"])));
    assert_eq!(registry.get_for_topic("other"), Some("builder"));
}

#[test]
fn active_hats_are_registered() {
    let event_loop = with_builder(hat_config(&[]));
    let config = &event_loop.config.event_loop;
    let events = vec![
        Event::new("build.task", "a"),
        Event::new("x", "").with_target("nobody"),
        Event::new("y", "").with_target("builder"),
    ];
    let ids = determine_active_hat_ids(config, &event_loop.registry, &events);
    assert_eq!(ids, vec!["builder"]);
    let hats = determine_active_hats(config, &event_loop.registry, &events);
    assert_eq!(hats.iter().map(|hat| hat.id.as_str()).collect::<Vec<_>>(), vec!["builder"]);
}

#[test]
fn queues_are_gone_through_in_the_order_of_hats() {
    let queue = |id: &str, payload: &str| HatQueue {
        hat_id: text(id),
        events: vec![Event::new("note", payload)],
    };
    for order in [["a", "builder", "ralph"], ["ralph", "builder", "a"], ["builder", "ralph", "a"]] {
        let mut event_loop = with_builder(hat_config(&[]));
        let queues = order.iter().map(|id| queue(id, id)).collect();
        match event_loop.build_prompt("ralph", &queues, &vec![Event::new("human.response", "h")]) {
            Some(PromptRequest::Coordinator(plan)) => assert_eq!(
                plan.events_context,
                "Event: note - a\nEvent: note - builder\nEvent: note - ralph\nEvent: human.response - h"
            ),
            other => panic!("unexpected request: {other:?}"),
        }
    }
}

#[test]
fn humans_can_ask_for_a_restart() {
    let events = vec![Event::new("a", ""), Event::new("human.interact", "Go on?")];
    let reply = HumanReply::Response { response: text("restart") };
    let batch = answered_batch(&events, &reply);
    assert_eq!(topics(&batch), vec!["a", "human.interact", "human.response"]);
    assert_eq!(batch[2].payload, "restart");
    assert_eq!(answered_batch(&events, &HumanReply::NoRobotService).len(), 2);
    assert_eq!(answered_batch(&vec![Event::new("a", "")], &reply).len(), 1);
    assert!(restart_requested(&vec![false, false, true]));
    assert!(restart_requested(&vec![true, false]));
    assert!(!restart_requested(&vec![false, false]));
    assert!(!restart_requested(&vec![]));
}

#[test]
fn unchecked_work_is_held_back() {
    let mut event_loop = solo();
    let result = read(vec![
        incoming("build.done", "tests: pass", Evidence::Passed),
        incoming("build.done", "tests: fail", Evidence::Failed),
        incoming("build.done", "", Evidence::Missing),
        incoming("verify.passed", "", Evidence::Failed),
        incoming("other", "x", Evidence::Missing),
    ]);
    let events = event_loop.process_parse_result(&result);
    assert_eq!(
        topics(&events),
        vec![
            "build.done",
            "build.blocked",
            "build.blocked",
            "verify.failed",
            "other"
        ]
    );
    assert_eq!(events[0].payload, "tests: pass");
    assert!(events[2].payload.starts_with("Missing backpressure evidence."));
    assert_eq!(event_loop.state.consecutive_blocked, 1);
}

#[test]
fn finished_work_of_waves_needs_no_evidence() {
    let mut event = incoming("review.done", "ok", Evidence::Missing);
    assert_eq!(validate_event(&event).topic, "review.blocked");
    event.evidence = Evidence::Failed;
    assert_eq!(
        validate_event(&event).payload,
        "Review verification failed. Run tests and build before emitting review.done."
    );
    event.wave_id = Some(text("w1"));
    assert_eq!(validate_event(&event).topic, "review.done");
}

#[test]
fn tasks_are_given_up_once() {
    let mut event_loop = solo();
    for round in 1..=4u32 {
        let result = read(vec![incoming(
            "build.blocked",
            " task-7 \nmore",
            Evidence::Missing,
        )]);
        event_loop.process_parse_result(&result);
        let out = event_loop.take_outbox();
        if round == 3 {
            assert_eq!(topics(&out), vec!["build.task.abandoned"]);
            assert_eq!(
                out[0].payload,
                "Task 'task-7' abandoned after 3 consecutive build.blocked events"
            );
        } else {
            assert!(out.is_empty());
        }
        assert_eq!(event_loop.state.consecutive_blocked, round);
    }
    assert_eq!(event_loop.state.abandoned_tasks, vec!["task-7"]);
    event_loop.process_parse_result(&read(vec![incoming("x", "", Evidence::Missing)]));
    assert_eq!(event_loop.state.consecutive_blocked, 0);
    assert_eq!(extract_task_id(""), "unknown");
    assert_eq!(extract_task_id("\nb"), "");
}

#[test]
fn batches_settle_their_tasks() {
    let mut event_loop = solo();
    let blocked = |task: &str| incoming("build.blocked", task, Evidence::Missing);
    event_loop.process_parse_result(&read(vec![
        blocked("a"),
        blocked("b"),
        blocked("a"),
        blocked("a"),
        blocked("a"),
    ]));
    assert_eq!(topics(&event_loop.take_outbox()), vec!["build.task.abandoned"]);
    assert_eq!(event_loop.state.task_block_counts.get("a"), 4);
    assert_eq!(event_loop.state.task_block_counts.get("b"), 1);
    assert_eq!(event_loop.state.abandoned_tasks, vec!["a"]);
    event_loop.process_parse_result(&read(vec![blocked("b"), blocked("a"), blocked("b")]));
    let out = event_loop.take_outbox();
    assert_eq!(topics(&out), vec!["build.task.abandoned"]);
    assert!(out[0].payload.starts_with("Task 'b' abandoned"));
    assert_eq!(event_loop.state.abandoned_tasks, vec!["a", "b"]);
    assert_eq!(event_loop.state.task_block_counts.get("b"), 3);
}

#[test]
fn requests_for_completion_count_at_the_end_only() {
    let mut event_loop = solo();
    let result = read(vec![
        incoming("LOOP_COMPLETE", "", Evidence::Missing),
        incoming("x", "", Evidence::Missing),
    ]);
    let events = event_loop.process_parse_result(&result);
    assert_eq!(topics(&events), vec!["x"]);
    assert!(!event_loop.state.completion_requested);
    let result = read(vec![
        incoming("x", "", Evidence::Missing),
        incoming("LOOP_COMPLETE", "", Evidence::Missing),
    ]);
    event_loop.process_parse_result(&result);
    assert!(event_loop.state.completion_requested);
    event_loop.config.event_loop.cancellation_promise = text("loop.cancel");
    let result = read(vec![
        incoming("loop.cancel", "", Evidence::Missing),
        incoming("x", "", Evidence::Missing),
    ]);
    assert!(!event_loop.state.cancellation_requested);
    let events = event_loop.process_parse_result(&result);
    assert_eq!(topics(&events), vec!["x"]);
    assert!(event_loop.state.cancellation_requested);
}

#[test]
fn malformed_lines_are_reported_and_counted() {
    let mut event_loop = solo();
    let result = ParseResult {
        events: vec![],
        malformed: vec![MalformedLine {
            line_number: 7,
            error: text("bad"),
            content: text("{"),
        }],
    };
    event_loop.process_parse_result(&result);
    event_loop.process_parse_result(&result);
    let out = event_loop.take_outbox();
    assert_eq!(topics(&out), vec!["event.malformed", "event.malformed"]);
    assert_eq!(out[0].payload, "Line 7: bad\nContent: {");
    assert_eq!(event_loop.state.consecutive_malformed_events, 2);
    event_loop.process_parse_result(&read(vec![incoming("x", "", Evidence::Missing)]));
    assert_eq!(event_loop.state.consecutive_malformed_events, 0);
    let before = event_loop.state.consecutive_malformed_events;
    assert!(event_loop.process_parse_result(&read(vec![])).is_empty());
    assert_eq!(event_loop.state.consecutive_malformed_events, before);
}

#[test]
fn active_hats_keep_to_their_topics_where_the_scope_is_enforced() {
    let mut event_loop = with_builder(hat_config(&["build.done"]));
    event_loop.config.event_loop.enforce_hat_scope = true;
    event_loop.state.last_active_hat_ids = vec![text("builder")];
    let result = read(vec![
        incoming("build.done", "ok", Evidence::Passed),
        incoming("deploy", "now", Evidence::Missing),
    ]);
    let events = event_loop.process_parse_result(&result);
    assert_eq!(topics(&events), vec!["build.done"]);
    let out = event_loop.take_outbox();
    assert_eq!(topics(&out), vec!["builder.scope_violation"]);
    assert_eq!(out[0].payload, "Attempted to publish 'deploy': now");
    // Without an active hat there is no restriction.
    event_loop.state.last_active_hat_ids = vec![];
    let events = event_loop.process_parse_result(&result);
    assert_eq!(topics(&events), vec!["build.done", "deploy"]);
}

#[test]
fn batches_are_published_with_what_became_of_questions() {
    let mut event_loop = with_builder(hat_config(&[]));
    let events = vec![
        Event::new("plan.ready", "p"),
        Event::new("human.interact", "Go on?"),
    ];
    assert_eq!(first_question(&events).as_deref(), Some("Go on?"));
    let told = event_loop.publish_batch(
        &events,
        &HumanReply::Response {
            response: text("yes"),
        },
    );
    assert!(told.had_events && told.had_plan_events && told.has_orphans);
    let context = told.human_interact_context.expect("context");
    assert_eq!(context["question"], "Go on?");
    assert_eq!(context["outcome"], "response");
    assert_eq!(context["response"], "yes");
    let out = event_loop.take_outbox();
    assert_eq!(
        topics(&out),
        vec!["plan.ready", "human.interact", "human.response"]
    );
    assert_eq!(topics(&event_loop.recorded).len(), 3);
    let told = event_loop.publish_batch(
        &vec![Event::new("build.task", "b")],
        &HumanReply::NoRobotService,
    );
    assert!(told.had_events && !told.had_plan_events && !told.has_orphans);
    assert!(told.human_interact_context.is_none());
}

#[test]
fn replies_are_told_by_their_kind() {
    let timeout = make_reply_event("Q", &HumanReply::Timeout { seconds: 30 }).expect("event");
    assert_eq!(timeout.topic, "human.timeout");
    assert_eq!(
        timeout.payload,
        "No response after 30s. Original question: Q"
    );
    let error = make_reply_event("Q", &HumanReply::WaitError { error: text("io") }).expect("event");
    assert_eq!(
        error.payload,
        "Error waiting for response: io. Original question: Q"
    );
    assert!(make_reply_event("Q", &HumanReply::NoRobotService).is_none());
    assert!(make_reply_event("Q", &HumanReply::SendFailure { error: text("io") }).is_none());
    let mut event_loop = solo();
    let question = vec![Event::new("human.interact", "Q")];
    for (reply, outcome, member, value) in [
        (HumanReply::NoRobotService, "no_robot_service", "question", "Q"),
        (
            HumanReply::SendFailure { error: text("io") },
            "send_failure",
            "error",
            "io",
        ),
        (
            HumanReply::WaitError { error: text("io") },
            "wait_error",
            "error",
            "io",
        ),
    ] {
        let told = event_loop.publish_batch(&question, &reply);
        let context = told.human_interact_context.expect("context");
        assert_eq!(context["outcome"], outcome);
        assert_eq!(context[member], value);
    }
    let told = event_loop.publish_batch(&question, &HumanReply::Timeout { seconds: 30 });
    let context = told.human_interact_context.expect("context");
    assert_eq!(context["outcome"], "timeout");
    assert_eq!(context["timeout_seconds"], 30);
}

#[test]
fn questions_have_a_context() {
    let context = parse_human_interact_context("{\"question\":\"Why?\",\"n\":1}");
    assert_eq!(context["question"], "Why?");
    assert_eq!(context["n"], 1);
    let context = parse_human_interact_context("{\"n\":1}");
    assert_eq!(context["question"], "{\"n\":1}");
    let context = parse_human_interact_context("42");
    assert_eq!(context["question"], 42);
    let context = parse_human_interact_context("Why?");
    assert_eq!(context["question"], "Why?");
    let event_loop = solo();
    let unread = vec![
        incoming("x", "", Evidence::Missing),
        incoming("human.interact", "First?", Evidence::Missing),
        incoming("human.interact", "Second?", Evidence::Missing),
    ];
    let context = event_loop
        .pending_human_interact_context_in_jsonl(&unread)
        .expect("context");
    assert_eq!(context["question"], "First?");
    assert!(event_loop
        .pending_human_interact_context_in_jsonl(&vec![])
        .is_none());
    assert!(!event_loop.has_pending_plan_events_in_jsonl(&unread));
    assert!(
        event_loop.has_pending_plan_events_in_jsonl(&vec![incoming(
            "plan.ready",
            "",
            Evidence::Missing
        )])
    );
}

#[test]
fn wave_events_are_parted_from_the_others() {
    let mut config = hat_config(&[]);
    config.concurrency = 3;
    let mut event_loop = with_builder(config);
    let mut wave = incoming("build.task", "a", Evidence::Missing);
    wave.wave_id = Some(text("w1"));
    let mut result_event = incoming("other.done", "b", Evidence::Missing);
    result_event.wave_id = Some(text("w1"));
    let result = read(vec![
        wave,
        result_event,
        incoming("build.task", "c", Evidence::Missing),
    ]);
    let (events, waves) = event_loop.process_events_from_jsonl_with_waves(result);
    assert_eq!(topics(&events), vec!["other.done", "build.task"]);
    assert_eq!(waves.len(), 1);
    assert_eq!(waves[0].payload.as_deref(), Some("a"));
    let told = event_loop.publish_batch_with_waves(&events, &HumanReply::NoRobotService, waves);
    assert!(told.processed.had_events);
    assert_eq!(told.wave_events.len(), 1);
}

#[test]
fn outputs_are_counted_and_audited() {
    let mut config = hat_config(&[]);
    config.disallowed_tools = vec![text("Write")];
    let mut event_loop = with_builder(config);
    assert!(event_loop.is_write_restricted("builder"));
    assert!(!event_loop.is_write_restricted("ralph"));
    event_loop.process_output("builder", false, Some(" a.rs | 2 +-\n"));
    assert_eq!(event_loop.state.iteration, 1);
    assert_eq!(event_loop.state.consecutive_failures, 1);
    assert_eq!(event_loop.state.last_hat.as_deref(), Some("builder"));
    let out = event_loop.take_outbox();
    assert_eq!(topics(&out), vec!["builder.scope_violation"]);
    assert_eq!(
        out[0].payload,
        "Hat 'builder' modified files with Edit/Write disallowed:\na.rs | 2 +-"
    );
    event_loop.process_output("builder", true, Some(""));
    event_loop.process_output("ralph", true, Some("a.rs"));
    assert!(event_loop.take_outbox().is_empty());
    assert_eq!(event_loop.state.consecutive_failures, 0);
    assert_eq!(event_loop.state.iteration, 3);
}

#[test]
fn checkins_are_due_after_their_interval() {
    let event_loop = solo();
    let second = 1_000_000_000u128;
    assert!(event_loop.is_checkin_due(true, 10 * second, None));
    assert!(!event_loop.is_checkin_due(true, 10 * second - 1, None));
    assert!(!event_loop.is_checkin_due(true, 60 * second, Some(9 * second)));
    assert!(!event_loop.is_checkin_due(false, 60 * second, None));
}

#[test]
fn the_coordinator_executes_whatever_is_pending() {
    let ids = vec![text("builder"), text("ralph")];
    let pending = |next: Option<&str>, human: bool| PendingHats {
        next: next.map(|id| id.to_string()),
        human,
        hat_ids: ids.clone(),
    };
    let alone = solo();
    let hats = with_builder(hat_config(&[]));
    assert_eq!(alone.next_hat(&pending(Some("ralph"), false)).as_deref(), Some("ralph"));
    assert_eq!(hats.next_hat(&pending(Some("builder"), false)).as_deref(), Some("ralph"));
    assert_eq!(hats.next_hat(&pending(None, true)).as_deref(), Some("ralph"));
    assert_eq!(hats.next_hat(&pending(None, false)), None);
    assert_eq!(alone.next_hat(&pending(None, true)).as_deref(), Some("ralph"));
    assert_eq!(alone.next_hat(&pending(None, false)), None);
    assert!(hats.has_pending_events(&pending(None, true)));
    assert!(hats.has_pending_human_events(&pending(None, true)));
    assert!(!hats.has_pending_events(&pending(None, false)));
}

#[test]
fn stalled_loops_recover_with_the_last_hat() {
    let mut event_loop = with_builder(hat_config(&["build.done", "build.blocked"]));
    assert!(event_loop.inject_fallback_event());
    let out = event_loop.take_outbox();
    assert_eq!(out[0].topic, "task.resume");
    assert_eq!(out[0].target, None);
    event_loop.state.last_hat = Some(text("builder"));
    assert!(event_loop.inject_fallback_event());
    let out = event_loop.take_outbox();
    assert_eq!(out[0].target.as_deref(), Some("builder"));
    assert!(out[0]
        .payload
        .contains("Allowed topics: `build.done`, `build.blocked`."));
    event_loop.state.last_hat = Some(text("ralph"));
    event_loop.inject_fallback_event();
    assert_eq!(event_loop.take_outbox()[0].target, None);
}

#[test]
fn downstream_events_come_before_kickoff_events() {
    let mut config = default_config();
    config.event_loop.starting_event = Some(text("kick"));
    let event_loop = EventLoop::new(
        config,
        registry(
            vec![hat("planner", hat_config(&[])), hat("builder", hat_config(&[]))],
            vec![route("task.start", "planner", &[]), route("build.task", "builder", &[])],
        ),
    );
    let start = Event::new("task.start", "go");
    let build = Event::new("build.task", "b");
    assert_eq!(
        event_loop.get_active_hat_id(&vec![start.clone(), build.clone()]),
        "builder"
    );
    assert_eq!(event_loop.get_active_hat_id(&vec![start.clone()]), "planner");
    assert_eq!(event_loop.get_active_hat_id(&vec![]), "ralph");
    let directed = Event::new("task.resume", "r").with_target("builder");
    assert_eq!(event_loop.get_active_hat_id(&vec![directed]), "builder");
    assert!(is_kickoff_or_recovery_event("work.start"));
    assert!(!is_kickoff_or_recovery_event("work.started"));
    assert!(is_entrypoint_topic(&event_loop.config.event_loop, "kick"));
    let shown = effective_regular_events(&vec![start.clone(), build.clone()]);
    assert_eq!(topics(&shown), vec!["build.task"]);
    let shown = effective_regular_events(&vec![start.clone()]);
    assert_eq!(topics(&shown), vec!["task.start"]);
    assert_eq!(
        format_event(&start),
        "Event: task.start - <top-level-prompt>\ngo\n</top-level-prompt>"
    );
    assert_eq!(format_event(&build), "Event: build.task - b");
}

#[test]
fn default_events_are_published_for_silent_hats() {
    let mut config = hat_config(&[]);
    config.default_publishes = Some(text("LOOP_COMPLETE"));
    config.backend = Some(HatBackend::Named(text("kiro")));
    let mut event_loop = with_builder(config);
    event_loop.check_default_publishes("ralph");
    assert!(event_loop.outbox.is_empty());
    event_loop.check_default_publishes("builder");
    assert!(event_loop.state.completion_requested);
    assert_eq!(event_loop.outbox[0].source.as_deref(), Some("builder"));
    assert_eq!(event_loop.outbox[0].payload, "");
    assert_eq!(event_loop.recorded.len(), 1);
    assert!(matches!(
        event_loop.get_hat_backend("builder"),
        Some(HatBackend::Named(_))
    ));
    assert!(event_loop.get_hat_backend("nobody").is_none());
    assert!(event_loop.get_hat_publishes("nobody").is_empty());
}

#[test]
fn exhausted_hats_are_reported_once() {
    let mut config = hat_config(&[]);
    config.max_activations = Some(1);
    let mut event_loop = with_builder(config);
    let queues = || {
        vec![HatQueue {
            hat_id: text("builder"),
            events: vec![Event::new("build.task", "b"), Event::new("again", "a")],
        }]
    };
    match event_loop.build_prompt("ralph", &queues(), &vec![]) {
        Some(PromptRequest::Coordinator(plan)) => {
            assert_eq!(plan.active_hat_ids, vec!["builder"]);
            assert!(plan.reports.is_empty());
            assert_eq!(
                plan.events_context,
                "Event: build.task - b\nEvent: again - a"
            );
        }
        other => panic!("unexpected request: {other:?}"),
    }
    assert_eq!(event_loop.state.hat_activation_counts.get("builder"), 1);
    assert_eq!(event_loop.state.last_active_hat_ids, vec!["builder"]);
    match event_loop.build_prompt("ralph", &queues(), &vec![]) {
        Some(PromptRequest::Coordinator(plan)) => {
            assert_eq!(topics(&plan.reports), vec!["builder.exhausted"]);
            assert_eq!(
                plan.reports[0].payload,
                "Hat 'builder' exhausted.\n- max_activations: 1\n- activations: 1\n- dropped_topics:\n  - again\n  - build.task"
            );
        }
        other => panic!("unexpected request: {other:?}"),
    }
    assert_eq!(topics(&event_loop.take_outbox()), vec!["builder.exhausted"]);
    match event_loop.build_prompt("ralph", &queues(), &vec![]) {
        Some(PromptRequest::Coordinator(plan)) => {
            assert!(plan.reports.is_empty());
            assert_eq!(plan.events_context, "");
        }
        other => panic!("unexpected request: {other:?}"),
    }
}

#[test]
fn prompts_of_solo_loops_hold_all_events_but_guidance() {
    let mut event_loop = solo();
    let queues = vec![HatQueue {
        hat_id: text("ralph"),
        events: vec![Event::new("task.start", "go")],
    }];
    let human = vec![
        Event::new("human.guidance", "be quick"),
        Event::new("human.response", "yes"),
    ];
    match event_loop.build_prompt("ralph", &queues, &human) {
        Some(PromptRequest::Coordinator(plan)) => {
            assert_eq!(
                plan.events_context,
                "Event: task.start - <top-level-prompt>\ngo\n</top-level-prompt>\nEvent: human.response - yes"
            );
            assert_eq!(plan.guidance, vec!["be quick"]);
        }
        other => panic!("unexpected request: {other:?}"),
    }
    assert_eq!(event_loop.robot_guidance, vec!["be quick"]);
    assert!(event_loop.build_prompt("nobody", &queues, &human).is_none());
}

#[test]
fn custom_hats_are_asked_about_their_own_events() {
    let mut event_loop = with_builder(hat_config(&[]));
    let queues = vec![HatQueue {
        hat_id: text("builder"),
        events: vec![Event::new("build.task", "b")],
    }];
    match event_loop.build_prompt("builder", &queues, &vec![]) {
        Some(PromptRequest::CustomHat(context)) => assert_eq!(context, "Event: build.task - b"),
        other => panic!("unexpected request: {other:?}"),
    }
}

#[test]
fn hats_can_have_a_scratchpad_of_their_own() {
    let mut config = hat_config(&[]);
    config.scratchpad = Some(ScratchpadConfig {
        enabled: true,
        path: text("own.md"),
    });
    let mut event_loop = with_builder(config);
    let queues = vec![HatQueue {
        hat_id: text("builder"),
        events: vec![Event::new("build.task", "b")],
    }];
    event_loop.build_prompt("ralph", &queues, &vec![]);
    assert_eq!(event_loop.active_scratchpad.path, "own.md");
    event_loop.build_prompt("ralph", &vec![], &vec![]);
    assert_eq!(event_loop.active_scratchpad.path, ".ralph/agent/scratchpad.md");
}

fn task(id: &str, status: TaskStatus, loop_id: Option<&str>) -> Task {
    Task {
        id: text(id),
        title: format!("Title {id}"),
        priority: 2,
        status,
        key: None,
        blocked_by: vec![],
        loop_id: loop_id.map(|id| id.to_string()),
    }
}

fn lists() -> TaskLists {
    let mut keyed = task("t2", TaskStatus::InProgress, Some("l"));
    keyed.key = Some(text("k"));
    let mut blocked = task("t3", TaskStatus::Open, Some("l"));
    blocked.blocked_by = vec![text("t1"), text("t2")];
    let mut keyed_again = task("t2", TaskStatus::InProgress, Some("l"));
    keyed_again.key = Some(text("k"));
    let mut blocked_again = task("t3", TaskStatus::Open, Some("l"));
    blocked_again.blocked_by = vec![text("t1")];
    TaskLists {
        ready: vec![task("t1", TaskStatus::Open, Some("l")), keyed],
        open: vec![
            task("t1", TaskStatus::Open, Some("l")),
            keyed_again,
            blocked,
            task("x", TaskStatus::Open, Some("other")),
        ],
        all: vec![
            task("t0", TaskStatus::Closed, Some("l")),
            task("t1", TaskStatus::Open, Some("l")),
            task("t2", TaskStatus::InProgress, Some("l")),
            blocked_again,
            task("x", TaskStatus::Open, Some("other")),
        ],
    }
}

#[test]
fn prompts_tell_of_the_tasks_of_the_loop() {
    let id = Some(text("l"));
    assert_eq!(
        prepend_ready_tasks("PROMPT", true, Some(&lists()), &id),
        "<ready-tasks>\n## Tasks: 2 ready, 3 open, 1 closed\n\n- [ ] [P2] Title t1 (t1)\n- [~] [P2] Title t2 (t2) — key: k\n\nBlocked:\n- [blocked] [P2] Title t3 (t3) — blocked by: t1, t2\n</ready-tasks>\n\nPROMPT"
    );
    assert_eq!(prepend_ready_tasks("PROMPT", false, Some(&lists()), &id), "PROMPT");
    assert_eq!(prepend_ready_tasks("PROMPT", true, None, &id), "PROMPT");
    assert_eq!(
        prepend_ready_tasks("PROMPT", true, Some(&lists()), &Some(text("none"))),
        "PROMPT"
    );
    assert_eq!(count_tasks(&lists(), &id), (3, 1));
    assert_eq!(filter_tasks_by_loop(&lists().all, &None).len(), 5);
    assert_eq!(filter_tasks_by_loop(&lists().all, &id).len(), 4);
    assert!(!verify_tasks_complete(&lists().open, &id));
    assert!(verify_tasks_complete(&lists().open, &Some(text("none"))));
    assert_eq!(
        get_open_task_list(&lists().open, &Some(text("other"))),
        vec!["x: Title x"]
    );
    assert_eq!(current_loop_id(Some(" l \n")), Some(text("l")));
    assert_eq!(current_loop_id(Some(" \n")), None);
    assert_eq!(current_loop_id(None), None);
}

#[test]
fn failed_tasks_count_as_closed_in_prompts_only() {
    let lists = TaskLists {
        ready: vec![task("t1", TaskStatus::Open, None)],
        open: vec![task("t1", TaskStatus::Open, None)],
        all: vec![
            task("t1", TaskStatus::Open, None),
            task("t2", TaskStatus::Closed, None),
            task("t3", TaskStatus::Failed, None),
        ],
    };
    assert_eq!(count_tasks(&lists, &None), (1, 1));
    assert!(prepend_ready_tasks("P", true, Some(&lists), &None)
        .starts_with("<ready-tasks>\n## Tasks: 1 ready, 1 open, 2 closed\n"));
    let failed = TaskLists {
        ready: vec![],
        open: vec![],
        all: vec![task("t3", TaskStatus::Failed, None)],
    };
    assert_eq!(count_tasks(&failed, &None), (0, 0));
    assert!(prepend_ready_tasks("P", true, Some(&failed), &None).contains("No open tasks."));
}

#[test]
fn closed_tasks_alone_are_told_too() {
    let closed = TaskLists {
        ready: vec![],
        open: vec![],
        all: vec![task("t0", TaskStatus::Closed, None)],
    };
    assert_eq!(
        prepend_ready_tasks("P", true, Some(&closed), &None),
        "<ready-tasks>\nNo open tasks. Create tasks with `ralph tools task add`.\n</ready-tasks>\n\nP"
    );
}

#[test]
fn long_scratchpads_keep_their_end() {
    let short = "# Notes\n".repeat(10);
    assert_eq!(show_scratchpad(&short), short);
    let long = format!("# One\n{}# Two\n{}", "a\n".repeat(200), "b\n".repeat(8000));
    let shown = show_scratchpad(&long);
    assert!(shown.starts_with("<!-- earlier content truncated ("));
    assert!(shown.contains("<!-- discarded sections: # One | # Two -->\n\nb\n"));
    assert!(long.ends_with(shown.split("-->\n\n").nth(1).expect("tail")));
    let pad = ScratchpadConfig {
        enabled: true,
        path: text("pad.md"),
    };
    assert_eq!(
        prepend_scratchpad("P", &pad, Some("note")),
        "<scratchpad path=\"pad.md\">\nnote\n</scratchpad>\n\nP"
    );
    assert_eq!(prepend_scratchpad("P", &pad, Some(" \n")), "P");
    assert_eq!(prepend_scratchpad("P", &pad, None), "P");
    let off = ScratchpadConfig {
        enabled: false,
        path: text("pad.md"),
    };
    assert_eq!(prepend_scratchpad("P", &off, Some("note")), "P");
}

#[test]
fn the_omission_is_counted_in_bytes() {
    let long = format!("{}\n{}", "ä".repeat(50), "x".repeat(16000));
    let shown = show_scratchpad(&long);
    assert!(
        shown.starts_with("<!-- earlier content truncated (101 chars omitted) -->\n\nxxx"),
        "shown: {}",
        &shown[..80]
    );
}

#[test]
fn the_end_of_a_scratchpad_is_never_empty() {
    let long = format!("{}\n", "x".repeat(17000));
    let shown = show_scratchpad(&long);
    let tail = format!("{}\n", "x".repeat(15999));
    assert_eq!(
        shown,
        format!("<!-- earlier content truncated (1001 chars omitted) -->\n\n{tail}")
    );
}

#[test]
fn scratchpads_tell_of_open_work() {
    assert_eq!(
        scratchpad_complete(true, Some("- [x] a\n  - [ ] b")),
        ScratchpadStatus::Pending
    );
    assert_eq!(
        scratchpad_complete(true, Some("- [x] a\n- [~] b")),
        ScratchpadStatus::Complete
    );
    assert_eq!(scratchpad_complete(true, None), ScratchpadStatus::Missing);
    assert_eq!(scratchpad_complete(false, None), ScratchpadStatus::Complete);
}

#[test]
fn guidance_is_kept_in_a_scratchpad_that_is_enabled() {
    let pad = |enabled: bool, path: &str| ScratchpadConfig {
        enabled,
        path: text(path),
    };
    assert_eq!(
        guidance_path(&pad(true, "a.md"), &pad(true, "g.md"), None, None, "/w").as_deref(),
        Some("/w/a.md")
    );
    assert_eq!(
        guidance_path(&pad(true, "a.md"), &pad(true, "g.md"), Some("/x"), None, "/w").as_deref(),
        Some("/x/a.md")
    );
    assert_eq!(
        guidance_path(&pad(false, "a.md"), &pad(true, "g.md"), None, None, "/w").as_deref(),
        Some("/w/g.md")
    );
    assert_eq!(
        guidance_path(&pad(false, "a.md"), &pad(false, "g.md"), None, None, "/w"),
        None
    );
    assert_eq!(scratchpad_path(&pad(true, "a.md"), Some("/x")), "/x/a.md");
    assert_eq!(
        guidance_entry("2026-01-01 00:00:00 UTC", "hurry"),
        "\n### HUMAN GUIDANCE (2026-01-01 00:00:00 UTC)\n\nhurry\n"
    );
    let mut event_loop = solo();
    event_loop.inject_human_guidance(&vec![text("one"), text("two")]);
    assert_eq!(
        topics(&event_loop.outbox),
        vec!["human.guidance", "human.guidance"]
    );
    assert_eq!(event_loop.recorded.len(), 2);
}

#[test]
fn finished_prompts_stand_behind_tasks_scratchpad_and_skills() {
    let event_loop = solo();
    let context = SkillContext {
        skills: vec![Skill {
            name: text("ralph-tools"),
            content: text(" use tools \n"),
        }],
        auto_skills: vec![
            Skill {
                name: text("ralph-tools"),
                content: text("again"),
            },
            Skill {
                name: text("mine"),
                content: text("my skill"),
            },
        ],
        memories: Some(MemoryText {
            full: text("# Memories"),
            within_budget: text("# Mem"),
        }),
    };
    let prompt = event_loop.finish_prompt("BASE", &context, Some("note"), Some(&lists()), &None);
    let tasks = prompt.find("<ready-tasks>").expect("tasks");
    let pad = prompt.find("<scratchpad path").expect("scratchpad");
    let memories = prompt.find("# Memories").expect("memories");
    let tools = prompt
        .find("<ralph-tools-skill>\nuse tools\n</ralph-tools-skill>")
        .expect("tools");
    let mine = prompt
        .find("<mine-skill>\nmy skill\n</mine-skill>\n\nBASE")
        .expect("custom");
    assert!(tasks < pad && pad < memories && memories < tools && tools < mine);
    assert_eq!(prompt.matches("ralph-tools-skill>").count(), 2);
}

#[test]
fn user_prompts_have_identifiers() {
    let event_loop = solo();
    let prompt = event_loop
        .check_for_user_prompt(
            &vec![
                Event::new("x", ""),
                Event::new("user.prompt", "<event id=\"q1\">Which?</event>"),
            ],
            "ff",
        )
        .expect("prompt");
    assert_eq!(prompt.id, "q1");
    assert_eq!(prompt.text, "<event id=\"q1\">Which?</event>");
    assert_eq!(extract_prompt_id("Which?", "ff"), "qff");
    assert_eq!(extract_prompt_id("id=\"open", "ff"), "qff");
    assert_eq!(extract_prompt_id("{\"id\":\"q1\",\"question\":\"Which db?\"}", "ff"), "q1");
    assert_eq!(extract_prompt_id("{\"id\":7,\"question\":\"Which db?\"}", "ff"), "qff");
    assert_eq!(extract_prompt_id("[\"id\"]", "ff"), "qff");
    let mut members = serde_json::Map::new();
    members.insert(text("id"), serde_json::Value::from("q2"));
    let read = Ok(serde_json::Value::Object(members));
    assert_eq!(choose_prompt_id("Which?", &read, "ff"), "q2");
    assert_eq!(choose_prompt_id("<event id=\"q1\">", &read, "ff"), "q1");
    assert_eq!(choose_prompt_id("Which?", &Err(text("no JSON")), "ff"), "qff");
    assert_eq!(generate_prompt_id(255), "ff");
    assert_eq!(generate_prompt_id(0xFFFF_FFFF + 16), "10");
    assert!(event_loop.check_for_user_prompt(&vec![], "ff").is_none());
}

#[test]
fn mutation_testing_is_warned_about() {
    let evidence = |status: MutationStatus, score: Option<(&str, bool)>| MutationEvidence {
        status,
        score: score.map(|(score, below_threshold)| MutationScore {
            text: text(score),
            below_threshold,
        }),
    };
    let reason = |status, score, threshold| mutation_warning_reason(&evidence(status, score), threshold);
    assert_eq!(
        reason(MutationStatus::Fail, None, None).as_deref(),
        Some("mutation testing failed")
    );
    assert_eq!(
        reason(MutationStatus::Warn, Some(("61.50", false)), None).as_deref(),
        Some("mutation score below threshold (61.50%)")
    );
    assert_eq!(
        reason(MutationStatus::Unknown, None, None).as_deref(),
        Some("mutation testing status unknown")
    );
    assert_eq!(
        reason(MutationStatus::Pass, Some(("70.00", true)), Some("80.00")).as_deref(),
        Some("mutation score 70.00% below threshold 80.00%")
    );
    assert_eq!(
        reason(MutationStatus::Pass, None, Some("80.00")).as_deref(),
        Some("mutation score missing (threshold 80.00%)")
    );
    assert_eq!(reason(MutationStatus::Pass, Some(("90.00", false)), Some("80.00")), None);
    assert_eq!(reason(MutationStatus::Pass, None, None), None);
    assert_eq!(format_mutation_message("m", &None), "m");
    assert_eq!(
        warn_on_mutation_evidence(None, Some("80.00")).as_deref(),
        Some("missing mutation evidence in build.done payload")
    );
    assert_eq!(warn_on_mutation_evidence(None, None), None);
}

#[test]
fn loops_are_made_with_hats_skills_and_paths() {
    let hats = vec![hat("builder", hat_config(&[]))];
    let bus = bus_hats(&hats);
    assert_eq!(bus[0].id, "builder");
    assert_eq!(bus[0].subscriptions, vec!["build.task"]);
    assert_eq!(bus[1].id, "ralph");
    assert_eq!(bus[1].subscriptions, vec!["*"]);
    let names = vec![
        text("ralph-tools"),
        text("ralph-tools-tasks"),
        text("ralph-tools-memories"),
    ];
    let mut config = default_config();
    assert_eq!(indexed_skills(&config, &names).len(), 3);
    config.tasks.enabled = false;
    assert_eq!(
        indexed_skills(&config, &names),
        vec!["ralph-tools", "ralph-tools-memories"]
    );
    config.memories.enabled = false;
    assert_eq!(indexed_skills(&config, &names), vec!["ralph-tools"]);
    config.skills.enabled = false;
    assert!(indexed_skills(&config, &names).is_empty());
    assert_eq!(
        events_reader_path(Some(" .ralph/e.jsonl\n"), Some("/w"), "d"),
        "/w/.ralph/e.jsonl"
    );
    assert_eq!(events_reader_path(Some("e.jsonl\n"), None, "d"), "e.jsonl");
    assert_eq!(events_reader_path(None, Some("/w"), "d"), "d");
    assert_eq!(response_events_path(Some("a\n"), "/w", Some("b"), Some("c")), "/w/a");
    assert_eq!(response_events_path(None, "/w", Some("b\n"), Some("c")), "b");
    assert_eq!(response_events_path(None, "/w", None, Some("c")), "c");
    assert_eq!(response_events_path(None, "/w", None, None), ".ralph/events.jsonl");
    assert_eq!(tasks_path(None), ".ralph/agent/tasks.jsonl");
    assert_eq!(tasks_path(Some("/t")), "/t");
}

#[test]
fn wave_results_do_not_count_as_repetition() {
    let mut event_loop = solo();
    event_loop.state.consecutive_same_signature = 3;
    event_loop.state.last_emitted_signature = Some(text("s"));
    event_loop.reset_stale_topic_counter();
    assert_eq!(event_loop.state.consecutive_same_signature, 0);
    assert_eq!(event_loop.state.last_emitted_signature, None);
}
