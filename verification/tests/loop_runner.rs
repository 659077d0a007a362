use ralph::cli::types::{ColorMode, Verbosity};
use ralph::config::core_config::CoreConfig;
use ralph::config::hats::{HatBackend, HatConfig, NamedHat};
use ralph::config::hooks::{
    EnvVar, HookMutationConfig, HookOnError, HookPhaseEvent, HookSpec, HookSuspendMode,
    HooksConfig, PhaseHooks,
};
use ralph::config::ralph_config::RalphConfig;
use ralph::config::scratchpad::ScratchpadConfig;
use ralph::config::settings::{
    CliConfig, FeaturesConfig, InjectMode, MemoriesConfig, PreflightConfig, RobotConfig,
    SkillsConfig,
};
use ralph::event_loop::event::Event;
use ralph::event_loop::registry::{Hat, HatRegistry, TopicRoute};
use ralph::loop_runner::event_log::{
    log_events_from_output, log_start_event, log_terminate_event, valid_topics,
};
use ralph::loop_runner::execution::{
    acp_stream, backend_name_for_timeout, choose_executor, convert_termination_type,
    execution_mode, fallback_hats, next_default, output_for_parsing, owns_raw_mode, preview_display_hat,
    pty_stream, resolve_display_hat_for_execution, Executor, OutputStream, TerminationType,
};
use ralph::loop_runner::hooks::{
    classify_hook_disposition, disposition_from_on_error, execute_hook_attempt,
    max_retry_attempts_for_suspend_mode, HookDispatch, HookDispatchFailure, HookDispatchOutcome,
    HookDisposition, HookReport, HookRunResult, HookStep, ResolvedHook, RetryBackoffDelayOutcome,
    SuspendWaitOutcome,
};
use ralph::loop_runner::late_events::{
    output_mentions_ralph_emit, LateEventRecovery, LatePoll, LateReport, LateStep,
};
use ralph::loop_runner::metadata::{
    format_hook_mutation_parse_error, merge_hook_metadata_namespace,
    merge_namespaced_hook_metadata, parse_hook_mutation_stdout, HookMutationParseError,
    HookMutationParseOutcome,
};
use ralph::loop_runner::requests::dispatch_phase_event_hooks;
use ralph::loop_runner::resolution::resolve_phase_event;
use ralph::loop_runner::runner::{HookGate, LoopReport, LoopRun, LoopStep};
use ralph::loop_runner::setup::{
    auto_merge, fresh_events_path, guidance_line, hooks_dispatch_enabled,
    resolve_current_events_path, resolve_loop_id, robot_settings, scratchpads_to_clear,
    start_config_path, start_loop, start_plan, start_topic,
};
use ralph::loop_runner::suspend::{
    fail_if_blocking_outcomes, format_hook_failure_detail, format_suspending_hook_reason,
    merge_accumulated_hook_metadata_from_outcomes, poll_retry_delay, requested_suspension,
    restart_request_path, stop_request_path, suspend_write_error, takes_signal, DelayPoll,
    SignalProbe, Waiting,
};
use ralph::loop_runner::suspend_wait::{
    hook_gate, judge_outcomes, wait_error, wait_for_resume, GateRequest, WaitReport, WaitStep,
};
use ralph::loop_runner::termination::{
    closing, history_entry, loop_termination_phase_events, merge_entry, rpc_reason, HistoryEntry,
    MergeEntry, RpcReason, TerminationReason,
};
use serde_json::Value;

fn text(s: &str) -> String {
    s.to_string()
}

fn default_config() -> RalphConfig {
    RalphConfig::with_sections(
        CoreConfig::in_workspace(None, Some(text("/work"))),
        CliConfig {
            backend: text("gemini"),
            command: None,
            default_mode: text("interactive"),
            idle_timeout_secs: 30,
        },
        MemoriesConfig {
            enabled: true,
            inject: InjectMode::Auto,
            budget: 0,
        },
        SkillsConfig {
            enabled: true,
            dirs: vec![],
        },
        FeaturesConfig {
            parallel: true,
            auto_merge: false,
            preflight: PreflightConfig {
                enabled: true,
                strict: false,
                skip: vec![],
            },
        },
        RobotConfig {
            enabled: true,
            timeout_seconds: Some(60),
            checkin_interval_seconds: None,
            fault: None,
        },
    )
}

fn named_hat(id: &str, scratchpad: Option<ScratchpadConfig>) -> NamedHat {
    NamedHat {
        id: text(id),
        hat: HatConfig {
            name: text(id),
            description: Some(text("d")),
            triggers: vec![],
            publishes: vec![],
            instructions: String::new(),
            extra_instructions: vec![],
            backend: None,
            backend_args: None,
            default_publishes: None,
            max_activations: None,
            disallowed_tools: vec![],
            scratchpad,
            concurrency: 1,
            aggregate: false,
        },
    }
}

fn hook(on_error: HookOnError, suspend_mode: HookSuspendMode, mutate: bool) -> ResolvedHook {
    ResolvedHook {
        phase_event: HookPhaseEvent::PreLoopStart,
        name: text("guard"),
        command: vec![text("./guard.sh"), text("-x")],
        cwd: Some(text("scripts")),
        env: vec![EnvVar {
            name: text("A"),
            value: text("1"),
        }],
        timeout_seconds: 30,
        max_output_bytes: 8192,
        on_error,
        suspend_mode,
        mutate: HookMutationConfig {
            enabled: mutate,
            format: None,
            extra: vec![],
        },
    }
}

fn ran(exit_code: Option<i32>, timed_out: bool, stdout: &str) -> HookRunResult {
    HookRunResult {
        exit_code,
        timed_out,
        stdout: text(stdout),
    }
}

fn outcome(name: &str, disposition: HookDisposition) -> HookDispatchOutcome {
    HookDispatchOutcome {
        phase_event: HookPhaseEvent::PreLoopStart,
        hook_name: text(name),
        disposition,
        suspend_mode: HookSuspendMode::WaitForResume,
        failure: Some(HookDispatchFailure::HookRunFailed {
            exit_code: Some(7),
            timed_out: false,
        }),
        mutation_parse_outcome: HookMutationParseOutcome::Disabled,
    }
}

fn object(value: Value) -> serde_json::Map<String, Value> {
    match value {
        Value::Object(map) => map,
        other => panic!("not an object: {other}"),
    }
}

fn json(content: &str) -> Value {
    serde_json::from_str(content).expect("valid JSON")
}

// ---- hooks ----

#[test]
fn failures_of_hooks_count_as_configured() {
    assert_eq!(disposition_from_on_error(HookOnError::Warn), HookDisposition::Warn);
    assert_eq!(disposition_from_on_error(HookOnError::Block), HookDisposition::Block);
    assert_eq!(disposition_from_on_error(HookOnError::Suspend), HookDisposition::Suspend);
    assert_eq!(
        classify_hook_disposition(HookOnError::Block, &ran(Some(0), false, "")),
        HookDisposition::Pass
    );
    assert_eq!(
        classify_hook_disposition(HookOnError::Block, &ran(Some(0), true, "")),
        HookDisposition::Block
    );
    assert_eq!(
        classify_hook_disposition(HookOnError::Warn, &ran(None, false, "")),
        HookDisposition::Warn
    );
}

#[test]
fn attempts_are_judged_by_process_and_output() {
    let plain = hook(HookOnError::Block, HookSuspendMode::WaitForResume, false);
    let passed = execute_hook_attempt(&plain, Ok(ran(Some(0), false, "not json")));
    assert_eq!(passed.disposition, HookDisposition::Pass);
    assert!(passed.failure.is_none());
    let failed = execute_hook_attempt(&plain, Err(text("no such file")));
    assert_eq!(failed.disposition, HookDisposition::Block);
    assert!(matches!(
        failed.failure,
        Some(HookDispatchFailure::HookExecutionError { .. })
    ));
    let mutating = hook(HookOnError::Block, HookSuspendMode::WaitForResume, true);
    let unusable = execute_hook_attempt(&mutating, Ok(ran(Some(0), false, "not json")));
    assert_eq!(unusable.disposition, HookDisposition::Block);
    assert!(matches!(
        unusable.failure,
        Some(HookDispatchFailure::InvalidMutationOutput { .. })
    ));
    let usable = execute_hook_attempt(
        &mutating,
        Ok(ran(Some(0), false, " {\"metadata\":{\"k\":1}}\n")),
    );
    assert_eq!(usable.disposition, HookDisposition::Pass);
    match usable.mutation_parse_outcome {
        HookMutationParseOutcome::Parsed {
            namespaced_metadata,
        } => assert_eq!(
            Value::Object(namespaced_metadata),
            json("{\"hook_metadata\":{\"guard\":{\"k\":1}}}")
        ),
        other => panic!("unexpected outcome: {other:?}"),
    }
}

#[test]
fn metadata_of_hooks_has_one_shape() {
    let mutate = HookMutationConfig {
        enabled: true,
        format: None,
        extra: vec![],
    };
    let message = |name: &str, stdout: &str| match parse_hook_mutation_stdout(&mutate, name, stdout)
    {
        HookMutationParseOutcome::Invalid(error) => format_hook_mutation_parse_error(&error),
        other => panic!("unexpected outcome: {other:?}"),
    };
    assert!(message("h", "{").starts_with("mutation stdout is not valid JSON: "));
    assert_eq!(message("h", "[]"), "mutation payload must be a JSON object");
    assert_eq!(
        message("h", "{\"prompt\":1,\"metadata\":{}}"),
        "mutation payload supports only '{\"metadata\": {...}}'; found keys: [\"metadata\", \"prompt\"]"
    );
    assert_eq!(
        message("h", "{\"metadata\":1}"),
        "mutation payload key 'metadata' must contain a JSON object"
    );
    assert_eq!(
        message(" ", "{\"metadata\":{}}"),
        "hook metadata namespace requires non-empty hook name"
    );
    let off = HookMutationConfig {
        enabled: false,
        format: None,
        extra: vec![],
    };
    assert!(matches!(
        parse_hook_mutation_stdout(&off, "h", "{"),
        HookMutationParseOutcome::Disabled
    ));
}

#[test]
fn metadata_of_other_hooks_stays() {
    let mut accumulated = object(json("{\"other\":true,\"hook_metadata\":{\"a\":{\"x\":1}}}"));
    merge_hook_metadata_namespace(&mut accumulated, "b", object(json("{\"y\":2}"))).unwrap();
    merge_hook_metadata_namespace(&mut accumulated, "b", object(json("{\"y\":3}"))).unwrap();
    assert_eq!(
        Value::Object(accumulated.clone()),
        json("{\"other\":true,\"hook_metadata\":{\"a\":{\"x\":1},\"b\":{\"y\":3}}}")
    );
    merge_namespaced_hook_metadata(
        &mut accumulated,
        &object(json("{\"hook_metadata\":{\"c\":{},\"a\":{\"x\":2}}}")),
    )
    .unwrap();
    assert_eq!(accumulated["hook_metadata"]["a"]["x"], 2);
    assert_eq!(accumulated["hook_metadata"]["b"]["y"], 3);
    let error = merge_namespaced_hook_metadata(&mut accumulated, &object(json("{}"))).unwrap_err();
    assert_eq!(
        format_hook_mutation_parse_error(&error),
        "parsed mutation metadata must contain object key 'hook_metadata'"
    );
    let error = merge_namespaced_hook_metadata(
        &mut accumulated,
        &object(json("{\"hook_metadata\":{\"d\":1}}")),
    )
    .unwrap_err();
    assert_eq!(
        format_hook_mutation_parse_error(&error),
        "parsed metadata entry for hook 'd' must be a JSON object"
    );
    let mut broken = object(json("{\"hook_metadata\":1}"));
    let error =
        merge_hook_metadata_namespace(&mut broken, "a", object(json("{}"))).unwrap_err();
    assert!(matches!(error, HookMutationParseError::InvalidSchema { .. }));
    assert_eq!(Value::Object(broken), json("{\"hook_metadata\":1}"));
}

#[test]
fn outcomes_hand_their_metadata_on() {
    let mut accumulated = serde_json::Map::new();
    let mut parsed = outcome("a", HookDisposition::Pass);
    parsed.mutation_parse_outcome = HookMutationParseOutcome::Parsed {
        namespaced_metadata: object(json("{\"hook_metadata\":{\"a\":{\"x\":1}}}")),
    };
    merge_accumulated_hook_metadata_from_outcomes(
        &mut accumulated,
        &vec![outcome("b", HookDisposition::Warn), parsed],
    );
    assert_eq!(
        Value::Object(accumulated),
        json("{\"hook_metadata\":{\"a\":{\"x\":1}}}")
    );
}

#[test]
fn defaults_hold_for_hooks_that_name_no_limits() {
    let mut config = HooksConfig::default();
    config.defaults.timeout_seconds = 7;
    config.defaults.suspend_mode = HookSuspendMode::RetryBackoff;
    let spec = |name: &str, on_error: Option<HookOnError>| HookSpec {
        name: text(name),
        command: vec![text("run"), text(name)],
        cwd: None,
        env: vec![EnvVar { name: text("A"), value: text("1") }],
        timeout_seconds: None,
        max_output_bytes: None,
        on_error,
        suspend_mode: None,
        mutate: HookMutationConfig::default(),
        extra: vec![],
    };
    let mut own = spec("own", Some(HookOnError::Suspend));
    own.timeout_seconds = Some(1);
    own.max_output_bytes = Some(2);
    own.suspend_mode = Some(HookSuspendMode::WaitForResume);
    config.events = vec![
        PhaseHooks {
            phase_event: HookPhaseEvent::PreLoopStart,
            hooks: vec![spec("plain", Some(HookOnError::Warn)), spec("open", None), own],
        },
        PhaseHooks {
            phase_event: HookPhaseEvent::PostLoopStart,
            hooks: vec![spec("other", Some(HookOnError::Block))],
        },
    ];
    let hooks = resolve_phase_event(&config, HookPhaseEvent::PreLoopStart);
    assert_eq!(hooks.len(), 2);
    assert_eq!(hooks[0].command, vec!["run", "plain"]);
    assert_eq!(hooks[0].env[0].value, "1");
    assert_eq!((hooks[0].timeout_seconds, hooks[0].max_output_bytes), (7, 8192));
    assert_eq!(hooks[0].suspend_mode, HookSuspendMode::RetryBackoff);
    assert_eq!(hooks[0].on_error, HookOnError::Warn);
    assert_eq!((hooks[1].timeout_seconds, hooks[1].max_output_bytes), (1, 2));
    assert_eq!(hooks[1].suspend_mode, HookSuspendMode::WaitForResume);
    assert!(resolve_phase_event(&config, HookPhaseEvent::PrePlanCreated).is_empty());
}

#[test]
fn runs_of_hooks_are_asked_for_in_order() {
    let hooks = vec![
        hook(HookOnError::Warn, HookSuspendMode::WaitForResume, false),
        hook(HookOnError::Block, HookSuspendMode::WaitForResume, false),
    ];
    let payload = json("{\"loop\":\"l\"}");
    let requests = dispatch_phase_event_hooks(true, &hooks, "/work", Some(&payload));
    assert_eq!(requests.len(), 2);
    assert_eq!(requests[0].phase_event, "pre.loop.start");
    assert_eq!(requests[0].command, vec!["./guard.sh", "-x"]);
    assert_eq!(requests[0].cwd.as_deref(), Some("scripts"));
    assert_eq!(requests[0].env[0].value, "1");
    assert_eq!(requests[1].stdin_payload, payload);
    assert!(dispatch_phase_event_hooks(false, &hooks, "/work", Some(&payload)).is_empty());
    assert!(dispatch_phase_event_hooks(true, &hooks, "/work", None).is_empty());
}

#[test]
fn suspending_hooks_are_tried_again_with_growing_delays() {
    assert_eq!(max_retry_attempts_for_suspend_mode(HookSuspendMode::WaitForResume), 1);
    assert_eq!(max_retry_attempts_for_suspend_mode(HookSuspendMode::RetryBackoff), 4);
    assert_eq!(max_retry_attempts_for_suspend_mode(HookSuspendMode::WaitThenRetry), 2);
    let mut dispatch =
        HookDispatch::new(hook(HookOnError::Suspend, HookSuspendMode::RetryBackoff, false));
    let mut delays = vec![];
    loop {
        match dispatch.step {
            HookStep::Attempt { .. } => {
                dispatch.advance(HookReport::Ran(Ok(ran(Some(1), false, ""))))
            }
            HookStep::Delay { millis, .. } => {
                delays.push(millis);
                dispatch.advance(HookReport::Delayed(RetryBackoffDelayOutcome::Elapsed));
            }
            HookStep::Finished => break,
            other => panic!("unexpected step: {other:?}"),
        }
    }
    assert_eq!(delays, vec![100, 200, 400]);
    assert_eq!(
        dispatch.outcome.expect("outcome").disposition,
        HookDisposition::Suspend
    );
}

#[test]
fn a_retry_that_passes_ends_the_dispatch() {
    let mut dispatch =
        HookDispatch::new(hook(HookOnError::Suspend, HookSuspendMode::RetryBackoff, false));
    dispatch.advance(HookReport::Ran(Ok(ran(Some(1), false, ""))));
    dispatch.advance(HookReport::Delayed(RetryBackoffDelayOutcome::Elapsed));
    dispatch.advance(HookReport::Ran(Ok(ran(Some(0), false, ""))));
    assert_eq!(dispatch.step, HookStep::Finished);
    assert_eq!(
        dispatch.outcome.expect("outcome").disposition,
        HookDisposition::Pass
    );
    let mut stopped =
        HookDispatch::new(hook(HookOnError::Suspend, HookSuspendMode::RetryBackoff, false));
    stopped.advance(HookReport::Ran(Ok(ran(Some(1), false, ""))));
    stopped.advance(HookReport::Delayed(RetryBackoffDelayOutcome::StopRequested));
    assert_eq!(stopped.step, HookStep::Finished);
}

#[test]
fn a_resumed_hook_is_tried_once_more() {
    let mut dispatch =
        HookDispatch::new(hook(HookOnError::Suspend, HookSuspendMode::WaitThenRetry, false));
    dispatch.advance(HookReport::Ran(Ok(ran(Some(1), false, ""))));
    assert_eq!(dispatch.step, HookStep::Persist);
    dispatch.advance(HookReport::Persisted(true));
    assert_eq!(dispatch.step, HookStep::AwaitSignal);
    dispatch.advance(HookReport::Signal(Some(SuspendWaitOutcome::Resume)));
    assert_eq!(dispatch.step, HookStep::ClearState);
    dispatch.advance(HookReport::Cleared(true));
    assert_eq!(dispatch.step, HookStep::Attempt { attempt: 2 });
    dispatch.advance(HookReport::Ran(Ok(ran(Some(1), false, ""))));
    assert_eq!(dispatch.step, HookStep::Finished);
    let mut warned = HookDispatch::new(hook(HookOnError::Warn, HookSuspendMode::WaitThenRetry, false));
    warned.advance(HookReport::Ran(Ok(ran(Some(1), false, ""))));
    assert_eq!(warned.step, HookStep::Finished);
}

// ---- suspension ----

#[test]
fn failures_are_put_into_words() {
    let detail = |failure: HookDispatchFailure| format_hook_failure_detail(Some(&failure));
    assert_eq!(
        detail(HookDispatchFailure::HookRunFailed {
            exit_code: Some(-9),
            timed_out: false
        }),
        "hook exited with code -9"
    );
    assert_eq!(
        detail(HookDispatchFailure::HookRunFailed {
            exit_code: None,
            timed_out: false
        }),
        "hook exited unsuccessfully"
    );
    assert_eq!(
        detail(HookDispatchFailure::HookRunFailed {
            exit_code: Some(1),
            timed_out: true
        }),
        "hook timed out"
    );
    assert_eq!(
        format_suspending_hook_reason(&outcome("guard", HookDisposition::Suspend)),
        "Lifecycle hook 'guard' suspended orchestration at 'pre.loop.start': hook exited with code 7"
    );
    assert_eq!(
        fail_if_blocking_outcomes(&vec![
            outcome("a", HookDisposition::Warn),
            outcome("b", HookDisposition::Block)
        ]),
        Err(text(
            "Lifecycle hook 'b' blocked orchestration at 'pre.loop.start': hook exited with code 7"
        ))
    );
    assert_eq!(fail_if_blocking_outcomes(&vec![]), Ok(()));
}

#[test]
fn blocking_hooks_come_before_suspending_ones() {
    let outcomes = vec![
        outcome("s", HookDisposition::Suspend),
        outcome("b", HookDisposition::Block),
    ];
    assert!(matches!(judge_outcomes(&outcomes, "l"), GateRequest::Block(_)));
    match judge_outcomes(&vec![outcome("s", HookDisposition::Suspend)], "l") {
        GateRequest::Suspend(record) => {
            assert_eq!(record.loop_id, "l");
            assert_eq!(record.hook_name, "s");
            assert_eq!(
                suspend_write_error(&record),
                "Failed to persist suspend-state for hook 's' at 'pre.loop.start'"
            );
        }
        other => panic!("unexpected request: {other:?}"),
    }
    assert!(matches!(
        judge_outcomes(&vec![outcome("w", HookDisposition::Warn)], "l"),
        GateRequest::Pass
    ));
    assert!(requested_suspension(&vec![outcome("p", HookDisposition::Pass)], "l").is_none());
}

#[test]
fn suspended_loops_wait_for_a_signal() {
    let looks = |signals: [bool; 3]| {
        let mut step = wait_for_resume(WaitStep::Persist, WaitReport::Done);
        for found in signals {
            step = wait_for_resume(step, WaitReport::Found(found));
        }
        step
    };
    let sleeping = looks([false, false, false]);
    assert_eq!(sleeping, WaitStep::Sleep);
    assert_eq!(
        wait_for_resume(sleeping, WaitReport::Done),
        WaitStep::Look(SignalProbe::Stop)
    );
    let resumed = looks([false, false, true]);
    let ended = wait_for_resume(resumed, WaitReport::Done);
    assert_eq!(ended, WaitStep::Ended(None));
    assert_eq!(hook_gate(ended), HookGate::Open);
    let restarted = looks([false, true, true]);
    assert_eq!(restarted, WaitStep::Clear(SuspendWaitOutcome::Restart));
    let dropped = wait_for_resume(restarted, WaitReport::Done);
    assert_eq!(dropped, WaitStep::DropResume(SuspendWaitOutcome::Restart));
    assert_eq!(
        hook_gate(wait_for_resume(dropped, WaitReport::Done)),
        HookGate::Ending(TerminationReason::RestartRequested)
    );
    let stopped = looks([true, true, true]);
    assert_eq!(stopped, WaitStep::Clear(SuspendWaitOutcome::Stop));
    let mut step = stopped;
    for _ in 0..2 {
        step = wait_for_resume(step, WaitReport::Done);
    }
    assert_eq!(step, WaitStep::Ended(Some(TerminationReason::Stopped)));
    assert_eq!(
        wait_for_resume(WaitStep::Look(SignalProbe::Stop), WaitReport::Failed),
        WaitStep::Failed
    );
    assert_eq!(
        wait_error(WaitStep::Look(SignalProbe::Stop), "w", "/work"),
        "Failed to consume stop signal while suspended: /work/.ralph/stop-requested"
    );
    assert_eq!(
        wait_error(WaitStep::DropResume(SuspendWaitOutcome::Stop), "w", "/work"),
        "Failed to clear stale resume signal"
    );
    assert_eq!(wait_error(WaitStep::Persist, "w", "/work"), "w");
    assert_eq!(stop_request_path("/work"), "/work/.ralph/stop-requested");
    assert_eq!(restart_request_path("/work"), "/work/.ralph/restart-requested");
}

#[test]
fn a_suspended_loop_takes_the_stop_request_and_leaves_the_restart_request() {
    assert!(takes_signal(SignalProbe::Stop, Waiting::Loop));
    assert!(!takes_signal(SignalProbe::Restart, Waiting::Loop));
    assert!(takes_signal(SignalProbe::Resume, Waiting::Loop));
}

#[test]
fn a_waiting_hook_leaves_requests_to_the_loop() {
    assert!(!takes_signal(SignalProbe::Stop, Waiting::Hook));
    assert!(!takes_signal(SignalProbe::Restart, Waiting::Hook));
    assert!(takes_signal(SignalProbe::Resume, Waiting::Hook));
}

#[test]
fn delays_of_retries_look_for_signals() {
    let ms = 1_000_000u128;
    assert_eq!(
        poll_retry_delay(0, 0, true, true),
        DelayPoll::Ended(RetryBackoffDelayOutcome::Elapsed)
    );
    assert_eq!(
        poll_retry_delay(400 * ms, 0, true, true),
        DelayPoll::Ended(RetryBackoffDelayOutcome::StopRequested)
    );
    assert_eq!(
        poll_retry_delay(400 * ms, 0, false, true),
        DelayPoll::Ended(RetryBackoffDelayOutcome::RestartRequested)
    );
    assert_eq!(
        poll_retry_delay(400 * ms, 0, false, false),
        DelayPoll::Sleep { nanos: 100 * ms }
    );
    assert_eq!(
        poll_retry_delay(400 * ms, 350 * ms, false, false),
        DelayPoll::Sleep { nanos: 50 * ms }
    );
    assert_eq!(
        poll_retry_delay(400 * ms, 400 * ms, false, false),
        DelayPoll::Ended(RetryBackoffDelayOutcome::Elapsed)
    );
}

// ---- late events ----

#[test]
fn polling_for_late_events_ends() {
    let mut poll = LatePoll::before_fallback();
    let mut sleeps = 0;
    loop {
        match poll.step {
            LateStep::Read => poll.advance(LateReport::Read { observed: false }),
            LateStep::Cancellation | LateStep::Completion => poll.advance(LateReport::Reason(None)),
            LateStep::Pending => poll.advance(LateReport::Pending(false)),
            LateStep::Sleep { millis } => {
                assert_eq!(millis, 50);
                sleeps += 1;
                poll.advance(LateReport::Slept);
            }
            LateStep::Ended(recovery) => {
                assert_eq!(recovery, LateEventRecovery::NoLateEvents);
                break;
            }
        }
    }
    assert_eq!(sleeps, 5);
    let mut poll = LatePoll::after_output();
    assert_eq!((poll.max_polls, poll.interval_millis), (20, 250));
    poll.advance(LateReport::Read { observed: true });
    poll.advance(LateReport::Reason(Some(TerminationReason::Cancelled)));
    assert_eq!(
        poll.step,
        LateStep::Ended(LateEventRecovery::Terminate(TerminationReason::Cancelled))
    );
    assert!(output_mentions_ralph_emit("now run `ralph emit x`"));
    assert!(!output_mentions_ralph_emit("nothing"));
}

// ---- the loop ----

fn reach(run: &mut LoopRun, reports: &[LoopReport]) {
    for report in reports {
        run.advance(*report);
    }
}

fn to_execution() -> LoopRun {
    let mut run = LoopRun::new(false);
    reach(
        &mut run,
        &[
            LoopReport::Hooks(HookGate::Open),
            LoopReport::Done,
            LoopReport::Hooks(HookGate::Open),
            LoopReport::Done,
            LoopReport::Answer(false),
            LoopReport::Answer(true),
            LoopReport::Reason(None),
            LoopReport::Answer(true),
            LoopReport::Hooks(HookGate::Open),
            LoopReport::Answer(true),
            LoopReport::Hooks(HookGate::Open),
            LoopReport::Answer(true),
        ],
    );
    run
}

fn executed(run: &mut LoopRun, mentions_emit: bool, promised: bool, any: bool) {
    reach(
        run,
        &[
            LoopReport::Executed {
                termination: None,
                mentions_emit,
                promised,
            },
            LoopReport::Reason(None),
            LoopReport::Answer(false),
            LoopReport::Answer(false),
            LoopReport::Events {
                any,
                plan: false,
                human: false,
                waves: false,
            },
        ],
    );
}

#[test]
fn a_round_leads_from_hooks_to_execution_and_back() {
    let mut run = to_execution();
    assert_eq!(run.step, LoopStep::Execute);
    executed(&mut run, false, false, true);
    assert_eq!(run.step, LoopStep::CheckCancellation);
    reach(&mut run, &[LoopReport::Reason(None), LoopReport::Reason(None)]);
    assert_eq!(run.step, LoopStep::CheckInterrupt);
}

#[test]
fn the_promise_in_the_output_counts_without_events() {
    let mut run = to_execution();
    executed(&mut run, false, true, false);
    assert_eq!(run.step, LoopStep::DefaultPublishes);
    reach(
        &mut run,
        &[LoopReport::Done, LoopReport::Reason(None), LoopReport::Reason(None)],
    );
    assert_eq!(run.step, LoopStep::PreTerminationHooks);
    assert_eq!(run.reason, Some(TerminationReason::CompletionPromise));
    reach(
        &mut run,
        &[
            LoopReport::Hooks(HookGate::Open),
            LoopReport::Done,
            LoopReport::Hooks(HookGate::Ending(TerminationReason::Stopped)),
            LoopReport::Done,
            LoopReport::Done,
        ],
    );
    assert_eq!(run.step, LoopStep::Finished);
    assert_eq!(run.reason, Some(TerminationReason::Stopped));
    let mut run = to_execution();
    executed(&mut run, false, true, true);
    reach(&mut run, &[LoopReport::Reason(None), LoopReport::Reason(None)]);
    assert_eq!(run.step, LoopStep::CheckInterrupt);
}

#[test]
fn cancellations_come_first_and_skip_hooks() {
    let mut run = to_execution();
    executed(&mut run, true, true, false);
    assert_eq!(run.step, LoopStep::RecoverEmit);
    run.advance(LoopReport::Late(Some(LateEventRecovery::Terminate(
        TerminationReason::CompletionPromise,
    ))));
    assert_eq!(run.step, LoopStep::CheckCancellation);
    run.advance(LoopReport::Reason(Some(TerminationReason::Cancelled)));
    assert_eq!(run.step, LoopStep::PublishTerminate);
    assert_eq!(run.reason, Some(TerminationReason::Cancelled));
    run.advance(LoopReport::Done);
    assert_eq!(run.step, LoopStep::HandleTermination);
}

#[test]
fn stalled_loops_give_up_after_three_fallbacks() {
    let mut run = LoopRun::new(false);
    reach(
        &mut run,
        &[
            LoopReport::Hooks(HookGate::Open),
            LoopReport::Done,
            LoopReport::Hooks(HookGate::Open),
            LoopReport::Done,
        ],
    );
    for round in 0..4 {
        reach(
            &mut run,
            &[
                LoopReport::Answer(false),
                LoopReport::Answer(true),
                LoopReport::Reason(None),
                LoopReport::Answer(false),
                LoopReport::Answer(false),
                LoopReport::Late(Some(LateEventRecovery::NoLateEvents)),
            ],
        );
        if round < 3 {
            assert_eq!(run.step, LoopStep::InjectFallback);
            run.advance(LoopReport::Answer(true));
        }
    }
    assert_eq!(run.step, LoopStep::PreTerminationHooks);
    assert_eq!(run.reason, Some(TerminationReason::Stopped));
}

#[test]
fn interrupts_end_the_processes_first() {
    let mut run = to_execution();
    run.advance(LoopReport::Interrupted);
    assert_eq!(run.step, LoopStep::KillGroup);
    assert_eq!(run.reason, Some(TerminationReason::Interrupted));
    reach(
        &mut run,
        &[
            LoopReport::Done,
            LoopReport::Hooks(HookGate::Open),
            LoopReport::Done,
            LoopReport::Hooks(HookGate::Open),
            LoopReport::Done,
        ],
    );
    assert_eq!(run.step, LoopStep::SignalInterface);
    let mut blocked = LoopRun::new(false);
    blocked.advance(LoopReport::Hooks(HookGate::Blocked));
    assert_eq!(blocked.step, LoopStep::Failed);
    let mut suspended = LoopRun::new(false);
    suspended.advance(LoopReport::Hooks(HookGate::Ending(TerminationReason::Stopped)));
    assert_eq!(suspended.step, LoopStep::SetUp);
    suspended.advance(LoopReport::Done);
    assert_eq!(suspended.step, LoopStep::PreTerminationHooks);
}

// ---- the end ----

#[test]
fn ends_are_recorded_by_their_reason() {
    assert_eq!(
        loop_termination_phase_events(true),
        (HookPhaseEvent::PreLoopComplete, HookPhaseEvent::PostLoopComplete)
    );
    assert_eq!(
        loop_termination_phase_events(false),
        (HookPhaseEvent::PreLoopError, HookPhaseEvent::PostLoopError)
    );
    assert!(matches!(
        history_entry(TerminationReason::Interrupted),
        HistoryEntry::Terminated { signal: "SIGTERM" }
    ));
    assert!(matches!(
        history_entry(TerminationReason::LoopThrashing),
        HistoryEntry::Completed {
            reason: "loop_thrashing"
        }
    ));
    match merge_entry(TerminationReason::CompletionPromise, Some(text("abc"))) {
        MergeEntry::Merged { commit } => assert_eq!(commit, "abc"),
        other => panic!("unexpected entry: {other:?}"),
    }
    match merge_entry(TerminationReason::CompletionPromise, None) {
        MergeEntry::NeedsReview { reason } => {
            assert_eq!(reason, "merge complete but commit not found")
        }
        other => panic!("unexpected entry: {other:?}"),
    }
    match merge_entry(TerminationReason::MaxCost, Some(text("abc"))) {
        MergeEntry::NeedsReview { reason } => assert_eq!(reason, "max cost exceeded"),
        other => panic!("unexpected entry: {other:?}"),
    }
    assert_eq!(rpc_reason(TerminationReason::Stopped), RpcReason::Interrupted);
    assert_eq!(rpc_reason(TerminationReason::MaxCost), RpcReason::Error);
    assert_eq!(rpc_reason(TerminationReason::CompletionPromise), RpcReason::Completed);
    let done = closing(TerminationReason::CompletionPromise, Some(true), false, false, false);
    assert!(done.complete && done.process_merges && done.deregister && done.print);
    let merge = closing(TerminationReason::CompletionPromise, Some(false), true, true, false);
    assert!(!merge.complete && !merge.process_merges && merge.deregister && !merge.print);
    let bare = closing(TerminationReason::CompletionPromise, None, false, false, true);
    assert!(!bare.complete && !bare.deregister && !bare.print);
}

// ---- execution ----

#[test]
fn sessions_end_the_loop_by_their_kind() {
    assert_eq!(convert_termination_type(TerminationType::Natural, true), None);
    assert_eq!(convert_termination_type(TerminationType::IdleTimeout, true), None);
    assert_eq!(
        convert_termination_type(TerminationType::IdleTimeout, false),
        Some(TerminationReason::Stopped)
    );
    assert_eq!(
        convert_termination_type(TerminationType::ForceKill, true),
        Some(TerminationReason::Interrupted)
    );
}

#[test]
fn modes_of_execution_depend_on_terminals() {
    let mode = execution_mode("interactive", false, false, true, true, 30);
    assert!(mode.interactive && mode.pty && !mode.tui && !mode.wide);
    assert_eq!(mode.idle_timeout_secs, 30);
    let mode = execution_mode("interactive", false, false, true, false, 30);
    assert!(!mode.interactive && !mode.pty && mode.wide);
    assert_eq!(mode.idle_timeout_secs, 0);
    let mode = execution_mode("interactive", true, false, true, true, 30);
    assert!(!mode.interactive && mode.pty && mode.tui);
    let mode = execution_mode("autonomous", true, true, true, true, 30);
    assert!(mode.pty && !mode.tui);
    assert_eq!(choose_executor(true, true), Executor::Acp);
    assert_eq!(choose_executor(false, true), Executor::Pty);
    assert_eq!(choose_executor(false, false), Executor::Cli);
    assert_eq!(acp_stream(true, true, Verbosity::Verbose), OutputStream::Tui { verbose: true });
    assert_eq!(acp_stream(false, true, Verbosity::Quiet), OutputStream::Rpc);
    assert_eq!(
        pty_stream(true, false, false, Verbosity::Normal, true, true),
        OutputStream::Raw
    );
    assert!(owns_raw_mode(true, false) && !owns_raw_mode(true, true));
    assert_eq!(output_for_parsing(text(""), text("stripped")), "stripped");
    assert_eq!(output_for_parsing(text("extracted"), text("stripped")), "extracted");
}

#[test]
fn timeouts_go_by_the_backend_that_is_used() {
    let custom = HatBackend::Custom {
        command: text("/usr/bin/codex --fast"),
        args: vec![],
    };
    assert_eq!(backend_name_for_timeout(Some(&custom), true, "gemini"), "codex");
    assert_eq!(backend_name_for_timeout(Some(&custom), false, "gemini"), "gemini");
    assert_eq!(backend_name_for_timeout(None, true, "gemini"), "gemini");
    let agent = HatBackend::KiroAgent {
        backend_type: text("kiro"),
        agent: text("a"),
    };
    assert_eq!(backend_name_for_timeout(Some(&agent), true, "gemini"), "kiro");
    let odd = HatBackend::Custom {
        command: text(".."),
        args: vec![],
    };
    assert_eq!(backend_name_for_timeout(Some(&odd), true, "gemini"), "custom");
}

#[test]
fn the_displayed_hat_is_the_one_that_works() {
    assert_eq!(preview_display_hat("ralph", "builder"), "builder");
    assert_eq!(preview_display_hat("planner", "builder"), "planner");
    assert_eq!(
        resolve_display_hat_for_execution("ralph", &vec![text("tester")], "builder"),
        "tester"
    );
    assert_eq!(resolve_display_hat_for_execution("ralph", &vec![], "builder"), "builder");
    assert_eq!(
        fallback_hats("builder", &vec![text("tester"), text("builder")]),
        vec!["builder", "tester"]
    );
    assert_eq!(fallback_hats("ralph", &vec![text("tester")]), vec!["tester"]);
}

// ---- setup ----

#[test]
fn one_default_is_sufficient() {
    let hats = fallback_hats("builder", &vec![text("tester"), text("builder")]);
    assert_eq!(hats, vec!["builder", "tester"]);
    assert_eq!(next_default(&hats, 0, true).map(String::as_str), Some("builder"));
    assert_eq!(next_default(&hats, 1, true), None);
    assert_eq!(next_default(&hats, 1, false).map(String::as_str), Some("tester"));
    assert_eq!(next_default(&hats, 2, false), None);
    assert_eq!(next_default(&vec![], 0, false), None);
}

#[test]
fn continued_loops_keep_their_id() {
    let fresh = resolve_loop_id(None, false, Some("given"), Some("old"), "20260101-000000");
    assert_eq!(fresh, "primary-20260101-000000");
    let continued = resolve_loop_id(None, true, None, Some(&fresh), "20260102-000000");
    assert_eq!(continued, fresh);
    assert_eq!(resolve_loop_id(None, true, Some("given"), Some("old"), "t"), "given");
    assert_eq!(resolve_loop_id(None, true, None, Some(" \n"), "t"), "primary-t");
    assert_eq!(resolve_loop_id(Some("worktree"), true, Some("given"), None, "t"), "worktree");
}

#[test]
fn loops_are_set_up_in_their_workspace() {
    assert_eq!(fresh_events_path("r"), ".ralph/events-r.jsonl");
    assert_eq!(
        resolve_current_events_path(Some(".ralph/events-r.jsonl\n"), "/w", "/d"),
        "/w/.ralph/events-r.jsonl"
    );
    assert_eq!(resolve_current_events_path(None, "/w", "/d"), "/d");
    let mut config = default_config();
    let pad = |enabled: bool, path: &str| {
        Some(ScratchpadConfig {
            enabled,
            path: text(path),
        })
    };
    config.hats = vec![
        named_hat("a", pad(true, "a.md")),
        named_hat("b", pad(false, "b.md")),
        named_hat("c", pad(true, ".ralph/agent/scratchpad.md")),
        named_hat("d", None),
    ];
    assert_eq!(
        scratchpads_to_clear(&config, "/w"),
        vec!["/w/.ralph/agent/scratchpad.md", "/w/a.md"]
    );
    let mut hooks = HooksConfig::default();
    hooks.enabled = true;
    assert!(!hooks_dispatch_enabled(&hooks));
    hooks.events.push(PhaseHooks {
        phase_event: HookPhaseEvent::PreLoopStart,
        hooks: vec![],
    });
    assert!(hooks_dispatch_enabled(&hooks));
    assert_eq!(start_topic(&None, true), "task.resume");
    assert_eq!(start_topic(&None, false), "task.start");
    assert_eq!(start_topic(&Some(text("go")), true), "go");
    let fresh = start_plan(&Some(text("go")), false);
    assert_eq!(fresh.topic, "go");
    assert!(fresh.clear_scratchpads && fresh.rewrite_marker);
    let continued = start_plan(&Some(text("go")), true);
    assert_eq!(continued.topic, "task.resume");
    assert!(!continued.clear_scratchpads && !continued.rewrite_marker);
    assert_eq!(start_plan(&None, false).topic, "task.start");
    let robot = robot_settings(&config, true, None).expect("settings");
    assert_eq!((robot.timeout_secs, robot.loop_id.as_str()), (60, "main"));
    assert!(robot_settings(&config, false, None).is_none());
    assert!(auto_merge(None, true) && !auto_merge(Some(false), true));
    let modes = start_loop(&mut config, "Do it", "/elsewhere");
    assert!(!modes.resume && !modes.enable_tui && !modes.enable_rpc);
    assert!(modes.primary && modes.custom_args.is_empty());
    assert_eq!((modes.colors, modes.verbosity), (ColorMode::Never, Verbosity::Normal));
    assert!(modes.record_session.is_none() && modes.loop_id.is_none());
    assert_eq!(modes.auto_merge_override, None);
    assert_eq!(config.event_loop.prompt.as_deref(), Some("Do it"));
    assert_eq!(config.event_loop.prompt_file, "");
    assert_eq!(config.cli.default_mode, "autonomous");
    assert_eq!(config.core.workspace_root, "/elsewhere");
    assert!(!config.robot.enabled);
    assert!(robot_settings(&config, true, None).is_none());
    assert_eq!(start_config_path(None, "/w"), "/w/ralph.yml");
    assert_eq!(start_config_path(Some("x.yml"), "/w"), "x.yml");
}

#[test]
fn guidance_is_written_as_one_line() {
    let line = guidance_line("be \"quick\"\nnow", "2026-01-01T00:00:00Z").expect("line");
    assert!(!line.contains('\n'));
    let value = json(&line);
    assert_eq!(value["topic"], "human.guidance");
    assert_eq!(value["payload"], "be \"quick\"\nnow");
    assert_eq!(value["ts"], "2026-01-01T00:00:00Z");
}

// ---- the log ----

#[test]
fn events_without_a_hat_are_reported() {
    let hat = |id: &str, topics: &[&str]| Hat {
        id: text(id),
        name: text(id),
        subscriptions: topics.iter().map(|t| t.to_string()).collect(),
        publishes: vec![],
        config: None,
    };
    let registry = HatRegistry {
        hats: vec![hat("a", &["build.task", "x\"y"]), hat("b", &["*", "build.task"])],
        routes: vec![TopicRoute {
            topic: text("build.task"),
            subscribed: true,
            handler: Some(text("a")),
            triggered: Some(text("a")),
            publishers: vec![],
        }],
    };
    assert_eq!(valid_topics(&registry), vec!["build.task", "x\"y"]);
    let records = log_events_from_output(
        &registry,
        3,
        "ralph",
        &vec![Event::new("build.task", "t"), Event::new("lost", "l")],
    );
    assert_eq!(records.len(), 3);
    assert_eq!(records[0].triggered.as_deref(), Some("a"));
    assert_eq!(records[1].hat, "loop");
    assert_eq!(records[1].event.topic, "event.orphaned");
    assert_eq!(
        records[1].event.payload,
        "Event 'lost' has no subscriber hat. Valid events to publish: [\"build.task\", \"x\\\"y\"]"
    );
    assert_eq!(records[1].event.source.as_deref(), Some("ralph"));
    assert_eq!(records[2].event.topic, "lost");
    assert_eq!(records[2].triggered, None);
    let start = log_start_event("task.start", "p");
    assert_eq!(start.triggered.as_deref(), Some("planner"));
    assert_eq!(start.iteration, 0);
    let end = log_terminate_event(9, Event::new("loop.terminate", "done"));
    assert_eq!((end.iteration, end.hat.as_str()), (9, "loop"));
}
