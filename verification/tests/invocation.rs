use xeno_editor::engine::{
    action_step, nu_macro_failure, nu_macro_step, plan_frame, queued_command_next, EngineNext, FrameWork,
    InvocationEngine, NuMacroFailure, QueuedCommandNext, QueuedCommandStage, MAX_NU_MACRO_DEPTH,
};
use xeno_editor::invocation::{
    action_post_event, command_post_event, CommandRoute, Invocation, InvocationOutcome, InvocationPolicy,
    InvocationStatus, InvocationTarget, NuCtxEvent,
};
use xeno_editor::policy::{
    action_not_found, capability_check_error, command_not_found, gate_invocation, handle_capability_violation,
    resolve_command_target, Capability, CommandResolution, GateResult, InvocationGateInput, InvocationKind,
    InvocationResult, Notification, ResolvedCommandTarget, ViolationHandling,
};
use xeno_editor::work_queue::{
    enqueue_runtime_invocation_request, DeferredInvocationRequest, RuntimeWorkQueue, RuntimeWorkSource,
    WorkExecutionPolicy, WorkScope,
};

fn check_describe() {
    assert_eq!(Invocation::action("move_left").describe(), "action:move_left");
    assert_eq!(Invocation::action_with_count("move_down", 5).describe(), "action:move_downx5");
    assert_eq!(Invocation::command("write", vec!["file.txt".into()]).describe(), "cmd:write file.txt");
    assert_eq!(Invocation::editor_command("quit", vec![]).describe(), "editor_cmd:quit");
}

fn check_policy_defaults() {
    let policy = InvocationPolicy::default();
    assert!(!policy.enforce_caps);
    assert!(!policy.enforce_readonly);
    let policy = InvocationPolicy::enforcing();
    assert!(policy.enforce_caps);
    assert!(policy.enforce_readonly);
}

#[test]
fn invocation_invocation_describe() {
    check_describe();
}

#[test]
fn tests_invocation_describe() {
    check_describe();
    assert_eq!(Invocation::nu("go", vec!["fast".into()]).describe(), "nu:go fast");
}

#[test]
fn basics_invocation_describe() {
    check_describe();
    assert_eq!(Invocation::nu("go", vec!["fast".into()]).describe(), "nu:go fast");
}

#[test]
fn invocation_invocation_policy_defaults() {
    check_policy_defaults();
}

#[test]
fn tests_invocation_policy_defaults() {
    check_policy_defaults();
}

#[test]
fn basics_invocation_policy_defaults() {
    check_policy_defaults();
}

fn search_error() -> xeno_editor::policy::CommandError {
    capability_check_error(&vec![Capability::Search], &vec![]).expect("expected missing capability")
}

fn check_blocks_when_enforced() {
    let error = search_error();
    match handle_capability_violation(InvocationPolicy::enforcing(), &error) {
        ViolationHandling::Deny(InvocationResult::CapabilityDenied(cap)) => assert_eq!(cap, Capability::Search),
        other => panic!("expected capability denial, got {other:?}"),
    }
}

fn check_logs_in_log_only_mode() {
    let error = search_error();
    assert!(matches!(handle_capability_violation(InvocationPolicy::log_only(), &error), ViolationHandling::LogOnly));
}

#[test]
fn invocation_capability_enforcement_blocks_when_enforced() {
    check_blocks_when_enforced();
}

#[test]
fn tests_capability_enforcement_blocks_when_enforced() {
    check_blocks_when_enforced();
}

#[test]
fn invocation_capability_enforcement_logs_in_log_only_mode() {
    check_logs_in_log_only_mode();
}

#[test]
fn tests_capability_enforcement_logs_in_log_only_mode() {
    check_logs_in_log_only_mode();
}

fn check_hook_event_shape() {
    let result = InvocationOutcome::ok(InvocationTarget::Action);
    let event = command_post_event("write".to_string(), &result, vec!["file.txt".to_string()]);
    assert!(matches!(
        event,
        NuCtxEvent::CommandPost { name, result, args }
            if name == "write" && result == "ok" && args == vec!["file.txt".to_string()]
    ));
    let action_event = action_post_event(
        "move_right".to_string(),
        &InvocationOutcome::command_error(InvocationTarget::Action, "boom".to_string()),
    );
    assert!(matches!(
        action_event,
        NuCtxEvent::ActionPost { name, result } if name == "move_right" && result == "error"
    ));
}

#[test]
fn tests_hook_event_builders_produce_correct_shape() {
    check_hook_event_shape();
}

#[test]
fn routing_hook_event_builders_produce_correct_shape() {
    check_hook_event_shape();
}

#[test]
fn test_preflight_denies_readonly_mutating_subject() {
    let input = InvocationGateInput { kind: InvocationKind::Command, mutates_buffer: true };
    assert_eq!(gate_invocation(InvocationPolicy::enforcing(), input, true), GateResult::DenyReadonly);
}

#[test]
fn test_preflight_allows_non_mutating_subject_on_readonly_buffer() {
    let input = InvocationGateInput { kind: InvocationKind::Command, mutates_buffer: false };
    assert_eq!(gate_invocation(InvocationPolicy::enforcing(), input, true), GateResult::Proceed);
}

#[test]
fn test_auto_route_prefers_editor_commands() {
    let r = resolve_command_target(CommandRoute::Auto, true, true);
    assert_eq!(
        r,
        CommandResolution { resolved_route: CommandRoute::Editor, target: ResolvedCommandTarget::Editor }
    );
}

#[test]
fn test_auto_route_not_found_reports_canonical_detail() {
    let r = resolve_command_target(CommandRoute::Auto, false, false);
    assert_eq!(r.target, ResolvedCommandTarget::Missing);
    let outcome = command_not_found("definitely_missing_command");
    assert_eq!(outcome.status, InvocationStatus::NotFound);
    assert_eq!(outcome.detail_text(), Some("command:definitely_missing_command"));
}

#[test]
fn test_deferred_invocation_queue_uses_default_policy_and_global_scope() {
    let mut queue = RuntimeWorkQueue::new();
    enqueue_runtime_invocation_request(
        &mut queue,
        DeferredInvocationRequest::Command { name: "stats".to_string(), args: Vec::new() },
        RuntimeWorkSource::ActionEffect,
    );
    enqueue_runtime_invocation_request(
        &mut queue,
        DeferredInvocationRequest::EditorCommand { name: "reload".to_string(), args: Vec::new() },
        RuntimeWorkSource::NuHookDispatch,
    );
    assert_eq!(queue.len(), 2);
    let first = queue.pop_front().unwrap();
    assert_eq!(first.source, RuntimeWorkSource::ActionEffect);
    assert_eq!(first.execution, WorkExecutionPolicy::LogOnlyCommandPath);
    assert_eq!(first.scope, WorkScope::Global);
    assert_eq!(first.invocation.describe(), "cmd:stats");
    let second = queue.pop_front().unwrap();
    assert_eq!(second.source, RuntimeWorkSource::NuHookDispatch);
    assert_eq!(second.execution, WorkExecutionPolicy::LogOnlyCommandPath);
    assert_eq!(second.scope, WorkScope::Global);
    assert_eq!(second.invocation.describe(), "editor_cmd:reload");
    assert!(queue.pop_front().is_none());
}

#[test]
fn action_not_found_reports_canonical_detail() {
    let (outcome, _note) = action_not_found("nope");
    assert_eq!(outcome.status, InvocationStatus::NotFound);
    assert_eq!(outcome.detail_text(), Some("action:nope"));
}

/// Runs a recursive macro: every run of `recur` asks for `recur` again.
#[test]
fn engine_refuses_macro_beyond_depth_cap() {
    let mut engine = InvocationEngine::new(InvocationPolicy::enforcing(), Invocation::nu("recur", vec![]));
    let mut runs = 0usize;
    loop {
        match engine.next() {
            EngineNext::Finished(outcome) => {
                assert_eq!(outcome.status, InvocationStatus::CommandError);
                let msg = outcome.detail_text().unwrap_or_default().to_ascii_lowercase();
                assert!(msg.contains("recursion depth"), "{msg}");
                break;
            }
            EngineNext::Run(frame) => match plan_frame(frame) {
                FrameWork::RunNuMacro { depth, .. } => {
                    runs += 1;
                    let step = nu_macro_step(depth, Ok(vec![Invocation::nu("recur", vec![])]));
                    engine.report(step);
                }
                FrameWork::Refused(step) => {
                    engine.report(step);
                }
                _ => panic!("only macro frames expected"),
            },
        }
    }
    assert_eq!(runs, MAX_NU_MACRO_DEPTH as usize);
}

/// A macro yields three actions; the second is unknown, so the third must
/// not run.
#[test]
fn engine_error_stops_remaining_frames() {
    let mut engine = InvocationEngine::new(InvocationPolicy::enforcing(), Invocation::nu("go", vec![]));
    let mut executed = Vec::new();
    loop {
        match engine.next() {
            EngineNext::Finished(outcome) => {
                assert_eq!(outcome.status, InvocationStatus::NotFound);
                break;
            }
            EngineNext::Run(frame) => match plan_frame(frame) {
                FrameWork::RunNuMacro { depth, .. } => {
                    let follow = vec![
                        Invocation::action("known"),
                        Invocation::action("does_not_exist"),
                        Invocation::action("known"),
                    ];
                    engine.report(nu_macro_step(depth, Ok(follow)));
                }
                FrameWork::RunAction { name, .. } => {
                    let outcome = if name == "known" {
                        executed.push(name.clone());
                        InvocationOutcome::ok(InvocationTarget::Action)
                    } else {
                        action_not_found(&name).0
                    };
                    engine.report(action_step(name, outcome));
                }
                _ => panic!("unexpected frame"),
            },
        }
    }
    assert_eq!(executed.len(), 1, "the frame after the error must be skipped");
}

#[test]
fn nu_macro_failures_become_command_errors() {
    let (o, notify) = nu_macro_failure(NuMacroFailure::FunctionUndefined("go".to_string()));
    assert_eq!(o.status, InvocationStatus::CommandError);
    assert_eq!(o.target, InvocationTarget::Nu);
    assert_eq!(o.detail.as_deref(), Some("Nu runtime error: function 'go' is not defined in xeno.nu"));
    assert!(notify);
    let (o, notify) = nu_macro_failure(NuMacroFailure::RuntimeMissing);
    assert_eq!(o.detail.as_deref(), Some("Nu runtime is not loaded"));
    assert!(!notify);
    let (o, _) = nu_macro_failure(NuMacroFailure::CapabilityDenied("edit".to_string()));
    assert_eq!(o.detail.as_deref(), Some("Nu macro effect denied by capability policy: edit"));
    let (o, _) = nu_macro_failure(NuMacroFailure::StopEffect);
    assert_eq!(o.detail.as_deref(), Some("Nu macro produced hook-only stop effect"));
    let (o, notify) = nu_macro_failure(NuMacroFailure::Exec("boom".to_string()));
    assert_eq!(o.detail.as_deref(), Some("boom"));
    assert!(notify);
    let (_, notify) = nu_macro_failure(NuMacroFailure::ExecutorMissing);
    assert!(!notify);
}

#[test]
fn queued_commands_fall_back_to_registry_then_report_unknown() {
    let name = String::from("reload");
    let args = vec![String::from("now")];
    match queued_command_next(&name, &args, QueuedCommandStage::Editor, &InvocationResult::NotFound(name.clone())) {
        QueuedCommandNext::Run(QueuedCommandStage::Registry, Invocation::Command(c)) => {
            assert_eq!(c.name, "reload");
            assert_eq!(c.args, vec![String::from("now")]);
            assert_eq!(c.route, CommandRoute::Registry);
        },
        other => panic!("unexpected {:?}", other),
    }
    match queued_command_next(&name, &args, QueuedCommandStage::Registry, &InvocationResult::NotFound(name.clone())) {
        QueuedCommandNext::Notify(Notification::UnknownCommand(m)) => assert_eq!(m, "reload"),
        other => panic!("unexpected {:?}", other),
    }
    assert!(matches!(
        queued_command_next(&name, &args, QueuedCommandStage::Editor, &InvocationResult::Quit),
        QueuedCommandNext::StopForQuit
    ));
    assert!(matches!(
        queued_command_next(&name, &args, QueuedCommandStage::Registry, &InvocationResult::ForceQuit),
        QueuedCommandNext::StopForQuit
    ));
    assert!(matches!(
        queued_command_next(&name, &args, QueuedCommandStage::Editor, &InvocationResult::Succeeded),
        QueuedCommandNext::Continue
    ));
}

/// One action invocation runs its handler once and yields one post-hook
/// event; the run ends ok.
#[test]
fn invocation_action_hooks_fire_once() {
    let mut engine = InvocationEngine::new(InvocationPolicy::enforcing(), Invocation::action("invocation_test_action"));
    let mut pre_count = 0usize;
    let mut post_count = 0usize;
    loop {
        match engine.next() {
            EngineNext::Finished(outcome) => {
                assert_eq!(outcome.status, InvocationStatus::Succeeded);
                break;
            }
            EngineNext::Run(frame) => match plan_frame(frame) {
                FrameWork::RunAction { name, .. } => {
                    assert_eq!(name, "invocation_test_action");
                    pre_count += 1;
                    let report = engine.report(action_step(name, InvocationOutcome::ok(InvocationTarget::Action)));
                    if report.hook_event.is_some() {
                        post_count += 1;
                    }
                }
                _ => panic!("only the action frame expected"),
            },
        }
    }
    assert_eq!(pre_count, 1);
    assert_eq!(post_count, 1);
}
