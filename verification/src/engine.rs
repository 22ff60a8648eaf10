//! Queue-driven invocation engine.
//!
//! The engine owns the frame queue and decides, frame by frame, what the host
//! must execute, which post hooks to emit and when the run ends. The host
//! (the editor) performs each frame's work and reports the step outcome back.

use vstd::prelude::*;
use vstd::string::*;

use crate::invocation::{
    action_post_event, command_post_event, editor_command_post_event, CommandInvocation, CommandRoute,
    Invocation, InvocationOutcome, InvocationPolicy, InvocationStatus, InvocationTarget,
    NuCtxEvent, status_label_spec,
};
use crate::policy::{InvocationResult, Notification};
use crate::strings::{append_decimal, copy_strings, decimal, owned};

verus! {

/// Maximum nesting depth of Nu macro follow-up invocations.
pub const MAX_NU_MACRO_DEPTH: u8 = 8;

/// Where a frame came from.
#[derive(Debug, Clone, Copy, PartialEq, Eq, Structural)]
pub enum InvocationOrigin {
    Root,
    NuMacro,
}

/// Per-step invocation envelope.
#[derive(Debug)]
pub struct InvocationFrame {
    pub invocation: Invocation,
    pub nu_depth: u8,
    pub origin: InvocationOrigin,
}

impl InvocationFrame {
    /// The frame for a root invocation (depth zero).
    pub fn root(invocation: Invocation) -> (f: Self)
        ensures
            f.invocation == invocation && f.nu_depth == 0 && f.origin == InvocationOrigin::Root,
    {
        InvocationFrame { invocation, nu_depth: 0, origin: InvocationOrigin::Root }
    }

    /// The frame for an invocation produced by a Nu macro at `nu_depth`.
    pub fn nu_follow_up(invocation: Invocation, nu_depth: u8) -> (f: Self)
        ensures
            f.invocation == invocation && f.nu_depth == nu_depth && f.origin
                == InvocationOrigin::NuMacro,
    {
        InvocationFrame { invocation, nu_depth, origin: InvocationOrigin::NuMacro }
    }
}

/// Post hook to emit after a step.
#[derive(Debug)]
pub enum InvocationPostHook {
    Action { name: String },
    Command { name: String, args: Vec<String>, is_editor: bool },
}

/// Normalized per-step result envelope.
#[derive(Debug)]
pub struct InvocationStepOutcome {
    pub outcome: InvocationOutcome,
    pub follow_ups: Vec<InvocationFrame>,
    pub post_hook: Option<InvocationPostHook>,
}

/// Work the host must perform for one frame.
#[derive(Debug)]
pub enum FrameWork {
    /// Run an action handler through the action executor.
    RunAction {
        name: String,
        count: usize,
        extend: bool,
        register: Option<char>,
        char_arg: Option<char>,
    },
    /// Run a command through route resolution and the command executors.
    RunCommand { name: String, args: Vec<String>, route: CommandRoute },
    /// Run a Nu macro; its follow-ups will be at depth `depth + 1`.
    RunNuMacro { name: String, args: Vec<String>, depth: u8 },
    /// The frame is refused without running anything.
    Refused(InvocationStepOutcome),
}

/// Whether the engine lets a frame execute (Nu frames only below the depth cap).
pub open spec fn frame_executes(f: InvocationFrame) -> bool {
    match f.invocation {
        Invocation::Nu { .. } => f.nu_depth < MAX_NU_MACRO_DEPTH,
        _ => true,
    }
}

/// Text of the recursion-depth error: `Nu macro recursion depth exceeded (8)`.
pub open spec fn depth_error_text() -> Seq<char> {
    "Nu macro recursion depth exceeded ("@ + decimal(MAX_NU_MACRO_DEPTH as nat) + ")"@
}

/// Decides the work for a frame. Nu frames at or beyond the depth cap are
/// refused with a command error and no post hook.
pub fn plan_frame(frame: InvocationFrame) -> (w: FrameWork)
    ensures
        w is Refused <==> !frame_executes(frame),
        w matches FrameWork::Refused(step) ==> step.outcome.status == InvocationStatus::CommandError
            && step.outcome.target == InvocationTarget::Nu && step.follow_ups@.len() == 0
            && step.post_hook is None && (step.outcome.detail matches Some(d) && d@
            == depth_error_text()),
        match frame.invocation {
            Invocation::Action { name, count, extend, register } => w == FrameWork::RunAction {
                name,
                count,
                extend,
                register,
                char_arg: None,
            },
            Invocation::ActionWithChar { name, count, extend, register, char_arg } => w
                == FrameWork::RunAction { name, count, extend, register, char_arg: Some(char_arg) },
            Invocation::Command(c) => w == FrameWork::RunCommand {
                name: c.name,
                args: c.args,
                route: c.route,
            },
            Invocation::Nu { name, args } => frame_executes(frame) ==> w == FrameWork::RunNuMacro {
                name,
                args,
                depth: frame.nu_depth,
            },
        },
{
    let depth = frame.nu_depth;
    match frame.invocation {
        Invocation::Action { name, count, extend, register } => FrameWork::RunAction {
            name,
            count,
            extend,
            register,
            char_arg: None,
        },
        Invocation::ActionWithChar { name, count, extend, register, char_arg } =>
            FrameWork::RunAction { name, count, extend, register, char_arg: Some(char_arg) },
        Invocation::Command(c) => FrameWork::RunCommand { name: c.name, args: c.args, route: c.route },
        Invocation::Nu { name, args } => {
            if depth >= MAX_NU_MACRO_DEPTH {
                proof {
                    reveal_strlit("Nu macro recursion depth exceeded (");
                    reveal_strlit(")");
                }
                let mut msg = owned("Nu macro recursion depth exceeded (");
                append_decimal(&mut msg, MAX_NU_MACRO_DEPTH as usize);
                msg.append(")");
                FrameWork::Refused(
                    InvocationStepOutcome {
                        outcome: InvocationOutcome::command_error(InvocationTarget::Nu, msg),
                        follow_ups: Vec::new(),
                        post_hook: None,
                    },
                )
            } else {
                FrameWork::RunNuMacro { name, args, depth }
            }
        },
    }
}

/// Step envelope for an executed action: always followed by an action post hook.
pub fn action_step(name: String, outcome: InvocationOutcome) -> (s: InvocationStepOutcome)
    ensures
        s.outcome == outcome,
        s.follow_ups@.len() == 0,
        s.post_hook == Some(InvocationPostHook::Action { name }),
{
    InvocationStepOutcome {
        outcome,
        follow_ups: Vec::new(),
        post_hook: Some(InvocationPostHook::Action { name }),
    }
}

/// Step envelope for an executed command; the post hook is an editor-command
/// hook exactly when the route resolved to editor commands.
pub fn command_step(
    name: String,
    args: Vec<String>,
    outcome: InvocationOutcome,
    resolved_route: CommandRoute,
) -> (s: InvocationStepOutcome)
    ensures
        s.outcome == outcome,
        s.follow_ups@.len() == 0,
        s.post_hook == Some(
            InvocationPostHook::Command {
                name,
                args,
                is_editor: resolved_route == CommandRoute::Editor,
            },
        ),
{
    InvocationStepOutcome {
        outcome,
        follow_ups: Vec::new(),
        post_hook: Some(
            InvocationPostHook::Command {
                name,
                args,
                is_editor: resolved_route == CommandRoute::Editor,
            },
        ),
    }
}

/// Depth of a follow-up produced by a macro running at `depth`.
pub open spec fn follow_up_depth(depth: u8) -> u8 {
    if depth == u8::MAX { u8::MAX } else { (depth + 1) as u8 }
}

/// Step envelope for an executed Nu macro. Its dispatches become follow-up
/// frames at the next depth, in order; errors pass through unchanged.
pub fn nu_macro_step(depth: u8, result: Result<Vec<Invocation>, InvocationOutcome>) -> (s:
    InvocationStepOutcome)
    ensures
        s.post_hook is None,
        match result {
            Ok(invs) => s.outcome.status == InvocationStatus::Succeeded && s.outcome.target
                == InvocationTarget::Nu && s.outcome.detail is None && s.follow_ups@.len()
                == invs@.len() && forall|i: int|
                0 <= i < invs@.len() ==> #[trigger] s.follow_ups@[i] == follow_frame(
                    invs@[i],
                    follow_up_depth(depth),
                ),
            Err(o) => s.outcome == o && s.follow_ups@.len() == 0,
        },
{
    match result {
        Ok(invs) => {
            let next = depth.saturating_add(1);
            let mut frames: Vec<InvocationFrame> = Vec::new();
            let mut rest = invs;
            let ghost all = rest@;
            // Take items from the back and build in reverse, then flip.
            let mut rev: Vec<InvocationFrame> = Vec::new();
            while rest.len() > 0
                invariant
                    rest@.len() + rev@.len() == all.len(),
                    rest@ == all.subrange(0, rest@.len() as int),
                    forall|k: int|
                        0 <= k < rev@.len() ==> #[trigger] rev@[k] == follow_frame(all[all.len() - 1 - k], next),
                decreases rest@.len(),
            {
                let inv = rest.pop().unwrap();
                rev.push(InvocationFrame::nu_follow_up(inv, next));
            }
            while rev.len() > 0
                invariant
                    frames@.len() + rev@.len() == all.len(),
                    forall|k: int|
                        0 <= k < rev@.len() ==> #[trigger] rev@[k] == follow_frame(all[all.len() - 1 - k], next),
                    forall|k: int|
                        0 <= k < frames@.len() ==> #[trigger] frames@[k] == follow_frame(all[k], next),
                decreases rev@.len(),
            {
                let ghost k = rev@.len() - 1;
                let f = rev.pop().unwrap();
                assert(f == follow_frame(all[all.len() - 1 - k], next));
                frames.push(f);
            }
            InvocationStepOutcome {
                outcome: InvocationOutcome::ok(InvocationTarget::Nu),
                follow_ups: frames,
                post_hook: None,
            }
        },
        Err(outcome) => InvocationStepOutcome { outcome, follow_ups: Vec::new(), post_hook: None },
    }
}

/// The hook event a post hook produces for an outcome: none for quit outcomes.
pub fn post_hook_event(hook: InvocationPostHook, outcome: &InvocationOutcome) -> (e: Option<
    NuCtxEvent,
>)
    ensures
        e is None <==> (outcome.status == InvocationStatus::Quit || outcome.status
            == InvocationStatus::ForceQuit),
        e matches Some(ev) ==> match hook {
            InvocationPostHook::Action { name } => ev matches NuCtxEvent::ActionPost {
                name: n,
                result: r,
            } && n == name && r@ == status_label_spec(outcome.status),
            InvocationPostHook::Command { name, args, is_editor } => if is_editor {
                ev matches NuCtxEvent::EditorCommandPost { name: n, result: r, args: a } && n
                    == name && a == args && r@ == status_label_spec(outcome.status)
            } else {
                ev matches NuCtxEvent::CommandPost { name: n, result: r, args: a } && n == name
                    && a == args && r@ == status_label_spec(outcome.status)
            },
        },
{
    if outcome.is_quit() {
        return None;
    }
    match hook {
        InvocationPostHook::Action { name } => Some(action_post_event(name, outcome)),
        InvocationPostHook::Command { name, args, is_editor } => {
            if is_editor {
                Some(editor_command_post_event(name, outcome, args))
            } else {
                Some(command_post_event(name, outcome, args))
            }
        },
    }
}

/// What the engine asks of the host next.
#[derive(Debug)]
pub enum EngineNext {
    /// Execute this frame and report its step outcome.
    Run(InvocationFrame),
    /// The run is over with this outcome.
    Finished(InvocationOutcome),
}

/// Result of reporting a step: an optional hook event to enqueue.
#[derive(Debug)]
pub struct StepReport {
    pub hook_event: Option<NuCtxEvent>,
}

/// Queue-driven invocation orchestrator.
pub struct InvocationEngine {
    policy: InvocationPolicy,
    queue: Vec<InvocationFrame>,
    last_outcome: InvocationOutcome,
    result: Option<InvocationOutcome>,
}

/// `e1` is `e0` after `next` gave `n`: a stopped run finishes with its
/// terminal outcome; else the front frame runs, or, with the queue empty,
/// the run finishes with the last step's outcome.
pub open spec fn next_post(e0: InvocationEngine, e1: InvocationEngine, n: EngineNext) -> bool {
    &&& e1.policy_spec() == e0.policy_spec()
    &&& e1.last() == e0.last()
    &&& e1.stopped() == e0.stopped()
    &&& match e0.stopped() {
        Some(o) => n == EngineNext::Finished(o) && e1.pending() == e0.pending(),
        None => if e0.pending().len() == 0 {
            n == EngineNext::Finished(e0.last()) && e1.pending() == e0.pending()
        } else {
            n == EngineNext::Run(e0.pending()[0]) && e1.pending() == e0.pending().drop_first()
        },
    }
}

/// `e1` is `e0` after reporting `step` (with report `r`): the step's
/// outcome becomes the last one; a hook event comes exactly with a post
/// hook and an outcome other than quitting; a successful step puts its
/// follow-ups in front of the queue, in order, and any other stops the run.
pub open spec fn report_post(e0: InvocationEngine, e1: InvocationEngine, step: InvocationStepOutcome, r: StepReport) -> bool {
    &&& e1.policy_spec() == e0.policy_spec()
    &&& e1.last() == step.outcome
    &&& (r.hook_event is Some) <==> (step.post_hook is Some && !(step.outcome.status == InvocationStatus::Quit
        || step.outcome.status == InvocationStatus::ForceQuit))
    &&& if step.outcome.status == InvocationStatus::Succeeded {
        e1.stopped() is None && e1.pending() == step.follow_ups@ + e0.pending()
    } else {
        e1.stopped() == Some(step.outcome) && e1.pending() == e0.pending()
    }
}

impl InvocationEngine {
    /// The policy every frame of this run executes under.
    pub closed spec fn policy_spec(&self) -> InvocationPolicy {
        self.policy
    }

    /// The policy every frame of this run executes under.
    pub fn policy(&self) -> (p: InvocationPolicy)
        ensures
            p == self.policy_spec(),
    {
        self.policy
    }

    /// Frames waiting to run, front first.
    pub closed spec fn pending(&self) -> Seq<InvocationFrame> {
        self.queue@
    }

    /// Outcome of the most recent step (initially ok for a command).
    pub closed spec fn last(&self) -> InvocationOutcome {
        self.last_outcome
    }

    /// The terminal outcome, once a step failed.
    pub closed spec fn stopped(&self) -> Option<InvocationOutcome> {
        self.result
    }

    /// A new engine whose queue holds only the root frame.
    pub fn new(policy: InvocationPolicy, root: Invocation) -> (e: Self)
        ensures
            e.policy_spec() == policy,
            e.pending() == seq![InvocationFrame::root_spec(root)],
            e.last().status == InvocationStatus::Succeeded && e.last().target
                == InvocationTarget::Command && e.last().detail is None,
            e.stopped() is None,
    {
        let mut queue = Vec::new();
        queue.push(InvocationFrame::root(root));
        InvocationEngine {
            policy,
            queue,
            last_outcome: InvocationOutcome::ok(InvocationTarget::Command),
            result: None,
        }
    }

    /// Takes the next frame from the front of the queue, or finishes: with the
    /// terminal outcome if a step failed, else with the last step's outcome.
    pub fn next(&mut self) -> (n: EngineNext)
        ensures
            next_post(*old(self), *final(self), n),
    {
        if let Some(o) = &self.result {
            return EngineNext::Finished(o.duplicate());
        }
        if self.queue.len() == 0 {
            return EngineNext::Finished(self.last_outcome.duplicate());
        }
        let f = self.queue.remove(0);
        proof {
            assert(self.queue@ =~= old(self).queue@.drop_first());
        }
        EngineNext::Run(f)
    }

    /// Records a step: remembers its outcome, produces the post-hook event
    /// (none for quit outcomes), stops the run on any non-ok outcome, and
    /// otherwise puts the follow-up frames in front of the queue, in order.
    pub fn report(&mut self, step: InvocationStepOutcome) -> (r: StepReport)
        requires
            old(self).stopped() is None,
        ensures
            report_post(*old(self), *final(self), step, r),
    {
        let InvocationStepOutcome { outcome, follow_ups, post_hook } = step;
        let hook_event = match post_hook {
            Some(h) => post_hook_event(h, &outcome),
            None => None,
        };
        let ok = outcome.status == InvocationStatus::Succeeded;
        if !ok {
            self.result = Some(outcome.duplicate());
            self.last_outcome = outcome;
            return StepReport { hook_event };
        }
        let mut front = follow_ups;
        front.append(&mut self.queue);
        self.queue = front;
        self.last_outcome = outcome;
        StepReport { hook_event }
    }
}

impl InvocationFrame {
    /// The root frame for an invocation, as a value.
    pub open spec fn root_spec(invocation: Invocation) -> InvocationFrame {
        InvocationFrame { invocation, nu_depth: 0, origin: InvocationOrigin::Root }
    }
}

/// The frame for a macro follow-up invocation at a depth.
pub open spec fn follow_frame(invocation: Invocation, nu_depth: u8) -> InvocationFrame {
    InvocationFrame { invocation, nu_depth, origin: InvocationOrigin::NuMacro }
}

/// Follow-up frames produced by a macro that was allowed to run carry a depth
/// one above it; once that reaches the cap, the engine refuses them. So no
/// chain of nested macros runs more than `MAX_NU_MACRO_DEPTH` levels deep.
pub proof fn law_nu_depth_bounded(frame: InvocationFrame, follow: InvocationFrame)
    requires
        frame.invocation is Nu,
        frame_executes(frame),
        follow.nu_depth == follow_up_depth(frame.nu_depth),
        follow.invocation is Nu,
    ensures
        frame.nu_depth < MAX_NU_MACRO_DEPTH,
        follow.nu_depth == frame.nu_depth + 1,
        frame_executes(follow) <==> frame.nu_depth + 1 < MAX_NU_MACRO_DEPTH,
{
}

/// Why running a Nu macro stopped before producing follow-up invocations.
#[derive(Debug)]
pub enum NuMacroFailure {
    /// Loading the Nu runtime failed, with its message.
    RuntimeLoad(String),
    /// No Nu runtime is loaded.
    RuntimeMissing,
    /// The script defines no function of this name.
    FunctionUndefined(String),
    /// No Nu executor is available.
    ExecutorMissing,
    /// The script failed, with its message.
    Exec(String),
    /// An effect needs a capability macros are not granted (its name).
    CapabilityDenied(String),
    /// The macro asked to stop propagation, which only hooks may.
    StopEffect,
}

/// The detail text for a macro failure, and whether the user is notified.
pub open spec fn nu_failure_detail(f: NuMacroFailure) -> (Seq<char>, bool) {
    match f {
        NuMacroFailure::RuntimeLoad(m) => (m@, true),
        NuMacroFailure::RuntimeMissing => ("Nu runtime is not loaded"@, false),
        NuMacroFailure::FunctionUndefined(name) => (
            "Nu runtime error: function '"@ + name@ + "' is not defined in xeno.nu"@,
            true,
        ),
        NuMacroFailure::ExecutorMissing => ("Nu executor is not available"@, false),
        NuMacroFailure::Exec(m) => (m@, true),
        NuMacroFailure::CapabilityDenied(c) => ("Nu macro effect denied by capability policy: "@ + c@, true),
        NuMacroFailure::StopEffect => ("Nu macro produced hook-only stop effect"@, true),
    }
}

/// The outcome of a failed Nu macro: a command error on the Nu target with
/// the failure's detail, and whether to notify the user (see
/// `nu_failure_detail`).
pub fn nu_macro_failure(f: NuMacroFailure) -> (r: (InvocationOutcome, bool))
    ensures
        r.0.status == InvocationStatus::CommandError,
        r.0.target == InvocationTarget::Nu,
        r.0.detail matches Some(d) && d@ == nu_failure_detail(f).0,
        r.1 == nu_failure_detail(f).1,
{
    proof {
        reveal_strlit("Nu runtime is not loaded");
        reveal_strlit("Nu runtime error: function '");
        reveal_strlit("' is not defined in xeno.nu");
        reveal_strlit("Nu executor is not available");
        reveal_strlit("Nu macro effect denied by capability policy: ");
        reveal_strlit("Nu macro produced hook-only stop effect");
    }
    let (detail, notify) = match f {
        NuMacroFailure::RuntimeLoad(m) => (m, true),
        NuMacroFailure::RuntimeMissing => (owned("Nu runtime is not loaded"), false),
        NuMacroFailure::FunctionUndefined(name) => {
            let mut d = owned("Nu runtime error: function '");
            d.append(name.as_str());
            d.append("' is not defined in xeno.nu");
            (d, true)
        },
        NuMacroFailure::ExecutorMissing => (owned("Nu executor is not available"), false),
        NuMacroFailure::Exec(m) => (m, true),
        NuMacroFailure::CapabilityDenied(c) => {
            let mut d = owned("Nu macro effect denied by capability policy: ");
            d.append(c.as_str());
            (d, true)
        },
        NuMacroFailure::StopEffect => (owned("Nu macro produced hook-only stop effect"), true),
    };
    (InvocationOutcome::command_error(InvocationTarget::Nu, detail), notify)
}


/// The stage of a command taken from the workspace command queue: it runs
/// as an editor command first, then as a registry command.
#[derive(Debug, Clone, Copy, PartialEq, Eq, Structural)]
pub enum QueuedCommandStage {
    Editor,
    Registry,
}

/// What the queue drain does after a queued command's run.
#[derive(Debug)]
pub enum QueuedCommandNext {
    /// Run the command again at the next stage.
    Run(QueuedCommandStage, Invocation),
    /// Neither kind of command exists: tell the user, then go on.
    Notify(Notification),
    /// The command asked to quit: stop draining and report it.
    StopForQuit,
    /// Go on with the next queued command.
    Continue,
}

/// The invocation a queued command `name` with `args` runs as at `stage`
/// (log-only policy is the caller's).
pub fn queued_command_invocation(name: &String, args: &Vec<String>, stage: QueuedCommandStage) -> (inv: Invocation)
    ensures
        inv matches Invocation::Command(c) && c.name@ == name@ && c.args@ == args@ && c.route == (match stage {
            QueuedCommandStage::Editor => CommandRoute::Editor,
            QueuedCommandStage::Registry => CommandRoute::Registry,
        }),
{
    let route = match stage {
        QueuedCommandStage::Editor => CommandRoute::Editor,
        QueuedCommandStage::Registry => CommandRoute::Registry,
    };
    Invocation::Command(CommandInvocation { name: name.clone(), args: copy_strings(args), route })
}

/// The next step of the queue drain after the queued command `name` ran at
/// `stage` with `result`: a quit stops the drain; an unknown editor command
/// is retried as a registry command; an unknown registry command raises an
/// unknown-command notification; anything else moves on.
pub fn queued_command_next(
    name: &String,
    args: &Vec<String>,
    stage: QueuedCommandStage,
    result: &InvocationResult,
) -> (n: QueuedCommandNext)
    ensures
        (result is Quit || result is ForceQuit) <==> n is StopForQuit,
        result is NotFound && stage == QueuedCommandStage::Editor ==> (n matches QueuedCommandNext::Run(
            QueuedCommandStage::Registry,
            Invocation::Command(c),
        ) && c.name@ == name@ && c.args@ == args@ && c.route == CommandRoute::Registry),
        result is NotFound && stage == QueuedCommandStage::Registry ==> (n matches QueuedCommandNext::Notify(
            Notification::UnknownCommand(m),
        ) && m@ == name@),
        !(result is Quit || result is ForceQuit || result is NotFound) ==> n is Continue,
{
    match result {
        InvocationResult::Quit | InvocationResult::ForceQuit => QueuedCommandNext::StopForQuit,
        InvocationResult::NotFound(_) => match stage {
            QueuedCommandStage::Editor => QueuedCommandNext::Run(
                QueuedCommandStage::Registry,
                queued_command_invocation(name, args, QueuedCommandStage::Registry),
            ),
            QueuedCommandStage::Registry => QueuedCommandNext::Notify(Notification::UnknownCommand(name.clone())),
        },
        _ => QueuedCommandNext::Continue,
    }
}


/// The engine runs depth-first and stops at the first failure: after a
/// successful step, the next frame to run is its first follow-up, and the
/// rest of its follow-ups stay in front of the frames queued earlier (with
/// no follow-ups the earlier queue goes on, and an empty queue ends the run
/// with this step's outcome); after a failed step the run ends with that
/// step's outcome.
pub proof fn law_engine_runs_depth_first(
    e0: InvocationEngine,
    e1: InvocationEngine,
    step: InvocationStepOutcome,
    r: StepReport,
    e2: InvocationEngine,
    n: EngineNext,
)
    requires
        report_post(e0, e1, step, r),
        next_post(e1, e2, n),
    ensures
        step.outcome.status == InvocationStatus::Succeeded && step.follow_ups@.len() > 0 ==> n == EngineNext::Run(
            step.follow_ups@[0],
        ) && e2.pending() == step.follow_ups@.drop_first() + e0.pending(),
        step.outcome.status == InvocationStatus::Succeeded && step.follow_ups@.len() == 0 && e0.pending().len() > 0
            ==> n == EngineNext::Run(e0.pending()[0]) && e2.pending() == e0.pending().drop_first(),
        step.outcome.status == InvocationStatus::Succeeded && step.follow_ups@.len() == 0 && e0.pending().len()
            == 0 ==> n == EngineNext::Finished(step.outcome),
        step.outcome.status != InvocationStatus::Succeeded ==> n == EngineNext::Finished(step.outcome)
            && e2.stopped() == Some(step.outcome),
{
    if step.outcome.status == InvocationStatus::Succeeded {
        let q = step.follow_ups@ + e0.pending();
        if step.follow_ups@.len() > 0 {
            assert(q[0] == step.follow_ups@[0]);
            assert(q.drop_first() =~= step.follow_ups@.drop_first() + e0.pending());
        } else {
            assert(q =~= e0.pending());
        }
    }
}

/// Once a run has stopped on a failure, every further call to `next`
/// finishes with that failure and runs no frame.
pub proof fn law_stopped_run_stays_finished(e0: InvocationEngine, e1: InvocationEngine, n: EngineNext, o: InvocationOutcome)
    requires
        e0.stopped() == Some(o),
        next_post(e0, e1, n),
    ensures
        n == EngineNext::Finished(o),
        e1.stopped() == Some(o),
{
}

} // verus!
