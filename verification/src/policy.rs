//! Invocation policy gates: capability checks, readonly enforcement and
//! command route resolution.

use vstd::prelude::*;
use vstd::string::*;

use crate::invocation::{
    CommandRoute, InvocationOutcome, InvocationPolicy, InvocationStatus, InvocationTarget,
};
use crate::strings::owned;

verus! {

/// Editor capability that an invocation target may require.
#[derive(Debug, Clone, Copy, PartialEq, Eq, Structural)]
pub enum Capability {
    Text,
    Cursor,
    Selection,
    Mode,
    Messaging,
    Edit,
    Search,
    Undo,
    FileOps,
    Overlay,
}

/// Error produced by capability checks and command handlers.
#[derive(Debug)]
pub enum CommandError {
    MissingCapability(Capability),
    Failed(String),
}

/// Completion outcome of a command handler.
#[derive(Debug, Clone, Copy, PartialEq, Eq, Structural)]
pub enum CommandOutcome {
    Succeeded,
    Quit,
    ForceQuit,
}

/// Result of editor-command style invocation entry points.
#[derive(Debug)]
pub enum InvocationResult {
    Succeeded,
    Quit,
    ForceQuit,
    NotFound(String),
    CapabilityDenied(Capability),
    ReadonlyDenied,
    CommandError(String),
}

/// Canonical invocation target kind used for shared policy handling.
#[derive(Debug, Clone, Copy, PartialEq, Eq, Structural)]
pub enum InvocationKind {
    Action,
    Command,
}

/// The outcome target that corresponds to a kind.
pub open spec fn kind_target(k: InvocationKind) -> InvocationTarget {
    match k {
        InvocationKind::Action => InvocationTarget::Action,
        InvocationKind::Command => InvocationTarget::Command,
    }
}

impl InvocationKind {
    /// The outcome target that corresponds to this kind.
    pub fn target(self) -> (t: InvocationTarget)
        ensures
            t == kind_target(self),
    {
        match self {
            InvocationKind::Action => InvocationTarget::Action,
            InvocationKind::Command => InvocationTarget::Command,
        }
    }
}

/// Shared policy gate envelope used before executing invocation handlers.
#[derive(Debug, Clone, Copy, PartialEq, Eq, Structural)]
pub struct InvocationGateInput {
    pub kind: InvocationKind,
    pub mutates_buffer: bool,
}

impl InvocationGateInput {
    pub fn action(mutates_buffer: bool) -> (r: Self)
        ensures
            r.kind == InvocationKind::Action && r.mutates_buffer == mutates_buffer,
    {
        InvocationGateInput { kind: InvocationKind::Action, mutates_buffer }
    }

    pub fn command(mutates_buffer: bool) -> (r: Self)
        ensures
            r.kind == InvocationKind::Command && r.mutates_buffer == mutates_buffer,
    {
        InvocationGateInput { kind: InvocationKind::Command, mutates_buffer }
    }
}

/// Result of policy gate checks for invocation execution.
#[derive(Debug, Clone, Copy, PartialEq, Eq, Structural)]
pub enum GateResult {
    Proceed,
    DenyReadonly,
}

/// Readonly gate: deny exactly when the policy enforces readonly, the target
/// mutates the buffer and the focused buffer is readonly.
pub open spec fn gate_spec(
    policy: InvocationPolicy,
    input: InvocationGateInput,
    buffer_readonly: bool,
) -> GateResult {
    if policy.enforce_readonly && input.mutates_buffer && buffer_readonly {
        GateResult::DenyReadonly
    } else {
        GateResult::Proceed
    }
}

/// Checks whether the invocation should be blocked by readonly policy.
pub fn gate_invocation(
    policy: InvocationPolicy,
    input: InvocationGateInput,
    buffer_readonly: bool,
) -> (g: GateResult)
    ensures
        g == gate_spec(policy, input, buffer_readonly),
{
    if policy.enforce_readonly && input.mutates_buffer && buffer_readonly {
        return GateResult::DenyReadonly;
    }
    GateResult::Proceed
}

/// User-visible notification raised by the invocation boundary.
#[derive(Debug)]
pub enum Notification {
    BufferReadonly,
    UnknownAction(String),
    ActionError(String),
    CommandError(String),
    UnknownCommand(String),
}

/// Result of the kernel's readonly check: `None` to proceed, or the outcome
/// to return together with the notification to show.
pub fn deny_if_policy_blocks(
    policy: InvocationPolicy,
    input: InvocationGateInput,
    buffer_readonly: bool,
) -> (r: Option<(InvocationOutcome, Notification)>)
    ensures
        r is None <==> gate_spec(policy, input, buffer_readonly) == GateResult::Proceed,
        r matches Some((o, n)) ==> o.status == InvocationStatus::ReadonlyDenied && o.target
            == kind_target(input.kind) && o.detail is None && n is BufferReadonly,
{
    match gate_invocation(policy, input, buffer_readonly) {
        GateResult::Proceed => None,
        GateResult::DenyReadonly => Some(
            (InvocationOutcome::readonly_denied(input.kind.target()), Notification::BufferReadonly),
        ),
    }
}

/// True when some capability in the list is `Edit`.
pub open spec fn requires_edit_spec(caps: Seq<Capability>) -> bool {
    exists|i: int| 0 <= i < caps.len() && caps[i] == Capability::Edit
}

/// Whether a target with these required capabilities mutates the buffer.
pub fn requires_edit_capability(caps: &Vec<Capability>) -> (b: bool)
    ensures
        b == requires_edit_spec(caps@),
{
    let mut i: usize = 0;
    while i < caps.len()
        invariant
            i <= caps.len(),
            forall|j: int| 0 <= j < i ==> caps@[j] != Capability::Edit,
        decreases caps.len() - i,
    {
        if caps[i] == Capability::Edit {
            return true;
        }
        i = i + 1;
    }
    false
}

/// Index of the first required capability the editor does not provide.
pub open spec fn first_missing(required: Seq<Capability>, available: Seq<Capability>) -> Option<
    int,
> {
    if exists|i: int| 0 <= i < required.len() && !available.contains(required[i]) {
        Some(
            choose|i: int|
                0 <= i < required.len() && !available.contains(required[i]) && (forall|j: int|
                    0 <= j < i ==> available.contains(required[j])),
        )
    } else {
        None
    }
}

proof fn lemma_first_missing(required: Seq<Capability>, available: Seq<Capability>, k: int)
    requires
        0 <= k < required.len(),
        !available.contains(required[k]),
        forall|j: int| 0 <= j < k ==> available.contains(required[j]),
    ensures
        first_missing(required, available) == Some(k),
{
    let c = choose|i: int|
        0 <= i < required.len() && !available.contains(required[i]) && (forall|j: int|
            0 <= j < i ==> available.contains(required[j]));
    assert(0 <= c < required.len() && !available.contains(required[c]) && (forall|j: int|
        0 <= j < c ==> available.contains(required[j])));
    if c < k {
        assert(available.contains(required[c]));
    }
    if k < c {
        assert(available.contains(required[k]));
    }
}

fn contains_capability(caps: &Vec<Capability>, cap: Capability) -> (b: bool)
    ensures
        b == caps@.contains(cap),
{
    let mut i: usize = 0;
    while i < caps.len()
        invariant
            i <= caps.len(),
            forall|j: int| 0 <= j < i ==> caps@[j] != cap,
        decreases caps.len() - i,
    {
        if caps[i] == cap {
            return true;
        }
        i = i + 1;
    }
    false
}

/// Capability check: the first required capability that is missing from the
/// editor's available set, as a `MissingCapability` error.
pub fn capability_check_error(required: &Vec<Capability>, available: &Vec<Capability>) -> (r:
    Option<CommandError>)
    ensures
        r is None <==> first_missing(required@, available@) is None,
        r is Some ==> r->0 == CommandError::MissingCapability(
            required@[first_missing(required@, available@)->0],
        ),
{
    let mut i: usize = 0;
    while i < required.len()
        invariant
            i <= required.len(),
            forall|j: int| 0 <= j < i ==> available@.contains(required@[j]),
        decreases required.len() - i,
    {
        let cap = required[i];
        if !contains_capability(available, cap) {
            proof {
                lemma_first_missing(required@, available@, i as int);
            }
            return Some(CommandError::MissingCapability(cap));
        }
        i = i + 1;
    }
    None
}

/// Maps a capability error to the invocation result reported when enforced.
pub fn capability_error_result(error: &CommandError) -> (r: InvocationResult)
    ensures
        match error {
            CommandError::MissingCapability(c) => r == InvocationResult::CapabilityDenied(*c),
            CommandError::Failed(s) => r matches InvocationResult::CommandError(t) && t@ == s@,
        },
{
    match error {
        CommandError::MissingCapability(cap) => InvocationResult::CapabilityDenied(*cap),
        CommandError::Failed(s) => InvocationResult::CommandError(s.clone()),
    }
}

/// What to do with a capability violation under a policy.
#[derive(Debug)]
pub enum ViolationHandling {
    /// Deny the invocation with this result (the user is notified).
    Deny(InvocationResult),
    /// Log the violation and continue.
    LogOnly,
}

/// Enforcing policies deny with the mapped result; others only log.
pub fn handle_capability_violation(policy: InvocationPolicy, error: &CommandError) -> (h:
    ViolationHandling)
    ensures
        policy.enforce_caps <==> h is Deny,
        h matches ViolationHandling::Deny(r) ==> match error {
            CommandError::MissingCapability(c) => r == InvocationResult::CapabilityDenied(*c),
            CommandError::Failed(s) => r matches InvocationResult::CommandError(t) && t@ == s@,
        },
{
    if policy.enforce_caps {
        ViolationHandling::Deny(capability_error_result(error))
    } else {
        ViolationHandling::LogOnly
    }
}

/// Shared preflight subject: kind, required capabilities and mutability intent.
#[derive(Debug)]
pub struct InvocationSubject {
    pub kind: InvocationKind,
    pub editor_command: bool,
    pub required_caps: Vec<Capability>,
    pub mutates_buffer: bool,
}

impl InvocationSubject {
    pub fn action(required_caps: Vec<Capability>) -> (s: Self)
        ensures
            s.kind == InvocationKind::Action && !s.editor_command && s.required_caps@
                == required_caps@ && s.mutates_buffer == requires_edit_spec(required_caps@),
    {
        let m = requires_edit_capability(&required_caps);
        InvocationSubject {
            kind: InvocationKind::Action,
            editor_command: false,
            required_caps,
            mutates_buffer: m,
        }
    }

    pub fn command(required_caps: Vec<Capability>) -> (s: Self)
        ensures
            s.kind == InvocationKind::Command && !s.editor_command && s.required_caps@
                == required_caps@ && s.mutates_buffer == requires_edit_spec(required_caps@),
    {
        let m = requires_edit_capability(&required_caps);
        InvocationSubject {
            kind: InvocationKind::Command,
            editor_command: false,
            required_caps,
            mutates_buffer: m,
        }
    }

    pub fn editor_command(required_caps: Vec<Capability>) -> (s: Self)
        ensures
            s.kind == InvocationKind::Command && s.editor_command && s.required_caps@
                == required_caps@ && s.mutates_buffer == requires_edit_spec(required_caps@),
    {
        let m = requires_edit_capability(&required_caps);
        InvocationSubject {
            kind: InvocationKind::Command,
            editor_command: true,
            required_caps,
            mutates_buffer: m,
        }
    }
}

/// Result of policy preflight for invocation execution.
#[derive(Debug)]
pub enum PreflightDecision {
    Proceed,
    Deny(InvocationResult, Notification),
}

/// Whether preflight denies: an enforced capability violation, or a readonly
/// violation under an enforcing readonly policy.
pub open spec fn preflight_denies(
    policy: InvocationPolicy,
    subject: InvocationSubject,
    available: Seq<Capability>,
    buffer_readonly: bool,
) -> bool {
    (first_missing(subject.required_caps@, available) is Some && policy.enforce_caps) || (
    policy.enforce_readonly && subject.mutates_buffer && buffer_readonly)
}

/// Runs shared capability and readonly policy checks before invoking handlers.
///
/// Capability violations are checked first; a log-only policy lets them pass.
pub fn preflight_invocation_subject(
    policy: InvocationPolicy,
    subject: &InvocationSubject,
    available: &Vec<Capability>,
    buffer_readonly: bool,
) -> (d: PreflightDecision)
    ensures
        d is Deny <==> preflight_denies(policy, *subject, available@, buffer_readonly),
        (first_missing(subject.required_caps@, available@) is Some && policy.enforce_caps) ==> (
        d matches PreflightDecision::Deny(r, _) && r == InvocationResult::CapabilityDenied(
            subject.required_caps@[first_missing(subject.required_caps@, available@)->0],
        )),
        !(first_missing(subject.required_caps@, available@) is Some && policy.enforce_caps)
            ==> (d is Deny ==> d matches PreflightDecision::Deny(
            InvocationResult::ReadonlyDenied,
            Notification::BufferReadonly,
        )),
{
    if let Some(error) = capability_check_error(&subject.required_caps, available) {
        match handle_capability_violation(policy, &error) {
            ViolationHandling::Deny(result) => {
                let note = match subject.kind {
                    InvocationKind::Action => Notification::ActionError(capability_text(&error)),
                    InvocationKind::Command => Notification::CommandError(capability_text(&error)),
                };
                return PreflightDecision::Deny(result, note);
            },
            ViolationHandling::LogOnly => {},
        }
    }
    if policy.enforce_readonly && subject.mutates_buffer && buffer_readonly {
        return PreflightDecision::Deny(InvocationResult::ReadonlyDenied, Notification::BufferReadonly);
    }
    PreflightDecision::Proceed
}

/// Some missing capability implies a first one: a missing capability with
/// every earlier one present.
proof fn lemma_first_missing_exists(required: Seq<Capability>, available: Seq<Capability>, i: int) -> (k: int)
    requires
        0 <= i < required.len(),
        !available.contains(required[i]),
    ensures
        0 <= k <= i,
        !available.contains(required[k]),
        forall|j: int| 0 <= j < k ==> available.contains(required[j]),
        first_missing(required, available) == Some(k),
    decreases i,
{
    if exists|j: int| 0 <= j < i && !available.contains(required[j]) {
        let j = choose|j: int| 0 <= j < i && !available.contains(required[j]);
        lemma_first_missing_exists(required, available, j)
    } else {
        lemma_first_missing(required, available, i);
        i
    }
}

/// The readonly gate only ever stops mutating invocations on readonly
/// buffers under a policy that enforces readonly, and always stops those.
pub proof fn law_readonly_gate(policy: InvocationPolicy, input: InvocationGateInput, buffer_readonly: bool)
    ensures
        !input.mutates_buffer ==> gate_spec(policy, input, buffer_readonly) == GateResult::Proceed,
        !buffer_readonly ==> gate_spec(policy, input, buffer_readonly) == GateResult::Proceed,
        !policy.enforce_readonly ==> gate_spec(policy, input, buffer_readonly) == GateResult::Proceed,
        policy.enforce_readonly && input.mutates_buffer && buffer_readonly ==> gate_spec(
            policy,
            input,
            buffer_readonly,
        ) == GateResult::DenyReadonly,
{
}

/// Preflight names the first required capability that is missing (every
/// earlier one is available), and finds none exactly when all are
/// available. With every capability available, or under a policy that
/// only logs capability violations, preflight denies exactly when the
/// readonly gate does; under an enforcing policy a missing capability
/// always denies.
pub proof fn law_preflight(
    policy: InvocationPolicy,
    subject: InvocationSubject,
    available: Seq<Capability>,
    buffer_readonly: bool,
)
    ensures
        ({
            let req = subject.required_caps@;
            let gate = gate_spec(
                policy,
                InvocationGateInput { kind: subject.kind, mutates_buffer: subject.mutates_buffer },
                buffer_readonly,
            );
            let all_available = forall|i: int| 0 <= i < req.len() ==> available.contains(#[trigger] req[i]);
            &&& first_missing(req, available) matches Some(k) ==> 0 <= k < req.len() && !available.contains(req[k])
                && forall|j: int| 0 <= j < k ==> available.contains(req[j])
            &&& first_missing(req, available) is None <==> all_available
            &&& all_available ==> (preflight_denies(policy, subject, available, buffer_readonly) <==> gate
                == GateResult::DenyReadonly)
            &&& !policy.enforce_caps ==> (preflight_denies(policy, subject, available, buffer_readonly) <==> gate
                == GateResult::DenyReadonly)
            &&& policy.enforce_caps && !all_available ==> preflight_denies(policy, subject, available, buffer_readonly)
        }),
{
    let req = subject.required_caps@;
    let all_available = forall|i: int| 0 <= i < req.len() ==> available.contains(#[trigger] req[i]);
    if all_available {
        assert(first_missing(req, available) is None) by {
            assert(!exists|i: int| 0 <= i < req.len() && !available.contains(req[i]));
        }
    } else {
        let i = choose|i: int| 0 <= i < req.len() && !available.contains(#[trigger] req[i]);
        lemma_first_missing_exists(req, available, i);
    }
}

/// Message text of a command error.
pub fn capability_text(error: &CommandError) -> (s: String)
    ensures
        error matches CommandError::Failed(t) ==> s@ == t@,
{
    match error {
        CommandError::MissingCapability(_) => owned("missing capability"),
        CommandError::Failed(t) => t.clone(),
    }
}

/// Resolved target of a command invocation.
#[derive(Debug, Clone, Copy, PartialEq, Eq, Structural)]
pub enum ResolvedCommandTarget {
    Editor,
    Registry,
    Missing,
}

/// Resolution of a command name: the route actually taken and its target.
#[derive(Debug, Clone, Copy, PartialEq, Eq, Structural)]
pub struct CommandResolution {
    pub resolved_route: CommandRoute,
    pub target: ResolvedCommandTarget,
}

/// Route resolution given whether the name exists as an editor command and
/// as a registry command. Auto routing prefers editor commands.
pub open spec fn resolve_spec(route: CommandRoute, editor_found: bool, registry_found: bool) -> CommandResolution {
    match route {
        CommandRoute::Editor => CommandResolution {
            resolved_route: CommandRoute::Editor,
            target: if editor_found { ResolvedCommandTarget::Editor } else { ResolvedCommandTarget::Missing },
        },
        CommandRoute::Registry => CommandResolution {
            resolved_route: CommandRoute::Registry,
            target: if registry_found { ResolvedCommandTarget::Registry } else { ResolvedCommandTarget::Missing },
        },
        CommandRoute::Auto => if editor_found {
            CommandResolution { resolved_route: CommandRoute::Editor, target: ResolvedCommandTarget::Editor }
        } else if registry_found {
            CommandResolution { resolved_route: CommandRoute::Registry, target: ResolvedCommandTarget::Registry }
        } else {
            CommandResolution { resolved_route: CommandRoute::Auto, target: ResolvedCommandTarget::Missing }
        },
    }
}

/// Resolving a command finds it wherever its route allows: the target is
/// missing exactly when no table the route may use has the name; a found
/// target is a table that has the name, reached by a route that allows it,
/// and the resolved route names that table; Auto routing prefers editor
/// commands; a missing command keeps the requested route.
pub proof fn law_command_resolution(route: CommandRoute, editor_found: bool, registry_found: bool)
    ensures
        ({
            let r = resolve_spec(route, editor_found, registry_found);
            &&& (r.target == ResolvedCommandTarget::Missing) <==> match route {
                CommandRoute::Editor => !editor_found,
                CommandRoute::Registry => !registry_found,
                CommandRoute::Auto => !editor_found && !registry_found,
            }
            &&& r.target == ResolvedCommandTarget::Editor ==> editor_found && route != CommandRoute::Registry
                && r.resolved_route == CommandRoute::Editor
            &&& r.target == ResolvedCommandTarget::Registry ==> registry_found && route != CommandRoute::Editor
                && r.resolved_route == CommandRoute::Registry
            &&& route == CommandRoute::Auto && editor_found ==> r.target == ResolvedCommandTarget::Editor
            &&& r.target == ResolvedCommandTarget::Missing ==> r.resolved_route == route
        }),
{
}

/// Resolves which command table serves an invocation.
pub fn resolve_command_target(route: CommandRoute, editor_found: bool, registry_found: bool) -> (r:
    CommandResolution)
    ensures
        r == resolve_spec(route, editor_found, registry_found),
{
    match route {
        CommandRoute::Editor => CommandResolution {
            resolved_route: CommandRoute::Editor,
            target: if editor_found {
                ResolvedCommandTarget::Editor
            } else {
                ResolvedCommandTarget::Missing
            },
        },
        CommandRoute::Registry => CommandResolution {
            resolved_route: CommandRoute::Registry,
            target: if registry_found {
                ResolvedCommandTarget::Registry
            } else {
                ResolvedCommandTarget::Missing
            },
        },
        CommandRoute::Auto => {
            if editor_found {
                return CommandResolution {
                    resolved_route: CommandRoute::Editor,
                    target: ResolvedCommandTarget::Editor,
                };
            }
            if registry_found {
                return CommandResolution {
                    resolved_route: CommandRoute::Registry,
                    target: ResolvedCommandTarget::Registry,
                };
            }
            CommandResolution { resolved_route: CommandRoute::Auto, target: ResolvedCommandTarget::Missing }
        },
    }
}

/// Canonical not-found detail for commands: `command:<name>`.
pub fn command_not_found(name: &str) -> (o: InvocationOutcome)
    ensures
        o.status == InvocationStatus::NotFound,
        o.target == InvocationTarget::Command,
        o.detail matches Some(d) && d@ == "command:"@ + name@,
{
    proof {
        reveal_strlit("command:");
    }
    let mut d = owned("command:");
    d.append(name);
    InvocationOutcome::not_found(InvocationTarget::Command, d)
}

/// Canonical not-found detail for actions: `action:<name>`, with the
/// unknown-action notification.
pub fn action_not_found(name: &str) -> (r: (InvocationOutcome, Notification))
    ensures
        r.0.status == InvocationStatus::NotFound,
        r.0.target == InvocationTarget::Action,
        r.0.detail matches Some(d) && d@ == "action:"@ + name@,
        r.1 matches Notification::UnknownAction(n) && n@ == name@,
{
    proof {
        reveal_strlit("action:");
    }
    let mut d = owned("action:");
    d.append(name);
    (InvocationOutcome::not_found(InvocationTarget::Action, d), Notification::UnknownAction(owned(name)))
}

/// Outcome of a completed command handler.
pub open spec fn command_outcome_status(o: CommandOutcome) -> InvocationStatus {
    match o {
        CommandOutcome::Succeeded => InvocationStatus::Succeeded,
        CommandOutcome::Quit => InvocationStatus::Quit,
        CommandOutcome::ForceQuit => InvocationStatus::ForceQuit,
    }
}

/// Maps a command handler outcome to an invocation outcome for `target`.
pub fn map_command_outcome(outcome: CommandOutcome, target: InvocationTarget) -> (o:
    InvocationOutcome)
    ensures
        o.status == command_outcome_status(outcome) && o.target == target && o.detail is None,
{
    match outcome {
        CommandOutcome::Succeeded => InvocationOutcome::ok(target),
        CommandOutcome::Quit => InvocationOutcome::quit(target),
        CommandOutcome::ForceQuit => InvocationOutcome::force_quit(target),
    }
}

/// Maps a command handler result: successes keep their status, errors become
/// command errors carrying the message, with a command-error notification.
pub fn map_command_result(target: InvocationTarget, result: Result<CommandOutcome, CommandError>) -> (r: (
    InvocationOutcome,
    Option<Notification>,
))
    ensures
        match result {
            Ok(c) => r.0.status == command_outcome_status(c) && r.0.target == target
                && r.0.detail is None && r.1 is None,
            Err(e) => r.0.status == InvocationStatus::CommandError && r.0.target == target && (
            e matches CommandError::Failed(s) ==> (r.0.detail matches Some(d) && d@ == s@)) && (
            r.1 matches Some(Notification::CommandError(m)) && r.0.detail == Some(m)),
        },
{
    match result {
        Ok(outcome) => (map_command_outcome(outcome, target), None),
        Err(error) => {
            let detail = capability_text(&error);
            let note = Notification::CommandError(detail.clone());
            (InvocationOutcome::command_error(target, detail), Some(note))
        },
    }
}

/// Maps a command handler result to the editor-command entry point result.
pub fn command_result_to_invocation_result(result: Result<CommandOutcome, CommandError>) -> (r:
    InvocationResult)
    ensures
        match result {
            Ok(CommandOutcome::Succeeded) => r is Succeeded,
            Ok(CommandOutcome::Quit) => r is Quit,
            Ok(CommandOutcome::ForceQuit) => r is ForceQuit,
            Err(CommandError::Failed(s)) => r matches InvocationResult::CommandError(t) && t@
                == s@,
            Err(CommandError::MissingCapability(_)) => r is CommandError,
        },
{
    match result {
        Ok(CommandOutcome::Succeeded) => InvocationResult::Succeeded,
        Ok(CommandOutcome::Quit) => InvocationResult::Quit,
        Ok(CommandOutcome::ForceQuit) => InvocationResult::ForceQuit,
        Err(error) => InvocationResult::CommandError(capability_text(&error)),
    }
}

} // verus!
