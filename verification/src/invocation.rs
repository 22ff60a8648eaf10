//! Invocation requests, outcomes and their textual forms.

use vstd::prelude::*;
use vstd::string::*;

use crate::strings::{append_decimal, append_prefixed_join, copy_strings, decimal, owned, prefixed_join, string_views};

verus! {

/// How a command invocation chooses between editor and registry commands.
#[derive(Debug, Clone, Copy, PartialEq, Eq, Structural)]
pub enum CommandRoute {
    /// Prefer an editor command, then a registry command.
    Auto,
    /// Only editor commands.
    Editor,
    /// Only registry commands.
    Registry,
}

/// A named command with its arguments and routing preference.
#[derive(Debug)]
pub struct CommandInvocation {
    pub name: String,
    pub args: Vec<String>,
    pub route: CommandRoute,
}

/// User or script invocation request.
#[derive(Debug)]
pub enum Invocation {
    Action { name: String, count: usize, extend: bool, register: Option<char> },
    ActionWithChar {
        name: String,
        count: usize,
        extend: bool,
        register: Option<char>,
        char_arg: char,
    },
    Command(CommandInvocation),
    Nu { name: String, args: Vec<String> },
}

/// Which kind of target an invocation outcome refers to.
#[derive(Debug, Clone, Copy, PartialEq, Eq, Structural)]
pub enum InvocationTarget {
    Action,
    Command,
    Nu,
}

/// Canonical execution status of an invocation.
#[derive(Debug, Clone, Copy, PartialEq, Eq, Structural)]
pub enum InvocationStatus {
    Succeeded,
    Quit,
    ForceQuit,
    NotFound,
    CapabilityDenied,
    ReadonlyDenied,
    CommandError,
}

/// Canonical execution outcome: status, target and optional detail text.
#[derive(Debug)]
pub struct InvocationOutcome {
    pub status: InvocationStatus,
    pub target: InvocationTarget,
    pub detail: Option<String>,
}

/// Enforcement toggles applied while dispatching an invocation.
#[derive(Debug, Clone, Copy, PartialEq, Eq, Structural)]
pub struct InvocationPolicy {
    /// Missing capabilities block execution (otherwise they are only logged).
    pub enforce_caps: bool,
    /// Mutating invocations are refused on readonly buffers.
    pub enforce_readonly: bool,
}

impl Default for InvocationPolicy {
    fn default() -> (p: Self)
        ensures
            !p.enforce_caps,
            !p.enforce_readonly,
    {
        InvocationPolicy { enforce_caps: false, enforce_readonly: false }
    }
}

impl InvocationPolicy {
    /// Policy that blocks capability and readonly violations.
    pub fn enforcing() -> (p: Self)
        ensures
            p.enforce_caps,
            p.enforce_readonly,
    {
        InvocationPolicy { enforce_caps: true, enforce_readonly: true }
    }

    /// Policy that only logs violations.
    pub fn log_only() -> (p: Self)
        ensures
            !p.enforce_caps,
            !p.enforce_readonly,
    {
        InvocationPolicy { enforce_caps: false, enforce_readonly: false }
    }
}

/// Textual form of an invocation, used in traces and diagnostics.
pub open spec fn describe_spec(inv: Invocation) -> Seq<char> {
    match inv {
        Invocation::Action { name, count, .. } => action_describe_spec(name@, count),
        Invocation::ActionWithChar { name, count, .. } => action_describe_spec(name@, count),
        Invocation::Command(c) => match c.route {
            CommandRoute::Editor => "editor_cmd:"@ + c.name@ + prefixed_join(
                string_views(c.args@),
                " "@,
            ),
            _ => "cmd:"@ + c.name@ + prefixed_join(string_views(c.args@), " "@),
        },
        Invocation::Nu { name, args } => "nu:"@ + name@ + prefixed_join(
            string_views(args@),
            " "@,
        ),
    }
}

/// `action:<name>`, followed by `x<count>` when the count is not one.
pub open spec fn action_describe_spec(name: Seq<char>, count: usize) -> Seq<char> {
    if count == 1 {
        "action:"@ + name
    } else {
        "action:"@ + name + "x"@ + decimal(count as nat)
    }
}

/// Two invocations agree on every field (lists compared by contents).
pub open spec fn same_invocation(a: Invocation, b: Invocation) -> bool {
    match (a, b) {
        (
            Invocation::Action { name: n1, count: c1, extend: e1, register: r1 },
            Invocation::Action { name: n2, count: c2, extend: e2, register: r2 },
        ) => n1@ == n2@ && c1 == c2 && e1 == e2 && r1 == r2,
        (
            Invocation::ActionWithChar {
                name: n1,
                count: c1,
                extend: e1,
                register: r1,
                char_arg: a1,
            },
            Invocation::ActionWithChar {
                name: n2,
                count: c2,
                extend: e2,
                register: r2,
                char_arg: a2,
            },
        ) => n1@ == n2@ && c1 == c2 && e1 == e2 && r1 == r2 && a1 == a2,
        (Invocation::Command(x), Invocation::Command(y)) => x.name@ == y.name@ && x.args@
            == y.args@ && x.route == y.route,
        (Invocation::Nu { name: n1, args: a1 }, Invocation::Nu { name: n2, args: a2 }) => n1@
            == n2@ && a1@ == a2@,
        _ => false,
    }
}

/// Label reported to hooks for an outcome status.
pub open spec fn status_label_spec(s: InvocationStatus) -> Seq<char> {
    match s {
        InvocationStatus::Succeeded => "ok"@,
        InvocationStatus::Quit => "quit"@,
        InvocationStatus::ForceQuit => "force_quit"@,
        InvocationStatus::NotFound => "not_found"@,
        InvocationStatus::CapabilityDenied => "capability_denied"@,
        InvocationStatus::ReadonlyDenied => "readonly_denied"@,
        InvocationStatus::CommandError => "error"@,
    }
}

impl Invocation {
    /// Action invocation with count one, no extension and no register.
    pub fn action(name: &str) -> (r: Self)
        ensures
            r matches Invocation::Action { name: n, count, extend, register }
                && n@ == name@ && count == 1 && !extend && register is None,
    {
        Invocation::Action { name: owned(name), count: 1, extend: false, register: None }
    }

    /// Action invocation with an explicit count.
    pub fn action_with_count(name: &str, count: usize) -> (r: Self)
        ensures
            r matches Invocation::Action { name: n, count: c, extend, register }
                && n@ == name@ && c == count && !extend && register is None,
    {
        Invocation::Action { name: owned(name), count, extend: false, register: None }
    }

    /// Auto-routed command invocation.
    pub fn command(name: &str, args: Vec<String>) -> (r: Self)
        ensures
            r matches Invocation::Command(c) && c.name@ == name@ && c.args@ == args@ && c.route
                == CommandRoute::Auto,
    {
        Invocation::Command(CommandInvocation { name: owned(name), args, route: CommandRoute::Auto })
    }

    /// Command invocation routed to editor commands only.
    pub fn editor_command(name: &str, args: Vec<String>) -> (r: Self)
        ensures
            r matches Invocation::Command(c) && c.name@ == name@ && c.args@ == args@ && c.route
                == CommandRoute::Editor,
    {
        Invocation::Command(
            CommandInvocation { name: owned(name), args, route: CommandRoute::Editor },
        )
    }

    /// Nu macro invocation.
    pub fn nu(name: &str, args: Vec<String>) -> (r: Self)
        ensures
            r matches Invocation::Nu { name: n, args: a } && n@ == name@ && a@ == args@,
    {
        Invocation::Nu { name: owned(name), args }
    }

    /// A field-for-field copy of this invocation.
    pub fn duplicate(&self) -> (r: Self)
        ensures
            same_invocation(r, *self),
    {
        match self {
            Invocation::Action { name, count, extend, register } => Invocation::Action {
                name: name.clone(),
                count: *count,
                extend: *extend,
                register: *register,
            },
            Invocation::ActionWithChar { name, count, extend, register, char_arg } =>
                Invocation::ActionWithChar {
                name: name.clone(),
                count: *count,
                extend: *extend,
                register: *register,
                char_arg: *char_arg,
            },
            Invocation::Command(c) => Invocation::Command(
                CommandInvocation {
                    name: c.name.clone(),
                    args: copy_strings(&c.args),
                    route: c.route,
                },
            ),
            Invocation::Nu { name, args } => Invocation::Nu {
                name: name.clone(),
                args: copy_strings(args),
            },
        }
    }

    /// Textual form: `action:<name>[x<count>]`, `cmd:<name> <args..>`,
    /// `editor_cmd:<name> <args..>` or `nu:<name> <args..>`.
    pub fn describe(&self) -> (s: String)
        ensures
            s@ == describe_spec(*self),
    {
        proof {
            reveal_strlit("action:");
            reveal_strlit("x");
            reveal_strlit("cmd:");
            reveal_strlit("editor_cmd:");
            reveal_strlit("nu:");
            reveal_strlit(" ");
        }
        match self {
            Invocation::Action { name, count, .. } | Invocation::ActionWithChar {
                name,
                count,
                ..
            } => {
                let mut s = owned("action:");
                s.append(name.as_str());
                if *count != 1 {
                    s.append("x");
                    append_decimal(&mut s, *count);
                }
                s
            },
            Invocation::Command(c) => {
                let mut s = match c.route {
                    CommandRoute::Editor => owned("editor_cmd:"),
                    _ => owned("cmd:"),
                };
                s.append(c.name.as_str());
                append_prefixed_join(&mut s, &c.args, " ");
                s
            },
            Invocation::Nu { name, args } => {
                let mut s = owned("nu:");
                s.append(name.as_str());
                append_prefixed_join(&mut s, args, " ");
                s
            },
        }
    }
}

impl InvocationOutcome {
    pub fn ok(target: InvocationTarget) -> (r: Self)
        ensures
            r.status == InvocationStatus::Succeeded && r.target == target && r.detail is None,
    {
        InvocationOutcome { status: InvocationStatus::Succeeded, target, detail: None }
    }

    pub fn quit(target: InvocationTarget) -> (r: Self)
        ensures
            r.status == InvocationStatus::Quit && r.target == target && r.detail is None,
    {
        InvocationOutcome { status: InvocationStatus::Quit, target, detail: None }
    }

    pub fn force_quit(target: InvocationTarget) -> (r: Self)
        ensures
            r.status == InvocationStatus::ForceQuit && r.target == target && r.detail is None,
    {
        InvocationOutcome { status: InvocationStatus::ForceQuit, target, detail: None }
    }

    pub fn not_found(target: InvocationTarget, detail: String) -> (r: Self)
        ensures
            r.status == InvocationStatus::NotFound && r.target == target && r.detail == Some(
                detail,
            ),
    {
        InvocationOutcome { status: InvocationStatus::NotFound, target, detail: Some(detail) }
    }

    pub fn readonly_denied(target: InvocationTarget) -> (r: Self)
        ensures
            r.status == InvocationStatus::ReadonlyDenied && r.target == target && r.detail is None,
    {
        InvocationOutcome { status: InvocationStatus::ReadonlyDenied, target, detail: None }
    }

    pub fn capability_denied(target: InvocationTarget, detail: String) -> (r: Self)
        ensures
            r.status == InvocationStatus::CapabilityDenied && r.target == target && r.detail
                == Some(detail),
    {
        InvocationOutcome {
            status: InvocationStatus::CapabilityDenied,
            target,
            detail: Some(detail),
        }
    }

    pub fn command_error(target: InvocationTarget, detail: String) -> (r: Self)
        ensures
            r.status == InvocationStatus::CommandError && r.target == target && r.detail == Some(
                detail,
            ),
    {
        InvocationOutcome { status: InvocationStatus::CommandError, target, detail: Some(detail) }
    }

    /// True for quit and force-quit outcomes.
    pub fn is_quit(&self) -> (b: bool)
        ensures
            b == (self.status == InvocationStatus::Quit || self.status
                == InvocationStatus::ForceQuit),
    {
        match self.status {
            InvocationStatus::Quit | InvocationStatus::ForceQuit => true,
            _ => false,
        }
    }

    /// The detail text, if any.
    pub fn detail_text(&self) -> (r: Option<&str>)
        ensures
            r is Some == self.detail is Some,
            r is Some ==> r->0@ == self.detail->0@,
    {
        match &self.detail {
            Some(d) => Some(d.as_str()),
            None => None,
        }
    }

    /// A field-for-field copy of this outcome.
    pub fn duplicate(&self) -> (r: Self)
        ensures
            r == *self,
    {
        InvocationOutcome {
            status: self.status,
            target: self.target,
            detail: match &self.detail {
                Some(d) => Some(d.clone()),
                None => None,
            },
        }
    }

    /// Result label reported to hooks (`ok`, `error`, `quit`, ...).
    pub fn label(&self) -> (s: String)
        ensures
            s@ == status_label_spec(self.status),
    {
        proof {
            reveal_strlit("ok");
            reveal_strlit("quit");
            reveal_strlit("force_quit");
            reveal_strlit("not_found");
            reveal_strlit("capability_denied");
            reveal_strlit("readonly_denied");
            reveal_strlit("error");
        }
        match self.status {
            InvocationStatus::Succeeded => owned("ok"),
            InvocationStatus::Quit => owned("quit"),
            InvocationStatus::ForceQuit => owned("force_quit"),
            InvocationStatus::NotFound => owned("not_found"),
            InvocationStatus::CapabilityDenied => owned("capability_denied"),
            InvocationStatus::ReadonlyDenied => owned("readonly_denied"),
            InvocationStatus::CommandError => owned("error"),
        }
    }
}

/// Deferred hook event delivered to the Nu `on_hook` pipeline.
#[derive(Debug)]
pub enum NuCtxEvent {
    ActionPost { name: String, result: String },
    CommandPost { name: String, result: String, args: Vec<String> },
    EditorCommandPost { name: String, result: String, args: Vec<String> },
}

/// Builds the hook event for action post hooks.
pub fn action_post_event(name: String, result: &InvocationOutcome) -> (e: NuCtxEvent)
    ensures
        e matches NuCtxEvent::ActionPost { name: n, result: r } && n == name && r@
            == status_label_spec(result.status),
{
    NuCtxEvent::ActionPost { name, result: result.label() }
}

/// Builds the hook event for registry command post hooks.
pub fn command_post_event(name: String, result: &InvocationOutcome, args: Vec<String>) -> (e:
    NuCtxEvent)
    ensures
        e matches NuCtxEvent::CommandPost { name: n, result: r, args: a } && n == name && a
            == args && r@ == status_label_spec(result.status),
{
    NuCtxEvent::CommandPost { name, result: result.label(), args }
}

/// Builds the hook event for editor command post hooks.
pub fn editor_command_post_event(name: String, result: &InvocationOutcome, args: Vec<String>) -> (e:
    NuCtxEvent)
    ensures
        e matches NuCtxEvent::EditorCommandPost { name: n, result: r, args: a } && n == name && a
            == args && r@ == status_label_spec(result.status),
{
    NuCtxEvent::EditorCommandPost { name, result: result.label(), args }
}

} // verus!
