//! Deferred runtime invocation work and the invocation runtime envelopes.

use vstd::prelude::*;

use crate::invocation::{Invocation, InvocationOutcome, InvocationPolicy};

verus! {

/// Producer of a deferred runtime invocation.
#[derive(Debug, Clone, Copy, PartialEq, Eq, Structural)]
pub enum RuntimeWorkSource {
    ActionEffect,
    CommandEffect,
    Overlay,
    NuHookDispatch,
    NuMacroDispatch,
}

/// How a deferred invocation is enforced when it is drained.
#[derive(Debug, Clone, Copy, PartialEq, Eq, Structural)]
pub enum WorkExecutionPolicy {
    /// Capability and readonly violations are logged, not enforced.
    LogOnlyCommandPath,
    /// Nu pipeline dispatches run under the enforcing policy.
    EnforcingNuPipeline,
}

/// Cancellation scope of deferred work.
#[derive(Debug, Clone, Copy, PartialEq, Eq, Structural)]
pub enum WorkScope {
    Global,
    /// Work bound to one Nu stop-propagation generation.
    NuStopScope(u64),
}

/// Typed invocation command envelope consumed by invocation runtime boundaries.
#[derive(Debug)]
pub enum InvocationCmd {
    Run {
        invocation: Invocation,
        policy: InvocationPolicy,
        source: RuntimeWorkSource,
        scope: WorkScope,
        seq: u64,
    },
}

/// Typed invocation event envelope emitted after invocation command execution.
#[derive(Debug)]
pub enum InvocationEvt {
    Completed(InvocationOutcome),
}

/// Invocation request raised by capability surfaces for later execution.
#[derive(Debug)]
pub enum DeferredInvocationRequest {
    Command { name: String, args: Vec<String> },
    EditorCommand { name: String, args: Vec<String> },
}

/// One queued deferred invocation with its metadata.
#[derive(Debug)]
pub struct RuntimeWorkItem {
    pub invocation: Invocation,
    pub source: RuntimeWorkSource,
    pub execution: WorkExecutionPolicy,
    pub scope: WorkScope,
    pub seq: u64,
}

/// The policy a deferred invocation runs under when drained.
pub open spec fn execution_policy_spec(e: WorkExecutionPolicy) -> InvocationPolicy {
    match e {
        WorkExecutionPolicy::LogOnlyCommandPath => InvocationPolicy {
            enforce_caps: false,
            enforce_readonly: false,
        },
        WorkExecutionPolicy::EnforcingNuPipeline => InvocationPolicy {
            enforce_caps: true,
            enforce_readonly: true,
        },
    }
}

/// Maps an execution policy to the invocation policy used at drain time.
pub fn execution_policy(e: WorkExecutionPolicy) -> (p: InvocationPolicy)
    ensures
        p == execution_policy_spec(e),
{
    match e {
        WorkExecutionPolicy::LogOnlyCommandPath => InvocationPolicy::log_only(),
        WorkExecutionPolicy::EnforcingNuPipeline => InvocationPolicy::enforcing(),
    }
}

/// Runtime-owned FIFO queue of deferred invocations.
pub struct RuntimeWorkQueue {
    items: Vec<RuntimeWorkItem>,
    next_seq: u64,
}

impl RuntimeWorkQueue {
    /// Queued items, oldest first.
    pub closed spec fn items_spec(&self) -> Seq<RuntimeWorkItem> {
        self.items@
    }

    /// Sequence number the next item will receive.
    pub closed spec fn next_seq_spec(&self) -> u64 {
        self.next_seq
    }

    /// Queue invariant: sequence numbers strictly increase and stay below the
    /// next sequence number.
    pub closed spec fn wf(&self) -> bool {
        &&& forall|i: int, j: int|
            0 <= i < j < self.items@.len() ==> self.items@[i].seq < self.items@[j].seq
        &&& forall|i: int| 0 <= i < self.items@.len() ==> self.items@[i].seq < self.next_seq
    }

    pub fn new() -> (q: Self)
        ensures
            q.wf(),
            q.items_spec().len() == 0,
            q.next_seq_spec() == 0,
    {
        RuntimeWorkQueue { items: Vec::new(), next_seq: 0 }
    }

    pub fn len(&self) -> (n: usize)
        ensures
            n == self.items_spec().len(),
    {
        self.items.len()
    }

    /// Appends an invocation with its source, execution policy and scope.
    pub fn enqueue(
        &mut self,
        invocation: Invocation,
        source: RuntimeWorkSource,
        execution: WorkExecutionPolicy,
        scope: WorkScope,
    )
        requires
            old(self).wf(),
            old(self).next_seq_spec() < u64::MAX,
        ensures
            final(self).wf(),
            final(self).next_seq_spec() == old(self).next_seq_spec() + 1,
            final(self).items_spec() == old(self).items_spec().push(
                RuntimeWorkItem {
                    invocation,
                    source,
                    execution,
                    scope,
                    seq: old(self).next_seq_spec(),
                },
            ),
    {
        let seq = self.next_seq;
        self.items.push(RuntimeWorkItem { invocation, source, execution, scope, seq });
        self.next_seq = seq + 1;
    }

    /// Removes and returns the oldest item.
    pub fn pop_front(&mut self) -> (r: Option<RuntimeWorkItem>)
        requires
            old(self).wf(),
        ensures
            final(self).wf(),
            final(self).next_seq_spec() == old(self).next_seq_spec(),
            old(self).items_spec().len() == 0 ==> r is None && final(self).items_spec() == old(self).items_spec(),
            old(self).items_spec().len() > 0 ==> r == Some(old(self).items_spec()[0]) && final(self).items_spec() == old(self).items_spec().drop_first(),
    {
        if self.items.len() == 0 {
            return None;
        }
        let item = self.items.remove(0);
        proof {
            assert(self.items@ =~= old(self).items@.drop_first());
        }
        Some(item)
    }

    /// Removes every item bound to `scope`, keeping the others in order.
    /// Returns how many were removed.
    pub fn clear_scope(&mut self, scope: WorkScope) -> (removed: usize)
        requires
            old(self).wf(),
        ensures
            final(self).wf(),
            final(self).next_seq_spec() == old(self).next_seq_spec(),
            final(self).items_spec() == old(self).items_spec().filter(
                |it: RuntimeWorkItem| it.scope != scope,
            ),
            removed == old(self).items_spec().len() - final(self).items_spec().len(),
    {
        let ghost orig = self.items@;
        let total = self.items.len();
        let mut kept: Vec<RuntimeWorkItem> = Vec::new();
        let mut removed: usize = 0;
        let mut rest: Vec<RuntimeWorkItem> = Vec::new();
        std::mem::swap(&mut rest, &mut self.items);
        let mut rev: Vec<RuntimeWorkItem> = Vec::new();
        // Reverse `rest` so items can be taken from the back in original order.
        while rest.len() > 0
            invariant
                rest@.len() + rev@.len() == orig.len(),
                rest@ == orig.subrange(0, rest@.len() as int),
                forall|k: int| 0 <= k < rev@.len() ==> #[trigger] rev@[k] == orig[orig.len() - 1 - k],
            decreases rest@.len(),
        {
            let it = rest.pop().unwrap();
            rev.push(it);
        }
        let ghost pred = |it: RuntimeWorkItem| it.scope != scope;
        while rev.len() > 0
            invariant
                rev@.len() <= orig.len(),
                forall|k: int| 0 <= k < rev@.len() ==> #[trigger] rev@[k] == orig[orig.len() - 1 - k],
                kept@ == orig.subrange(0, orig.len() - rev@.len()).filter(pred),
                removed == (orig.len() - rev@.len()) - kept@.len(),
                total == orig.len(),
                pred == (|it: RuntimeWorkItem| it.scope != scope),
                self.next_seq == old(self).next_seq,
                forall|i: int, j: int| 0 <= i < j < orig.len() ==> orig[i].seq < orig[j].seq,
                forall|i: int| 0 <= i < orig.len() ==> orig[i].seq < self.next_seq,
                forall|i: int, j: int| 0 <= i < j < kept@.len() ==> kept@[i].seq < kept@[j].seq,
                forall|i: int|
                    0 <= i < kept@.len() ==> kept@[i].seq < (if rev@.len() > 0 {
                        orig[orig.len() - rev@.len()].seq
                    } else {
                        self.next_seq
                    }),
            decreases rev@.len(),
        {
            let ghost done = orig.len() - rev@.len();
            let it = rev.pop().unwrap();
            assert(it == orig[done]);
            proof {
                assert(orig.subrange(0, done + 1).drop_last() =~= orig.subrange(0, done));
                reveal_with_fuel(Seq::filter, 1);
            }
            if it.scope == scope {
                removed = removed + 1;
            } else {
                kept.push(it);
            }
        }
        proof {
            assert(orig.subrange(0, orig.len() as int) =~= orig);
        }
        self.items = kept;
        removed
    }
}

/// The invocation a deferred request stands for: an auto-routed command or
/// an editor-routed command with the same name and arguments.
pub open spec fn request_invocation(inv: Invocation, request: DeferredInvocationRequest) -> bool {
    match request {
        DeferredInvocationRequest::Command { name, args } => inv matches Invocation::Command(c)
            && c.name@ == name@ && c.args@ == args@ && c.route
            == crate::invocation::CommandRoute::Auto,
        DeferredInvocationRequest::EditorCommand { name, args } => inv matches Invocation::Command(
            c,
        ) && c.name@ == name@ && c.args@ == args@ && c.route
            == crate::invocation::CommandRoute::Editor,
    }
}

/// Metadata a capability-surface request is queued with: global scope and the
/// log-only command-path policy, whatever the source.
pub fn enqueue_runtime_invocation_request(
    queue: &mut RuntimeWorkQueue,
    request: DeferredInvocationRequest,
    source: RuntimeWorkSource,
)
    requires
        old(queue).wf(),
        old(queue).next_seq_spec() < u64::MAX,
    ensures
        final(queue).wf(),
        final(queue).items_spec().len() == old(queue).items_spec().len() + 1,
        final(queue).items_spec().drop_last() == old(queue).items_spec(),
        final(queue).items_spec().last().source == source,
        final(queue).items_spec().last().execution == WorkExecutionPolicy::LogOnlyCommandPath,
        final(queue).items_spec().last().scope == WorkScope::Global,
        final(queue).items_spec().last().seq == old(queue).next_seq_spec(),
        request_invocation(final(queue).items_spec().last().invocation, request),
{
    let invocation = match request {
        DeferredInvocationRequest::Command { name, args } => Invocation::command(name.as_str(), args),
        DeferredInvocationRequest::EditorCommand { name, args } => Invocation::editor_command(
            name.as_str(),
            args,
        ),
    };
    queue.enqueue(invocation, source, WorkExecutionPolicy::LogOnlyCommandPath, WorkScope::Global);
}

/// Queues a Nu-produced invocation under the enforcing Nu policy, bound to
/// the current stop-propagation generation.
pub fn enqueue_runtime_nu_invocation(
    queue: &mut RuntimeWorkQueue,
    invocation: Invocation,
    source: RuntimeWorkSource,
    stop_scope_generation: u64,
)
    requires
        old(queue).wf(),
        old(queue).next_seq_spec() < u64::MAX,
    ensures
        final(queue).wf(),
        final(queue).items_spec() == old(queue).items_spec().push(
            RuntimeWorkItem {
                invocation,
                source,
                execution: WorkExecutionPolicy::EnforcingNuPipeline,
                scope: WorkScope::NuStopScope(stop_scope_generation),
                seq: old(queue).next_seq_spec(),
            },
        ),
{
    queue.enqueue(
        invocation,
        source,
        WorkExecutionPolicy::EnforcingNuPipeline,
        WorkScope::NuStopScope(stop_scope_generation),
    );
}

/// The command that runs a drained work item under its source-aware policy.
pub fn command_for_item(item: RuntimeWorkItem) -> (c: InvocationCmd)
    ensures
        c == (InvocationCmd::Run {
            invocation: item.invocation,
            policy: execution_policy_spec(item.execution),
            source: item.source,
            scope: item.scope,
            seq: item.seq,
        }),
{
    let policy = execution_policy(item.execution);
    InvocationCmd::Run {
        invocation: item.invocation,
        policy,
        source: item.source,
        scope: item.scope,
        seq: item.seq,
    }
}

} // verus!
