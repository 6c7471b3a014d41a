//! The create → run → destroy lifecycle protocol.
//!
//! One worker creates the sandbox, publishes its identifier through a
//! one-shot rendezvous, and runs the contained command; the controlling
//! context blocks on the rendezvous, rejoins the worker, and only then may
//! tear the sandbox down. The machine here is the protocol itself: the
//! caller performs the outside work (the kernel call, the child process)
//! and feeds each outcome back as an event. Events whose guard does not
//! hold leave the state unchanged, so the ordering guarantees hold under
//! every interleaving.

use vstd::prelude::*;

verus! {

/// The worker's progress through one lifecycle.
#[derive(Clone, Copy, Debug, PartialEq, Eq, Structural)]
pub enum WorkerState {
    /// No kernel resource exists yet.
    Idle,
    /// The sandbox exists; its handle has not been published.
    Created { jid: i32 },
    /// The handle has been handed into the rendezvous.
    Sent { jid: i32 },
    /// The contained command is running.
    Running { jid: i32 },
    /// The contained command finished (or failed to launch).
    Exited { jid: i32, command_ok: bool },
    /// Creation failed; no command is ever launched.
    CreateFailed,
}

/// The controlling context's progress.
#[derive(Clone, Copy, Debug, PartialEq, Eq, Structural)]
pub enum ControllerState {
    /// Blocked on the rendezvous.
    AwaitingHandle,
    /// Holds the handle; the worker may still be running.
    HasHandle { jid: i32 },
    /// The worker has been rejoined; teardown is now eligible.
    Joined { jid: i32 },
    /// Teardown was attempted; failure is reported, not fatal.
    Destroyed { jid: i32, destroy_ok: bool },
}

/// One worker/controller pair around a one-shot rendezvous channel.
#[derive(Clone, Copy, Debug, PartialEq, Eq, Structural)]
pub struct LifecycleState {
    pub worker: WorkerState,
    pub channel: Option<i32>,
    pub controller: ControllerState,
}

/// An outside outcome or scheduling step fed into the machine.
#[derive(Clone, Copy, Debug, PartialEq, Eq, Structural)]
pub enum Event {
    /// The kernel call returned this identifier.
    WorkerCreated { jid: i32 },
    /// The kernel rejected the parameters.
    WorkerCreateFailed,
    /// The worker hands the handle into the rendezvous.
    HandleSent,
    /// The contained command was launched (or failed to).
    CommandLaunched { ok: bool },
    /// The contained command exited.
    CommandExited { ok: bool },
    /// The controller takes the handle out of the rendezvous.
    HandleReceived,
    /// The controller rejoined the finished worker.
    WorkerJoined,
    /// Teardown was attempted with this result.
    SandboxDestroyed { ok: bool },
}

/// The initial state of a lifecycle.
pub open spec fn init_state() -> LifecycleState {
    LifecycleState {
        worker: WorkerState::Idle,
        channel: None,
        controller: ControllerState::AwaitingHandle,
    }
}

/// The transition relation, as a total function: an event whose guard
/// does not hold leaves the state unchanged.
pub open spec fn step_spec(s: LifecycleState, ev: Event) -> LifecycleState {
    match ev {
        Event::WorkerCreated { jid } => if s.worker is Idle {
            LifecycleState { worker: WorkerState::Created { jid }, ..s }
        } else {
            s
        },
        Event::WorkerCreateFailed => if s.worker is Idle {
            LifecycleState { worker: WorkerState::CreateFailed, ..s }
        } else {
            s
        },
        Event::HandleSent => if s.worker matches WorkerState::Created { jid } && s.channel
            is None {
            LifecycleState {
                worker: WorkerState::Sent { jid: s.worker->Created_jid },
                channel: Some(s.worker->Created_jid),
                ..s
            }
        } else {
            s
        },
        Event::CommandLaunched { ok } => if s.worker matches WorkerState::Sent { jid } {
            if ok {
                LifecycleState { worker: WorkerState::Running { jid: s.worker->Sent_jid }, ..s }
            } else {
                LifecycleState {
                    worker: WorkerState::Exited { jid: s.worker->Sent_jid, command_ok: false },
                    ..s
                }
            }
        } else {
            s
        },
        Event::CommandExited { ok } => if s.worker matches WorkerState::Running { jid } {
            LifecycleState {
                worker: WorkerState::Exited { jid: s.worker->Running_jid, command_ok: ok },
                ..s
            }
        } else {
            s
        },
        Event::HandleReceived => if s.controller is AwaitingHandle && s.channel is Some {
            LifecycleState {
                controller: ControllerState::HasHandle { jid: s.channel->0 },
                ..s
            }
        } else {
            s
        },
        Event::WorkerJoined => if s.controller matches ControllerState::HasHandle { jid }
            && s.worker is Exited {
            LifecycleState {
                controller: ControllerState::Joined { jid: s.controller->HasHandle_jid },
                ..s
            }
        } else {
            s
        },
        Event::SandboxDestroyed { ok } => if s.controller matches ControllerState::Joined { jid } {
            LifecycleState {
                controller: ControllerState::Destroyed {
                    jid: s.controller->Joined_jid,
                    destroy_ok: ok,
                },
                ..s
            }
        } else {
            s
        },
    }
}

/// The handle-delivery event has fired: the one-shot rendezvous holds (or
/// held) the identifier.
pub open spec fn handle_delivered(s: LifecycleState) -> bool {
    s.channel is Some
}

/// The controller may attempt teardown only in these states.
pub open spec fn destroy_eligible(s: LifecycleState) -> bool {
    s.controller is Joined || s.controller is Destroyed
}

/// What every reachable state of the protocol satisfies.
pub open spec fn protocol_inv(s: LifecycleState) -> bool {
    &&& (s.controller !is AwaitingHandle ==> s.channel is Some)
    &&& (s.channel matches Some(j) ==> worker_published(s.worker, j))
    &&& (s.controller matches ControllerState::HasHandle { jid } ==> s.channel == Some(jid))
    &&& (s.controller matches ControllerState::Joined { jid } ==> s.channel == Some(jid)
        && s.worker is Exited)
    &&& (s.controller matches ControllerState::Destroyed { jid, .. } ==> s.channel == Some(jid))
}

/// The worker has published `j` and no other identifier.
pub open spec fn worker_published(w: WorkerState, j: i32) -> bool {
    ||| w matches WorkerState::Sent { jid } && jid == j
    ||| w matches WorkerState::Running { jid } && jid == j
    ||| w matches WorkerState::Exited { jid, .. } && jid == j
}

pub proof fn lemma_init_inv()
    ensures
        protocol_inv(init_state()),
{
}

pub proof fn lemma_step_preserves_inv(s: LifecycleState, ev: Event)
    requires
        protocol_inv(s),
    ensures
        protocol_inv(step_spec(s, ev)),
{
}

/// The state after a whole event sequence.
pub open spec fn run_steps(s: LifecycleState, evs: Seq<Event>) -> LifecycleState
    decreases evs.len(),
{
    if evs.len() == 0 {
        s
    } else {
        run_steps(step_spec(s, evs[0]), evs.drop_first())
    }
}

/// Lifecycle ordering law: under every interleaving of worker and
/// controller events, the controller never reaches a destroy-eligible
/// state — nor holds the handle at all — before the handle-delivery event
/// has fired.
pub proof fn lemma_lifecycle_ordering(evs: Seq<Event>)
    ensures
        protocol_inv(run_steps(init_state(), evs)),
        destroy_eligible(run_steps(init_state(), evs)) ==> handle_delivered(
            run_steps(init_state(), evs),
        ),
        run_steps(init_state(), evs).controller !is AwaitingHandle ==> handle_delivered(
            run_steps(init_state(), evs),
        ),
{
    lemma_init_inv();
    lemma_run_steps_preserves_inv(init_state(), evs);
}

pub proof fn lemma_run_steps_preserves_inv(s: LifecycleState, evs: Seq<Event>)
    requires
        protocol_inv(s),
    ensures
        protocol_inv(run_steps(s, evs)),
    decreases evs.len(),
{
    if evs.len() > 0 {
        lemma_step_preserves_inv(s, evs[0]);
        lemma_run_steps_preserves_inv(step_spec(s, evs[0]), evs.drop_first());
    }
}

/// Splits a command line into the executable and its arguments. An empty
/// command line yields nothing — the caller rejects it before any kernel
/// resource exists.
pub fn split_command(command: Vec<String>) -> (r: Option<(String, Vec<String>)>)
    ensures
        r is Some <==> command@.len() > 0,
        r matches Some(p) ==> p.0 == command@[0] && p.1@ == command@.subrange(
            1,
            command@.len() as int,
        ),
{
    let mut rest = command;
    if rest.len() == 0 {
        return None;
    }
    let head = rest.remove(0);
    Some((head, rest))
}

/// A fresh lifecycle: nothing created, rendezvous empty.
pub fn lifecycle_init() -> (r: LifecycleState)
    ensures
        r == init_state(),
{
    LifecycleState {
        worker: WorkerState::Idle,
        channel: None,
        controller: ControllerState::AwaitingHandle,
    }
}

/// Applies one event to the machine.
pub fn lifecycle_step(s: LifecycleState, ev: Event) -> (r: LifecycleState)
    ensures
        r == step_spec(s, ev),
{
    match ev {
        Event::WorkerCreated { jid } => match s.worker {
            WorkerState::Idle => LifecycleState { worker: WorkerState::Created { jid }, ..s },
            _ => s,
        },
        Event::WorkerCreateFailed => match s.worker {
            WorkerState::Idle => LifecycleState { worker: WorkerState::CreateFailed, ..s },
            _ => s,
        },
        Event::HandleSent => match (s.worker, s.channel) {
            (WorkerState::Created { jid }, None) => LifecycleState {
                worker: WorkerState::Sent { jid },
                channel: Some(jid),
                ..s
            },
            _ => s,
        },
        Event::CommandLaunched { ok } => match s.worker {
            WorkerState::Sent { jid } => if ok {
                LifecycleState { worker: WorkerState::Running { jid }, ..s }
            } else {
                LifecycleState { worker: WorkerState::Exited { jid, command_ok: false }, ..s }
            },
            _ => s,
        },
        Event::CommandExited { ok } => match s.worker {
            WorkerState::Running { jid } => LifecycleState {
                worker: WorkerState::Exited { jid, command_ok: ok },
                ..s
            },
            _ => s,
        },
        Event::HandleReceived => match (s.controller, s.channel) {
            (ControllerState::AwaitingHandle, Some(jid)) => LifecycleState {
                controller: ControllerState::HasHandle { jid },
                ..s
            },
            _ => s,
        },
        Event::WorkerJoined => match (s.controller, s.worker) {
            (ControllerState::HasHandle { jid }, WorkerState::Exited { .. }) => LifecycleState {
                controller: ControllerState::Joined { jid },
                ..s
            },
            _ => s,
        },
        Event::SandboxDestroyed { ok } => match s.controller {
            ControllerState::Joined { jid } => LifecycleState {
                controller: ControllerState::Destroyed { jid, destroy_ok: ok },
                ..s
            },
            _ => s,
        },
    }
}

} // verus!
