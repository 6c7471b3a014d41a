use run_jail::kernel::KernelModel;
use run_jail::lifecycle::{
    ControllerState, Event, LifecycleState, WorkerState, lifecycle_init, lifecycle_step,
    split_command,
};

fn run(evs: &[Event]) -> LifecycleState {
    let mut s = lifecycle_init();
    for ev in evs {
        s = lifecycle_step(s, *ev);
    }
    s
}

#[test]
fn full_lifecycle_with_simulated_kernel() {
    let mut kernel = KernelModel::new();
    let mut s = lifecycle_init();
    assert_eq!(s.worker, WorkerState::Idle);

    // Worker: create, publish, launch, run, exit.
    let handle = kernel.create();
    let jid = handle.id;
    s = lifecycle_step(s, Event::WorkerCreated { jid });
    assert_eq!(s.worker, WorkerState::Created { jid });
    s = lifecycle_step(s, Event::HandleSent);
    assert_eq!(s.channel, Some(jid));
    s = lifecycle_step(s, Event::CommandLaunched { ok: true });
    s = lifecycle_step(s, Event::CommandExited { ok: true });
    assert_eq!(s.worker, WorkerState::Exited { jid, command_ok: true });

    // Controller: receive, join, destroy.
    s = lifecycle_step(s, Event::HandleReceived);
    assert_eq!(s.controller, ControllerState::HasHandle { jid });
    s = lifecycle_step(s, Event::WorkerJoined);
    assert_eq!(s.controller, ControllerState::Joined { jid });
    let ok = kernel.destroy(handle);
    s = lifecycle_step(s, Event::SandboxDestroyed { ok });
    assert_eq!(s.controller, ControllerState::Destroyed { jid, destroy_ok: true });
}

#[test]
fn controller_cannot_advance_before_handle_delivery() {
    // However the scheduler interleaves, receive and join before the
    // handle is sent are no-ops, so no destroy-eligible state is reached.
    let s = run(&[
        Event::HandleReceived,
        Event::WorkerJoined,
        Event::SandboxDestroyed { ok: true },
        Event::WorkerCreated { jid: 7 },
        Event::HandleReceived,
        Event::WorkerJoined,
    ]);
    assert_eq!(s.controller, ControllerState::AwaitingHandle);
    assert_eq!(s.worker, WorkerState::Created { jid: 7 });
    assert_eq!(s.channel, None);
}

#[test]
fn join_waits_for_worker_exit() {
    let s = run(&[
        Event::WorkerCreated { jid: 3 },
        Event::HandleSent,
        Event::CommandLaunched { ok: true },
        Event::HandleReceived,
        Event::WorkerJoined, // worker still running: no-op
    ]);
    assert_eq!(s.controller, ControllerState::HasHandle { jid: 3 });
    let s = lifecycle_step(s, Event::CommandExited { ok: false });
    let s = lifecycle_step(s, Event::WorkerJoined);
    // A failed command is reported, but the lifecycle still completes.
    assert_eq!(s.controller, ControllerState::Joined { jid: 3 });
    assert_eq!(s.worker, WorkerState::Exited { jid: 3, command_ok: false });
}

#[test]
fn launch_failure_still_delivers_handle() {
    let s = run(&[
        Event::WorkerCreated { jid: 9 },
        Event::HandleSent,
        Event::CommandLaunched { ok: false },
        Event::HandleReceived,
        Event::WorkerJoined,
    ]);
    // The handle was created before the launch failed, so the controller
    // can still attempt cleanup.
    assert_eq!(s.controller, ControllerState::Joined { jid: 9 });
}

#[test]
fn create_failure_launches_nothing() {
    let s = run(&[
        Event::WorkerCreateFailed,
        Event::HandleSent,
        Event::CommandLaunched { ok: true },
    ]);
    assert_eq!(s.worker, WorkerState::CreateFailed);
    assert_eq!(s.channel, None);
}

#[test]
fn second_destroy_of_same_id_fails_without_panic() {
    let mut kernel = KernelModel::new();
    let a = kernel.create();
    let b = kernel.create();
    assert_ne!(a.id, b.id);
    assert!(kernel.destroy(a));
    // The identifier is already gone: failure is reported, nothing panics.
    assert!(!kernel.destroy(a));
    // Other sandboxes are untouched.
    assert!(kernel.is_live(b.id));
    assert!(kernel.destroy(b));
    assert!(!kernel.destroy(b));
}

#[test]
fn destroy_of_unknown_id_fails() {
    let mut kernel = KernelModel::new();
    assert!(!kernel.destroy(run_jail::kernel::SandboxHandle { id: 12345 }));
}

#[test]
fn split_command_separates_head_and_args() {
    let (cmd, args) = split_command(vec![
        "echo".to_string(),
        "hello".to_string(),
        "world".to_string(),
    ])
    .expect("non-empty command");
    assert_eq!(cmd, "echo");
    assert_eq!(args, vec!["hello".to_string(), "world".to_string()]);
}

#[test]
fn split_command_rejects_empty() {
    assert!(split_command(Vec::new()).is_none());
}
