//! The server lifecycle: starting the DSH web server or reusing one that runs
//! already, watching it, and stopping what this application started.
//!
//! The decisions are taken here, one event at a time; the caller performs
//! each requested action (a probe, a spawn, a signal, a sleep) and reports
//! its result back as the next event.

use vstd::prelude::*;

use crate::paths::{opt_seq, seq_views};
use crate::ports::{opt_view, port_from_setting, port_setting};
use crate::resolve::{
    launch_spec, lead_args_of, program_of, web_args, LaunchSpec, ResolvedCommand,
};
use crate::text::decimal;

verus! {

/// How long a freshly spawned server has to become ready, in milliseconds.
pub const READY_TIMEOUT_MS: u64 = 30000;

/// How long to wait between two readiness probes, in milliseconds.
pub const POLL_INTERVAL_MS: u64 = 500;

/// How long a process group is given to exit after SIGTERM, in milliseconds.
pub const KILL_GRACE_MS: u64 = 2000;

/// How long to wait between two checks that the stopped process is gone, in milliseconds.
pub const KILL_POLL_MS: u64 = 100;

/// What to do next while stopping a process group that was sent SIGTERM.
#[derive(Debug, Clone, Copy, PartialEq, Eq, Structural)]
pub enum KillStep {
    /// Check whether the group's leader is still alive.
    CheckAlive,
    /// Pause for `millis` milliseconds, then look again.
    Sleep { millis: u64 },
    /// Send SIGKILL to the whole group, which ends the stop.
    ForceKill,
}

/// The step after SIGTERM: while the grace period lasts, the leader is
/// checked (`alive` is none until it is) and waited on while alive; once it
/// is gone or the grace period is over, the whole group gets SIGKILL, so that
/// children that ignore SIGTERM go as well.
pub open spec fn kill_step(within_grace: bool, alive: Option<bool>) -> KillStep {
    if !within_grace {
        KillStep::ForceKill
    } else {
        match alive {
            None => KillStep::CheckAlive,
            Some(true) => KillStep::Sleep { millis: KILL_POLL_MS },
            Some(false) => KillStep::ForceKill,
        }
    }
}

/// Decides the next step of stopping a process group.
pub fn kill_group_step(within_grace: bool, alive: Option<bool>) -> (step: KillStep)
    ensures
        step == kill_step(within_grace, alive),
{
    if !within_grace {
        KillStep::ForceKill
    } else {
        match alive {
            None => KillStep::CheckAlive,
            Some(true) => KillStep::Sleep { millis: KILL_POLL_MS },
            Some(false) => KillStep::ForceKill,
        }
    }
}

/// What the application knows of the server.
#[derive(Debug)]
pub enum ServerState {
    /// A start is under way.
    Starting,
    /// The server this application started answers on `port`.
    Ready { port: u16 },
    /// A DSH server that was already running answers on `port`.
    Reused { port: u16 },
    /// The server is not available, for this reason.
    Error(String),
}

/// The abstract value of a `ServerState`.
pub enum StateModel {
    Starting,
    Ready { port: u16 },
    Reused { port: u16 },
    Error(Seq<char>),
}

impl View for ServerState {
    type V = StateModel;

    open spec fn view(&self) -> StateModel {
        match self {
            ServerState::Starting => StateModel::Starting,
            ServerState::Ready { port } => StateModel::Ready { port: *port },
            ServerState::Reused { port } => StateModel::Reused { port: *port },
            ServerState::Error(e) => StateModel::Error(e@),
        }
    }
}

/// Where a start is: which result it waits for.
#[derive(Debug, Clone, Copy, PartialEq, Eq, Structural)]
pub enum Stage {
    /// No start is under way.
    Idle,
    /// Waiting to learn whether DSH already answers on the preferred port.
    ProbeDefault { port: u16 },
    /// Waiting for the first free port from `start` on.
    FindPort { start: u16 },
    /// Waiting for the launch command; the server will use `port`.
    Resolve { port: u16 },
    /// Waiting for the spawn of the server on `port`.
    Spawn { port: u16 },
    /// Waiting to learn whether the spawned server answers on `port`.
    ProbeReady { port: u16 },
    /// Waiting to learn whether the spawned server has exited.
    CheckExit { port: u16 },
    /// Waiting to learn whether the time to become ready is up.
    CheckDeadline { port: u16 },
    /// Waiting for the pause between two probes to end.
    Sleep { port: u16 },
}

/// The manager's state.
pub struct ServerManager {
    state: ServerState,
    owned: bool,
    child: Option<u32>,
    stop_requested: bool,
    stage: Stage,
}

/// The abstract value of a `ServerManager`.
pub struct ManagerModel {
    /// What is known of the server.
    pub state: StateModel,
    /// Whether this application started the server it watches (and so must stop it).
    pub owned: bool,
    /// The process id of the spawned server that this application still holds.
    pub child: Option<u32>,
    /// Whether a stop has been asked for, so that a start under way gives up.
    pub stop_requested: bool,
    /// Where a start under way is.
    pub stage: Stage,
}

impl View for ServerManager {
    type V = ManagerModel;

    closed spec fn view(&self) -> ManagerModel {
        ManagerModel {
            state: self.state@,
            owned: self.owned,
            child: self.child,
            stop_requested: self.stop_requested,
            stage: self.stage,
        }
    }
}

/// A manager that has started nothing yet.
pub open spec fn fresh_model() -> ManagerModel {
    ManagerModel {
        state: StateModel::Starting,
        owned: false,
        child: None,
        stop_requested: false,
        stage: Stage::Idle,
    }
}

/// The manager after a stop request.
pub open spec fn stop_requested_model(m: ManagerModel) -> ManagerModel {
    ManagerModel { stop_requested: true, ..m }
}

/// A stop on exit: the manager afterwards and the process whose group is to
/// be stopped. Only a server this application owns is let go of.
pub open spec fn stop_transition(m: ManagerModel) -> (ManagerModel, Option<u32>) {
    if m.owned {
        (released(m), m.child)
    } else {
        (m, None)
    }
}

/// The manager holds a spawned server only while it owns it.
pub open spec fn model_wf(m: ManagerModel) -> bool {
    m.child is Some ==> m.owned
}

impl ServerManager {
    #[verifier::type_invariant]
    spec fn inv(self) -> bool {
        self.child is Some ==> self.owned
    }

}

/// An event of a start: how the caller begins one, and what each requested
/// action came to.
#[derive(Debug)]
pub enum StartEvent {
    /// Begin a start; `port_setting` is the value of `DSH_DESKTOP_PORT`, if set.
    Begin { port_setting: Option<String> },
    /// Whether DSH answers on the probed port.
    DshRunning { running: bool },
    /// The first free port, if any.
    FreePort { port: Option<u16> },
    /// The launch command, if one was found.
    Resolved { command: Option<ResolvedCommand> },
    /// The spawned process id, or why the spawn failed.
    Spawned { result: Result<u32, String> },
    /// How the spawned server exited, if it has.
    ChildExit { status: Option<String> },
    /// Whether the time to become ready is up.
    DeadlinePassed { passed: bool },
    /// The pause between two probes is over.
    Slept,
}

/// What the caller is to do next in a start.
#[derive(Debug)]
pub enum StartAction {
    /// Probe whether DSH answers on `port`.
    ProbeDsh { port: u16 },
    /// Find the first free port from `start` on.
    FindFreePort { start: u16 },
    /// Find the launch command.
    ResolveCommand,
    /// Spawn the server with this command line, in a process group of its own;
    /// it is to become ready within `READY_TIMEOUT_MS` from now.
    Spawn { launch: LaunchSpec, port: u16 },
    /// Check whether the spawned server has exited.
    CheckChildExited,
    /// Check whether the time to become ready is up.
    CheckDeadline,
    /// Pause for `millis` milliseconds.
    Sleep { millis: u64 },
    /// The start is over; first stop the process group of `kill`, if any.
    Finish { kill: Option<u32> },
}

/// The abstract value of a `StartAction`.
pub enum ActionModel {
    ProbeDsh { port: u16 },
    FindFreePort { start: u16 },
    ResolveCommand,
    Spawn { program: Seq<char>, args: Seq<Seq<char>>, port: u16 },
    CheckChildExited,
    CheckDeadline,
    Sleep { millis: u64 },
    Finish { kill: Option<u32> },
}

impl View for StartAction {
    type V = ActionModel;

    open spec fn view(&self) -> ActionModel {
        match self {
            StartAction::ProbeDsh { port } => ActionModel::ProbeDsh { port: *port },
            StartAction::FindFreePort { start } => ActionModel::FindFreePort { start: *start },
            StartAction::ResolveCommand => ActionModel::ResolveCommand,
            StartAction::Spawn { launch, port } => ActionModel::Spawn {
                program: launch.program@,
                args: seq_views(launch.args@),
                port: *port,
            },
            StartAction::CheckChildExited => ActionModel::CheckChildExited,
            StartAction::CheckDeadline => ActionModel::CheckDeadline,
            StartAction::Sleep { millis } => ActionModel::Sleep { millis: *millis },
            StartAction::Finish { kill } => ActionModel::Finish { kill: *kill },
        }
    }
}

/// The reason given when no port is free.
pub open spec fn no_port_msg() -> Seq<char> {
    "没有可用端口"@
}

/// The reason given when no launch command is found.
pub open spec fn not_found_msg() -> Seq<char> {
    "找不到 node/dsh，请设置 DSH_DESKTOP_DSH"@
}

/// The reason given when the spawn fails with `e`.
pub open spec fn spawn_failed_msg(e: Seq<char>) -> Seq<char> {
    "启动失败: "@ + e
}

/// The reason given when the server exits with `status` before it is ready.
pub open spec fn exited_msg(status: Seq<char>) -> Seq<char> {
    "dsh 进程提前退出: "@ + status
}

/// The reason given when the spawned server is not ready in time (start-up timeout).
pub open spec fn timeout_msg() -> Seq<char> {
    "启动超时"@
}

/// The reason given when the server this application started stops answering.
pub open spec fn stopped_msg() -> Seq<char> {
    "服务已停止（进程退出或端口无响应）"@
}

/// The reason given when a reused server stops answering.
pub open spec fn external_stopped_msg() -> Seq<char> {
    "外部服务已停止"@
}

/// Whether a start at `stage` can take `e` as its next event: a start may
/// always begin anew; any other event answers the action the stage waits on.
pub open spec fn event_fits(stage: Stage, e: StartEvent) -> bool {
    match e {
        StartEvent::Begin { .. } => true,
        StartEvent::DshRunning { .. } => stage is ProbeDefault || stage is ProbeReady,
        StartEvent::FreePort { .. } => stage is FindPort,
        StartEvent::Resolved { .. } => stage is Resolve,
        StartEvent::Spawned { .. } => stage is Spawn,
        StartEvent::ChildExit { .. } => stage is CheckExit,
        StartEvent::DeadlinePassed { .. } => stage is CheckDeadline,
        StartEvent::Slept => stage is Sleep,
    }
}

/// The manager after it lets go of the server it started: it holds no
/// process and owns nothing; the process it held is the one to stop.
pub open spec fn released(m: ManagerModel) -> ManagerModel {
    ManagerModel { owned: false, child: None, ..m }
}

/// The manager after a start ends.
pub open spec fn finished(m: ManagerModel) -> ManagerModel {
    ManagerModel { stage: Stage::Idle, ..m }
}

/// The manager after a start ends in the state `s`.
pub open spec fn finished_in(m: ManagerModel, s: StateModel) -> ManagerModel {
    ManagerModel { stage: Stage::Idle, state: s, ..m }
}

/// The manager after it moves to `stage`.
pub open spec fn at_stage(m: ManagerModel, stage: Stage) -> ManagerModel {
    ManagerModel { stage, ..m }
}

/// The head of the readiness loop on `port`: a requested stop ends the start
/// and lets go of the spawned server; otherwise the port is probed.
pub open spec fn poll_head(m: ManagerModel, port: u16) -> (ManagerModel, ActionModel) {
    if m.stop_requested {
        (finished(released(m)), ActionModel::Finish { kill: m.child })
    } else {
        (at_stage(m, Stage::ProbeReady { port }), ActionModel::ProbeDsh { port })
    }
}

/// One step of a start: the manager and the next action after event `e`.
pub open spec fn start_transition(m: ManagerModel, e: StartEvent) -> (ManagerModel, ActionModel) {
    match e {
        StartEvent::Begin { port_setting: setting } => {
            let p = port_setting(opt_view(setting));
            (
                ManagerModel {
                    state: StateModel::Starting,
                    stage: Stage::ProbeDefault { port: p },
                    ..m
                },
                ActionModel::ProbeDsh { port: p },
            )
        },
        StartEvent::DshRunning { running } => match m.stage {
            Stage::ProbeDefault { port } => if running {
                (finished_in(m, StateModel::Reused { port }), ActionModel::Finish { kill: None })
            } else {
                (at_stage(m, Stage::FindPort { start: port }), ActionModel::FindFreePort { start: port })
            },
            Stage::ProbeReady { port } => if running {
                (finished_in(m, StateModel::Ready { port }), ActionModel::Finish { kill: None })
            } else {
                (at_stage(m, Stage::CheckExit { port }), ActionModel::CheckChildExited)
            },
            _ => (m, ActionModel::Finish { kill: None }),
        },
        StartEvent::FreePort { port } => match port {
            Some(q) => (at_stage(m, Stage::Resolve { port: q }), ActionModel::ResolveCommand),
            None => (
                finished_in(m, StateModel::Error(no_port_msg())),
                ActionModel::Finish { kill: None },
            ),
        },
        StartEvent::Resolved { command } => {
            let q = match m.stage {
                Stage::Resolve { port } => port,
                _ => 0,
            };
            match command {
                Some(c) => (
                    at_stage(m, Stage::Spawn { port: q }),
                    ActionModel::Spawn {
                        program: program_of(c@),
                        args: lead_args_of(c@) + web_args(q),
                        port: q,
                    },
                ),
                None => (
                    finished_in(m, StateModel::Error(not_found_msg())),
                    ActionModel::Finish { kill: None },
                ),
            }
        },
        StartEvent::Spawned { result } => {
            let q = match m.stage {
                Stage::Spawn { port } => port,
                _ => 0,
            };
            match result {
                Ok(pid) => poll_head(ManagerModel { owned: true, child: Some(pid), ..m }, q),
                Err(e) => (
                    finished_in(m, StateModel::Error(spawn_failed_msg(e@))),
                    ActionModel::Finish { kill: None },
                ),
            }
        },
        StartEvent::ChildExit { status } => {
            let q = match m.stage {
                Stage::CheckExit { port } => port,
                _ => 0,
            };
            match status {
                Some(s) => (
                    finished_in(released(m), StateModel::Error(exited_msg(s@))),
                    ActionModel::Finish { kill: m.child },
                ),
                None => (at_stage(m, Stage::CheckDeadline { port: q }), ActionModel::CheckDeadline),
            }
        },
        StartEvent::DeadlinePassed { passed } => {
            let q = match m.stage {
                Stage::CheckDeadline { port } => port,
                _ => 0,
            };
            if passed {
                (
                    finished_in(released(m), StateModel::Error(timeout_msg())),
                    ActionModel::Finish { kill: m.child },
                )
            } else {
                (at_stage(m, Stage::Sleep { port: q }), ActionModel::Sleep { millis: POLL_INTERVAL_MS })
            }
        },
        StartEvent::Slept => {
            let q = match m.stage {
                Stage::Sleep { port } => port,
                _ => 0,
            };
            poll_head(m, q)
        },
    }
}


/// Which port a status check probes: that of a reused server, and that of a
/// started one unless the process it held has exited.
pub open spec fn probe_target(m: ManagerModel, child_exited: bool) -> Option<u16> {
    let exited = child_exited && m.child is Some;
    match m.state {
        StateModel::Ready { port } => if exited {
            None
        } else {
            Some(port)
        },
        StateModel::Reused { port } => Some(port),
        _ => None,
    }
}

/// What the status bar shows.
#[derive(Debug, Clone)]
pub struct StatusSnapshot {
    /// One of `starting`, `ready`, `reused`, `error`.
    pub state: String,
    /// The port the server answers on, when it is ready or reused.
    pub port: Option<u16>,
    /// Why the server is not available, when it is not.
    pub error: Option<String>,
    /// The process id of the server this application holds, if any.
    pub pid: Option<u32>,
    /// Whether this application started the server.
    pub owned: bool,
}

/// The abstract value of a `StatusSnapshot`.
pub struct SnapshotModel {
    pub state: Seq<char>,
    pub port: Option<u16>,
    pub error: Option<Seq<char>>,
    pub pid: Option<u32>,
    pub owned: bool,
}

impl View for StatusSnapshot {
    type V = SnapshotModel;

    open spec fn view(&self) -> SnapshotModel {
        SnapshotModel {
            state: self.state@,
            port: self.port,
            error: opt_seq(self.error),
            pid: self.pid,
            owned: self.owned,
        }
    }
}

/// What the status bar shows of a manager.
pub open spec fn snapshot_of(m: ManagerModel) -> SnapshotModel {
    let (state, port, error) = match m.state {
        StateModel::Starting => ("starting"@, None, None),
        StateModel::Ready { port } => ("ready"@, Some(port), None),
        StateModel::Reused { port } => ("reused"@, Some(port), None),
        StateModel::Error(e) => ("error"@, None, Some(e)),
    };
    SnapshotModel { state, port, error, pid: m.child, owned: m.owned }
}

/// A status check: `child_exited` tells whether the held process has exited,
/// `running` whether DSH answered on `probe_target`. A process that exited is
/// let go of; a started server whose process exited, or whose port does not
/// answer, is reported stopped (and no longer owned when its process exited);
/// a reused server whose port does not answer is reported gone.
pub open spec fn status_transition(m: ManagerModel, child_exited: bool, running: bool) -> ManagerModel {
    let exited = child_exited && m.child is Some;
    let m1 = if exited {
        ManagerModel { child: None, ..m }
    } else {
        m
    };
    match m1.state {
        StateModel::Ready { .. } => if exited || !running {
            ManagerModel {
                state: StateModel::Error(stopped_msg()),
                owned: if exited {
                    false
                } else {
                    m1.owned
                },
                ..m1
            }
        } else {
            m1
        },
        StateModel::Reused { .. } => if !running {
            ManagerModel { state: StateModel::Error(external_stopped_msg()), ..m1 }
        } else {
            m1
        },
        _ => m1,
    }
}

impl ServerManager {
    /// A manager that has started nothing yet: a start is taken to be under way.
    pub fn new() -> (m: Self)
        ensures
            m@ == fresh_model(),
    {
        ServerManager {
            state: ServerState::Starting,
            owned: false,
            child: None,
            stop_requested: false,
            stage: Stage::Idle,
        }
    }

    /// Whether a start can take `event` as its next event.
    pub fn expects(&self, event: &StartEvent) -> (b: bool)
        ensures
            b == event_fits(self@.stage, *event),
    {
        match event {
            StartEvent::Begin { .. } => true,
            StartEvent::DshRunning { .. } => match self.stage {
                Stage::ProbeDefault { .. } => true,
                Stage::ProbeReady { .. } => true,
                _ => false,
            },
            StartEvent::FreePort { .. } => match self.stage {
                Stage::FindPort { .. } => true,
                _ => false,
            },
            StartEvent::Resolved { .. } => match self.stage {
                Stage::Resolve { .. } => true,
                _ => false,
            },
            StartEvent::Spawned { .. } => match self.stage {
                Stage::Spawn { .. } => true,
                _ => false,
            },
            StartEvent::ChildExit { .. } => match self.stage {
                Stage::CheckExit { .. } => true,
                _ => false,
            },
            StartEvent::DeadlinePassed { .. } => match self.stage {
                Stage::CheckDeadline { .. } => true,
                _ => false,
            },
            StartEvent::Slept => match self.stage {
                Stage::Sleep { .. } => true,
                _ => false,
            },
        }
    }

    /// Clears a stop request, as a start or a restart does first.
    pub fn request_start(&mut self)
        ensures
            final(self)@ == (ManagerModel { stop_requested: false, ..old(self)@ }),
    {
        proof {
            use_type_invariant(&*self);
        }
        self.stop_requested = false;
    }

    /// Records a stop request, so that a start under way gives up.
    pub fn request_stop(&mut self)
        ensures
            final(self)@ == stop_requested_model(old(self)@),
    {
        proof {
            use_type_invariant(&*self);
        }
        self.stop_requested = true;
    }

    /// Lets go of the server this application started: the process it held,
    /// if any, is the one whose process group the caller is to stop.
    pub fn stop_owned(&mut self) -> (kill: Option<u32>)
        ensures
            final(self)@ == released(old(self)@),
            kill == old(self)@.child,
    {
        proof {
            use_type_invariant(&*self);
        }
        let kill = self.child;
        self.child = None;
        self.owned = false;
        kill
    }

    /// Stops on exit: only a server this application started is let go of
    /// (and its process group stopped by the caller); a reused one is left alone.
    pub fn stop(&mut self) -> (kill: Option<u32>)
        ensures
            (final(self)@, kill) == stop_transition(old(self)@),
            final(self)@.child is None,
            !final(self)@.owned,
    {
        proof {
            use_type_invariant(&*self);
        }
        if self.owned {
            self.stop_owned()
        } else {
            None
        }
    }

    fn release(&mut self) -> (kill: Option<u32>)
        ensures
            final(self)@ == released(old(self)@),
            kill == old(self)@.child,
    {
        self.stop_owned()
    }

    fn poll_head(&mut self, port: u16) -> (action: StartAction)
        ensures
            (final(self)@, action@) == poll_head(old(self)@, port),
    {
        proof {
            use_type_invariant(&*self);
        }
        if self.stop_requested {
            let kill = self.release();
            proof {
                use_type_invariant(&*self);
            }
            self.stage = Stage::Idle;
            StartAction::Finish { kill }
        } else {
            self.stage = Stage::ProbeReady { port };
            StartAction::ProbeDsh { port }
        }
    }

    fn finish_with(&mut self, state: ServerState) -> (action: StartAction)
        ensures
            final(self)@ == finished_in(old(self)@, state@),
            action@ == (ActionModel::Finish { kill: None }),
    {
        proof {
            use_type_invariant(&*self);
        }
        self.state = state;
        self.stage = Stage::Idle;
        StartAction::Finish { kill: None }
    }

    /// Takes one step of a start: records what event `event` tells and says
    /// what the caller is to do next.
    pub fn start_step(&mut self, event: StartEvent) -> (action: StartAction)
        requires
            event_fits(old(self)@.stage, event),
        ensures
            (final(self)@, action@) == start_transition(old(self)@, event),
    {
        proof {
            use_type_invariant(&*self);
        }
        match event {
            StartEvent::Begin { port_setting } => {
                let p = port_from_setting(&port_setting);
                self.state = ServerState::Starting;
                self.stage = Stage::ProbeDefault { port: p };
                StartAction::ProbeDsh { port: p }
            },
            StartEvent::DshRunning { running } => match self.stage {
                Stage::ProbeDefault { port } => if running {
                    self.finish_with(ServerState::Reused { port })
                } else {
                    self.stage = Stage::FindPort { start: port };
                    StartAction::FindFreePort { start: port }
                },
                Stage::ProbeReady { port } => if running {
                    self.finish_with(ServerState::Ready { port })
                } else {
                    self.stage = Stage::CheckExit { port };
                    StartAction::CheckChildExited
                },
                _ => StartAction::Finish { kill: None },
            },
            StartEvent::FreePort { port } => match port {
                Some(q) => {
                    self.stage = Stage::Resolve { port: q };
                    StartAction::ResolveCommand
                },
                None => self.finish_with(ServerState::Error(String::from_str("没有可用端口"))),
            },
            StartEvent::Resolved { command } => {
                let q = match self.stage {
                    Stage::Resolve { port } => port,
                    _ => 0,
                };
                match command {
                    Some(c) => {
                        self.stage = Stage::Spawn { port: q };
                        StartAction::Spawn { launch: launch_spec(&c, q), port: q }
                    },
                    None => self.finish_with(
                        ServerState::Error(
                            String::from_str("找不到 node/dsh，请设置 DSH_DESKTOP_DSH"),
                        ),
                    ),
                }
            },
            StartEvent::Spawned { result } => {
                let q = match self.stage {
                    Stage::Spawn { port } => port,
                    _ => 0,
                };
                match result {
                    Ok(pid) => {
                        self.owned = true;
                        self.child = Some(pid);
                        self.poll_head(q)
                    },
                    Err(e) => {
                        let mut msg = String::from_str("启动失败: ");
                        msg.append(e.as_str());
                        self.finish_with(ServerState::Error(msg))
                    },
                }
            },
            StartEvent::ChildExit { status } => {
                let q = match self.stage {
                    Stage::CheckExit { port } => port,
                    _ => 0,
                };
                match status {
                    Some(st) => {
                        let kill = self.release();
                        proof {
                            use_type_invariant(&*self);
                        }
                        let mut msg = String::from_str("dsh 进程提前退出: ");
                        msg.append(st.as_str());
                        self.finish_with(ServerState::Error(msg));
                        StartAction::Finish { kill }
                    },
                    None => {
                        self.stage = Stage::CheckDeadline { port: q };
                        StartAction::CheckDeadline
                    },
                }
            },
            StartEvent::DeadlinePassed { passed } => {
                let q = match self.stage {
                    Stage::CheckDeadline { port } => port,
                    _ => 0,
                };
                if passed {
                    let kill = self.release();
                    proof {
                        use_type_invariant(&*self);
                    }
                    self.finish_with(ServerState::Error(String::from_str("启动超时")));
                    StartAction::Finish { kill }
                } else {
                    self.stage = Stage::Sleep { port: q };
                    StartAction::Sleep { millis: POLL_INTERVAL_MS }
                }
            },
            StartEvent::Slept => {
                let q = match self.stage {
                    Stage::Sleep { port } => port,
                    _ => 0,
                };
                self.poll_head(q)
            },
        }
    }

    /// The port a status check is to probe, given whether the held process
    /// has exited; none when no probe is needed.
    pub fn status_probe_port(&self, child_exited: bool) -> (p: Option<u16>)
        ensures
            p == probe_target(self@, child_exited),
    {
        let exited = child_exited && self.child.is_some();
        match self.state {
            ServerState::Ready { port } => if exited {
                None
            } else {
                Some(port)
            },
            ServerState::Reused { port } => Some(port),
            _ => None,
        }
    }

    /// Checks the server's status and reports it; `child_exited` tells whether
    /// the held process has exited, `running` whether DSH answered on the port
    /// that `status_probe_port` named (it is not looked at when none was named).
    pub fn status(&mut self, child_exited: bool, running: bool) -> (snap: StatusSnapshot)
        ensures
            final(self)@ == status_transition(old(self)@, child_exited, running),
            snap@ == snapshot_of(final(self)@),
    {
        proof {
            use_type_invariant(&*self);
        }
        let exited = child_exited && self.child.is_some();
        if exited {
            self.child = None;
        }
        let fail = match self.state {
            ServerState::Ready { .. } => exited || !running,
            ServerState::Reused { .. } => !running,
            _ => false,
        };
        if fail {
            let reused = match self.state {
                ServerState::Reused { .. } => true,
                _ => false,
            };
            if reused {
                self.state = ServerState::Error(String::from_str("外部服务已停止"));
            } else {
                self.state = ServerState::Error(
                    String::from_str("服务已停止（进程退出或端口无响应）"),
                );
                if exited {
                    self.owned = false;
                }
            }
        }
        self.snapshot()
    }

    fn snapshot(&self) -> (snap: StatusSnapshot)
        ensures
            snap@ == snapshot_of(self@),
    {
        let (state, port, error) = match &self.state {
            ServerState::Starting => (String::from_str("starting"), None, None),
            ServerState::Ready { port } => (String::from_str("ready"), Some(*port), None),
            ServerState::Reused { port } => (String::from_str("reused"), Some(*port), None),
            ServerState::Error(e) => (String::from_str("error"), None, Some(e.clone())),
        };
        StatusSnapshot { state, port, error, pid: self.child, owned: self.owned }
    }
}


/// Law: every manager state reached by the operations keeps a spawned server
/// only while it owns it, and a kill is asked for only for the server process
/// the manager held, or the one just spawned; after it the manager holds and
/// owns nothing.
pub proof fn lemma_start_kills_only_own_child(m: ManagerModel, e: StartEvent)
    requires
        model_wf(m),
        event_fits(m.stage, e),
    ensures
        model_wf(start_transition(m, e).0),
        match start_transition(m, e).1 {
            ActionModel::Finish { kill: Some(pid) } => {
                &&& m.child == Some(pid) || e == (StartEvent::Spawned { result: Ok(pid) })
                &&& start_transition(m, e).0.child is None
                &&& !start_transition(m, e).0.owned
            },
            _ => true,
        },
{
}

/// Law: the status check and the stop keep a spawned server held only while
/// it is owned.
pub proof fn lemma_status_and_stop_keep_wf(m: ManagerModel, child_exited: bool, running: bool)
    requires
        model_wf(m),
    ensures
        model_wf(status_transition(m, child_exited, running)),
        model_wf(stop_transition(m).0),
        model_wf(stop_requested_model(m)),
{
}

/// Law: a DSH server that already answers on the preferred port is reused and
/// survives the application's exit. A fresh manager that begins a start probes
/// the configured port; when DSH answers there, the start ends `reused` on that
/// port without owning anything, and the stop on exit asks to kill nothing.
pub proof fn lemma_reused_server_survives_exit(setting: Option<String>)
    ensures
        ({
            let p = port_setting(opt_view(setting));
            let (m1, a1) = start_transition(fresh_model(), StartEvent::Begin { port_setting: setting });
            let (m2, a2) = start_transition(m1, StartEvent::DshRunning { running: true });
            let (m3, kill) = stop_transition(stop_requested_model(m2));
            &&& a1 == ActionModel::ProbeDsh { port: p }
            &&& m2.state == StateModel::Reused { port: p }
            &&& !m2.owned
            &&& a2 == ActionModel::Finish { kill: None }
            &&& kill is None
            &&& m3.state == StateModel::Reused { port: p }
        }),
{
}

/// Law: after the stop on exit the manager holds no server process and owns
/// none, whatever it held before.
pub proof fn lemma_exit_leaves_nothing(m: ManagerModel)
    requires
        model_wf(m),
    ensures
        stop_transition(stop_requested_model(m)).0.child is None,
        !stop_transition(stop_requested_model(m)).0.owned,
        stop_transition(stop_requested_model(m)).1 == m.child,
{
}

/// Law: a start under way gives up as soon as a stop is requested: the
/// server it has just spawned, or that it waits on, is let go of and its
/// process group is to be stopped; nothing is left owned.
pub proof fn lemma_stop_cancels_start(m: ManagerModel, pid: u32, port: u16)
    requires
        model_wf(m),
        m.stop_requested,
    ensures
        ({
            let (m1, a1) = start_transition(
                at_stage(m, Stage::Spawn { port }),
                StartEvent::Spawned { result: Ok(pid) },
            );
            a1 == ActionModel::Finish { kill: Some(pid) } && m1.child is None && !m1.owned
                && m1.stage == Stage::Idle
        }),
        ({
            let (m2, a2) = start_transition(at_stage(m, Stage::Sleep { port }), StartEvent::Slept);
            a2 == ActionModel::Finish { kill: m.child } && m2.child is None && !m2.owned
                && m2.stage == Stage::Idle
        }),
{
}

/// Law: a started server whose process has exited is reported stopped at the
/// next status check, and the manager neither holds nor owns it any more.
pub proof fn lemma_dead_server_is_reported(m: ManagerModel, port: u16, running: bool)
    requires
        model_wf(m),
        m.state == (StateModel::Ready { port }),
        m.child is Some,
    ensures
        ({
            let m1 = status_transition(m, true, running);
            &&& m1.state == StateModel::Error(stopped_msg())
            &&& m1.child is None
            &&& !m1.owned
            &&& snapshot_of(m1).state == "error"@
            &&& snapshot_of(m1).error == Some(stopped_msg())
            &&& snapshot_of(m1).port is None
        }),
{
}

/// Law: the status bar shows one of four states; it shows a port exactly
/// when the server is ready or reused, and a reason exactly when it is in error.
pub proof fn lemma_snapshot_shape(m: ManagerModel)
    ensures
        ({
            let s = snapshot_of(m);
            &&& s.state == "starting"@ || s.state == "ready"@ || s.state == "reused"@ || s.state
                == "error"@
            &&& (s.port is Some <==> (s.state == "ready"@ || s.state == "reused"@))
            &&& (s.error is Some <==> s.state == "error"@)
            &&& s.pid == m.child
            &&& s.owned == m.owned
        }),
{
    reveal_strlit("starting");
    reveal_strlit("ready");
    reveal_strlit("reused");
    reveal_strlit("error");
    assert("starting"@[0] != "ready"@[0]);
    assert("starting"@[0] != "reused"@[0]);
    assert("starting"@[0] != "error"@[0]);
    assert("ready"@[0] != "error"@[0]);
    assert("reused"@[0] != "error"@[0]);
    assert("ready"@[2] != "reused"@[2]);
    assert("starting"@ != "ready"@);
    assert("starting"@ != "reused"@);
    assert("starting"@ != "error"@);
    assert("ready"@ != "error"@);
    assert("reused"@ != "error"@);
}

/// Law: a start that spawns the server asks for it to listen on the port the
/// scan found, in decimal, and that text read back as a port setting is the
/// same port.
pub proof fn lemma_spawn_uses_found_port(m: ManagerModel, c: ResolvedCommand, q: u16)
    requires
        q > 0,
    ensures
        ({
            let (m1, a) = start_transition(
                at_stage(m, Stage::Resolve { port: q }),
                StartEvent::Resolved { command: Some(c) },
            );
            &&& a == ActionModel::Spawn {
                program: program_of(c@),
                args: lead_args_of(c@) + seq!["web"@, "--port"@, decimal(q as nat)],
                port: q,
            }
            &&& m1.stage == Stage::Spawn { port: q }
            &&& port_setting(Some(decimal(q as nat))) == q
        }),
{
    crate::ports::lemma_port_text_round_trip(q);
}


/// The server a start has spawned so far: its port and process id. A start
/// that begins anew has spawned nothing yet.
pub open spec fn track_spawn(m: ManagerModel, e: StartEvent, spawned: Option<(u16, u32)>) -> Option<(u16, u32)> {
    match e {
        StartEvent::Begin { .. } => None,
        StartEvent::Spawned { result: Ok(pid) } => match m.stage {
            Stage::Spawn { port } => Some((port, pid)),
            _ => spawned,
        },
        _ => spawned,
    }
}

/// Where the events `events` lead a start, with no other call on the manager
/// in between: the manager, and the server spawned on the way.
pub open spec fn run_start(
    m: ManagerModel,
    events: Seq<StartEvent>,
    spawned: Option<(u16, u32)>,
) -> (ManagerModel, Option<(u16, u32)>)
    decreases events.len(),
{
    if events.len() == 0 {
        (m, spawned)
    } else {
        run_start(
            start_transition(m, events[0]).0,
            events.drop_first(),
            track_spawn(m, events[0], spawned),
        )
    }
}

/// Each of `events` answers the action the start waits on when it comes.
pub open spec fn run_fits(m: ManagerModel, events: Seq<StartEvent>) -> bool
    decreases events.len(),
{
    events.len() == 0 || (event_fits(m.stage, events[0]) && run_fits(
        start_transition(m, events[0]).0,
        events.drop_first(),
    ))
}

/// A stage of the readiness loop, after the spawn.
pub open spec fn polling_port(stage: Stage) -> Option<u16> {
    match stage {
        Stage::ProbeReady { port } => Some(port),
        Stage::CheckExit { port } => Some(port),
        Stage::CheckDeadline { port } => Some(port),
        Stage::Sleep { port } => Some(port),
        _ => None,
    }
}

/// What holds at every point of a start that no stop request reaches:
/// before the spawn nothing is spawned; in the readiness loop the spawned
/// server is held, owned and polled on its own port; once the start is over,
/// its state is settled, a ready server is the spawned one, still held and
/// owned, and an error after a spawn leaves nothing held or owned.
pub open spec fn start_run_inv(m: ManagerModel, spawned: Option<(u16, u32)>) -> bool {
    &&& model_wf(m)
    &&& !m.stop_requested
    &&& match m.stage {
        Stage::Idle => {
            &&& !(m.state is Starting)
            &&& (m.state matches StateModel::Ready { port } ==> spawned matches Some((q, pid)) && q
                == port && m.child == Some(pid) && m.owned)
            &&& (m.state is Error && spawned is Some ==> m.child is None && !m.owned)
        },
        Stage::ProbeDefault { .. } => spawned is None && m.state is Starting,
        Stage::FindPort { .. } => spawned is None && m.state is Starting,
        Stage::Resolve { .. } => spawned is None && m.state is Starting,
        Stage::Spawn { .. } => spawned is None && m.state is Starting,
        _ => spawned matches Some((q, pid)) && polling_port(m.stage) == Some(q) && m.child == Some(
            pid,
        ) && m.owned && m.state is Starting,
    }
}

/// Each step of a start that no stop request reaches keeps `start_run_inv`.
pub proof fn lemma_start_step_keeps_run_inv(m: ManagerModel, e: StartEvent, spawned: Option<(u16, u32)>)
    requires
        start_run_inv(m, spawned),
        event_fits(m.stage, e),
        !(e is Begin),
    ensures
        start_run_inv(start_transition(m, e).0, track_spawn(m, e, spawned)),
{
}

/// Law: a start that runs to its end with no stop request and no other call
/// on the manager in between leaves a settled state; when it ends ready, the
/// server is the one it spawned, on the port it was spawned on, held and
/// owned; when it ends in an error after a spawn, no process is left held or
/// owned.
pub proof fn lemma_start_run_outcome(m0: ManagerModel, setting: Option<String>, events: Seq<StartEvent>)
    requires
        model_wf(m0),
        !m0.stop_requested,
        forall|i: int| 0 <= i < events.len() ==> !(#[trigger] events[i] is Begin),
        run_fits(start_transition(m0, StartEvent::Begin { port_setting: setting }).0, events),
        run_start(start_transition(m0, StartEvent::Begin { port_setting: setting }).0, events, None).0.stage
            == Stage::Idle,
    ensures
        ({
            let (m, spawned) = run_start(
                start_transition(m0, StartEvent::Begin { port_setting: setting }).0,
                events,
                None,
            );
            &&& !(m.state is Starting)
            &&& (m.state matches StateModel::Ready { port } ==> spawned matches Some((q, pid)) && q
                == port && m.child == Some(pid) && m.owned)
            &&& (m.state is Error && spawned is Some ==> m.child is None && !m.owned)
        }),
{
    let m1 = start_transition(m0, StartEvent::Begin { port_setting: setting }).0;
    lemma_run_keeps_inv(m1, events, None);
}

proof fn lemma_run_keeps_inv(m: ManagerModel, events: Seq<StartEvent>, spawned: Option<(u16, u32)>)
    requires
        start_run_inv(m, spawned),
        forall|i: int| 0 <= i < events.len() ==> !(#[trigger] events[i] is Begin),
        run_fits(m, events),
    ensures
        start_run_inv(run_start(m, events, spawned).0, run_start(m, events, spawned).1),
    decreases events.len(),
{
    if events.len() > 0 {
        assert(!(events[0] is Begin));
        lemma_start_step_keeps_run_inv(m, events[0], spawned);
        let rest = events.drop_first();
        assert forall|i: int| 0 <= i < rest.len() implies !(#[trigger] rest[i] is Begin) by {
            assert(rest[i] == events[i + 1]);
        }
        lemma_run_keeps_inv(start_transition(m, events[0]).0, rest, track_spawn(m, events[0], spawned));
    }
}

/// Every step of a start keeps a spawned server held only while it is owned.
proof fn lemma_run_keeps_wf(m: ManagerModel, events: Seq<StartEvent>, spawned: Option<(u16, u32)>)
    requires
        model_wf(m),
        run_fits(m, events),
    ensures
        model_wf(run_start(m, events, spawned).0),
    decreases events.len(),
{
    if events.len() > 0 {
        lemma_start_kills_only_own_child(m, events[0]);
        lemma_run_keeps_wf(
            start_transition(m, events[0]).0,
            events.drop_first(),
            track_spawn(m, events[0], spawned),
        );
    }
}

/// Law: a stop that comes while a start runs leaves no server process held
/// or owned. The stop request may arrive after any number `k` of the start's
/// steps; the start then goes on with the remaining events; the stop itself
/// runs once the start is over (start and stop take turns, never at once).
/// Afterwards the manager holds no process and owns none.
pub proof fn lemma_stop_during_start_leaves_nothing(
    m: ManagerModel,
    events: Seq<StartEvent>,
    k: int,
)
    requires
        model_wf(m),
        0 <= k <= events.len(),
        run_fits(m, events.take(k)),
        run_fits(
            stop_requested_model(run_start(m, events.take(k), None).0),
            events.skip(k),
        ),
    ensures
        ({
            let mid = stop_requested_model(run_start(m, events.take(k), None).0);
            let end = run_start(mid, events.skip(k), None).0;
            &&& stop_transition(end).0.child is None
            &&& !stop_transition(end).0.owned
        }),
{
    lemma_run_keeps_wf(m, events.take(k), None);
    let mid = stop_requested_model(run_start(m, events.take(k), None).0);
    lemma_run_keeps_wf(mid, events.skip(k), None);
}


/// Law: a start that finds no DSH on the preferred port scans from that port,
/// and spawns the server on exactly the port the scan reports, the preferred
/// port itself included: the spawn action names that port, its command line
/// ends with `web --port` and that port's decimal text, and the start then
/// waits on that port.
pub proof fn lemma_spawn_on_scanned_port(
    m: ManagerModel,
    setting: Option<String>,
    q: u16,
    c: ResolvedCommand,
)
    ensures
        ({
            let p = port_setting(opt_view(setting));
            let (m1, a1) = start_transition(m, StartEvent::Begin { port_setting: setting });
            let (m2, a2) = start_transition(m1, StartEvent::DshRunning { running: false });
            let (m3, a3) = start_transition(m2, StartEvent::FreePort { port: Some(q) });
            let (m4, a4) = start_transition(m3, StartEvent::Resolved { command: Some(c) });
            &&& a1 == ActionModel::ProbeDsh { port: p }
            &&& a2 == ActionModel::FindFreePort { start: p }
            &&& a3 == ActionModel::ResolveCommand
            &&& m4.stage == Stage::Spawn { port: q }
            &&& a4 matches ActionModel::Spawn { program, args, port }
            &&& port == q
            &&& program == program_of(c@)
            &&& args.len() >= 3
            &&& args[args.len() - 3] == "web"@
            &&& args[args.len() - 2] == "--port"@
            &&& crate::text::parse_u16(args.last()) == Some(q)
        }),
{
    crate::resolve::lemma_launch_names_port(c@, q);
}

/// Law: a status check leaves a healthy server as it is and reports what it
/// holds; a reused server that stops answering is reported gone, without
/// touching what the manager owns or holds; a started server whose port does
/// not answer, while its process lives, is reported stopped but stays owned,
/// so that a restart or exit still stops it.
pub proof fn lemma_status_outcomes(m: ManagerModel, port: u16, child_exited: bool)
    requires
        model_wf(m),
    ensures
        m.state == (StateModel::Reused { port }) ==> {
            let m1 = status_transition(m, child_exited, false);
            &&& m1.state == StateModel::Error(external_stopped_msg())
            &&& m1.owned == m.owned
        },
        m.state == (StateModel::Reused { port }) && !child_exited ==> status_transition(m, child_exited, true) == m,
        m.state == (StateModel::Ready { port }) && !child_exited ==> status_transition(m, false, true) == m
            && snapshot_of(m).port == Some(port),
        m.state == (StateModel::Ready { port }) && !child_exited ==> {
            let m1 = status_transition(m, false, false);
            &&& m1.state == StateModel::Error(stopped_msg())
            &&& m1.owned == m.owned
            &&& m1.child == m.child
        },
{
}

/// Law: SIGKILL always ends the stop of a process group once the grace period
/// is over, and ends it early only when the group's leader is gone; within the
/// grace period the leader is checked before any pause, and a pause follows
/// only a check that found it alive.
pub proof fn lemma_kill_always_ends(within_grace: bool, alive: Option<bool>)
    ensures
        !within_grace ==> kill_step(within_grace, alive) == KillStep::ForceKill,
        kill_step(within_grace, alive) == KillStep::ForceKill <==> (!within_grace || alive == Some(false)),
        kill_step(within_grace, alive) == KillStep::CheckAlive <==> (within_grace && alive is None),
        kill_step(within_grace, alive) is Sleep <==> (within_grace && alive == Some(true)),
{
}

} // verus!
