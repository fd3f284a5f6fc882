use dsh_desktop::manager::{
    kill_group_step, KillStep, ServerManager, StartAction, StartEvent, KILL_POLL_MS, POLL_INTERVAL_MS,
};
use dsh_desktop::resolve::ResolvedCommand;

fn cmd() -> ResolvedCommand {
    ResolvedCommand::PathDsh { command: "/bin/dsh".to_string() }
}

fn begin(m: &mut ServerManager, setting: Option<&str>) -> StartAction {
    m.request_start();
    m.start_step(StartEvent::Begin { port_setting: setting.map(String::from) })
}

#[test]
fn fresh_manager_reports_starting() {
    let mut m = ServerManager::new();
    let s = m.status(false, false);
    assert_eq!(s.state, "starting");
    assert_eq!(s.port, None);
    assert_eq!(s.error, None);
    assert_eq!(s.pid, None);
    assert!(!s.owned);
}

#[test]
fn running_dsh_is_reused_and_not_killed() {
    let mut m = ServerManager::new();
    match begin(&mut m, None) {
        StartAction::ProbeDsh { port } => assert_eq!(port, 3080),
        a => panic!("{:?}", a),
    }
    match m.start_step(StartEvent::DshRunning { running: true }) {
        StartAction::Finish { kill } => assert_eq!(kill, None),
        a => panic!("{:?}", a),
    }
    assert_eq!(m.status_probe_port(false), Some(3080));
    let s = m.status(false, true);
    assert_eq!(s.state, "reused");
    assert_eq!(s.port, Some(3080));
    assert!(!s.owned);
    m.request_stop();
    assert_eq!(m.stop(), None);
    // the reused server stops answering
    let s = m.status(false, false);
    assert_eq!(s.state, "error");
    assert_eq!(s.error, Some("外部服务已停止".to_string()));
}

fn spawn_to_poll(m: &mut ServerManager, setting: Option<&str>, pid: u32) -> u16 {
    let p = match begin(m, setting) {
        StartAction::ProbeDsh { port } => port,
        a => panic!("{:?}", a),
    };
    match m.start_step(StartEvent::DshRunning { running: false }) {
        StartAction::FindFreePort { start } => assert_eq!(start, p),
        a => panic!("{:?}", a),
    }
    match m.start_step(StartEvent::FreePort { port: Some(p + 1) }) {
        StartAction::ResolveCommand => {}
        a => panic!("{:?}", a),
    }
    match m.start_step(StartEvent::Resolved { command: Some(cmd()) }) {
        StartAction::Spawn { launch, port } => {
            assert_eq!(port, p + 1);
            assert_eq!(launch.program, "/bin/dsh");
            assert_eq!(launch.args, vec!["web".to_string(), "--port".to_string(), (p + 1).to_string()]);
        }
        a => panic!("{:?}", a),
    }
    match m.start_step(StartEvent::Spawned { result: Ok(pid) }) {
        StartAction::ProbeDsh { port } => assert_eq!(port, p + 1),
        a => panic!("{:?}", a),
    }
    p + 1
}

#[test]
fn spawned_server_becomes_ready_and_is_stopped_on_exit() {
    let mut m = ServerManager::new();
    let port = spawn_to_poll(&mut m, Some("4100"), 77);
    assert_eq!(port, 4101);
    let s = m.status(false, false);
    assert_eq!(s.state, "starting");
    assert_eq!(s.pid, Some(77));
    assert!(s.owned);
    match m.start_step(StartEvent::DshRunning { running: false }) {
        StartAction::CheckChildExited => {}
        a => panic!("{:?}", a),
    }
    match m.start_step(StartEvent::ChildExit { status: None }) {
        StartAction::CheckDeadline => {}
        a => panic!("{:?}", a),
    }
    match m.start_step(StartEvent::DeadlinePassed { passed: false }) {
        StartAction::Sleep { millis } => assert_eq!(millis, POLL_INTERVAL_MS),
        a => panic!("{:?}", a),
    }
    match m.start_step(StartEvent::Slept) {
        StartAction::ProbeDsh { port: p } => assert_eq!(p, port),
        a => panic!("{:?}", a),
    }
    match m.start_step(StartEvent::DshRunning { running: true }) {
        StartAction::Finish { kill } => assert_eq!(kill, None),
        a => panic!("{:?}", a),
    }
    let s = m.status(false, true);
    assert_eq!(s.state, "ready");
    assert_eq!(s.port, Some(port));
    m.request_stop();
    assert_eq!(m.stop(), Some(77));
    let s = m.status(false, true);
    assert_eq!(s.pid, None);
    assert!(!s.owned);
    assert_eq!(m.stop(), None);
}

#[test]
fn dead_server_is_reported_and_released() {
    let mut m = ServerManager::new();
    let port = spawn_to_poll(&mut m, None, 5);
    m.start_step(StartEvent::DshRunning { running: true });
    assert_eq!(m.status_probe_port(true), None);
    assert_eq!(m.status_probe_port(false), Some(port));
    let s = m.status(true, true);
    assert_eq!(s.state, "error");
    assert_eq!(s.error, Some("服务已停止（进程退出或端口无响应）".to_string()));
    assert_eq!(s.pid, None);
    assert!(!s.owned);
}

#[test]
fn unresponsive_port_keeps_ownership() {
    let mut m = ServerManager::new();
    spawn_to_poll(&mut m, None, 5);
    m.start_step(StartEvent::DshRunning { running: true });
    let s = m.status(false, false);
    assert_eq!(s.state, "error");
    assert!(s.owned);
    assert_eq!(s.pid, Some(5));
}

#[test]
fn early_exit_and_timeout_release_the_child() {
    let mut m = ServerManager::new();
    spawn_to_poll(&mut m, None, 9);
    m.start_step(StartEvent::DshRunning { running: false });
    match m.start_step(StartEvent::ChildExit { status: Some("exit status: 1".to_string()) }) {
        StartAction::Finish { kill } => assert_eq!(kill, Some(9)),
        a => panic!("{:?}", a),
    }
    let s = m.status(false, false);
    assert_eq!(s.error, Some("dsh 进程提前退出: exit status: 1".to_string()));
    assert!(!s.owned);

    let mut m = ServerManager::new();
    spawn_to_poll(&mut m, None, 10);
    m.start_step(StartEvent::DshRunning { running: false });
    m.start_step(StartEvent::ChildExit { status: None });
    match m.start_step(StartEvent::DeadlinePassed { passed: true }) {
        StartAction::Finish { kill } => assert_eq!(kill, Some(10)),
        a => panic!("{:?}", a),
    }
    let s = m.status(false, false);
    assert_eq!(s.error, Some("启动超时".to_string()));
    assert!(!s.owned);
    assert_eq!(s.pid, None);
}

#[test]
fn failures_before_spawn() {
    let mut m = ServerManager::new();
    begin(&mut m, None);
    m.start_step(StartEvent::DshRunning { running: false });
    m.start_step(StartEvent::FreePort { port: None });
    assert_eq!(m.status(false, false).error, Some("没有可用端口".to_string()));

    let mut m = ServerManager::new();
    begin(&mut m, None);
    m.start_step(StartEvent::DshRunning { running: false });
    m.start_step(StartEvent::FreePort { port: Some(3080) });
    m.start_step(StartEvent::Resolved { command: None });
    assert_eq!(
        m.status(false, false).error,
        Some("找不到 node/dsh，请设置 DSH_DESKTOP_DSH".to_string())
    );

    let mut m = ServerManager::new();
    begin(&mut m, None);
    m.start_step(StartEvent::DshRunning { running: false });
    m.start_step(StartEvent::FreePort { port: Some(3080) });
    m.start_step(StartEvent::Resolved { command: Some(cmd()) });
    match m.start_step(StartEvent::Spawned { result: Err("No such file".to_string()) }) {
        StartAction::Finish { kill } => assert_eq!(kill, None),
        a => panic!("{:?}", a),
    }
    let s = m.status(false, false);
    assert_eq!(s.error, Some("启动失败: No such file".to_string()));
    assert!(!s.owned);
}

#[test]
fn stop_during_start_kills_the_new_server() {
    let mut m = ServerManager::new();
    begin(&mut m, None);
    m.start_step(StartEvent::DshRunning { running: false });
    m.start_step(StartEvent::FreePort { port: Some(3080) });
    m.start_step(StartEvent::Resolved { command: Some(cmd()) });
    m.request_stop();
    match m.start_step(StartEvent::Spawned { result: Ok(42) }) {
        StartAction::Finish { kill } => assert_eq!(kill, Some(42)),
        a => panic!("{:?}", a),
    }
    let s = m.status(false, false);
    assert!(!s.owned);
    assert_eq!(s.pid, None);
    assert_eq!(s.state, "starting");
}

#[test]
fn events_fit_the_stage() {
    let mut m = ServerManager::new();
    assert!(m.expects(&StartEvent::Begin { port_setting: None }));
    assert!(!m.expects(&StartEvent::Slept));
    begin(&mut m, None);
    assert!(m.expects(&StartEvent::DshRunning { running: true }));
    assert!(!m.expects(&StartEvent::FreePort { port: None }));
}

#[test]
fn restart_releases_then_starts_again() {
    let mut m = ServerManager::new();
    spawn_to_poll(&mut m, None, 3);
    m.start_step(StartEvent::DshRunning { running: true });
    m.request_start();
    assert_eq!(m.stop_owned(), Some(3));
    match begin(&mut m, None) {
        StartAction::ProbeDsh { port } => assert_eq!(port, 3080),
        a => panic!("{:?}", a),
    }
    let s = m.status(false, false);
    assert_eq!(s.state, "starting");
    assert!(!s.owned);
}

#[test]
fn kill_group_steps() {
    assert_eq!(kill_group_step(true, None), KillStep::CheckAlive);
    assert_eq!(kill_group_step(true, Some(true)), KillStep::Sleep { millis: KILL_POLL_MS });
    assert_eq!(kill_group_step(true, Some(false)), KillStep::ForceKill);
    assert_eq!(kill_group_step(false, None), KillStep::ForceKill);
    assert_eq!(kill_group_step(false, Some(true)), KillStep::ForceKill);
}
