use dsh_desktop::paths::{npx_script, NpxEntry};
use dsh_desktop::resolve::{
    default_node_candidates, launch_spec, resolve_command, version_command, ResolveParams,
    ResolvedCommand,
};

fn params() -> ResolveParams {
    ResolveParams {
        dsh_env: None,
        node_env: None,
        path_var: String::new(),
        path_executable: vec![],
        node_candidates: vec![],
        node_executable: vec![],
        npx_root: "/r".to_string(),
        npx_entries: vec![],
    }
}

#[test]
fn resolve_prefers_env_then_path_then_npx() {
    // 1) the environment variable comes first
    let mut p = params();
    p.dsh_env = Some("/opt/custom/dsh".to_string());
    p.path_var = "/bin".to_string();
    p.path_executable = vec![true];
    assert_eq!(
        resolve_command(&p),
        Some(ResolvedCommand::PathDsh { command: "/opt/custom/dsh".to_string() })
    );
    // an empty value does not count
    p.dsh_env = Some(String::new());
    assert_eq!(
        resolve_command(&p),
        Some(ResolvedCommand::PathDsh { command: "/bin/dsh".to_string() })
    );
    // 2) then a dsh on PATH
    p.dsh_env = None;
    assert_eq!(
        resolve_command(&p),
        Some(ResolvedCommand::PathDsh { command: "/bin/dsh".to_string() })
    );
    // 3) then node with the npx script
    p.path_executable = vec![false];
    p.node_candidates = vec!["/d/node".to_string()];
    p.node_executable = vec![true];
    p.npx_entries = vec![NpxEntry { name: "n1".to_string(), script_is_file: true, modified: Some(3) }];
    assert_eq!(
        resolve_command(&p),
        Some(ResolvedCommand::NodeScript {
            node: "/d/node".to_string(),
            script: npx_script("/r", "n1"),
        })
    );
    // DSH_DESKTOP_NODE overrides the candidates when it is not empty
    p.node_env = Some("/custom/node".to_string());
    assert_eq!(
        resolve_command(&p),
        Some(ResolvedCommand::NodeScript {
            node: "/custom/node".to_string(),
            script: npx_script("/r", "n1"),
        })
    );
    p.node_env = Some(String::new());
    assert_eq!(
        resolve_command(&p),
        Some(ResolvedCommand::NodeScript {
            node: "/d/node".to_string(),
            script: npx_script("/r", "n1"),
        })
    );
    // no script, or no node: nothing
    p.npx_entries = vec![];
    assert_eq!(resolve_command(&p), None);
    p.npx_entries = vec![NpxEntry { name: "n1".to_string(), script_is_file: true, modified: None }];
    p.node_env = None;
    p.node_executable = vec![false];
    assert_eq!(resolve_command(&p), None);
}

#[test]
fn command_lines() {
    let direct = ResolvedCommand::PathDsh { command: "/bin/dsh".to_string() };
    let l = launch_spec(&direct, 3081);
    assert_eq!(l.program, "/bin/dsh");
    assert_eq!(l.args, vec!["web", "--port", "3081"]);
    let node = ResolvedCommand::NodeScript { node: "/n".to_string(), script: "/s.js".to_string() };
    let l = launch_spec(&node, 7);
    assert_eq!(l.program, "/n");
    assert_eq!(l.args, vec!["/s.js", "web", "--port", "7"]);
    let v = version_command(&node);
    assert_eq!(v.program, "/n");
    assert_eq!(v.args, vec!["/s.js", "--version"]);
    let v = version_command(&direct);
    assert_eq!(v.args, vec!["--version"]);
}

#[test]
fn default_node_location() {
    assert_eq!(default_node_candidates(), vec!["/opt/homebrew/bin/node".to_string()]);
}
