//! Choosing how to launch `dsh`, and the command lines that launch it.

use vstd::prelude::*;

use crate::paths::{
    count_char, find_dsh_in_npx, find_node, find_on_path, first_marked, join_path,
    lemma_first_marked_is_first, lemma_one_candidate_per_directory, newest_script,
    path_candidates_of, seq_views, split_on, NpxEntry,
};
use crate::text::{decimal, u16_to_decimal};

verus! {

/// How `dsh` is launched.
#[derive(Debug, Clone, PartialEq)]
pub enum ResolvedCommand {
    /// Run this executable directly.
    PathDsh { command: String },
    /// Run `node` on the launcher script.
    NodeScript { node: String, script: String },
}

/// The abstract value of a `ResolvedCommand`.
pub enum CommandModel {
    PathDsh { command: Seq<char> },
    NodeScript { node: Seq<char>, script: Seq<char> },
}

impl View for ResolvedCommand {
    type V = CommandModel;

    open spec fn view(&self) -> CommandModel {
        match self {
            ResolvedCommand::PathDsh { command } => CommandModel::PathDsh { command: command@ },
            ResolvedCommand::NodeScript { node, script } => CommandModel::NodeScript {
                node: node@,
                script: script@,
            },
        }
    }
}

/// The view of an optional command.
pub open spec fn opt_command(c: Option<ResolvedCommand>) -> Option<CommandModel> {
    match c {
        Some(x) => Some(x@),
        None => None,
    }
}

/// Everything the choice of a launch command depends on: the environment and
/// what the file system says of the places a launcher may be.
#[derive(Debug)]
pub struct ResolveParams {
    /// The value of `DSH_DESKTOP_DSH`, if set.
    pub dsh_env: Option<String>,
    /// The value of `DSH_DESKTOP_NODE`, if set.
    pub node_env: Option<String>,
    /// The value of `PATH`.
    pub path_var: String,
    /// For each of `path_candidates(path_var, "dsh")`, whether it is an executable file.
    pub path_executable: Vec<bool>,
    /// Places where `node` may be installed, in order of preference.
    pub node_candidates: Vec<String>,
    /// For each of `node_candidates`, whether it is an executable file.
    pub node_executable: Vec<bool>,
    /// The npx cache directory.
    pub npx_root: String,
    /// The entries of the npx cache directory.
    pub npx_entries: Vec<NpxEntry>,
}

/// Where `node` is looked for when `DSH_DESKTOP_NODE` is not set.
pub fn default_node_candidates() -> (v: Vec<String>)
    ensures
        seq_views(v@) == seq!["/opt/homebrew/bin/node"@],
{
    let mut v: Vec<String> = Vec::new();
    v.push(String::from_str("/opt/homebrew/bin/node"));
    proof {
        assert(seq_views(v@) =~= seq!["/opt/homebrew/bin/node"@]);
    }
    v
}

/// A set, non-empty environment value.
pub open spec fn env_value(v: Option<String>) -> Option<Seq<char>> {
    match v {
        Some(s) => if s@.len() > 0 {
            Some(s@)
        } else {
            None
        },
        None => None,
    }
}

/// The `node` to run the launcher script with: `DSH_DESKTOP_NODE` when it is
/// set and not empty, else the first executable candidate.
pub open spec fn chosen_node(p: ResolveParams) -> Option<Seq<char>> {
    match env_value(p.node_env) {
        Some(n) => Some(n),
        None => first_marked(seq_views(p.node_candidates@), p.node_executable@),
    }
}

/// The launch command, in order of preference: `DSH_DESKTOP_DSH` when set and
/// not empty; else a `dsh` executable found on `PATH`; else `node` with the
/// newest launcher script of the npx cache, when both are found.
pub open spec fn resolution(p: ResolveParams) -> Option<CommandModel> {
    match env_value(p.dsh_env) {
        Some(c) => Some(CommandModel::PathDsh { command: c }),
        None => match first_marked(path_candidates_of(p.path_var@, "dsh"@), p.path_executable@) {
            Some(c) => Some(CommandModel::PathDsh { command: c }),
            None => match (chosen_node(p), newest_script(p.npx_root@, p.npx_entries@)) {
                (Some(n), Some(s)) => Some(CommandModel::NodeScript { node: n, script: s }),
                _ => None,
            },
        },
    }
}

/// Law: the order of preference of the launch command.
/// - `DSH_DESKTOP_DSH`, when set and not empty, is the command, whatever
///   `PATH`, the node candidates and the npx cache hold.
/// - Otherwise the `i`-th directory of `PATH` (the pieces between the colons)
///   that first holds an executable `dsh` gives the command `dir/dsh`.
/// - Otherwise the command is `node` with the npx script or nothing; `node` is
///   `DSH_DESKTOP_NODE` when set and not empty, else the first executable
///   candidate; with no node or no script there is no command.
pub proof fn lemma_resolution_order(p: ResolveParams)
    ensures
        (p.dsh_env matches Some(e) && e@.len() > 0) ==> resolution(p) == Some(
            CommandModel::PathDsh { command: p.dsh_env->0@ },
        ),
        forall|i: int|
            !(p.dsh_env matches Some(e) && e@.len() > 0) && 0 <= i <= count_char(p.path_var@, ':')
                && i < p.path_executable@.len() && #[trigger] p.path_executable@[i] && (forall|j: int|
                0 <= j < i ==> !p.path_executable@[j]) ==> resolution(p) == Some(
                CommandModel::PathDsh { command: join_path(split_on(p.path_var@, ':')[i], "dsh"@) },
            ),
        !(p.dsh_env matches Some(e) && e@.len() > 0) && (forall|i: int|
            0 <= i <= count_char(p.path_var@, ':') && i < p.path_executable@.len()
                ==> !#[trigger] p.path_executable@[i]) ==> {
            &&& (resolution(p) is None || (resolution(p) matches Some(CommandModel::NodeScript { .. })))
            &&& (p.node_env matches Some(n) && n@.len() > 0) ==> match newest_script(
                p.npx_root@,
                p.npx_entries@,
            ) {
                Some(sc) => resolution(p) == Some(
                    CommandModel::NodeScript { node: p.node_env->0@, script: sc },
                ),
                None => resolution(p) is None,
            }
            &&& (chosen_node(p) is None ==> resolution(p) is None)
        },
{
    let cands = path_candidates_of(p.path_var@, "dsh"@);
    lemma_one_candidate_per_directory(p.path_var@, "dsh"@);
    lemma_first_marked_is_first(cands, p.path_executable@);
    assert forall|i: int|
        !(p.dsh_env matches Some(e) && e@.len() > 0) && 0 <= i <= count_char(p.path_var@, ':') && i
            < p.path_executable@.len() && #[trigger] p.path_executable@[i] && (forall|j: int|
            0 <= j < i ==> !p.path_executable@[j]) implies resolution(p) == Some(
        CommandModel::PathDsh { command: join_path(split_on(p.path_var@, ':')[i], "dsh"@) },
    ) by {
        assert(cands[i] == join_path(split_on(p.path_var@, ':')[i], "dsh"@));
    }
}

/// Chooses how to launch `dsh`: environment variable, then `PATH`, then
/// `node` with the npx cache script.
pub fn resolve_command(p: &ResolveParams) -> (r: Option<ResolvedCommand>)
    ensures
        opt_command(r) == resolution(*p),
{
    match &p.dsh_env {
        Some(cmd) => {
            if cmd.as_str().unicode_len() > 0 {
                return Some(ResolvedCommand::PathDsh { command: cmd.clone() });
            }
        },
        None => {},
    }
    match find_on_path(p.path_var.as_str(), "dsh", &p.path_executable) {
        Some(cmd) => {
            return Some(ResolvedCommand::PathDsh { command: cmd });
        },
        None => {},
    }
    let node = match &p.node_env {
        Some(n) if n.as_str().unicode_len() > 0 => n.clone(),
        _ => match find_node(&p.node_candidates, &p.node_executable) {
            Some(n) => n,
            None => {
                return None;
            },
        },
    };
    match find_dsh_in_npx(p.npx_root.as_str(), &p.npx_entries) {
        Some(script) => Some(ResolvedCommand::NodeScript { node, script }),
        None => None,
    }
}

/// A program to run and its arguments.
#[derive(Debug)]
pub struct LaunchSpec {
    pub program: String,
    pub args: Vec<String>,
}

/// The program of a command.
pub open spec fn program_of(c: CommandModel) -> Seq<char> {
    match c {
        CommandModel::PathDsh { command } => command,
        CommandModel::NodeScript { node, .. } => node,
    }
}

/// The arguments that come before the `dsh` arguments of a command.
pub open spec fn lead_args_of(c: CommandModel) -> Seq<Seq<char>> {
    match c {
        CommandModel::PathDsh { .. } => Seq::empty(),
        CommandModel::NodeScript { script, .. } => seq![script],
    }
}

/// Law: the command line that starts the server ends with `web --port`
/// and the port's decimal text, which reads back as that port; the program
/// is the resolved command's, and `node` gets the script first.
pub proof fn lemma_launch_names_port(c: CommandModel, port: u16)
    ensures
        ({
            let args = lead_args_of(c) + web_args(port);
            &&& args.len() == lead_args_of(c).len() + 3
            &&& args[args.len() - 3] == "web"@
            &&& args[args.len() - 2] == "--port"@
            &&& crate::text::parse_u16(args.last()) == Some(port)
            &&& (c matches CommandModel::NodeScript { script, .. } ==> args[0] == script)
        }),
{
    crate::text::lemma_decimal_digits(port as nat);
    let d = decimal(port as nat);
    assert(crate::text::parse_u16(d) == Some(port));
}

/// The arguments that start the web server on `port`.
pub open spec fn web_args(port: u16) -> Seq<Seq<char>> {
    seq!["web"@, "--port"@, decimal(port as nat)]
}

/// The command line of a command with the `dsh` arguments `args`.
fn command_line(cmd: &ResolvedCommand, args: Vec<String>) -> (l: LaunchSpec)
    ensures
        l.program@ == program_of(cmd@),
        seq_views(l.args@) == lead_args_of(cmd@) + seq_views(args@),
{
    match cmd {
        ResolvedCommand::PathDsh { command } => {
            proof {
                assert(seq_views(args@) =~= Seq::<Seq<char>>::empty() + seq_views(args@));
            }
            LaunchSpec { program: command.clone(), args }
        },
        ResolvedCommand::NodeScript { node, script } => {
            let mut all: Vec<String> = Vec::new();
            all.push(script.clone());
            let mut i: usize = 0;
            while i < args.len()
                invariant
                    i <= args@.len(),
                    seq_views(all@) == seq![script@] + seq_views(args@).take(i as int),
                decreases args@.len() - i,
            {
                let ghost before = seq_views(all@);
                all.push(args[i].clone());
                proof {
                    assert(seq_views(all@) =~= before.push(args@[i as int]@));
                    assert(seq_views(args@).take(i + 1) =~= seq_views(args@).take(i as int).push(
                        args@[i as int]@,
                    ));
                }
                i = i + 1;
            }
            proof {
                assert(seq_views(args@).take(i as int) =~= seq_views(args@));
            }
            LaunchSpec { program: node.clone(), args: all }
        },
    }
}

/// The command line that starts the DSH web server on `port`:
/// `<command> web --port <port>`.
pub fn launch_spec(cmd: &ResolvedCommand, port: u16) -> (l: LaunchSpec)
    ensures
        l.program@ == program_of(cmd@),
        seq_views(l.args@) == lead_args_of(cmd@) + web_args(port),
{
    let mut args: Vec<String> = Vec::new();
    args.push(String::from_str("web"));
    args.push(String::from_str("--port"));
    args.push(u16_to_decimal(port));
    proof {
        assert(seq_views(args@) =~= web_args(port));
    }
    command_line(cmd, args)
}

/// The command line that asks `dsh` for its version: `<command> --version`.
pub fn version_command(cmd: &ResolvedCommand) -> (l: LaunchSpec)
    ensures
        l.program@ == program_of(cmd@),
        seq_views(l.args@) == lead_args_of(cmd@) + seq!["--version"@],
{
    let mut args: Vec<String> = Vec::new();
    args.push(String::from_str("--version"));
    proof {
        assert(seq_views(args@) =~= seq!["--version"@]);
    }
    command_line(cmd, args)
}

} // verus!
