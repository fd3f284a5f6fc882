//! Decision logic of the DeepSeek Harness desktop shell: locating the `dsh`
//! launcher, choosing a port, driving the server lifecycle, and reading
//! version information. Every input that comes from the outside world (the
//! environment, the file system, sockets, processes, clocks) is handed in as a
//! plain value; every effect is handed back as a request to perform.

pub mod text;
pub mod ports;
pub mod paths;
pub mod resolve;
pub mod version;
pub mod manager;

pub use manager::{ServerManager, StatusSnapshot};
pub use paths::{find_dsh_in_npx, find_node, find_on_path};
pub use resolve::{resolve_command, ResolveParams, ResolvedCommand};
pub use version::{
    check_update, extract_version_from_registry, format_update_text, query_latest_dsh_version,
    UpdateInfo,
};
