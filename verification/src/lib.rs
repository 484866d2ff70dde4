//! The core of a hook manager: from a declared set of hooks and what was
//! seen of a repository to the list of steps that bring the hook directory
//! in line. Nothing here touches the file system; the caller looks, and the
//! caller acts.

pub mod builder;
pub mod clean;
pub mod cli;
pub mod config;
pub mod effect;
pub mod error;
pub mod events;
pub mod laws;
pub mod list;
pub mod paths;
pub mod session;
pub mod snapshot;
pub mod stale;
pub mod text;
pub mod validate;

pub use builder::{build_hooks, build_probes};
pub use clean::{clean_hooks, clean_probes};
pub use cli::{Command, Opt};
pub use config::{Configuration, ContentSource, HookDeclaration, HookEntry};
pub use effect::{Effect, Report};
pub use error::{Error, RepositoryUse, ValidationError};
pub use events::{is_valid_hook, list_events};
pub use list::list_hooks;
pub use paths::{find_git_root, root_step, script_base, RootSearch};
pub use session::{probes, run, Loaded, Observed};
pub use snapshot::{FileState, Probe, Snapshot};
pub use stale::{stale_hooks, warn_stale_hooks};
pub use validate::validate;
