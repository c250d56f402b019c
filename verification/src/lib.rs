//! A unifying task runner's configuration core: it merges script
//! definitions discovered across several project-manifest formats under a
//! fixed precedence order, keeps a table of executor overrides, and turns a
//! script together with its executor into the shell command line that runs it.

use vstd::prelude::*;

mod config;
mod discover;
mod node;
mod parse;
mod script;

pub use config::Config;
pub use config::ConfigError;
pub use config::ConfigType;
pub use config::ExecutorTable;
pub use config::FoundManifest;
pub use config::ManifestSet;
pub use discover::ancestors_of;
pub use discover::find_nearest;
pub use node::Node;
pub use script::Script;
pub use script::ScriptExecutor;
