//! Discovery of the GitHub OAuth token used for Copilot access.
//!
//! The token sources are probed in a fixed order: the `GH_COPILOT_TOKEN`
//! environment variable, the `hosts.json` and `apps.json` Copilot config
//! files, and the `gh auth token` command. Everything that touches the
//! environment, the file system or a process is left to the caller; this
//! crate decides what to probe, in which order, and what each answer means.
pub mod cli;
pub mod config;
pub mod lookup;
pub mod validate;

pub use lookup::{
    first_token, lookup_plan, next_step, token_from_env, Outcome, Probe, Step, APPS_FILE,
    CONFIG_HOME_ENV_VAR, HOSTS_FILE, TOKEN_ENV_VAR,
};
pub use config::{copilot_config_dirs, hosts_outcome, HostEntry, Platform, CONFIG_DIR_NAME, GITHUB_HOST};
pub use cli::{cli_outcome, cli_trimmed_outcome, GH_ARGS, GH_PROGRAM};
pub use validate::{bearer_header, status_is_success, TOKEN_ENDPOINT, USER_AGENT};
