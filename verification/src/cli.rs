use vstd::prelude::*;
use crate::text::trimmed;

verus! {

/// The daemon's command-line commands.
#[derive(Clone, Debug)]
pub enum Commands {
    /// Initialize a config directory with an example program.
    Init { config: Option<String> },
    /// Install as a service.
    Install,
    /// Uninstall as a service.
    Uninstall,
    /// Entry point used by the Windows Service Control Manager.
    Service { service_name: String },
    /// Start the supervisor daemon.
    Daemon { config: Option<String> },
    /// Status of processes.
    Status,
    /// Start a process.
    Start { target: String },
    /// Stop a process.
    Stop { target: String },
}

/// The parsed command line.
#[derive(Clone, Debug)]
pub struct Cli {
    pub command: Commands,
}

/// The configuration directory a command names with `-c`, if any: only
/// `init` and `daemon` take one.
pub fn requested_config(cmd: &Commands) -> (r: Option<&str>)
    ensures
        match *cmd {
            Commands::Init { config } | Commands::Daemon { config } => match config {
                Some(c) => r matches Some(s) && s@ == c@,
                None => r is None,
            },
            _ => r is None,
        },
{
    match cmd {
        Commands::Init { config } | Commands::Daemon { config } => match config {
            Some(c) => Some(c.as_str()),
            None => None,
        },
        _ => None,
    }
}

/// The base configuration that `init` writes when there is none.
pub open spec fn base_config_text() -> Seq<char> {
    "socket_file = \"supervisord\"\n\nlog.level = 3\nlog.size_mb = 5\nlog.style = \"Default\"\nlog.dir = \"./logs\"\nlog.console = true\nlog.filters = []\n\nweb.port = 18099\nweb.listen_addr = \"127.0.0.1\"\n"@
}

/// See `base_config_text`.
pub fn base_config_template() -> (s: String)
    ensures
        s@ == base_config_text(),
{
    crate::text::owned(
        "socket_file = \"supervisord\"\n\nlog.level = 3\nlog.size_mb = 5\nlog.style = \"Default\"\nlog.dir = \"./logs\"\nlog.console = true\nlog.filters = []\n\nweb.port = 18099\nweb.listen_addr = \"127.0.0.1\"\n",
    )
}

/// The example program that `init` writes, before trimming.
pub open spec fn demo_program_text() -> Seq<char> {
    "name = \"demo\"\ncommand = \"echo 'Replace this with your process !'\"\ndirectory = \".\"\nautostart = true\nautorestart = true\nstdout_logfile = \"demo.log\"\nstderr_logfile = \"demo.err\"\n"@
}

/// The example program file `app/demo.toml` that `init` writes: the
/// example, trimmed.
pub fn demo_program_config() -> (s: String)
    ensures
        s@ == trimmed(demo_program_text()),
{
    crate::text::trim(
        "name = \"demo\"\ncommand = \"echo 'Replace this with your process !'\"\ndirectory = \".\"\nautostart = true\nautorestart = true\nstdout_logfile = \"demo.log\"\nstderr_logfile = \"demo.err\"\n",
    )
}

} // verus!
