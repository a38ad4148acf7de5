//! Process configuration: the database URL, the migration switch, and the
//! command to run. Argument and environment reading live with the caller;
//! the defaulting rules live here.

use vstd::prelude::*;

verus! {

/// Process configuration.
#[derive(Debug)]
pub struct Config {
    pub database_url: String,
    pub run_migrations: bool,
    pub command: Option<Command>,
}

/// What the process should do: serve the web interface, or run one
/// collector's worker loop.
#[derive(Debug)]
pub enum Command {
    Serve { listen_addr: String },
    Collect { collector: String, poll_interval: u64 },
}

/// Mathematical image of a command.
#[verifier::ext_equal]
pub ghost enum CommandModel {
    Serve { listen_addr: Seq<char> },
    Collect { collector: Seq<char>, poll_interval: u64 },
}

impl View for Command {
    type V = CommandModel;

    open spec fn view(&self) -> CommandModel {
        match self {
            Command::Serve { listen_addr } => CommandModel::Serve { listen_addr: listen_addr@ },
            Command::Collect { collector, poll_interval } => CommandModel::Collect {
                collector: collector@,
                poll_interval: *poll_interval,
            },
        }
    }
}

impl Clone for Command {
    /// The copy has the same model.
    fn clone(&self) -> (r: Self)
        ensures
            r@ == self@,
    {
        match self {
            Command::Serve { listen_addr } => Command::Serve { listen_addr: listen_addr.clone() },
            Command::Collect { collector, poll_interval } => Command::Collect {
                collector: collector.clone(),
                poll_interval: *poll_interval,
            },
        }
    }
}

/// The command a configuration resolves to: the stated one, else serving
/// on the environment's listen address, else on the built-in default.
pub open spec fn spec_resolved_command(
    command: Option<Command>,
    env_listen_addr: Option<Seq<char>>,
) -> CommandModel {
    match command {
        Some(c) => c@,
        None => CommandModel::Serve {
            listen_addr: match env_listen_addr {
                Some(a) => a,
                None => "0.0.0.0:8080"@,
            },
        },
    }
}

impl Config {
    /// Resolves the command, defaulting to serving; the caller hands in
    /// whatever listen address its environment offers.
    pub fn resolved_command(&self, env_listen_addr: Option<String>) -> (r: Command)
        ensures
            r@ == spec_resolved_command(
                self.command,
                (match env_listen_addr {
                    Some(a) => Some(a@),
                    None => None,
                }),
            ),
    {
        match &self.command {
            Some(c) => c.clone(),
            None => Command::Serve {
                listen_addr: match env_listen_addr {
                    Some(a) => a,
                    None => "0.0.0.0:8080".to_owned(),
                },
            },
        }
    }
}

} // verus!
