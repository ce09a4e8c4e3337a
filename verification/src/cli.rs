//! The commands the tool can be asked to run.
use vstd::prelude::*;

verus! {

/// One invocation's command.
pub enum Commands {
    Login,
    Extend { auto: bool },
    Status,
    Enable,
    Disable,
    Clear,
    Webhook { url: String },
    Update { auto: bool },
    Refresh,
}

/// A parsed invocation.
pub struct Cli {
    pub command: Commands,
}

/// Whether a command works on the record store and so must open it first:
/// all of them but the timer refresh.
pub fn needs_store(command: &Commands) -> (r: bool)
    ensures
        r == !(command matches Commands::Refresh),
{
    match command {
        Commands::Refresh => false,
        _ => true,
    }
}

} // verus!
