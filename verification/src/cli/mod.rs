//! The command line of the `boundbook` tool, as data: what each command is
//! asked to do, and the decisions that each command takes before it touches
//! a file.

pub mod complete;
pub mod create;
pub mod extract;
pub mod from_cbz;
pub mod help;
pub mod info;
pub mod interpolate;
pub mod read;
pub mod state;
pub mod verify;

use vstd::prelude::*;
use crate::cli::complete::CompleteArgs;
use crate::cli::create::CreateArgs;
use crate::cli::extract::ExtractArgs;
use crate::cli::from_cbz::FromCbzArgs;
use crate::cli::info::InfoArgs;
use crate::cli::read::ReadArgs;
use crate::cli::verify::VerifyArgs;

verus! {

/// A parsed command line.
pub struct Cli {
    /// The command to run.
    pub command: Commands,
}

/// The commands of the tool.
pub enum Commands {
    /// Print help, for the tool or for one command.
    Help {
        /// The command to get help for.
        subcommand: Option<String>,
        /// Print the help as Markdown.
        gen_markdown: bool,
    },
    /// Create a file from images.
    Create(CreateArgs),
    /// Display what a file holds.
    Info(InfoArgs),
    /// Verify the integrity of a file.
    Verify(VerifyArgs),
    /// Extract pages from a file.
    Extract(ExtractArgs),
    /// Convert comic book archives.
    FromCbz(FromCbzArgs),
    /// Read a file in the terminal.
    Read(ReadArgs),
    /// Generate shell completions.
    Complete(CompleteArgs),
}

impl Commands {
    /// The name under which the command is given on the command line.
    pub open spec fn spec_name(&self) -> Seq<char> {
        match self {
            Commands::Help { .. } => "help"@,
            Commands::Create(_) => "create"@,
            Commands::Info(_) => "info"@,
            Commands::Verify(_) => "verify"@,
            Commands::Extract(_) => "extract"@,
            Commands::FromCbz(_) => "from-cbz"@,
            Commands::Read(_) => "read"@,
            Commands::Complete(_) => "complete"@,
        }
    }

    /// The name under which the command is given on the command line.
    pub fn name(&self) -> (r: &'static str)
        ensures
            r@ == self.spec_name(),
    {
        match self {
            Commands::Help { .. } => "help",
            Commands::Create(_) => "create",
            Commands::Info(_) => "info",
            Commands::Verify(_) => "verify",
            Commands::Extract(_) => "extract",
            Commands::FromCbz(_) => "from-cbz",
            Commands::Read(_) => "read",
            Commands::Complete(_) => "complete",
        }
    }
}

} // verus!
