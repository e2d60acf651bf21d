//! The `complete` command: shell completions.

use vstd::prelude::*;
use vstd::string::StringExecFns;

verus! {

/// A shell that completions can be generated for.
#[derive(Debug, Clone, Copy, PartialEq, Eq, Structural)]
pub enum Shell {
    Bash,
    Elvish,
    Fish,
    PowerShell,
    Zsh,
    Nushell,
    Clink,
    Fig,
}

/// What `complete` is asked to do.
pub struct CompleteArgs {
    /// The shell to generate completions for.
    pub shell: Shell,
}

impl Shell {
    /// What a shell puts before the tool's name in the name of its completion file.
    pub open spec fn spec_prefix(self) -> Seq<char> {
        match self {
            Shell::PowerShell | Shell::Zsh => "_"@,
            _ => ""@,
        }
    }

    /// What a shell puts after the tool's name in the name of its completion file.
    pub open spec fn spec_suffix(self) -> Seq<char> {
        match self {
            Shell::Bash => ".bash"@,
            Shell::Elvish => ".elv"@,
            Shell::Fish => ".fish"@,
            Shell::PowerShell => ".ps1"@,
            Shell::Zsh => ""@,
            Shell::Nushell => ".nu"@,
            Shell::Clink => ".lua"@,
            Shell::Fig => ".ts"@,
        }
    }

    /// The name of the completion file for the tool `name`.
    pub open spec fn spec_file_name(self, name: Seq<char>) -> Seq<char> {
        self.spec_prefix() + name + self.spec_suffix()
    }

    /// The name of the completion file for the tool `name`.
    pub fn file_name(&self, name: &str) -> (r: String)
        ensures
            r@ == self.spec_file_name(name@),
    {
        let prefix = match self {
            Shell::PowerShell | Shell::Zsh => "_",
            _ => "",
        };
        let suffix = match self {
            Shell::Bash => ".bash",
            Shell::Elvish => ".elv",
            Shell::Fish => ".fish",
            Shell::PowerShell => ".ps1",
            Shell::Zsh => "",
            Shell::Nushell => ".nu",
            Shell::Clink => ".lua",
            Shell::Fig => ".ts",
        };
        let mut r = prefix.to_owned();
        r.append(name);
        r.append(suffix);
        r
    }
}

} // verus!
