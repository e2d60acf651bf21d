//! The `verify` command: what is checked, and what is said about it.

use vstd::prelude::*;
use vstd::string::StringExecFns;
use crate::error::{BbfError, Failure};
use crate::text::{decimal, decimal_string, string_views};

verus! {

/// What `verify` is asked to do.
pub struct VerifyArgs {
    /// Path of the file to verify.
    pub input: String,
    /// Verify the index hash only.
    pub index_only: bool,
    /// Verify one asset, by index.
    pub asset: Option<usize>,
}

/// What `verify` checks.
#[derive(Debug, Clone, Copy, PartialEq, Eq, Structural)]
pub enum VerifyMode {
    /// One asset.
    Asset(usize),
    /// The index hash only.
    IndexOnly,
    /// The index hash and every asset.
    Full,
}

impl VerifyArgs {
    /// What is checked: an asset index wins over `index_only`.
    pub open spec fn spec_mode(&self) -> VerifyMode {
        match self.asset {
            Some(i) => VerifyMode::Asset(i),
            None => if self.index_only {
                VerifyMode::IndexOnly
            } else {
                VerifyMode::Full
            },
        }
    }

    /// What is checked: an asset index wins over `index_only`.
    pub fn mode(&self) -> (r: VerifyMode)
        ensures
            r == self.spec_mode(),
    {
        match self.asset {
            Some(i) => VerifyMode::Asset(i),
            None => if self.index_only {
                VerifyMode::IndexOnly
            } else {
                VerifyMode::Full
            },
        }
    }
}

impl VerifyMode {
    /// The line that says what is about to be checked.
    pub open spec fn spec_announcement(self) -> Seq<char> {
        match self {
            VerifyMode::Asset(i) => "Verifying asset "@ + decimal(i as nat) + "..."@,
            VerifyMode::IndexOnly => "Verifying index hash..."@,
            VerifyMode::Full => "Verifying complete file integrity (parallel)..."@,
        }
    }

    /// The line that says what is about to be checked.
    pub fn announcement(self) -> (r: String)
        ensures
            r@ == self.spec_announcement(),
    {
        match self {
            VerifyMode::Asset(i) => {
                let mut r = "Verifying asset ".to_owned();
                r.append(decimal_string(i as u64).as_str());
                r.append("...");
                r
            },
            VerifyMode::IndexOnly => "Verifying index hash...".to_owned(),
            VerifyMode::Full => "Verifying complete file integrity (parallel)...".to_owned(),
        }
    }

    /// What is said after the check: the lines of a check that passed, or
    /// the error of one that did not. `asset_count` is the number of assets
    /// of the book.
    pub open spec fn spec_verdict(self, valid: bool, asset_count: u64) -> Result<
        Seq<Seq<char>>,
        Failure,
    > {
        match self {
            VerifyMode::Asset(i) => if valid {
                Ok(seq!["✓ Asset "@ + decimal(i as nat) + " integrity OK"@])
            } else {
                Err(Failure::Other("✗ Asset "@ + decimal(i as nat) + " is corrupted"@))
            },
            VerifyMode::IndexOnly => if valid {
                Ok(seq!["✓ Index integrity OK"@])
            } else {
                Err(Failure::Other("✗ Index hash mismatch - file may be corrupted"@))
            },
            VerifyMode::Full => if valid {
                Ok(
                    seq![
                        "✓ All integrity checks passed"@,
                        "  • Index hash: OK"@,
                        "  • "@ + decimal(asset_count as nat) + " assets verified: OK"@,
                    ],
                )
            } else {
                Err(Failure::Other("✗ Integrity check failed - file is corrupted"@))
            },
        }
    }

    /// What is said after the check.
    pub fn verdict(self, valid: bool, asset_count: u64) -> (r: Result<Vec<String>, BbfError>)
        ensures
            r matches Ok(lines) ==> self.spec_verdict(valid, asset_count) == Ok::<
                Seq<Seq<char>>,
                Failure,
            >(string_views(lines@)),
            r matches Err(e) ==> self.spec_verdict(valid, asset_count) == Err::<
                Seq<Seq<char>>,
                Failure,
            >(e@),
    {
        let mut lines: Vec<String> = Vec::new();
        match self {
            VerifyMode::Asset(i) => {
                if valid {
                    let mut line = "✓ Asset ".to_owned();
                    line.append(decimal_string(i as u64).as_str());
                    line.append(" integrity OK");
                    lines.push(line);
                    assert(string_views(lines@) =~= seq![line@]);
                    Ok(lines)
                } else {
                    let mut message = "✗ Asset ".to_owned();
                    message.append(decimal_string(i as u64).as_str());
                    message.append(" is corrupted");
                    Err(BbfError::Other { message })
                }
            },
            VerifyMode::IndexOnly => {
                if valid {
                    lines.push("✓ Index integrity OK".to_owned());
                    assert(string_views(lines@) =~= seq!["✓ Index integrity OK"@]);
                    Ok(lines)
                } else {
                    Err(BbfError::other("✗ Index hash mismatch - file may be corrupted"))
                }
            },
            VerifyMode::Full => {
                if valid {
                    let mut last = "  • ".to_owned();
                    last.append(decimal_string(asset_count).as_str());
                    last.append(" assets verified: OK");
                    lines.push("✓ All integrity checks passed".to_owned());
                    lines.push("  • Index hash: OK".to_owned());
                    lines.push(last);
                    assert(string_views(lines@) =~= seq![
                        "✓ All integrity checks passed"@,
                        "  • Index hash: OK"@,
                        last@,
                    ]);
                    Ok(lines)
                } else {
                    Err(BbfError::other("✗ Integrity check failed - file is corrupted"))
                }
            },
        }
    }
}

} // verus!
