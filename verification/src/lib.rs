//! Plans and interprets invocations of the `iptables` command-line tool.
//!
//! Nothing here starts a process or opens a file. A handle turns each request
//! into the argument lists that the tool has to be run with, and turns what
//! the tool printed and how it exited into the answer.

pub mod chains;
pub mod error;
pub mod handle;
pub mod invoke;
pub mod listing;
pub mod model;
pub mod operation;
pub mod pattern;
pub mod text;
pub mod tokens;
pub mod version;

use vstd::prelude::*;
use crate::error::{IPTError, IPTResult, by_kind};
use crate::pattern::{first_captures, regex_captures};
use crate::text::{decode_lossy, lossy_text};
use crate::version::{VERSION_PATTERN, detected, groups_found, read_version};

verus! {

/// A binding to one variant of the tool, with what its version can do.
#[derive(Debug, Clone, Copy, PartialEq, Eq)]
pub struct IPTables {
    /// The name of the tool: `iptables` or `ip6tables`.
    pub cmd: &'static str,
    /// Whether the tool can check for a rule by itself (`-C`).
    pub has_check: bool,
    /// Whether the tool can wait for its own lock (`--wait`).
    pub has_wait: bool,
}

/// Makes the handle for the tool that printed `version_output` when asked
/// for its version. Output that holds no version is a parse failure.
pub fn new(is_ipv6: bool, version_output: &[u8]) -> (handle: IPTResult<IPTables>)
    ensures
        by_kind(handle) == detected(
            is_ipv6,
            regex_captures(VERSION_PATTERN@, lossy_text(version_output@)),
        ),
{
    let text = decode_lossy(version_output);
    let groups = match first_captures(VERSION_PATTERN, text.as_str()) {
        Ok(Some(groups)) => groups,
        Ok(None) => Vec::new(),
        Err(e) => {
            return Err(IPTError::Regex(e));
        },
    };
    assert(groups.deep_view() =~= groups_found(
        regex_captures(VERSION_PATTERN@, lossy_text(version_output@)).unwrap(),
    ));
    let (major, minor, patch) = read_version(&groups)?;
    Ok(IPTables::with_version(is_ipv6, major, minor, patch))
}

} // verus!

