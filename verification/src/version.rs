//! What a version of the tool can do.
//!
//! The tool prints its version as `v<major>.<minor>.<patch>`. From 1.4.11 on
//! it can check for a rule by itself, from 1.4.20 on it can wait for its own
//! lock. Output in which no such version is found is read as a version whose
//! parts are all empty, and an empty part is no number.

use vstd::prelude::*;
use crate::error::{ErrorKind, IPTError, IPTResult, by_kind};
use crate::text::{parse_i32, parse_i32_spec};
use crate::IPTables;

verus! {

/// The regular expression that finds the version in the tool's output.
pub const VERSION_PATTERN: &'static str = r"v(\d+)\.(\d+)\.(\d+)";

/// The name of the tool for the chosen protocol.
pub open spec fn command_name_spec(is_ipv6: bool) -> &'static str {
    if is_ipv6 {
        "ip6tables"
    } else {
        "iptables"
    }
}

/// The name of the tool for the chosen protocol.
#[verifier::when_used_as_spec(command_name_spec)]
pub fn command_name(is_ipv6: bool) -> (cmd: &'static str)
    ensures
        cmd == command_name_spec(is_ipv6),
{
    if is_ipv6 {
        "ip6tables"
    } else {
        "iptables"
    }
}

/// Whether `major.minor.patch` comes after `1.4.floor`.
pub open spec fn newer_than(major: int, minor: int, patch: int, floor: int) -> bool {
    major > 1 || (major == 1 && minor > 4) || (major == 1 && minor == 4 && patch > floor)
}

/// Whether the version can check for a rule by itself: it comes after 1.4.10.
pub open spec fn supports_check(major: int, minor: int, patch: int) -> bool {
    newer_than(major, minor, patch, 10)
}

/// Whether the version can wait for its own lock: it comes after 1.4.19.
pub open spec fn supports_wait(major: int, minor: int, patch: int) -> bool {
    newer_than(major, minor, patch, 19)
}

/// The handle for a tool of the given version.
pub open spec fn handle_for(is_ipv6: bool, version: (i32, i32, i32)) -> IPTables {
    IPTables {
        cmd: command_name_spec(is_ipv6),
        has_check: supports_check(version.0 as int, version.1 as int, version.2 as int),
        has_wait: supports_wait(version.0 as int, version.1 as int, version.2 as int),
    }
}

/// The text of capture group `i`; empty where there is no such group or it
/// took no part in the match.
pub open spec fn group_text(groups: Seq<Option<Seq<char>>>, i: int) -> Seq<char> {
    if 0 <= i < groups.len() {
        match groups[i] {
            Some(text) => text,
            None => Seq::empty(),
        }
    } else {
        Seq::empty()
    }
}

/// The number in capture group `i`; text that is no `i32` is a parse
/// failure.
pub open spec fn version_field(groups: Seq<Option<Seq<char>>>, i: int) -> Result<i32, ErrorKind> {
    match parse_i32_spec(group_text(groups, i)) {
        Some(n) => Ok(n),
        None => Err(ErrorKind::Parse),
    }
}

/// The version in the capture groups of [`VERSION_PATTERN`]: major, minor
/// and patch are read in this order, and the first that fails decides.
pub open spec fn version_of(groups: Seq<Option<Seq<char>>>) -> Result<(i32, i32, i32), ErrorKind> {
    match version_field(groups, 1) {
        Err(kind) => Err(kind),
        Ok(major) => match version_field(groups, 2) {
            Err(kind) => Err(kind),
            Ok(minor) => match version_field(groups, 3) {
                Err(kind) => Err(kind),
                Ok(patch) => Ok((major, minor, patch)),
            },
        },
    }
}

/// The groups that a search of the tool's output found; none at all where
/// nothing matched.
pub open spec fn groups_found(hit: Option<Seq<Option<Seq<char>>>>) -> Seq<Option<Seq<char>>> {
    match hit {
        Some(groups) => groups,
        None => Seq::empty(),
    }
}

/// The handle that a search of the tool's output for its version leads to.
pub open spec fn detected(is_ipv6: bool, found: Option<Option<Seq<Option<Seq<char>>>>>) -> Result<
    IPTables,
    ErrorKind,
> {
    match found {
        None => Err(ErrorKind::Regex),
        Some(hit) => match version_of(groups_found(hit)) {
            Err(kind) => Err(kind),
            Ok(version) => Ok(handle_for(is_ipv6, version)),
        },
    }
}

/// Output in which no version is found gives no handle: it is a parse
/// failure. So is a version of which a part is missing.
pub proof fn lemma_no_version_is_a_parse_failure(is_ipv6: bool, groups: Seq<Option<Seq<char>>>)
    ensures
        detected(is_ipv6, Some(None)) == Err::<IPTables, ErrorKind>(ErrorKind::Parse),
        (exists|i: int| 1 <= i <= 3 && group_text(groups, i).len() == 0) ==> detected(
            is_ipv6,
            Some(Some(groups)),
        ) == Err::<IPTables, ErrorKind>(ErrorKind::Parse),
{
}

fn read_field(groups: &Vec<Option<String>>, i: usize) -> (field: IPTResult<i32>)
    ensures
        by_kind(field) == version_field(groups.deep_view(), i as int),
{
    proof {
        reveal_strlit("");
        assert(""@ == Seq::<char>::empty());
    }
    let parsed = if i < groups.len() {
        match &groups[i] {
            Some(text) => parse_i32(text.as_str()),
            None => parse_i32(""),
        }
    } else {
        parse_i32("")
    };
    match parsed {
        Ok(n) => Ok(n),
        Err(e) => Err(IPTError::Parse(e)),
    }
}

/// Reads major, minor and patch from the capture groups of
/// [`VERSION_PATTERN`].
pub fn read_version(groups: &Vec<Option<String>>) -> (version: IPTResult<(i32, i32, i32)>)
    ensures
        by_kind(version) == version_of(groups.deep_view()),
{
    let major = read_field(groups, 1)?;
    let minor = read_field(groups, 2)?;
    let patch = read_field(groups, 3)?;
    Ok((major, minor, patch))
}

impl IPTables {
    /// The handle for a tool of the given version.
    pub fn with_version(is_ipv6: bool, major: i32, minor: i32, patch: i32) -> (handle: IPTables)
        ensures
            handle == handle_for(is_ipv6, (major, minor, patch)),
    {
        IPTables {
            cmd: command_name(is_ipv6),
            has_check: major > 1 || (major == 1 && minor > 4) || (major == 1 && minor == 4 && patch
                > 10),
            has_wait: major > 1 || (major == 1 && minor > 4) || (major == 1 && minor == 4 && patch
                > 19),
        }
    }
}

} // verus!
