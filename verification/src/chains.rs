//! The chains that every table has from the start.
//!
//! Which chains are built in depends on the table alone; the tool is never
//! asked.

use vstd::prelude::*;
use crate::error::{IPTError, IPTResult};
use crate::text::same_text;

verus! {

/// What is said of a table that is none of the five.
pub const UNSUPPORTED_TABLE: &'static str = "given table is not supported by iptables";

/// The built-in chains of `table`, or `None` where there is no such table.
pub open spec fn builtin_chains(table: Seq<char>) -> Option<Seq<Seq<char>>> {
    if table == "filter"@ {
        Some(seq!["INPUT"@, "FORWARD"@, "OUTPUT"@])
    } else if table == "mangle"@ {
        Some(seq!["PREROUTING"@, "OUTPUT"@, "INPUT"@, "FORWARD"@, "POSTROUTING"@])
    } else if table == "nat"@ {
        Some(seq!["PREROUTING"@, "POSTROUTING"@, "OUTPUT"@])
    } else if table == "raw"@ {
        Some(seq!["PREROUTING"@, "OUTPUT"@])
    } else if table == "security"@ {
        Some(seq!["INPUT"@, "OUTPUT"@, "FORWARD"@])
    } else {
        None
    }
}

/// Whether `chain` is a built-in chain of `table`.
pub open spec fn is_builtin(table: Seq<char>, chain: Seq<char>) -> bool {
    match builtin_chains(table) {
        Some(names) => names.contains(chain),
        None => false,
    }
}

/// The built-in chains of `table`; an unknown table is refused.
pub fn get_builtin_chains(table: &str) -> (chains: IPTResult<Vec<&'static str>>)
    ensures
        match builtin_chains(table@) {
            Some(names) => chains matches Ok(list) && list.deep_view() == names,
            None => chains == Err::<Vec<&'static str>, IPTError>(
                IPTError::Other(UNSUPPORTED_TABLE),
            ),
        },
{
    let mut list: Vec<&'static str> = Vec::new();
    if same_text(table, "filter") {
        list.push("INPUT");
        list.push("FORWARD");
        list.push("OUTPUT");
    } else if same_text(table, "mangle") {
        list.push("PREROUTING");
        list.push("OUTPUT");
        list.push("INPUT");
        list.push("FORWARD");
        list.push("POSTROUTING");
    } else if same_text(table, "nat") {
        list.push("PREROUTING");
        list.push("POSTROUTING");
        list.push("OUTPUT");
    } else if same_text(table, "raw") {
        list.push("PREROUTING");
        list.push("OUTPUT");
    } else if same_text(table, "security") {
        list.push("INPUT");
        list.push("OUTPUT");
        list.push("FORWARD");
    } else {
        return Err(IPTError::Other(UNSUPPORTED_TABLE));
    }
    assert(list.deep_view() =~~= builtin_chains(table@).unwrap());
    Ok(list)
}

/// Whether `chain` is among `names`.
pub fn names_contain(names: &Vec<&'static str>, chain: &str) -> (found: bool)
    ensures
        found == names.deep_view().contains(chain@),
{
    let mut i: usize = 0;
    while i < names.len()
        invariant
            i <= names.len(),
            forall|k: int| 0 <= k < i ==> names.deep_view()[k] != chain@,
        decreases names.len() - i,
    {
        if same_text(names[i], chain) {
            assert(names.deep_view()[i as int] == chain@);
            return true;
        }
        i += 1;
    }
    false
}

} // verus!
