//! What the tool prints, read back.
//!
//! Each function here takes the text of a listing and says what stands in
//! it. None of them knows where the text came from.

use vstd::prelude::*;
use crate::error::{IPTError, IPTResult};
use crate::text::{
    chars_of,
    contains_chars,
    contains_text,
    occurs_at,
    remove_char,
    same_chars,
    split,
    split_on,
    string_of,
    trim,
    trim_chars,
    without,
};

verus! {

/// What is said where a listing names no policy for the chain.
pub const NO_POLICY: &'static str = "could not find the default policy for table and chain";

/// The lines of `text`, after the white space around it is cut off.
pub open spec fn lines_of(text: Seq<char>) -> Seq<Seq<char>> {
    split_on(trim(text), '\n')
}

/// The fields of a line: what stands between its spaces.
pub open spec fn fields_of(line: Seq<char>) -> Seq<Seq<char>> {
    split_on(line, ' ')
}

fn cut_lines(text: &str) -> (lines: Vec<Vec<char>>)
    ensures
        lines.deep_view() == lines_of(text@),
{
    let all = chars_of(text);
    let body = trim_chars(&all);
    split(&body, '\n')
}

/// Splits a listing into its lines.
pub fn lines(text: &str) -> (list: Vec<String>)
    ensures
        list.deep_view() == lines_of(text@),
{
    let cut = cut_lines(text);
    let mut list: Vec<String> = Vec::new();
    let mut i: usize = 0;
    while i < cut.len()
        invariant
            i <= cut.len(),
            list.deep_view() == cut.deep_view().take(i as int),
        decreases cut.len() - i,
    {
        let ghost before = list.deep_view();
        list.push(string_of(&cut[i]));
        proof {
            assert(list.deep_view() =~~= before.push(cut@[i as int]@));
            assert(cut.deep_view().take(i + 1) =~~= cut.deep_view().take(i as int).push(
                cut@[i as int]@,
            ));
        }
        i += 1;
    }
    assert(cut.deep_view().take(i as int) == cut.deep_view());
    list
}

/// Whether a line of a rule dump declares a chain: it has a second field,
/// and its first is `-P` (a built-in chain with its policy) or `-N` (a chain
/// that somebody made).
pub open spec fn declares_chain(line: Seq<char>) -> bool {
    let fields = fields_of(line);
    fields.len() > 1 && (fields[0] == "-P"@ || fields[0] == "-N"@)
}

/// The test [`declares_chain`] as a value.
pub open spec fn declaring() -> spec_fn(Seq<char>) -> bool {
    |line: Seq<char>| declares_chain(line)
}

/// The name of the chain that a declaring line declares.
pub open spec fn declared_name() -> spec_fn(Seq<char>) -> Seq<char> {
    |line: Seq<char>| fields_of(line)[1]
}

/// The chains that a rule dump declares, in the order of their lines.
pub open spec fn chain_names_of(text: Seq<char>) -> Seq<Seq<char>> {
    lines_of(text).filter(declaring()).map_values(declared_name())
}

/// Collects the names of the chains that a rule dump declares.
pub fn chain_names(text: &str) -> (names: Vec<String>)
    ensures
        names.deep_view() == chain_names_of(text@),
{
    let cut = cut_lines(text);
    let policy = chars_of("-P");
    let new = chars_of("-N");
    let mut names: Vec<String> = Vec::new();
    let mut i: usize = 0;
    proof {
        reveal(Seq::filter);
        assert(cut.deep_view().take(0) =~= Seq::<Seq<char>>::empty());
        assert(names.deep_view() =~~= cut.deep_view().take(0).filter(declaring()).map_values(
            declared_name(),
        ));
    }
    while i < cut.len()
        invariant
            i <= cut.len(),
            policy@ == "-P"@,
            new@ == "-N"@,
            names.deep_view() == cut.deep_view().take(i as int).filter(declaring()).map_values(
                declared_name(),
            ),
        decreases cut.len() - i,
    {
        let fields = split(&cut[i], ' ');
        let ghost before = names.deep_view();
        let ghost seen = cut.deep_view().take(i as int);
        let ghost line = cut@[i as int]@;
        proof {
            assert(cut.deep_view()[i as int] == line);
            assert(cut.deep_view().take(i + 1) == seen.push(line));
            seen.lemma_filter_push(line, declaring());
            assert(fields.deep_view() == fields_of(line));
            assert(fields.len() > 0 ==> fields.deep_view()[0] == fields@[0]@);
            assert(fields.len() > 1 ==> fields.deep_view()[1] == fields@[1]@);
        }
        if fields.len() > 1 && (same_chars(&fields[0], &policy) || same_chars(&fields[0], &new)) {
            names.push(string_of(&fields[1]));
            proof {
                assert(declares_chain(line));
                assert(names.deep_view() =~~= before.push(fields@[1]@));
                assert(seen.push(line).filter(declaring()).map_values(declared_name())
                    =~~= seen.filter(declaring()).map_values(declared_name()).push(
                    fields_of(line)[1],
                ));
            }
        } else {
            assert(!declares_chain(line));
        }
        i += 1;
    }
    assert(cut.deep_view().take(i as int) == cut.deep_view());
    names
}

/// Whether a line of a chain listing is the header of `chain`: it has a
/// second field, its first is `Chain` and its second is the chain's name.
pub open spec fn heads_chain(line: Seq<char>, chain: Seq<char>) -> bool {
    let fields = fields_of(line);
    fields.len() > 1 && fields[0] == "Chain"@ && fields[1] == chain
}

/// The first of `lines` that is the header of `chain`.
pub open spec fn first_header(lines: Seq<Seq<char>>, chain: Seq<char>) -> Option<Seq<char>>
    decreases lines.len(),
{
    if lines.len() == 0 {
        None
    } else if heads_chain(lines.first(), chain) {
        Some(lines.first())
    } else {
        first_header(lines.drop_first(), chain)
    }
}

/// The policy that a header names: its fourth field, without any closing
/// bracket. A header of fewer fields names none.
pub open spec fn policy_named(header: Seq<char>) -> Option<Seq<char>> {
    let fields = fields_of(header);
    if fields.len() > 3 {
        Some(without(fields[3], ')'))
    } else {
        None
    }
}

/// The policy of `chain` as a chain listing states it: what the first header
/// of the chain names.
pub open spec fn policy_of(text: Seq<char>, chain: Seq<char>) -> Option<Seq<char>> {
    match first_header(lines_of(text), chain) {
        Some(header) => policy_named(header),
        None => None,
    }
}

/// Finds the policy of `chain` in a chain listing.
pub fn policy_in(text: &str, chain: &str) -> (policy: IPTResult<String>)
    ensures
        match policy_of(text@, chain@) {
            Some(name) => policy matches Ok(found) && found@ == name,
            None => policy == Err::<String, IPTError>(IPTError::Other(NO_POLICY)),
        },
{
    let cut = cut_lines(text);
    let word = chars_of("Chain");
    let name = chars_of(chain);
    let mut i: usize = 0;
    assert(cut.deep_view().skip(0) == cut.deep_view());
    while i < cut.len()
        invariant
            i <= cut.len(),
            word@ == "Chain"@,
            name@ == chain@,
            cut.deep_view() == lines_of(text@),
            first_header(lines_of(text@), chain@) == first_header(
                cut.deep_view().skip(i as int),
                chain@,
            ),
        decreases cut.len() - i,
    {
        let fields = split(&cut[i], ' ');
        proof {
            let rest = cut.deep_view().skip(i as int);
            assert(rest.first() == cut@[i as int]@);
            assert(rest.drop_first() == cut.deep_view().skip(i + 1));
            assert(fields.len() > 0 ==> fields.deep_view()[0] == fields@[0]@);
            assert(fields.len() > 1 ==> fields.deep_view()[1] == fields@[1]@);
            assert(fields.len() > 3 ==> fields.deep_view()[3] == fields@[3]@);
        }
        if fields.len() > 1 && same_chars(&fields[0], &word) && same_chars(&fields[1], &name) {
            if fields.len() > 3 {
                let bare = remove_char(&fields[3], ')');
                return Ok(string_of(&bare));
            } else {
                return Err(IPTError::Other(NO_POLICY));
            }
        }
        i += 1;
    }
    Err(IPTError::Other(NO_POLICY))
}

/// The line by which a rule dump shows that `rule` was appended to `chain`.
pub open spec fn rule_line(chain: Seq<char>, rule: Seq<char>) -> Seq<char> {
    seq!['-', 'A', ' '] + chain + seq![' '] + rule
}

/// Whether a rule dump shows `rule` in `chain`: the text of [`rule_line`]
/// stands somewhere in it.
pub open spec fn lists_rule(text: Seq<char>, chain: Seq<char>, rule: Seq<char>) -> bool {
    contains_text(text, rule_line(chain, rule))
}

/// Searches a rule dump for `rule` in `chain`.
pub fn rule_listed(text: &str, chain: &str, rule: &str) -> (listed: bool)
    ensures
        listed == lists_rule(text@, chain@, rule@),
{
    let mut needle: Vec<char> = Vec::new();
    needle.push('-');
    needle.push('A');
    needle.push(' ');
    let name = chars_of(chain);
    let body = chars_of(rule);
    let mut i: usize = 0;
    while i < name.len()
        invariant
            i <= name.len(),
            needle@ == seq!['-', 'A', ' '] + name@.take(i as int),
        decreases name.len() - i,
    {
        needle.push(name[i]);
        assert(name@.take(i + 1) == name@.take(i as int).push(name@[i as int]));
        i += 1;
    }
    assert(name@.take(i as int) == name@);
    needle.push(' ');
    let ghost head = needle@;
    assert(head == seq!['-', 'A', ' '] + name@ + seq![' ']);
    let mut k: usize = 0;
    while k < body.len()
        invariant
            k <= body.len(),
            needle@ == head + body@.take(k as int),
        decreases body.len() - k,
    {
        needle.push(body[k]);
        assert(body@.take(k + 1) == body@.take(k as int).push(body@[k as int]));
        k += 1;
    }
    assert(body@.take(k as int) == body@);
    let hay = chars_of(text);
    contains_chars(&hay, &needle)
}

/// A chain that a line of the dump declares is among the names.
pub proof fn lemma_declared_chain_is_named(text: Seq<char>, line: Seq<char>)
    requires
        lines_of(text).contains(line),
        declares_chain(line),
    ensures
        chain_names_of(text).contains(fields_of(line)[1]),
{
    let lines = lines_of(text);
    let kept = lines.filter(declaring());
    let i = choose|i: int| 0 <= i < lines.len() && lines[i] == line;
    lines.lemma_filter_contains(declaring(), i);
    let k = choose|k: int| 0 <= k < kept.len() && kept[k] == line;
    assert(kept.map_values(declared_name())[k] == fields_of(line)[1]);
}

/// Every name comes from a line of the dump that declares it.
pub proof fn lemma_named_chain_is_declared(text: Seq<char>, name: Seq<char>)
    requires
        chain_names_of(text).contains(name),
    ensures
        exists|line: Seq<char>|
            #![trigger declares_chain(line)]
            lines_of(text).contains(line) && declares_chain(line) && fields_of(line)[1] == name,
{
    let lines = lines_of(text);
    let kept = lines.filter(declaring());
    let names = kept.map_values(declared_name());
    let k = choose|k: int| 0 <= k < names.len() && names[k] == name;
    let line = kept[k];
    lines.lemma_filter_pred(declaring(), k);
    lines.lemma_filter_contains_rev(declaring(), line);
    assert(lines.contains(line) && declares_chain(line) && fields_of(line)[1] == name);
}

/// A dump in which the line of a rule stands shows the rule.
pub proof fn lemma_dumped_rule_is_listed(
    before: Seq<char>,
    chain: Seq<char>,
    rule: Seq<char>,
    after: Seq<char>,
)
    ensures
        lists_rule(before + rule_line(chain, rule) + after, chain, rule),
{
    let line = rule_line(chain, rule);
    let text = before + line + after;
    assert(text.subrange(before.len() as int, (before.len() + line.len()) as int) == line);
    assert(occurs_at(text, line, before.len() as int));
}

} // verus!
