//! Rules as argument lists.
//!
//! A rule is free text. It is cut into arguments where it has spaces, but a
//! span between quotes stays in one piece and loses its quotes.

use vstd::prelude::*;
use crate::error::{ErrorKind, IPTError, IPTResult, deep_by_kind};
use crate::pattern::{find_all, regex_matches};
use crate::text::{chars_of, join, slice_chars, string_of};

verus! {

/// The regular expression whose matches are the raw tokens: what stands
/// between two double quotes, or between two single quotes, with the quotes;
/// or else a run without spaces.
pub const TOKEN_PATTERN: &'static str = r#""[^"]+"|'[^']+'|[^ ]+"#;

/// Whether `c` is a single or a double quote.
pub open spec fn is_quote(c: char) -> bool {
    c == '"' || c == '\''
}

/// Whether a raw match is a quoted span: it begins with a quote and ends
/// with the same quote.
pub open spec fn is_span(m: Seq<char>) -> bool {
    m.len() >= 2 && is_quote(m.first()) && m.last() == m.first()
}

/// The token that a raw match stands for: what is between the quotes of a
/// quoted span, and any other match as it is.
pub open spec fn bare(m: Seq<char>) -> Seq<char> {
    if is_span(m) {
        m.subrange(1, m.len() - 1)
    } else {
        m
    }
}

/// The step [`bare`] as a value.
pub open spec fn baring() -> spec_fn(Seq<char>) -> Seq<char> {
    |m: Seq<char>| bare(m)
}

/// The tokens that the raw matches stand for.
pub open spec fn unquoted(matches: Seq<Seq<char>>) -> Seq<Seq<char>> {
    matches.map_values(baring())
}

/// The tokens of `rule`, or `None` where the engine refuses
/// [`TOKEN_PATTERN`].
pub open spec fn tokens_of(rule: Seq<char>) -> Option<Seq<Seq<char>>> {
    match regex_matches(TOKEN_PATTERN@, rule) {
        Some(matches) => Some(unquoted(matches)),
        None => None,
    }
}

/// Takes the quotes off a quoted span and leaves any other match as it is.
pub fn unquote(raw: &Vec<char>) -> (token: Vec<char>)
    ensures
        token@ == bare(raw@),
{
    let n = raw.len();
    if n >= 2 && (raw[0] == '"' || raw[0] == '\'') && raw[n - 1] == raw[0] {
        slice_chars(raw, 1, n - 1)
    } else {
        assert(raw@.subrange(0, n as int) == raw@);
        slice_chars(raw, 0, n)
    }
}

/// Turns each raw match into the token it stands for.
pub fn strip_quotes(matches: &Vec<String>) -> (tokens: Vec<String>)
    ensures
        tokens.deep_view() == unquoted(matches.deep_view()),
{
    let mut tokens: Vec<String> = Vec::new();
    let mut i: usize = 0;
    while i < matches.len()
        invariant
            i <= matches.len(),
            tokens.deep_view() == unquoted(matches.deep_view().take(i as int)),
        decreases matches.len() - i,
    {
        let raw = chars_of(matches[i].as_str());
        let token = unquote(&raw);
        let ghost before = tokens.deep_view();
        tokens.push(string_of(&token));
        proof {
            let all = matches.deep_view();
            assert(all[i as int] == raw@);
            assert(tokens.deep_view() =~~= before.push(token@));
            assert(all.take(i + 1) == all.take(i as int).push(all[i as int]));
            assert(unquoted(all.take(i + 1)) =~~= unquoted(all.take(i as int)).push(token@));
        }
        i += 1;
    }
    assert(matches.deep_view().take(i as int) == matches.deep_view());
    tokens
}

/// Cuts `rule` into its tokens.
pub fn split_quoted(rule: &str) -> (tokens: IPTResult<Vec<String>>)
    ensures
        deep_by_kind(tokens) == match tokens_of(rule@) {
            Some(list) => Ok::<Seq<Seq<char>>, ErrorKind>(list),
            None => Err::<Seq<Seq<char>>, ErrorKind>(ErrorKind::Regex),
        },
{
    match find_all(TOKEN_PATTERN, rule) {
        Ok(matches) => Ok(strip_quotes(&matches)),
        Err(e) => Err(IPTError::Regex(e)),
    }
}

/// The test that every character but a quote passes.
pub open spec fn no_quote() -> spec_fn(char) -> bool {
    |c: char| !is_quote(c)
}

/// Whether `s` is free of quotes.
pub open spec fn quote_free(s: Seq<char>) -> bool {
    forall|i: int| 0 <= i < s.len() ==> !is_quote(#[trigger] s[i])
}

proof fn lemma_filter_keeps_quote_free(s: Seq<char>)
    requires
        quote_free(s),
    ensures
        s.filter(no_quote()) == s,
    decreases s.len(),
{
    reveal(Seq::filter);
    if s.len() > 0 {
        lemma_filter_keeps_quote_free(s.drop_last());
        assert(s.drop_last().push(s.last()) == s);
    }
}

/// The token of a raw match is the match with every quote taken out, where
/// the token itself has none.
pub proof fn lemma_bare_takes_all_quotes(m: Seq<char>)
    requires
        quote_free(bare(m)),
    ensures
        bare(m) == m.filter(no_quote()),
{
    lemma_filter_keeps_quote_free(bare(m));
    if is_span(m) {
        let open = seq![m.first()];
        let close = seq![m.last()];
        assert(m == open + bare(m) + close);
        Seq::filter_distributes_over_add(open + bare(m), close, no_quote());
        Seq::filter_distributes_over_add(open, bare(m), no_quote());
        assert(open.filter(no_quote()) == Seq::<char>::empty()) by {
            reveal_with_fuel(Seq::filter, 2);
        }
        assert(close.filter(no_quote()) == Seq::<char>::empty()) by {
            reveal_with_fuel(Seq::filter, 2);
        }
    }
}

/// Where no token holds a quote, the tokens joined by single spaces are the
/// raw matches joined by single spaces with every quote taken out:
/// tokenizing loses the quotes around the spans and nothing else.
pub proof fn lemma_tokens_rejoin(matches: Seq<Seq<char>>)
    requires
        forall|i: int|
            0 <= i < matches.len() ==> quote_free(bare(#[trigger] matches[i])),
    ensures
        unquoted(matches).len() == matches.len(),
        join(unquoted(matches), ' ') == join(matches, ' ').filter(no_quote()),
    decreases matches.len(),
{
    if matches.len() == 0 {
        reveal(Seq::filter);
    } else if matches.len() == 1 {
        lemma_bare_takes_all_quotes(matches[0]);
    } else {
        let init = matches.drop_last();
        let last = matches.last();
        lemma_tokens_rejoin(init);
        lemma_bare_takes_all_quotes(last);
        assert(unquoted(matches).drop_last() == unquoted(init));
        let head = join(init, ' ');
        Seq::filter_distributes_over_add(head.push(' '), last, no_quote());
        head.lemma_filter_push(' ', no_quote());
    }
}

/// A rule that is made of its raw matches with single spaces between them,
/// and whose tokens hold no quote, gives tokens that, joined by single
/// spaces, are the rule without its quotes.
pub proof fn lemma_rule_rejoins(rule: Seq<char>, matches: Seq<Seq<char>>)
    ensures
        ({
            &&& regex_matches(TOKEN_PATTERN@, rule) == Some(matches)
            &&& rule == join(matches, ' ')
            &&& forall|i: int|
                0 <= i < matches.len() ==> quote_free(bare(#[trigger] matches[i]))
        }) ==> {
            &&& tokens_of(rule) matches Some(tokens)
            &&& tokens.len() == matches.len()
            &&& join(tokens, ' ') == rule.filter(no_quote())
        },
{
    if forall|i: int|
        0 <= i < matches.len() ==> quote_free(bare(#[trigger] matches[i])) {
        lemma_tokens_rejoin(matches);
    }
}

} // verus!
