//! A tool that keeps its word.
//!
//! What the tool does with an order is its own business. The laws of this
//! module say what the requests of a handle come to when the tool does what
//! its orders mean: it keeps, for each chain, the rules in the order in which
//! they came, and answers from what it keeps. They speak of a tool that can
//! check for a rule by itself; what any other tool prints for a rule, and so
//! what a search of its dump finds, is not modelled.

use vstd::prelude::*;
use crate::IPTables;
use crate::error::{ErrorKind, IPTError, IPTResult};
use crate::handle::{command, rule_command, rule_order};
use crate::invoke::Output;
use crate::listing::{
    chain_names_of,
    declares_chain,
    fields_of,
    lemma_declared_chain_is_named,
    lemma_named_chain_is_declared,
    lines_of,
};
use crate::operation::{
    OperationView,
    ReadingView,
    ReplyView,
    StageView,
    last_run,
    printed,
    single,
    step,
};
use crate::tokens::tokens_of;

verus! {

/// What the tool holds: for each chain that there is, named by its table and
/// its own name, its rules in order. A rule is a list of arguments.
pub struct Tables {
    pub chains: Map<(Seq<char>, Seq<char>), Seq<Seq<Seq<char>>>>,
}

impl Tables {
    /// Whether `table` has the chain.
    pub open spec fn has_chain(self, table: Seq<char>, chain: Seq<char>) -> bool {
        self.chains.dom().contains((table, chain))
    }

    /// The rules of a chain.
    pub open spec fn rules(self, table: Seq<char>, chain: Seq<char>) -> Seq<Seq<Seq<char>>> {
        self.chains[(table, chain)]
    }

    /// Whether the chain is there and holds `rule`.
    pub open spec fn has_rule(self, table: Seq<char>, chain: Seq<char>, rule: Seq<Seq<char>>)
        -> bool {
        self.has_chain(table, chain) && self.rules(table, chain).contains(rule)
    }

    /// These tables with the chain set to `rules`.
    pub open spec fn with_chain(
        self,
        table: Seq<char>,
        chain: Seq<char>,
        rules: Seq<Seq<Seq<char>>>,
    ) -> Tables {
        Tables { chains: self.chains.insert((table, chain), rules) }
    }

    /// These tables without the chain.
    pub open spec fn without_chain(self, table: Seq<char>, chain: Seq<char>) -> Tables {
        Tables { chains: self.chains.remove((table, chain)) }
    }
}

/// The orders that the model understands.
pub enum Order {
    /// `-N`: make a chain.
    NewChain { table: Seq<char>, chain: Seq<char> },
    /// `-X`: remove a chain.
    DeleteChain { table: Seq<char>, chain: Seq<char> },
    /// `-A`: put a rule at the end of a chain.
    Append { table: Seq<char>, chain: Seq<char>, rule: Seq<Seq<char>> },
    /// `-D`: take the first copy of a rule out of a chain.
    Delete { table: Seq<char>, chain: Seq<char>, rule: Seq<Seq<char>> },
    /// `-C`: say whether a chain holds a rule.
    Check { table: Seq<char>, chain: Seq<char>, rule: Seq<Seq<char>> },
    /// `-S`: dump a table.
    Dump { table: Seq<char> },
}

/// The order that a list of arguments gives, if the model understands it.
pub open spec fn order_of(args: Seq<Seq<char>>) -> Option<Order> {
    if args.len() < 3 || args[0] != "-t"@ {
        None
    } else if args.len() == 3 {
        if args[2] == "-S"@ {
            Some(Order::Dump { table: args[1] })
        } else {
            None
        }
    } else {
        let table = args[1];
        let flag = args[2];
        let chain = args[3];
        let rule = args.subrange(4, args.len() as int);
        if flag == "-N"@ && args.len() == 4 {
            Some(Order::NewChain { table, chain })
        } else if flag == "-X"@ && args.len() == 4 {
            Some(Order::DeleteChain { table, chain })
        } else if flag == "-A"@ {
            Some(Order::Append { table, chain, rule })
        } else if flag == "-D"@ {
            Some(Order::Delete { table, chain, rule })
        } else if flag == "-C"@ {
            Some(Order::Check { table, chain, rule })
        } else {
            None
        }
    }
}

/// `rules` without the first copy of `rule`.
pub open spec fn without_first(rules: Seq<Seq<Seq<char>>>, rule: Seq<Seq<char>>) -> Seq<
    Seq<Seq<char>>,
>
    decreases rules.len(),
{
    if rules.len() == 0 {
        rules
    } else if rules.first() == rule {
        rules.drop_first()
    } else {
        seq![rules.first()] + without_first(rules.drop_first(), rule)
    }
}

/// How many copies of `rule` there are among `rules`.
pub open spec fn copies(rules: Seq<Seq<Seq<char>>>, rule: Seq<Seq<char>>) -> nat
    decreases rules.len(),
{
    if rules.len() == 0 {
        0
    } else {
        copies(rules.drop_first(), rule) + if rules.first() == rule {
            1nat
        } else {
            0nat
        }
    }
}

proof fn lemma_copies(rules: Seq<Seq<Seq<char>>>, rule: Seq<Seq<char>>)
    ensures
        rules.contains(rule) <==> copies(rules, rule) > 0,
        copies(rules.push(rule), rule) == copies(rules, rule) + 1,
        rules.contains(rule) ==> copies(without_first(rules, rule), rule) == copies(rules, rule)
            - 1,
    decreases rules.len(),
{
    if rules.len() == 0 {
        assert(rules.push(rule).drop_first() == rules);
    } else {
        let rest = rules.drop_first();
        lemma_copies(rest, rule);
        assert(rules.push(rule).drop_first() == rest.push(rule));
        assert(rules.push(rule).first() == rules.first());
        if rules.contains(rule) {
            let i = choose|i: int| 0 <= i < rules.len() && rules[i] == rule;
            if i > 0 {
                assert(rest[i - 1] == rule);
            }
        }
        if rest.contains(rule) {
            let i = choose|i: int| 0 <= i < rest.len() && rest[i] == rule;
            assert(rules[i + 1] == rule);
        }
        if rules.first() == rule {
            assert(rules[0] == rule);
        } else {
            let cut = seq![rules.first()] + without_first(rest, rule);
            assert(cut.first() == rules.first());
            assert(cut.drop_first() == without_first(rest, rule));
        }
    }
}

/// Whether a dump of `table` shows the chains that the tool holds, and no
/// others: each chain has a line that declares it, and each declaring line
/// names a chain.
pub open spec fn shows_chains(tables: Tables, table: Seq<char>, text: Seq<char>) -> bool {
    forall|chain: Seq<char>|
        #![trigger tables.has_chain(table, chain)]
        tables.has_chain(table, chain) <==> exists|line: Seq<char>|
            #![trigger declares_chain(line)]
            lines_of(text).contains(line) && declares_chain(line) && fields_of(line)[1] == chain
}

/// Whether the run was refused with exit code 1, the tool's "there is no
/// such thing".
pub open spec fn refused(outcome: IPTResult<Output>) -> bool {
    outcome == Err::<Output, IPTError>(IPTError::BadExitStatus(1))
}

/// Whether a tool that holds `before` and is run with `args` may end with
/// `outcome`, holding `after`. Of an order that the model does not
/// understand nothing is said.
pub open spec fn obeys(
    before: Tables,
    args: Seq<Seq<char>>,
    after: Tables,
    outcome: IPTResult<Output>,
) -> bool {
    match order_of(args) {
        Some(Order::NewChain { table, chain }) => if before.has_chain(table, chain) {
            refused(outcome) && after == before
        } else {
            outcome is Ok && after == before.with_chain(table, chain, Seq::empty())
        },
        Some(Order::DeleteChain { table, chain }) => if before.has_chain(table, chain)
            && before.rules(table, chain).len() == 0 {
            outcome is Ok && after == before.without_chain(table, chain)
        } else {
            refused(outcome) && after == before
        },
        Some(Order::Append { table, chain, rule }) => if before.has_chain(table, chain) {
            outcome is Ok && after == before.with_chain(
                table,
                chain,
                before.rules(table, chain).push(rule),
            )
        } else {
            refused(outcome) && after == before
        },
        Some(Order::Delete { table, chain, rule }) => if before.has_rule(table, chain, rule) {
            outcome is Ok && after == before.with_chain(
                table,
                chain,
                without_first(before.rules(table, chain), rule),
            )
        } else {
            refused(outcome) && after == before
        },
        Some(Order::Check { table, chain, rule }) => after == before && if before.has_rule(
            table,
            chain,
            rule,
        ) {
            outcome is Ok
        } else {
            refused(outcome)
        },
        Some(Order::Dump { table }) => after == before && (outcome matches Ok(output)
            && shows_chains(before, table, printed(output))),
        None => true,
    }
}

proof fn lemma_flags()
    ensures
        "-t"@ == seq!['-', 't'],
        "-S"@ == seq!['-', 'S'],
        "-N"@ == seq!['-', 'N'],
        "-X"@ == seq!['-', 'X'],
        "-A"@ == seq!['-', 'A'],
        "-D"@ == seq!['-', 'D'],
        "-C"@ == seq!['-', 'C'],
{
    reveal_strlit("-t");
    reveal_strlit("-S");
    reveal_strlit("-N");
    reveal_strlit("-X");
    reveal_strlit("-A");
    reveal_strlit("-D");
    reveal_strlit("-C");
    assert("-t"@ =~= seq!['-', 't']);
    assert("-S"@ =~= seq!['-', 'S']);
    assert("-N"@ =~= seq!['-', 'N']);
    assert("-X"@ =~= seq!['-', 'X']);
    assert("-A"@ =~= seq!['-', 'A']);
    assert("-D"@ =~= seq!['-', 'D']);
    assert("-C"@ =~= seq!['-', 'C']);
}

/// The orders that the arguments of the requests give.
pub proof fn lemma_orders(table: Seq<char>, chain: Seq<char>, rule: Seq<Seq<char>>)
    ensures
        order_of(command(table, "-S"@)) == Some(Order::Dump { table }),
        order_of(command(table, "-N"@).push(chain)) == Some(Order::NewChain { table, chain }),
        order_of(command(table, "-X"@).push(chain)) == Some(Order::DeleteChain { table, chain }),
        order_of(command(table, "-A"@).push(chain) + Seq::empty() + rule) == Some(
            Order::Append { table, chain, rule },
        ),
        order_of(command(table, "-D"@).push(chain) + Seq::empty() + rule) == Some(
            Order::Delete { table, chain, rule },
        ),
        order_of(command(table, "-C"@).push(chain) + Seq::empty() + rule) == Some(
            Order::Check { table, chain, rule },
        ),
{
    lemma_flags();
    let a = command(table, "-A"@).push(chain) + Seq::empty() + rule;
    let d = command(table, "-D"@).push(chain) + Seq::empty() + rule;
    let c = command(table, "-C"@).push(chain) + Seq::empty() + rule;
    assert(a.subrange(4, a.len() as int) == rule);
    assert(d.subrange(4, d.len() as int) == rule);
    assert(c.subrange(4, c.len() as int) == rule);
    let n = command(table, "-N"@).push(chain);
    let x = command(table, "-X"@).push(chain);
    assert(n.subrange(4, n.len() as int) == Seq::<Seq<char>>::empty());
    assert("-N"@[1] == 'N');
    assert("-X"@[1] == 'X');
    assert("-A"@[1] == 'A');
    assert("-D"@[1] == 'D');
    assert("-C"@[1] == 'C');
    assert("-S"@[1] == 'S');
}

/// Whether a request that takes one run may, on a tool that holds `before`
/// and keeps its word, come to `result` and leave the tool holding `after`.
pub open spec fn carried_out(
    plan: Result<OperationView, ErrorKind>,
    before: Tables,
    outcome: IPTResult<Output>,
    after: Tables,
    result: Result<ReplyView, IPTError>,
) -> bool {
    &&& plan matches Ok(op)
    &&& op matches OperationView::Invoke { args, stage: StageView::Last { .. } }
    &&& obeys(before, args, after, outcome)
    &&& step(op, outcome) == OperationView::Finished(result)
}

/// The request to make a chain.
pub open spec fn new_chain_plan(table: Seq<char>, chain: Seq<char>) -> Result<
    OperationView,
    ErrorKind,
> {
    Ok(last_run(command(table, "-N"@).push(chain)))
}

/// The request to remove a chain.
pub open spec fn delete_chain_plan(table: Seq<char>, chain: Seq<char>) -> Result<
    OperationView,
    ErrorKind,
> {
    Ok(last_run(command(table, "-X"@).push(chain)))
}

/// The request for the names of the chains of a table.
pub open spec fn list_chains_plan(table: Seq<char>) -> Result<OperationView, ErrorKind> {
    Ok(single(command(table, "-S"@), ReadingView::ChainNames))
}

/// On a tool that can check and keeps its word: after a chain was made and a
/// rule appended to it, the question whether the rule is there is answered
/// with yes; after the rule was deleted again, with no.
pub proof fn lemma_exists_follows_append_and_delete(
    handle: IPTables,
    table: Seq<char>,
    chain: Seq<char>,
    rule: Seq<char>,
    held: Seq<Tables>,
    outcomes: Seq<IPTResult<Output>>,
    answer: Result<ReplyView, IPTError>,
    second: Result<ReplyView, IPTError>,
)
    requires
        handle.has_check,
        held.len() == 6,
        outcomes.len() == 5,
    ensures
        ({
            &&& carried_out(
                new_chain_plan(table, chain),
                held[0],
                outcomes[0],
                held[1],
                Ok(ReplyView::Unit),
            )
            &&& carried_out(
                rule_order(table, "-A"@, chain, None, rule),
                held[1],
                outcomes[1],
                held[2],
                Ok(ReplyView::Unit),
            )
            &&& carried_out(
                handle.exists_plan(table, chain, rule),
                held[2],
                outcomes[2],
                held[3],
                answer,
            )
        }) ==> answer == Ok::<ReplyView, IPTError>(ReplyView::Flag(true)) && ({
            &&& carried_out(
                rule_order(table, "-D"@, chain, None, rule),
                held[3],
                outcomes[3],
                held[4],
                Ok(ReplyView::Unit),
            )
            &&& carried_out(
                handle.exists_plan(table, chain, rule),
                held[4],
                outcomes[4],
                held[5],
                second,
            )
        } ==> second == Ok::<ReplyView, IPTError>(ReplyView::Flag(false))),
{
    if rule_command(table, "-A"@, chain, None, rule) matches Ok(args) {
        let tokens = tokens_of(rule).unwrap();
        lemma_orders(table, chain, tokens);
        if carried_out(
            new_chain_plan(table, chain),
            held[0],
            outcomes[0],
            held[1],
            Ok(ReplyView::Unit),
        ) && carried_out(
            rule_order(table, "-A"@, chain, None, rule),
            held[1],
            outcomes[1],
            held[2],
            Ok(ReplyView::Unit),
        ) {
            assert(outcomes[0] is Ok);
            assert(held[1].rules(table, chain) == Seq::<Seq<Seq<char>>>::empty());
            assert(outcomes[1] is Ok);
            let one = Seq::<Seq<Seq<char>>>::empty().push(tokens);
            assert(held[2].rules(table, chain) == one);
            assert(one[0] == tokens);
            assert(held[2].has_rule(table, chain, tokens));
            assert(without_first(one, tokens) == Seq::<Seq<Seq<char>>>::empty());
        }
    }
}

/// On a tool that keeps its word, the chains of a table that are listed are
/// the chains that the tool holds.
pub proof fn lemma_list_chains_names_what_is_held(
    table: Seq<char>,
    before: Tables,
    outcome: IPTResult<Output>,
    after: Tables,
    result: Result<ReplyView, IPTError>,
)
    ensures
        carried_out(list_chains_plan(table), before, outcome, after, result) ==> {
            &&& after == before
            &&& result matches Ok(ReplyView::Lines(names))
            &&& forall|chain: Seq<char>|
                #![trigger before.has_chain(table, chain)]
                names.contains(chain) <==> before.has_chain(table, chain)
        },
{
    if carried_out(list_chains_plan(table), before, outcome, after, result) {
        lemma_orders(table, Seq::empty(), Seq::empty());
        let text = printed(outcome->Ok_0);
        let names = chain_names_of(text);
        assert(result == Ok::<ReplyView, IPTError>(ReplyView::Lines(names)));
        assert forall|chain: Seq<char>| #![trigger before.has_chain(table, chain)]
            names.contains(chain) <==> before.has_chain(table, chain) by {
            if names.contains(chain) {
                lemma_named_chain_is_declared(text, chain);
            }
            if before.has_chain(table, chain) {
                let line = choose|line: Seq<char>|
                    #![trigger declares_chain(line)]
                    lines_of(text).contains(line) && declares_chain(line) && fields_of(line)[1]
                        == chain;
                lemma_declared_chain_is_named(text, line);
            }
        }
    }
}

/// On a tool that keeps its word: a chain that was made is listed, with all
/// that were there before; once it is removed it is listed no more, while
/// every other chain still is.
pub proof fn lemma_list_chains_follows_new_and_delete(
    table: Seq<char>,
    chain: Seq<char>,
    held: Seq<Tables>,
    outcomes: Seq<IPTResult<Output>>,
    first: Result<ReplyView, IPTError>,
    second: Result<ReplyView, IPTError>,
)
    requires
        held.len() == 5,
        outcomes.len() == 4,
    ensures
        ({
            &&& carried_out(
                new_chain_plan(table, chain),
                held[0],
                outcomes[0],
                held[1],
                Ok(ReplyView::Unit),
            )
            &&& carried_out(list_chains_plan(table), held[1], outcomes[1], held[2], first)
        }) ==> {
            &&& first matches Ok(ReplyView::Lines(names))
            &&& names.contains(chain)
            &&& forall|other: Seq<char>|
                #![trigger names.contains(other)]
                held[0].has_chain(table, other) ==> names.contains(other)
            &&& ({
                &&& carried_out(
                    delete_chain_plan(table, chain),
                    held[2],
                    outcomes[2],
                    held[3],
                    Ok(ReplyView::Unit),
                )
                &&& carried_out(list_chains_plan(table), held[3], outcomes[3], held[4], second)
            }) ==> {
                &&& second matches Ok(ReplyView::Lines(left))
                &&& !left.contains(chain)
                &&& forall|other: Seq<char>|
                    #![trigger left.contains(other)]
                    other != chain ==> (left.contains(other) <==> names.contains(other))
            }
        },
{
    lemma_orders(table, chain, Seq::empty());
    lemma_list_chains_names_what_is_held(table, held[1], outcomes[1], held[2], first);
    lemma_list_chains_names_what_is_held(table, held[3], outcomes[3], held[4], second);
    if carried_out(new_chain_plan(table, chain), held[0], outcomes[0], held[1], Ok(ReplyView::Unit))
        && carried_out(list_chains_plan(table), held[1], outcomes[1], held[2], first) {
        assert(outcomes[0] is Ok);
        assert(held[1].has_chain(table, chain));
        let names = first->Ok_0->Lines_0;
        assert forall|other: Seq<char>| #![trigger names.contains(other)]
            held[0].has_chain(table, other) implies names.contains(other) by {
            assert(held[1].has_chain(table, other));
        }
        if carried_out(
            delete_chain_plan(table, chain),
            held[2],
            outcomes[2],
            held[3],
            Ok(ReplyView::Unit),
        ) && carried_out(list_chains_plan(table), held[3], outcomes[3], held[4], second) {
            assert(outcomes[2] is Ok);
            assert(!held[3].has_chain(table, chain));
            let left = second->Ok_0->Lines_0;
            assert forall|other: Seq<char>| #![trigger left.contains(other)]
                other != chain implies (left.contains(other) <==> names.contains(other)) by {
                assert(held[3].has_chain(table, other) <==> held[1].has_chain(table, other));
            }
        }
    }
}

/// The operation after the outcomes of its runs, taken in order.
pub open spec fn op_after(op: OperationView, outcomes: Seq<IPTResult<Output>>) -> OperationView
    decreases outcomes.len(),
{
    if outcomes.len() == 0 {
        op
    } else {
        step(op_after(op, outcomes.drop_last()), outcomes.last())
    }
}

/// Whether run `i` of the operation was one that the tool, keeping its
/// word, may have made of what it held: the operation asked for a run, and
/// the tool went from `held[i]` to `held[i + 1]` with outcome `i`.
pub open spec fn run_obeyed(
    op: OperationView,
    held: Seq<Tables>,
    outcomes: Seq<IPTResult<Output>>,
    i: int,
) -> bool {
    op_after(op, outcomes.take(i)) matches OperationView::Invoke { args, .. } && obeys(
        held[i],
        args,
        held[i + 1],
        outcomes[i],
    )
}

/// Whether a request may, on a tool that holds `held[0]` and keeps its word,
/// take the runs with these outcomes, come to `result` and leave the tool
/// holding the last of `held`.
pub open spec fn carried_through(
    plan: Result<OperationView, ErrorKind>,
    held: Seq<Tables>,
    outcomes: Seq<IPTResult<Output>>,
    result: Result<ReplyView, IPTError>,
) -> bool {
    &&& plan matches Ok(op)
    &&& held.len() == outcomes.len() + 1
    &&& forall|i: int| 0 <= i < outcomes.len() ==> run_obeyed(op, held, outcomes, i)
    &&& op_after(op, outcomes) == OperationView::Finished(result)
}

proof fn lemma_op_after_next(op: OperationView, outcomes: Seq<IPTResult<Output>>, i: int)
    requires
        0 <= i < outcomes.len(),
    ensures
        op_after(op, outcomes.take(i + 1)) == step(op_after(op, outcomes.take(i)), outcomes[i]),
        op_after(op, outcomes.take(0)) == op,
        op_after(op, outcomes.take(outcomes.len() as int)) == op_after(op, outcomes),
{
    assert(outcomes.take(i + 1).drop_last() == outcomes.take(i));
    assert(outcomes.take(i + 1).last() == outcomes[i]);
    assert(outcomes.take(outcomes.len() as int) == outcomes);
}

/// On a tool that can check and keeps its word, an append that replaces
/// leaves as many copies of the rule as there were, and one where there was
/// none.
pub proof fn lemma_append_replace_once(
    handle: IPTables,
    table: Seq<char>,
    chain: Seq<char>,
    text: Seq<char>,
    held: Seq<Tables>,
    outcomes: Seq<IPTResult<Output>>,
)
    requires
        handle.has_check,
    ensures
        carried_through(
            handle.append_replace_plan(table, chain, text),
            held,
            outcomes,
            Ok(ReplyView::Unit),
        ) ==> {
            let rule = tokens_of(text).unwrap();
            let before = copies(held[0].rules(table, chain), rule);
            &&& held[0].has_chain(table, chain)
            &&& held.last().has_chain(table, chain)
            &&& copies(held.last().rules(table, chain), rule) == if before == 0 {
                1nat
            } else {
                before
            }
        },
{
    let plan = handle.append_replace_plan(table, chain, text);
    if carried_through(plan, held, outcomes, Ok(ReplyView::Unit)) {
        let op = plan->Ok_0;
        let rule = tokens_of(text).unwrap();
        let n = outcomes.len() as int;
        lemma_orders(table, chain, rule);
        let rules = held[0].rules(table, chain);
        lemma_copies(rules, rule);
        lemma_copies(without_first(rules, rule), rule);
        assert(op_after(op, outcomes.take(0)) == op);
        if n >= 1 {
            lemma_op_after_next(op, outcomes, 0);
            assert(run_obeyed(op, held, outcomes, 0));
            if n >= 2 {
                lemma_op_after_next(op, outcomes, 1);
                assert(run_obeyed(op, held, outcomes, 1));
                if n >= 3 {
                    lemma_op_after_next(op, outcomes, 2);
                    assert(run_obeyed(op, held, outcomes, 2));
                    if n >= 4 {
                        lemma_op_after_next(op, outcomes, 3);
                        assert(run_obeyed(op, held, outcomes, 3));
                    }
                }
            }
        }
    }
}

/// On a tool that can check and keeps its word: where a chain holds at most
/// one copy of a rule, two appends that replace, one after the other, with
/// texts that the tool takes for the same rule, leave exactly one copy.
pub proof fn lemma_append_replace_leaves_one_copy(
    handle: IPTables,
    table: Seq<char>,
    chain: Seq<char>,
    first: Seq<char>,
    second: Seq<char>,
    held: Seq<Tables>,
    outcomes: Seq<IPTResult<Output>>,
    held_after: Seq<Tables>,
    outcomes_after: Seq<IPTResult<Output>>,
)
    requires
        handle.has_check,
    ensures
        ({
            &&& tokens_of(first) == tokens_of(second)
            &&& carried_through(
                handle.append_replace_plan(table, chain, first),
                held,
                outcomes,
                Ok(ReplyView::Unit),
            )
            &&& carried_through(
                handle.append_replace_plan(table, chain, second),
                held_after,
                outcomes_after,
                Ok(ReplyView::Unit),
            )
            &&& held_after[0] == held.last()
            &&& copies(
                held[0].rules(table, chain),
                tokens_of(first).unwrap(),
            ) <= 1
        }) ==> {
            &&& held_after.last().has_rule(
                table,
                chain,
                tokens_of(first).unwrap(),
            )
            &&& copies(
                held_after.last().rules(table, chain),
                tokens_of(first).unwrap(),
            ) == 1
        },
{
    lemma_append_replace_once(handle, table, chain, first, held, outcomes);
    lemma_append_replace_once(handle, table, chain, second, held_after, outcomes_after);
    lemma_copies(
        held_after.last().rules(table, chain),
        tokens_of(first).unwrap(),
    );
}

} // verus!
