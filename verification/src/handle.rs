//! The requests a handle takes.
//!
//! Each request is planned here: the arguments of its first run are put
//! together and the way to read the outcome is fixed. A request that cannot
//! be planned fails at once, before the tool is run.

use vstd::prelude::*;
use crate::IPTables;
use crate::chains::{
    UNSUPPORTED_TABLE,
    builtin_chains,
    get_builtin_chains,
    is_builtin,
    names_contain,
};
use crate::error::{ErrorKind, IPTError, IPTResult, by_kind, deep_by_kind, view_by_kind};
use crate::operation::{
    Operation,
    OperationView,
    Probe,
    ProbeView,
    Reading,
    ReadingView,
    ReplyView,
    RULE_EXISTS,
    Stage,
    StageView,
    copy_args,
    found,
    last_run,
    single,
    step,
};
use crate::invoke::Output;
use crate::text::{decimal, decimal_string};
use crate::tokens::{split_quoted, tokens_of};

verus! {

/// What is said where the policy of a chain is asked for that has none.
pub const NO_POLICY_TO_GET: &'static str =
    "given chain is not a default chain in the given table, can't get policy";

/// What is said where the policy of a chain is to be set that has none.
pub const NO_POLICY_TO_SET: &'static str =
    "given chain is not a default chain in the given table, can't set policy";

/// The arguments that select `table` and give the tool its order.
pub open spec fn command(table: Seq<char>, flag: Seq<char>) -> Seq<Seq<char>> {
    seq!["-t"@, table, flag]
}

/// The arguments of an order about `rule` in `chain`, with the position
/// where the order takes one.
pub open spec fn rule_command(
    table: Seq<char>,
    flag: Seq<char>,
    chain: Seq<char>,
    position: Option<i32>,
    rule: Seq<char>,
) -> Result<Seq<Seq<char>>, ErrorKind> {
    match tokens_of(rule) {
        Some(tokens) => Ok(
            command(table, flag).push(chain) + match position {
                Some(at) => seq![decimal(at as int)],
                None => seq![],
            } + tokens,
        ),
        None => Err(ErrorKind::Regex),
    }
}

/// The operation that one order about a rule amounts to.
pub open spec fn rule_order(
    table: Seq<char>,
    flag: Seq<char>,
    chain: Seq<char>,
    position: Option<i32>,
    rule: Seq<char>,
) -> Result<OperationView, ErrorKind> {
    match rule_command(table, flag, chain, position, rule) {
        Ok(args) => Ok(last_run(args)),
        Err(kind) => Err(kind),
    }
}

fn push_word(args: &mut Vec<String>, word: &str)
    ensures
        final(args).deep_view() == old(args).deep_view().push(word@),
{
    let ghost before = args.deep_view();
    args.push(String::from_str(word));
    assert(args.deep_view() =~~= before.push(word@));
}

fn push_words(args: &mut Vec<String>, words: Vec<String>)
    ensures
        final(args).deep_view() == old(args).deep_view() + words.deep_view(),
{
    let ghost before = args.deep_view();
    let mut words = words;
    let ghost all = words.deep_view();
    args.append(&mut words);
    assert(args.deep_view() =~~= before + all);
}

fn command_args(table: &str, flag: &str) -> (args: Vec<String>)
    ensures
        args.deep_view() == command(table@, flag@),
{
    let mut args: Vec<String> = Vec::new();
    push_word(&mut args, "-t");
    push_word(&mut args, table);
    push_word(&mut args, flag);
    assert(args.deep_view() =~~= command(table@, flag@));
    args
}

fn chain_args(table: &str, flag: &str, chain: &str) -> (args: Vec<String>)
    ensures
        args.deep_view() == command(table@, flag@).push(chain@),
{
    let mut args = command_args(table, flag);
    push_word(&mut args, chain);
    args
}

fn rule_args(table: &str, flag: &str, chain: &str, position: Option<i32>, rule: &str) -> (args:
    IPTResult<Vec<String>>)
    ensures
        deep_by_kind(args) == rule_command(table@, flag@, chain@, position, rule@),
{
    let tokens = split_quoted(rule)?;
    let mut args = chain_args(table, flag, chain);
    match position {
        Some(at) => {
            let number = decimal_string(at);
            push_word(&mut args, number.as_str());
        },
        None => {
            assert(args.deep_view() + Seq::<Seq<char>>::empty() =~= args.deep_view());
        },
    }
    push_words(&mut args, tokens);
    proof {
        let want = rule_command(table@, flag@, chain@, position, rule@);
        assert(want is Ok);
        assert(args.deep_view() =~~= want->Ok_0);
    }
    Ok(args)
}

fn start(args: Vec<String>, reading: Reading) -> (op: Operation)
    ensures
        op@ == single(args.deep_view(), reading@),
{
    Operation::Invoke { args, stage: Stage::Last { reading } }
}

impl IPTables {
    /// How this handle learns whether `rule` is in `chain`: the arguments of
    /// the probing run, and the way to read its outcome. A tool that can
    /// check is asked to; from any other the whole table is dumped and the
    /// dump searched.
    pub open spec fn probe_plan(self, table: Seq<char>, chain: Seq<char>, rule: Seq<char>) -> Result<
        (Seq<Seq<char>>, ProbeView),
        ErrorKind,
    > {
        if self.has_check {
            match rule_command(table, "-C"@, chain, None, rule) {
                Ok(args) => Ok((args, ProbeView::Check)),
                Err(kind) => Err(kind),
            }
        } else {
            Ok((command(table, "-S"@), ProbeView::Scan { chain, rule }))
        }
    }

    /// The operation that asks whether `rule` is in `chain`.
    pub open spec fn exists_plan(self, table: Seq<char>, chain: Seq<char>, rule: Seq<char>) -> Result<
        OperationView,
        ErrorKind,
    > {
        match self.probe_plan(table, chain, rule) {
            Ok((args, probe)) => Ok(single(args, ReadingView::Rule(probe))),
            Err(kind) => Err(kind),
        }
    }

    /// The operation that puts a rule in by the run `add`, unless it is
    /// there already.
    pub open spec fn unique_plan(
        self,
        table: Seq<char>,
        chain: Seq<char>,
        rule: Seq<char>,
        add: Result<Seq<Seq<char>>, ErrorKind>,
    ) -> Result<OperationView, ErrorKind> {
        match (self.probe_plan(table, chain, rule), add) {
            (Ok((args, probe)), Ok(add)) => Ok(
                OperationView::Invoke { args, stage: StageView::Unique { probe, add } },
            ),
            (Err(kind), _) => Err(kind),
            (_, Err(kind)) => Err(kind),
        }
    }

    /// The operation that appends `rule` to `chain` after taking out the
    /// copy that is there, if one is.
    pub open spec fn append_replace_plan(
        self,
        table: Seq<char>,
        chain: Seq<char>,
        rule: Seq<char>,
    ) -> Result<OperationView, ErrorKind> {
        match (
            self.probe_plan(table, chain, rule),
            rule_command(table, "-D"@, chain, None, rule),
            rule_command(table, "-A"@, chain, None, rule),
        ) {
            (Ok((args, probe)), Ok(delete), Ok(append)) => Ok(
                OperationView::Invoke {
                    args,
                    stage: StageView::ReplaceProbe { probe, delete, append },
                },
            ),
            (Err(kind), _, _) => Err(kind),
            (_, Err(kind), _) => Err(kind),
            (_, _, Err(kind)) => Err(kind),
        }
    }

    /// The operation that takes every copy of `rule` out of `chain`.
    pub open spec fn delete_all_plan(self, table: Seq<char>, chain: Seq<char>, rule: Seq<char>)
        -> Result<OperationView, ErrorKind> {
        match (
            self.probe_plan(table, chain, rule),
            rule_command(table, "-D"@, chain, None, rule),
        ) {
            (Ok((args, probe)), Ok(delete)) => Ok(
                OperationView::Invoke {
                    args,
                    stage: StageView::PurgeProbe { probe, check: args, delete },
                },
            ),
            (Err(kind), _) => Err(kind),
            (_, Err(kind)) => Err(kind),
        }
    }

    /// Whether `chain` has a policy: only a built-in chain of a known table
    /// has one; `refusal` is what any other chain of a known table is told.
    pub open spec fn policy_guard(table: Seq<char>, chain: Seq<char>, refusal: &'static str)
        -> Result<(), ErrorKind> {
        match builtin_chains(table) {
            None => Err(ErrorKind::Other(UNSUPPORTED_TABLE)),
            Some(names) => if names.contains(chain) {
                Ok(())
            } else {
                Err(ErrorKind::Other(refusal))
            },
        }
    }

    /// The operation `op` on the policy of `chain`, where the chain has one.
    pub open spec fn policy_plan(
        table: Seq<char>,
        chain: Seq<char>,
        refusal: &'static str,
        op: OperationView,
    ) -> Result<OperationView, ErrorKind> {
        match Self::policy_guard(table, chain, refusal) {
            Ok(_) => Ok(op),
            Err(kind) => Err(kind),
        }
    }

    fn probe(&self, table: &str, chain: &str, rule: &str) -> (plan: IPTResult<(Vec<String>, Probe)>)
        ensures
            match self.probe_plan(table@, chain@, rule@) {
                Ok((args, probe)) => plan matches Ok(pair) && pair.0.deep_view() == args
                    && pair.1@ == probe,
                Err(kind) => plan matches Err(e) && e.kind_spec() == kind,
            },
    {
        if self.has_check {
            let args = rule_args(table, "-C", chain, None, rule)?;
            Ok((args, Probe::Check))
        } else {
            let args = command_args(table, "-S");
            Ok((args, Probe::Scan { chain: String::from_str(chain), rule: String::from_str(rule) }))
        }
    }

    fn check_policy_chain(table: &str, chain: &str, refusal: &'static str) -> (checked: IPTResult<()>)
        ensures
            by_kind(checked) == Self::policy_guard(table@, chain@, refusal),
    {
        let names = get_builtin_chains(table)?;
        if !names_contain(&names, chain) {
            return Err(IPTError::Other(refusal));
        }
        Ok(())
    }

    /// Plans the request for the policy of a built-in chain.
    pub fn get_policy(&self, table: &str, chain: &str) -> (op: IPTResult<Operation>)
        ensures
            view_by_kind(op) == Self::policy_plan(
                table@,
                chain@,
                NO_POLICY_TO_GET,
                single(command(table@, "-L"@).push(chain@), ReadingView::Policy { chain: chain@ }),
            ),
    {
        Self::check_policy_chain(table, chain, NO_POLICY_TO_GET)?;
        let args = chain_args(table, "-L", chain);
        Ok(start(args, Reading::Policy { chain: String::from_str(chain) }))
    }

    /// Plans the request to set the policy of a built-in chain.
    pub fn set_policy(&self, table: &str, chain: &str, policy: &str) -> (op: IPTResult<Operation>)
        ensures
            view_by_kind(op) == Self::policy_plan(
                table@,
                chain@,
                NO_POLICY_TO_SET,
                last_run(command(table@, "-P"@).push(chain@).push(policy@)),
            ),
    {
        Self::check_policy_chain(table, chain, NO_POLICY_TO_SET)?;
        let mut args = chain_args(table, "-P", chain);
        push_word(&mut args, policy);
        Ok(start(args, Reading::Unit))
    }

    /// Plans the run of a free-form command on `table`; the answer is the
    /// tool's output as it is.
    pub fn execute(&self, table: &str, command: &str) -> (op: IPTResult<Operation>)
        ensures
            view_by_kind(op) == match tokens_of(command@) {
                Some(tokens) => Ok::<OperationView, ErrorKind>(
                    single(seq!["-t"@, table@] + tokens, ReadingView::Raw),
                ),
                None => Err::<OperationView, ErrorKind>(ErrorKind::Regex),
            },
    {
        let tokens = split_quoted(command)?;
        let mut args: Vec<String> = Vec::new();
        push_word(&mut args, "-t");
        push_word(&mut args, table);
        push_words(&mut args, tokens);
        assert(args.deep_view() =~~= seq!["-t"@, table@] + tokens_of(command@).unwrap());
        Ok(start(args, Reading::Raw))
    }

    /// Plans the question whether `rule` is in `chain`.
    pub fn rule_exists(&self, table: &str, chain: &str, rule: &str) -> (op: IPTResult<Operation>)
        ensures
            view_by_kind(op) == self.exists_plan(table@, chain@, rule@),
    {
        if !self.has_check {
            return Ok(self.exists_old_version(table, chain, rule));
        }
        let args = rule_args(table, "-C", chain, None, rule)?;
        Ok(start(args, Reading::Rule(Probe::Check)))
    }

    /// Plans the question whether `rule` is in `chain` for a tool that
    /// cannot check: the table is dumped and the dump searched.
    pub fn exists_old_version(&self, table: &str, chain: &str, rule: &str) -> (op: Operation)
        ensures
            op@ == single(
                command(table@, "-S"@),
                ReadingView::Rule(ProbeView::Scan { chain: chain@, rule: rule@ }),
            ),
    {
        let args = command_args(table, "-S");
        start(
            args,
            Reading::Rule(
                Probe::Scan { chain: String::from_str(chain), rule: String::from_str(rule) },
            ),
        )
    }

    /// Plans the question whether `chain` is in `table`.
    pub fn chain_exists(&self, table: &str, chain: &str) -> (op: IPTResult<Operation>)
        ensures
            view_by_kind(op) == Ok::<OperationView, ErrorKind>(
                single(command(table@, "-L"@).push(chain@), ReadingView::ChainListed),
            ),
    {
        Ok(start(chain_args(table, "-L", chain), Reading::ChainListed))
    }

    /// Plans the insertion of `rule` into `chain` at `position`.
    pub fn insert(&self, table: &str, chain: &str, rule: &str, position: i32) -> (op: IPTResult<
        Operation,
    >)
        ensures
            view_by_kind(op) == rule_order(table@, "-I"@, chain@, Some(position), rule@),
    {
        let args = rule_args(table, "-I", chain, Some(position), rule)?;
        Ok(start(args, Reading::Unit))
    }

    /// Plans the insertion of `rule` into `chain` at `position`, which fails
    /// where the rule is there already.
    pub fn insert_unique(&self, table: &str, chain: &str, rule: &str, position: i32) -> (op:
        IPTResult<Operation>)
        ensures
            view_by_kind(op) == self.unique_plan(
                table@,
                chain@,
                rule@,
                rule_command(table@, "-I"@, chain@, Some(position), rule@),
            ),
    {
        let (args, probe) = self.probe(table, chain, rule)?;
        let add = rule_args(table, "-I", chain, Some(position), rule)?;
        Ok(Operation::Invoke { args, stage: Stage::Unique { probe, add } })
    }

    /// Plans the replacement of the rule at `position` in `chain` by `rule`.
    pub fn replace(&self, table: &str, chain: &str, rule: &str, position: i32) -> (op: IPTResult<
        Operation,
    >)
        ensures
            view_by_kind(op) == rule_order(table@, "-R"@, chain@, Some(position), rule@),
    {
        let args = rule_args(table, "-R", chain, Some(position), rule)?;
        Ok(start(args, Reading::Unit))
    }

    /// Plans the appending of `rule` to `chain`.
    pub fn append(&self, table: &str, chain: &str, rule: &str) -> (op: IPTResult<Operation>)
        ensures
            view_by_kind(op) == rule_order(table@, "-A"@, chain@, None, rule@),
    {
        let args = rule_args(table, "-A", chain, None, rule)?;
        Ok(start(args, Reading::Unit))
    }

    /// Plans the appending of `rule` to `chain`, which fails where the rule
    /// is there already.
    pub fn append_unique(&self, table: &str, chain: &str, rule: &str) -> (op: IPTResult<Operation>)
        ensures
            view_by_kind(op) == self.unique_plan(
                table@,
                chain@,
                rule@,
                rule_command(table@, "-A"@, chain@, None, rule@),
            ),
    {
        let (args, probe) = self.probe(table, chain, rule)?;
        let add = rule_args(table, "-A", chain, None, rule)?;
        Ok(Operation::Invoke { args, stage: Stage::Unique { probe, add } })
    }

    /// Plans the appending of `rule` to `chain` in place of the copy that is
    /// there, if one is.
    pub fn append_replace(&self, table: &str, chain: &str, rule: &str) -> (op: IPTResult<Operation>)
        ensures
            view_by_kind(op) == self.append_replace_plan(table@, chain@, rule@),
    {
        let (args, probe) = self.probe(table, chain, rule)?;
        let delete = rule_args(table, "-D", chain, None, rule)?;
        let append = rule_args(table, "-A", chain, None, rule)?;
        Ok(Operation::Invoke { args, stage: Stage::ReplaceProbe { probe, delete, append } })
    }

    /// Plans the removal of `rule` from `chain`.
    pub fn delete(&self, table: &str, chain: &str, rule: &str) -> (op: IPTResult<Operation>)
        ensures
            view_by_kind(op) == rule_order(table@, "-D"@, chain@, None, rule@),
    {
        let args = rule_args(table, "-D", chain, None, rule)?;
        Ok(start(args, Reading::Unit))
    }

    /// Plans the removal of every copy of `rule` from `chain`.
    pub fn delete_all(&self, table: &str, chain: &str, rule: &str) -> (op: IPTResult<Operation>)
        ensures
            view_by_kind(op) == self.delete_all_plan(table@, chain@, rule@),
    {
        let (args, probe) = self.probe(table, chain, rule)?;
        let delete = rule_args(table, "-D", chain, None, rule)?;
        let check = copy_args(&args);
        Ok(Operation::Invoke { args, stage: Stage::PurgeProbe { probe, check, delete } })
    }

    /// Plans the listing of the rules of `chain`.
    pub fn list(&self, table: &str, chain: &str) -> (op: IPTResult<Operation>)
        ensures
            view_by_kind(op) == Ok::<OperationView, ErrorKind>(
                single(command(table@, "-S"@).push(chain@), ReadingView::Lines),
            ),
    {
        Ok(self.get_list(chain_args(table, "-S", chain)))
    }

    /// Plans the listing of the rules of `table`.
    pub fn list_table(&self, table: &str) -> (op: IPTResult<Operation>)
        ensures
            view_by_kind(op) == Ok::<OperationView, ErrorKind>(
                single(command(table@, "-S"@), ReadingView::Lines),
            ),
    {
        Ok(self.get_list(command_args(table, "-S")))
    }

    /// Plans the listing of the chains of `table`.
    pub fn list_chains(&self, table: &str) -> (op: IPTResult<Operation>)
        ensures
            view_by_kind(op) == Ok::<OperationView, ErrorKind>(
                single(command(table@, "-S"@), ReadingView::ChainNames),
            ),
    {
        Ok(start(command_args(table, "-S"), Reading::ChainNames))
    }

    /// Plans the making of a chain.
    pub fn new_chain(&self, table: &str, chain: &str) -> (op: IPTResult<Operation>)
        ensures
            view_by_kind(op) == Ok::<OperationView, ErrorKind>(
                last_run(command(table@, "-N"@).push(chain@)),
            ),
    {
        Ok(start(chain_args(table, "-N", chain), Reading::Unit))
    }

    /// Plans the removal of all rules from `chain`.
    pub fn flush_chain(&self, table: &str, chain: &str) -> (op: IPTResult<Operation>)
        ensures
            view_by_kind(op) == Ok::<OperationView, ErrorKind>(
                last_run(command(table@, "-F"@).push(chain@)),
            ),
    {
        Ok(start(chain_args(table, "-F", chain), Reading::Unit))
    }

    /// Plans the renaming of a chain.
    pub fn rename_chain(&self, table: &str, old_chain: &str, new_chain: &str) -> (op: IPTResult<
        Operation,
    >)
        ensures
            view_by_kind(op) == Ok::<OperationView, ErrorKind>(
                last_run(command(table@, "-E"@).push(old_chain@).push(new_chain@)),
            ),
    {
        let mut args = chain_args(table, "-E", old_chain);
        push_word(&mut args, new_chain);
        Ok(start(args, Reading::Unit))
    }

    /// Plans the removal of a chain.
    pub fn delete_chain(&self, table: &str, chain: &str) -> (op: IPTResult<Operation>)
        ensures
            view_by_kind(op) == Ok::<OperationView, ErrorKind>(
                last_run(command(table@, "-X"@).push(chain@)),
            ),
    {
        Ok(start(chain_args(table, "-X", chain), Reading::Unit))
    }

    /// Plans the removal of all rules from all chains of `table`.
    pub fn flush_table(&self, table: &str) -> (op: IPTResult<Operation>)
        ensures
            view_by_kind(op) == Ok::<OperationView, ErrorKind>(last_run(command(table@, "-F"@))),
    {
        Ok(start(command_args(table, "-F"), Reading::Unit))
    }

    /// Plans one run whose output is wanted line by line.
    pub fn get_list(&self, args: Vec<String>) -> (op: Operation)
        ensures
            op@ == single(args.deep_view(), ReadingView::Lines),
    {
        start(args, Reading::Lines)
    }
}

/// A request for a policy that names a chain which is not built into the
/// table is refused with a fixed message, whatever the operation would have
/// been: nothing is planned, so nothing is run.
pub proof fn lemma_policy_needs_builtin_chain(
    table: Seq<char>,
    chain: Seq<char>,
    refusal: &'static str,
    op: OperationView,
)
    requires
        !is_builtin(table, chain),
    ensures
        IPTables::policy_plan(table, chain, refusal, op) matches Err(ErrorKind::Other(message))
            && (message == refusal || message == UNSUPPORTED_TABLE),
{
}

/// A request for a policy that names a built-in chain of the table is
/// planned as it stands.
pub proof fn lemma_policy_of_builtin_chain(
    table: Seq<char>,
    chain: Seq<char>,
    refusal: &'static str,
    op: OperationView,
)
    requires
        is_builtin(table, chain),
    ensures
        IPTables::policy_plan(table, chain, refusal, op) == Ok::<OperationView, ErrorKind>(op),
{
}

/// A unique insert or append whose probe finds the rule ends there, with the
/// fixed message, and stays ended: the run that would add the rule is never
/// asked for.
pub proof fn lemma_unique_stops_at_present_rule(
    handle: IPTables,
    table: Seq<char>,
    chain: Seq<char>,
    rule: Seq<char>,
    add: Result<Seq<Seq<char>>, ErrorKind>,
    outcome: IPTResult<Output>,
    later: IPTResult<Output>,
)
    ensures
        handle.unique_plan(table, chain, rule, add) matches Ok(op) ==> {
            &&& op matches OperationView::Invoke { args, stage: StageView::Unique { probe, add: a } }
            &&& Ok::<Seq<Seq<char>>, ErrorKind>(a) == add
            &&& found(probe, outcome) == Ok::<bool, IPTError>(true) ==> {
                let end = OperationView::Finished(Err(IPTError::Other(RULE_EXISTS)));
                step(op, outcome) == end && step(end, later) == end
            }
            &&& found(probe, outcome) == Ok::<bool, IPTError>(false) ==> step(op, outcome)
                == last_run(a)
        },
{
}

/// An append that replaces takes the old rule out before it puts the new
/// one in: where the probe finds the rule, the next run deletes, and only
/// after that has succeeded the last run appends. Where the probe finds
/// nothing, the next run appends.
pub proof fn lemma_replace_deletes_before_appending(
    handle: IPTables,
    table: Seq<char>,
    chain: Seq<char>,
    rule: Seq<char>,
    probed: IPTResult<Output>,
    deleted: Output,
)
    ensures
        handle.append_replace_plan(table, chain, rule) matches Ok(op) ==> {
            &&& op matches OperationView::Invoke {
                args,
                stage: StageView::ReplaceProbe { probe, delete, append },
            }
            &&& Ok::<Seq<Seq<char>>, ErrorKind>(delete) == rule_command(
                table,
                "-D"@,
                chain,
                None,
                rule,
            )
            &&& Ok::<Seq<Seq<char>>, ErrorKind>(append) == rule_command(
                table,
                "-A"@,
                chain,
                None,
                rule,
            )
            &&& found(probe, probed) == Ok::<bool, IPTError>(false) ==> step(op, probed)
                == last_run(append)
            &&& found(probe, probed) == Ok::<bool, IPTError>(true) ==> {
                &&& step(op, probed) matches OperationView::Invoke { args: next, .. }
                &&& next == delete
                &&& step(step(op, probed), Ok(deleted)) == last_run(append)
            }
        },
{
}

/// Taking out every copy of a rule goes round: after a probe that finds the
/// rule and a delete that succeeds, the operation is where it began. It ends
/// with "yes" when a probe finds nothing, and with the failure when a run
/// fails.
pub proof fn lemma_delete_all_goes_round(
    handle: IPTables,
    table: Seq<char>,
    chain: Seq<char>,
    rule: Seq<char>,
    probed: IPTResult<Output>,
    deleted: Output,
)
    ensures
        handle.delete_all_plan(table, chain, rule) matches Ok(op) ==> {
            &&& op matches OperationView::Invoke { args, stage: StageView::PurgeProbe { probe, .. } }
            &&& found(probe, probed) == Ok::<bool, IPTError>(true) ==> step(
                step(op, probed),
                Ok(deleted),
            ) == op
            &&& found(probe, probed) == Ok::<bool, IPTError>(false) ==> step(op, probed)
                == OperationView::Finished(Ok(ReplyView::Flag(true)))
            &&& found(probe, probed) matches Err(e) ==> step(op, probed) == OperationView::Finished(
                Err(e),
            )
        },
{
}

} // verus!
