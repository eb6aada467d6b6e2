//! Requests as sequences of runs.
//!
//! An [`Operation`] is a request in progress. While it is not finished it
//! names the arguments of the run that is due; given the outcome of that run
//! it moves on. Most requests need one run; those that look before they act
//! need more.

use vstd::prelude::*;
use crate::error::{IPTError, IPTResult};
use crate::invoke::Output;
use crate::listing::{
    NO_POLICY,
    chain_names,
    chain_names_of,
    lines,
    lines_of,
    lists_rule,
    policy_in,
    policy_of,
    rule_listed,
};
use crate::text::{decode_lossy, lossy_text};

verus! {

/// What is said where a rule that must be new is there already.
pub const RULE_EXISTS: &'static str = "the rule exists in the table/chain";

/// The answer to a request.
#[derive(Debug, PartialEq, Eq)]
pub enum Reply {
    /// It was done.
    Unit,
    /// Yes or no.
    Flag(bool),
    /// A name.
    Text(String),
    /// A list of lines or names.
    Lines(Vec<String>),
    /// What the tool left behind, as it is.
    Raw(Output),
}

/// A [`Reply`], with its strings as sequences of characters.
pub enum ReplyView {
    Unit,
    Flag(bool),
    Text(Seq<char>),
    Lines(Seq<Seq<char>>),
    Raw(Output),
}

impl View for Reply {
    type V = ReplyView;

    open spec fn view(&self) -> ReplyView {
        match *self {
            Reply::Unit => ReplyView::Unit,
            Reply::Flag(flag) => ReplyView::Flag(flag),
            Reply::Text(text) => ReplyView::Text(text@),
            Reply::Lines(list) => ReplyView::Lines(list.deep_view()),
            Reply::Raw(output) => ReplyView::Raw(output),
        }
    }
}

/// A way to learn from one run whether a rule is there.
#[derive(Debug)]
pub enum Probe {
    /// The tool was asked to check; its exit code tells.
    Check,
    /// The tool was asked to dump the table; the dump is searched.
    Scan { chain: String, rule: String },
}

/// A [`Probe`], with its strings as sequences of characters.
pub enum ProbeView {
    Check,
    Scan { chain: Seq<char>, rule: Seq<char> },
}

impl View for Probe {
    type V = ProbeView;

    open spec fn view(&self) -> ProbeView {
        match *self {
            Probe::Check => ProbeView::Check,
            Probe::Scan { chain, rule } => ProbeView::Scan { chain: chain@, rule: rule@ },
        }
    }
}

/// The text that a run printed.
pub open spec fn printed(output: Output) -> Seq<char> {
    lossy_text(output.stdout@)
}

/// Whether the rule is there, as the outcome of the probing run tells it.
/// A check that exits with 1 or 2 says no; a dump says yes where it shows
/// the rule. Any other failure stays a failure.
pub open spec fn found(probe: ProbeView, outcome: IPTResult<Output>) -> IPTResult<bool> {
    match (probe, outcome) {
        (_, Ok(output)) => match probe {
            ProbeView::Check => Ok(true),
            ProbeView::Scan { chain, rule } => Ok(lists_rule(printed(output), chain, rule)),
        },
        (ProbeView::Check, Err(IPTError::BadExitStatus(code))) if code == 1 || code == 2 => Ok(
            false,
        ),
        (_, Err(e)) => Err(e),
    }
}

impl Probe {
    /// Reads the outcome of the probing run.
    pub fn find(&self, outcome: IPTResult<Output>) -> (present: IPTResult<bool>)
        ensures
            present == found(self@, outcome),
    {
        match outcome {
            Ok(output) => match self {
                Probe::Check => Ok(true),
                Probe::Scan { chain, rule } => {
                    let text = decode_lossy(output.stdout.as_slice());
                    Ok(rule_listed(text.as_str(), chain.as_str(), rule.as_str()))
                },
            },
            Err(e) => match self {
                Probe::Check => match e {
                    IPTError::BadExitStatus(1) => Ok(false),
                    IPTError::BadExitStatus(2) => Ok(false),
                    other => Err(other),
                },
                Probe::Scan { .. } => Err(e),
            },
        }
    }

    /// A probe like this one.
    pub fn copy(&self) -> (same: Probe)
        ensures
            same@ == self@,
    {
        match self {
            Probe::Check => Probe::Check,
            Probe::Scan { chain, rule } => Probe::Scan { chain: chain.clone(), rule: rule.clone() },
        }
    }
}

/// How the outcome of a run is read as the answer to a request.
#[derive(Debug)]
pub enum Reading {
    /// Success means done.
    Unit,
    /// Success hands the output back untouched.
    Raw,
    /// A chain was listed: success means it is there, exit code 1 that it is
    /// not.
    ChainListed,
    /// A rule was probed for.
    Rule(Probe),
    /// The output is a list of lines.
    Lines,
    /// The output is a rule dump; the chains it declares are wanted.
    ChainNames,
    /// The output is a listing of `chain`; its policy is wanted.
    Policy { chain: String },
}

/// A [`Reading`], with its strings as sequences of characters.
pub enum ReadingView {
    Unit,
    Raw,
    ChainListed,
    Rule(ProbeView),
    Lines,
    ChainNames,
    Policy { chain: Seq<char> },
}

impl View for Reading {
    type V = ReadingView;

    open spec fn view(&self) -> ReadingView {
        match *self {
            Reading::Unit => ReadingView::Unit,
            Reading::Raw => ReadingView::Raw,
            Reading::ChainListed => ReadingView::ChainListed,
            Reading::Rule(probe) => ReadingView::Rule(probe@),
            Reading::Lines => ReadingView::Lines,
            Reading::ChainNames => ReadingView::ChainNames,
            Reading::Policy { chain } => ReadingView::Policy { chain: chain@ },
        }
    }
}

/// The answer that `reading` takes from a successful run.
pub open spec fn read_output(reading: ReadingView, output: Output) -> Result<ReplyView, IPTError> {
    match reading {
        ReadingView::Unit => Ok(ReplyView::Unit),
        ReadingView::Raw => Ok(ReplyView::Raw(output)),
        ReadingView::ChainListed => Ok(ReplyView::Flag(true)),
        ReadingView::Rule(probe) => match found(probe, Ok(output)) {
            Ok(present) => Ok(ReplyView::Flag(present)),
            Err(e) => Err(e),
        },
        ReadingView::Lines => Ok(ReplyView::Lines(lines_of(printed(output)))),
        ReadingView::ChainNames => Ok(ReplyView::Lines(chain_names_of(printed(output)))),
        ReadingView::Policy { chain } => match policy_of(printed(output), chain) {
            Some(policy) => Ok(ReplyView::Text(policy)),
            None => Err(IPTError::Other(NO_POLICY)),
        },
    }
}

/// The answer that `reading` takes from a failed run: the failure itself,
/// unless the exit code is one that the reading understands as "no".
pub open spec fn read_failure(reading: ReadingView, e: IPTError) -> Result<ReplyView, IPTError> {
    match reading {
        ReadingView::ChainListed => match e {
            IPTError::BadExitStatus(code) if code == 1 => Ok(ReplyView::Flag(false)),
            _ => Err(e),
        },
        ReadingView::Rule(probe) => match found(probe, Err(e)) {
            Ok(present) => Ok(ReplyView::Flag(present)),
            Err(e) => Err(e),
        },
        _ => Err(e),
    }
}

/// The answer that `reading` takes from the outcome of a run.
pub open spec fn read(reading: ReadingView, outcome: IPTResult<Output>) -> Result<
    ReplyView,
    IPTError,
> {
    match outcome {
        Ok(output) => read_output(reading, output),
        Err(e) => read_failure(reading, e),
    }
}

/// A result with its answer as a view.
pub open spec fn reply_view(result: IPTResult<Reply>) -> Result<ReplyView, IPTError> {
    match result {
        Ok(reply) => Ok(reply@),
        Err(e) => Err(e),
    }
}

impl Reading {
    /// Reads the outcome of a run as the answer to the request.
    pub fn interpret(&self, outcome: IPTResult<Output>) -> (reply: IPTResult<Reply>)
        ensures
            reply_view(reply) == read(self@, outcome),
    {
        match self {
            Reading::Unit => match outcome {
                Ok(_) => Ok(Reply::Unit),
                Err(e) => Err(e),
            },
            Reading::Raw => match outcome {
                Ok(output) => Ok(Reply::Raw(output)),
                Err(e) => Err(e),
            },
            Reading::ChainListed => match outcome {
                Ok(_) => Ok(Reply::Flag(true)),
                Err(IPTError::BadExitStatus(1)) => Ok(Reply::Flag(false)),
                Err(e) => Err(e),
            },
            Reading::Rule(probe) => match probe.find(outcome) {
                Ok(present) => Ok(Reply::Flag(present)),
                Err(e) => Err(e),
            },
            Reading::Lines => match outcome {
                Ok(output) => {
                    let text = decode_lossy(output.stdout.as_slice());
                    Ok(Reply::Lines(lines(text.as_str())))
                },
                Err(e) => Err(e),
            },
            Reading::ChainNames => match outcome {
                Ok(output) => {
                    let text = decode_lossy(output.stdout.as_slice());
                    Ok(Reply::Lines(chain_names(text.as_str())))
                },
                Err(e) => Err(e),
            },
            Reading::Policy { chain } => match outcome {
                Ok(output) => {
                    let text = decode_lossy(output.stdout.as_slice());
                    match policy_in(text.as_str(), chain.as_str()) {
                        Ok(policy) => Ok(Reply::Text(policy)),
                        Err(e) => Err(e),
                    }
                },
                Err(e) => Err(e),
            },
        }
    }
}

/// What an operation does with the outcome of the run that is due.
#[derive(Debug)]
pub enum Stage {
    /// The run is the last one; `reading` takes the answer from it.
    Last { reading: Reading },
    /// The run probes for a rule that must not be there. When it is not,
    /// `add` puts it in.
    Unique { probe: Probe, add: Vec<String> },
    /// The run probes for a rule that is to be appended anew. When it is
    /// there, `delete` takes it out first.
    ReplaceProbe { probe: Probe, delete: Vec<String>, append: Vec<String> },
    /// The run takes the old rule out; `append` comes next.
    ReplaceDelete { append: Vec<String> },
    /// The run probes for a rule of which every copy is to go. While it is
    /// there, `delete` takes one copy out and `check` probes again.
    PurgeProbe { probe: Probe, check: Vec<String>, delete: Vec<String> },
    /// The run takes one copy out; the next probe follows.
    PurgeDelete { probe: Probe, check: Vec<String>, delete: Vec<String> },
}

/// A [`Stage`], with its strings as sequences of characters.
pub enum StageView {
    Last { reading: ReadingView },
    Unique { probe: ProbeView, add: Seq<Seq<char>> },
    ReplaceProbe { probe: ProbeView, delete: Seq<Seq<char>>, append: Seq<Seq<char>> },
    ReplaceDelete { append: Seq<Seq<char>> },
    PurgeProbe { probe: ProbeView, check: Seq<Seq<char>>, delete: Seq<Seq<char>> },
    PurgeDelete { probe: ProbeView, check: Seq<Seq<char>>, delete: Seq<Seq<char>> },
}

impl View for Stage {
    type V = StageView;

    open spec fn view(&self) -> StageView {
        match *self {
            Stage::Last { reading } => StageView::Last { reading: reading@ },
            Stage::Unique { probe, add } => StageView::Unique {
                probe: probe@,
                add: add.deep_view(),
            },
            Stage::ReplaceProbe { probe, delete, append } => StageView::ReplaceProbe {
                probe: probe@,
                delete: delete.deep_view(),
                append: append.deep_view(),
            },
            Stage::ReplaceDelete { append } => StageView::ReplaceDelete {
                append: append.deep_view(),
            },
            Stage::PurgeProbe { probe, check, delete } => StageView::PurgeProbe {
                probe: probe@,
                check: check.deep_view(),
                delete: delete.deep_view(),
            },
            Stage::PurgeDelete { probe, check, delete } => StageView::PurgeDelete {
                probe: probe@,
                check: check.deep_view(),
                delete: delete.deep_view(),
            },
        }
    }
}

/// A request in progress.
#[derive(Debug)]
pub enum Operation {
    /// The tool has to be run with `args`; `stage` says what follows.
    Invoke { args: Vec<String>, stage: Stage },
    /// The request has its answer.
    Finished(IPTResult<Reply>),
}

/// An [`Operation`], with its strings as sequences of characters.
pub enum OperationView {
    Invoke { args: Seq<Seq<char>>, stage: StageView },
    Finished(Result<ReplyView, IPTError>),
}

impl View for Operation {
    type V = OperationView;

    open spec fn view(&self) -> OperationView {
        match *self {
            Operation::Invoke { args, stage } => OperationView::Invoke {
                args: args.deep_view(),
                stage: stage@,
            },
            Operation::Finished(result) => OperationView::Finished(reply_view(result)),
        }
    }
}

/// The operation that asks for one run and reads its outcome by `reading`.
pub open spec fn single(args: Seq<Seq<char>>, reading: ReadingView) -> OperationView {
    OperationView::Invoke { args, stage: StageView::Last { reading } }
}

/// The operation that runs the tool once more, with `args`, and is done
/// when that run succeeds.
pub open spec fn last_run(args: Seq<Seq<char>>) -> OperationView {
    single(args, ReadingView::Unit)
}

/// What follows a stage on the outcome of its run.
pub open spec fn advance(stage: StageView, outcome: IPTResult<Output>) -> OperationView {
    match stage {
        StageView::Last { reading } => OperationView::Finished(read(reading, outcome)),
        StageView::Unique { probe, add } => match found(probe, outcome) {
            Ok(present) => if present {
                OperationView::Finished(Err(IPTError::Other(RULE_EXISTS)))
            } else {
                last_run(add)
            },
            Err(e) => OperationView::Finished(Err(e)),
        },
        StageView::ReplaceProbe { probe, delete, append } => match found(probe, outcome) {
            Ok(present) => if present {
                OperationView::Invoke { args: delete, stage: StageView::ReplaceDelete { append } }
            } else {
                last_run(append)
            },
            Err(e) => OperationView::Finished(Err(e)),
        },
        StageView::ReplaceDelete { append } => match outcome {
            Ok(_) => last_run(append),
            Err(e) => OperationView::Finished(Err(e)),
        },
        StageView::PurgeProbe { probe, check, delete } => match found(probe, outcome) {
            Ok(present) => if present {
                OperationView::Invoke {
                    args: delete,
                    stage: StageView::PurgeDelete { probe, check, delete },
                }
            } else {
                OperationView::Finished(Ok(ReplyView::Flag(true)))
            },
            Err(e) => OperationView::Finished(Err(e)),
        },
        StageView::PurgeDelete { probe, check, delete } => match outcome {
            Ok(_) => OperationView::Invoke {
                args: check,
                stage: StageView::PurgeProbe { probe, check, delete },
            },
            Err(e) => OperationView::Finished(Err(e)),
        },
    }
}

/// The operation that follows `op` on the outcome of the run it asked for.
/// A finished operation stays as it is.
pub open spec fn step(op: OperationView, outcome: IPTResult<Output>) -> OperationView {
    match op {
        OperationView::Invoke { args, stage } => advance(stage, outcome),
        OperationView::Finished(_) => op,
    }
}

/// Copies a list of arguments.
pub fn copy_args(args: &Vec<String>) -> (same: Vec<String>)
    ensures
        same.deep_view() == args.deep_view(),
{
    let mut same: Vec<String> = Vec::new();
    let mut i: usize = 0;
    while i < args.len()
        invariant
            i <= args.len(),
            same.deep_view() == args.deep_view().take(i as int),
        decreases args.len() - i,
    {
        let ghost before = same.deep_view();
        same.push(args[i].clone());
        proof {
            assert(same.deep_view() =~~= before.push(args@[i as int]@));
            assert(args.deep_view().take(i + 1) =~~= args.deep_view().take(i as int).push(
                args@[i as int]@,
            ));
        }
        i += 1;
    }
    assert(args.deep_view().take(i as int) == args.deep_view());
    same
}

fn run_last(args: Vec<String>) -> (op: Operation)
    ensures
        op@ == last_run(args.deep_view()),
{
    Operation::Invoke { args, stage: Stage::Last { reading: Reading::Unit } }
}

impl Stage {
    fn proceed(self, outcome: IPTResult<Output>) -> (next: Operation)
        ensures
            next@ == advance(self@, outcome),
    {
        match self {
            Stage::Last { reading } => Operation::Finished(reading.interpret(outcome)),
            Stage::Unique { probe, add } => match probe.find(outcome) {
                Ok(true) => Operation::Finished(Err(IPTError::Other(RULE_EXISTS))),
                Ok(false) => run_last(add),
                Err(e) => Operation::Finished(Err(e)),
            },
            Stage::ReplaceProbe { probe, delete, append } => match probe.find(outcome) {
                Ok(true) => Operation::Invoke {
                    args: delete,
                    stage: Stage::ReplaceDelete { append },
                },
                Ok(false) => run_last(append),
                Err(e) => Operation::Finished(Err(e)),
            },
            Stage::ReplaceDelete { append } => match outcome {
                Ok(_) => run_last(append),
                Err(e) => Operation::Finished(Err(e)),
            },
            Stage::PurgeProbe { probe, check, delete } => match probe.find(outcome) {
                Ok(true) => {
                    let args = copy_args(&delete);
                    Operation::Invoke { args, stage: Stage::PurgeDelete { probe, check, delete } }
                },
                Ok(false) => Operation::Finished(Ok(Reply::Flag(true))),
                Err(e) => Operation::Finished(Err(e)),
            },
            Stage::PurgeDelete { probe, check, delete } => match outcome {
                Ok(_) => {
                    let args = copy_args(&check);
                    Operation::Invoke { args, stage: Stage::PurgeProbe { probe, check, delete } }
                },
                Err(e) => Operation::Finished(Err(e)),
            },
        }
    }
}

impl Operation {
    /// Takes the outcome of the run that was asked for and says what is due
    /// next.
    pub fn resume(self, outcome: IPTResult<Output>) -> (next: Operation)
        ensures
            next@ == step(self@, outcome),
    {
        match self {
            Operation::Invoke { args, stage } => stage.proceed(outcome),
            Operation::Finished(result) => Operation::Finished(result),
        }
    }
}

/// The kinds of answer there are.
pub enum Shape {
    Unit,
    Flag,
    Text,
    Lines,
    Raw,
}

impl ReplyView {
    /// The kind of this answer.
    pub open spec fn shape(self) -> Shape {
        match self {
            ReplyView::Unit => Shape::Unit,
            ReplyView::Flag(_) => Shape::Flag,
            ReplyView::Text(_) => Shape::Text,
            ReplyView::Lines(_) => Shape::Lines,
            ReplyView::Raw(_) => Shape::Raw,
        }
    }
}

impl ReadingView {
    /// The kind of answer that this reading gives.
    pub open spec fn gives(self) -> Shape {
        match self {
            ReadingView::Unit => Shape::Unit,
            ReadingView::Raw => Shape::Raw,
            ReadingView::ChainListed => Shape::Flag,
            ReadingView::Rule(_) => Shape::Flag,
            ReadingView::Lines => Shape::Lines,
            ReadingView::ChainNames => Shape::Lines,
            ReadingView::Policy { .. } => Shape::Text,
        }
    }
}

impl StageView {
    /// The kind of answer that an operation at this stage is after.
    pub open spec fn gives(self) -> Shape {
        match self {
            StageView::Last { reading } => reading.gives(),
            StageView::Unique { .. } => Shape::Unit,
            StageView::ReplaceProbe { .. } => Shape::Unit,
            StageView::ReplaceDelete { .. } => Shape::Unit,
            StageView::PurgeProbe { .. } => Shape::Flag,
            StageView::PurgeDelete { .. } => Shape::Flag,
        }
    }

    /// How many runs an operation at this stage can still ask for, the due
    /// one included; `None` where there is no bound, because the operation
    /// goes on for as long as the tool finds the rule.
    pub open spec fn runs_left(self) -> Option<nat> {
        match self {
            StageView::Last { .. } => Some(1),
            StageView::Unique { .. } => Some(2),
            StageView::ReplaceProbe { .. } => Some(3),
            StageView::ReplaceDelete { .. } => Some(2),
            StageView::PurgeProbe { .. } => None,
            StageView::PurgeDelete { .. } => None,
        }
    }
}

/// An operation keeps to the kind of answer it is after: whatever the run
/// brings, the next stage is after the same kind, and an answer is of that
/// kind.
pub proof fn lemma_answer_is_of_the_kind_asked_for(stage: StageView, outcome: IPTResult<Output>)
    ensures
        match advance(stage, outcome) {
            OperationView::Invoke { stage: next, .. } => next.gives() == stage.gives(),
            OperationView::Finished(Ok(reply)) => reply.shape() == stage.gives(),
            OperationView::Finished(Err(_)) => true,
        },
{
}

/// Every operation but the one that takes out all copies of a rule ends
/// after at most three runs: with each run the number of runs that may
/// follow goes down.
pub proof fn lemma_runs_are_counted(stage: StageView, outcome: IPTResult<Output>)
    ensures
        stage.runs_left() matches Some(before) ==> match advance(stage, outcome) {
            OperationView::Invoke { stage: next, .. } => next.runs_left() matches Some(after)
                && after < before,
            OperationView::Finished(_) => true,
        },
        stage.runs_left() matches Some(before) ==> before <= 3,
        stage.runs_left() is None ==> match advance(stage, outcome) {
            OperationView::Invoke { stage: next, .. } => next.runs_left() is None,
            OperationView::Finished(_) => true,
        },
{
}

} // verus!
