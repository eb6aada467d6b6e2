//! Whole requests, carried out against a stand-in for the tool that keeps
//! its tables in memory.

use iptables::error::{IPTError, IPTResult};
use iptables::invoke::{Event, Invocation, Output};
use iptables::operation::{Operation, Reply};
use iptables::IPTables;
use nix::errno::Errno;

struct Chain {
    name: String,
    policy: Option<String>,
    rules: Vec<Vec<String>>,
}

/// The tables of a freshly booted machine, and how many runs they have seen.
struct Tool {
    tables: Vec<(String, Vec<Chain>)>,
    runs: usize,
    busy: usize,
}

fn ok(stdout: String) -> Output {
    Output { status: Some(0), stdout: stdout.into_bytes(), stderr: Vec::new() }
}

fn fail(code: i32) -> Output {
    Output { status: Some(code), stdout: Vec::new(), stderr: Vec::new() }
}

fn show(rule: &[String]) -> String {
    let shown: Vec<String> = rule
        .iter()
        .map(|word| if word.contains(' ') { format!("\"{}\"", word) } else { word.clone() })
        .collect();
    shown.join(" ")
}

impl Tool {
    fn new() -> Tool {
        let builtin = [
            ("filter", vec!["INPUT", "FORWARD", "OUTPUT"]),
            ("mangle", vec!["PREROUTING", "INPUT", "FORWARD", "OUTPUT", "POSTROUTING"]),
            ("nat", vec!["PREROUTING", "INPUT", "OUTPUT", "POSTROUTING"]),
            ("raw", vec!["PREROUTING", "OUTPUT"]),
            ("security", vec!["INPUT", "FORWARD", "OUTPUT"]),
        ];
        let mut tables = Vec::new();
        for (table, chains) in builtin {
            let chains = chains
                .into_iter()
                .map(|name| Chain {
                    name: name.to_string(),
                    policy: Some("ACCEPT".to_string()),
                    rules: Vec::new(),
                })
                .collect();
            tables.push((table.to_string(), chains));
        }
        Tool { tables, runs: 0, busy: 0 }
    }

    fn run(&mut self, argv: &[String]) -> Output {
        self.runs += 1;
        let mut argv: Vec<String> = argv.to_vec();
        if argv.last().map(String::as_str) == Some("--wait") {
            argv.pop();
        }
        if argv.len() < 3 || argv[0] != "-t" {
            return fail(2);
        }
        let chains = match self.tables.iter_mut().find(|(name, _)| *name == argv[1]) {
            Some((_, chains)) => chains,
            None => return fail(3),
        };
        let flag = argv[2].clone();
        let rest = &argv[3..];
        if rest.is_empty() {
            return match flag.as_str() {
                "-S" => ok(dump(chains, None)),
                "-F" => {
                    for chain in chains.iter_mut() {
                        chain.rules.clear();
                    }
                    ok(String::new())
                }
                _ => fail(2),
            };
        }
        let name = rest[0].clone();
        let words = &rest[1..];
        if flag == "-N" {
            if chains.iter().any(|c| c.name == name) {
                return fail(1);
            }
            chains.push(Chain { name, policy: None, rules: Vec::new() });
            return ok(String::new());
        }
        let at = match chains.iter().position(|c| c.name == name) {
            Some(at) => at,
            None => return fail(1),
        };
        match flag.as_str() {
            "-S" => ok(dump(chains, Some(at))),
            "-L" => {
                let chain = &chains[at];
                let head = match &chain.policy {
                    Some(policy) => format!("Chain {} (policy {})\n", chain.name, policy),
                    None => format!("Chain {} (0 references)\n", chain.name),
                };
                ok(head + "target     prot opt source               destination\n")
            }
            "-X" => {
                if chains[at].policy.is_some() || !chains[at].rules.is_empty() {
                    return fail(1);
                }
                chains.remove(at);
                ok(String::new())
            }
            "-F" => {
                chains[at].rules.clear();
                ok(String::new())
            }
            "-E" => {
                chains[at].name = words[0].clone();
                ok(String::new())
            }
            "-P" => {
                if chains[at].policy.is_none() {
                    return fail(1);
                }
                chains[at].policy = Some(words[0].clone());
                ok(String::new())
            }
            "-A" => {
                chains[at].rules.push(words.to_vec());
                ok(String::new())
            }
            "-C" => {
                if chains[at].rules.iter().any(|r| r.as_slice() == words) {
                    ok(String::new())
                } else {
                    fail(1)
                }
            }
            "-D" => match chains[at].rules.iter().position(|r| r.as_slice() == words) {
                Some(found) => {
                    chains[at].rules.remove(found);
                    ok(String::new())
                }
                None => fail(1),
            },
            "-I" | "-R" => {
                let position: usize = match words[0].parse() {
                    Ok(position) if position >= 1 => position,
                    _ => return fail(2),
                };
                let rule = words[1..].to_vec();
                let rules = &mut chains[at].rules;
                if flag == "-I" && position <= rules.len() + 1 {
                    rules.insert(position - 1, rule);
                    ok(String::new())
                } else if flag == "-R" && position <= rules.len() {
                    rules[position - 1] = rule;
                    ok(String::new())
                } else {
                    fail(1)
                }
            }
            _ => fail(2),
        }
    }
}

fn dump(chains: &[Chain], only: Option<usize>) -> String {
    let mut text = String::new();
    for (i, chain) in chains.iter().enumerate() {
        if only.is_none() || only == Some(i) {
            match &chain.policy {
                Some(policy) => text += &format!("-P {} {}\n", chain.name, policy),
                None => text += &format!("-N {}\n", chain.name),
            }
        }
    }
    for (i, chain) in chains.iter().enumerate() {
        if only.is_none() || only == Some(i) {
            for rule in &chain.rules {
                text += &format!("-A {} {}\n", chain.name, show(rule));
            }
        }
    }
    text
}

/// Carries out one run as the library asks for it, step by step.
fn invoke(ipt: &IPTables, tool: &mut Tool, args: Vec<String>) -> IPTResult<Output> {
    let mut run = ipt.run(args);
    let mut locked = false;
    loop {
        let event = match &run {
            Invocation::OpenLock { path, .. } => {
                assert_eq!(*path, "/var/run/xtables_old.lock");
                Event::LockOpened
            }
            Invocation::TryLock { .. } => {
                if tool.busy > 0 {
                    tool.busy -= 1;
                    Event::LockRefused(Errno::EAGAIN)
                } else {
                    locked = true;
                    Event::LockAcquired
                }
            }
            Invocation::Spawn { argv, locked: held } => {
                assert_eq!(*held, locked);
                assert_eq!(*held, !ipt.has_wait);
                Event::Exited(tool.run(argv))
            }
            Invocation::Release { .. } => {
                locked = false;
                Event::Released
            }
            Invocation::Finished(_) => break,
        };
        run = run.resume(event);
    }
    assert!(!locked);
    match run {
        Invocation::Finished(outcome) => outcome,
        _ => unreachable!(),
    }
}

/// Carries out a request: every run it asks for, until it has its answer.
fn perform(ipt: &IPTables, tool: &mut Tool, op: IPTResult<Operation>) -> IPTResult<Reply> {
    let mut op = op?;
    loop {
        let args = match &op {
            Operation::Finished(_) => break,
            Operation::Invoke { args, .. } => args.clone(),
        };
        let outcome = invoke(ipt, tool, args);
        op = op.resume(outcome);
    }
    match op {
        Operation::Finished(reply) => reply,
        _ => unreachable!(),
    }
}

fn done(reply: IPTResult<Reply>) -> bool {
    reply.unwrap() == Reply::Unit
}

fn flag(reply: IPTResult<Reply>) -> bool {
    match reply.unwrap() {
        Reply::Flag(flag) => flag,
        other => panic!("no flag: {:?}", other),
    }
}

fn list(reply: IPTResult<Reply>) -> Vec<String> {
    match reply.unwrap() {
        Reply::Lines(lines) => lines,
        other => panic!("no list: {:?}", other),
    }
}

fn text(reply: IPTResult<Reply>) -> String {
    match reply.unwrap() {
        Reply::Text(text) => text,
        other => panic!("no text: {:?}", other),
    }
}

fn modern() -> IPTables {
    iptables::new(false, b"iptables v1.8.7 (nf_tables)\n").unwrap()
}

fn ancient() -> IPTables {
    IPTables { cmd: "iptables", has_wait: false, has_check: false }
}

#[test]
fn test_new() {
    let mut tool = Tool::new();
    nat_table(modern(), &mut tool, "NATNEW", "NATNEW2");
    filter_table(modern(), &mut tool, "FILTERNEW");
}

#[test]
fn test_old() {
    let mut tool = Tool::new();
    nat_table(ancient(), &mut tool, "NATOLD", "NATOLD2");
    filter_table(ancient(), &mut tool, "FILTEROLD");
}

fn nat_table(ipt: IPTables, tool: &mut Tool, old_name: &str, new_name: &str) {
    assert_eq!(done(perform(&ipt, tool, ipt.new_chain("nat", old_name))), true);
    assert_eq!(done(perform(&ipt, tool, ipt.rename_chain("nat", old_name, new_name))), true);
    assert_eq!(done(perform(&ipt, tool, ipt.append("nat", new_name, "-j ACCEPT"))), true);
    assert_eq!(flag(perform(&ipt, tool, ipt.rule_exists("nat", new_name, "-j ACCEPT"))), true);
    assert_eq!(done(perform(&ipt, tool, ipt.delete("nat", new_name, "-j ACCEPT"))), true);
    assert_eq!(done(perform(&ipt, tool, ipt.insert("nat", new_name, "-j ACCEPT", 1))), true);
    assert_eq!(
        done(perform(
            &ipt,
            tool,
            ipt.append("nat", new_name, "-m comment --comment \"double-quoted comment\" -j ACCEPT")
        )),
        true
    );
    assert_eq!(
        flag(perform(
            &ipt,
            tool,
            ipt.rule_exists(
                "nat",
                new_name,
                "-m comment --comment \"double-quoted comment\" -j ACCEPT"
            )
        )),
        true
    );
    assert_eq!(
        done(perform(
            &ipt,
            tool,
            ipt.append("nat", new_name, "-m comment --comment 'single-quoted comment' -j ACCEPT")
        )),
        true
    );
    // A tool that cannot check prints its rules with double quotes, so the
    // question has to be put with double quotes.
    assert_eq!(
        flag(perform(
            &ipt,
            tool,
            ipt.rule_exists(
                "nat",
                new_name,
                "-m comment --comment \"single-quoted comment\" -j ACCEPT"
            )
        )),
        true
    );
    assert_eq!(done(perform(&ipt, tool, ipt.flush_chain("nat", new_name))), true);
    assert_eq!(flag(perform(&ipt, tool, ipt.rule_exists("nat", new_name, "-j ACCEPT"))), false);
    assert!(perform(&ipt, tool, ipt.execute("nat", &format!("-A {} -j ACCEPT", new_name))).is_ok());
    assert_eq!(flag(perform(&ipt, tool, ipt.rule_exists("nat", new_name, "-j ACCEPT"))), true);
    assert_eq!(done(perform(&ipt, tool, ipt.flush_chain("nat", new_name))), true);
    assert_eq!(flag(perform(&ipt, tool, ipt.chain_exists("nat", new_name))), true);
    assert_eq!(done(perform(&ipt, tool, ipt.delete_chain("nat", new_name))), true);
    assert_eq!(flag(perform(&ipt, tool, ipt.chain_exists("nat", new_name))), false);
}

fn filter_table(ipt: IPTables, tool: &mut Tool, name: &str) {
    assert_eq!(done(perform(&ipt, tool, ipt.new_chain("filter", name))), true);
    assert_eq!(done(perform(&ipt, tool, ipt.insert("filter", name, "-j ACCEPT", 1))), true);
    assert_eq!(done(perform(&ipt, tool, ipt.replace("filter", name, "-j DROP", 1))), true);
    assert_eq!(flag(perform(&ipt, tool, ipt.rule_exists("filter", name, "-j DROP"))), true);
    assert_eq!(flag(perform(&ipt, tool, ipt.rule_exists("filter", name, "-j ACCEPT"))), false);
    assert_eq!(done(perform(&ipt, tool, ipt.delete("filter", name, "-j DROP"))), true);
    assert_eq!(list(perform(&ipt, tool, ipt.list("filter", name))).len(), 1);
    assert!(perform(&ipt, tool, ipt.execute("filter", &format!("-A {} -j ACCEPT", name))).is_ok());
    assert_eq!(flag(perform(&ipt, tool, ipt.rule_exists("filter", name, "-j ACCEPT"))), true);
    assert_eq!(
        done(perform(
            &ipt,
            tool,
            ipt.append("filter", name, "-m comment --comment \"double-quoted comment\" -j ACCEPT")
        )),
        true
    );
    assert_eq!(
        flag(perform(
            &ipt,
            tool,
            ipt.rule_exists(
                "filter",
                name,
                "-m comment --comment \"double-quoted comment\" -j ACCEPT"
            )
        )),
        true
    );
    assert_eq!(
        done(perform(
            &ipt,
            tool,
            ipt.append("filter", name, "-m comment --comment 'single-quoted comment' -j ACCEPT")
        )),
        true
    );
    assert_eq!(
        flag(perform(
            &ipt,
            tool,
            ipt.rule_exists(
                "filter",
                name,
                "-m comment --comment \"single-quoted comment\" -j ACCEPT"
            )
        )),
        true
    );
    assert_eq!(done(perform(&ipt, tool, ipt.flush_chain("filter", name))), true);
    assert_eq!(flag(perform(&ipt, tool, ipt.chain_exists("filter", name))), true);
    assert_eq!(done(perform(&ipt, tool, ipt.delete_chain("filter", name))), true);
    assert_eq!(flag(perform(&ipt, tool, ipt.chain_exists("filter", name))), false);
}

#[test]
fn test_get_policy() {
    let ipt = modern();
    let mut tool = Tool::new();

    // filter
    assert!(perform(&ipt, &mut tool, ipt.get_policy("filter", "INPUT")).is_ok());
    assert!(perform(&ipt, &mut tool, ipt.get_policy("filter", "FORWARD")).is_ok());
    assert!(perform(&ipt, &mut tool, ipt.get_policy("filter", "OUTPUT")).is_ok());
    // mangle
    assert!(perform(&ipt, &mut tool, ipt.get_policy("mangle", "PREROUTING")).is_ok());
    assert!(perform(&ipt, &mut tool, ipt.get_policy("mangle", "OUTPUT")).is_ok());
    assert!(perform(&ipt, &mut tool, ipt.get_policy("mangle", "INPUT")).is_ok());
    assert!(perform(&ipt, &mut tool, ipt.get_policy("mangle", "FORWARD")).is_ok());
    assert!(perform(&ipt, &mut tool, ipt.get_policy("mangle", "POSTROUTING")).is_ok());
    // nat
    assert!(perform(&ipt, &mut tool, ipt.get_policy("nat", "PREROUTING")).is_ok());
    assert!(perform(&ipt, &mut tool, ipt.get_policy("nat", "POSTROUTING")).is_ok());
    assert!(perform(&ipt, &mut tool, ipt.get_policy("nat", "OUTPUT")).is_ok());
    // raw
    assert!(perform(&ipt, &mut tool, ipt.get_policy("raw", "PREROUTING")).is_ok());
    assert!(perform(&ipt, &mut tool, ipt.get_policy("raw", "OUTPUT")).is_ok());
    // security
    assert!(perform(&ipt, &mut tool, ipt.get_policy("security", "INPUT")).is_ok());
    assert!(perform(&ipt, &mut tool, ipt.get_policy("security", "OUTPUT")).is_ok());
    assert!(perform(&ipt, &mut tool, ipt.get_policy("security", "FORWARD")).is_ok());

    // Wrong table
    assert!(perform(&ipt, &mut tool, ipt.get_policy("not_existant", "_")).is_err());
    // Wrong chain
    assert!(perform(&ipt, &mut tool, ipt.get_policy("filter", "_")).is_err());
}

#[test]
fn test_set_policy() {
    let ipt = modern();
    let mut tool = Tool::new();

    let current_policy = text(perform(&ipt, &mut tool, ipt.get_policy("mangle", "FORWARD")));
    assert_eq!(done(perform(&ipt, &mut tool, ipt.set_policy("mangle", "FORWARD", "DROP"))), true);
    assert_eq!(text(perform(&ipt, &mut tool, ipt.get_policy("mangle", "FORWARD"))), "DROP");

    // Back to what it was.
    assert!(perform(&ipt, &mut tool, ipt.set_policy("mangle", "FORWARD", &current_policy)).is_ok());
    assert_eq!(text(perform(&ipt, &mut tool, ipt.get_policy("mangle", "FORWARD"))), "ACCEPT");
}

#[test]
fn policy_of_a_chain_that_is_not_built_in_runs_nothing() {
    let ipt = modern();
    let mut tool = Tool::new();
    assert!(perform(&ipt, &mut tool, ipt.new_chain("filter", "MINE")).is_ok());
    let runs = tool.runs;
    match perform(&ipt, &mut tool, ipt.get_policy("filter", "MINE")) {
        Err(IPTError::Other(message)) => assert_eq!(
            message,
            "given chain is not a default chain in the given table, can't get policy"
        ),
        other => panic!("not refused: {:?}", other),
    }
    match perform(&ipt, &mut tool, ipt.set_policy("filter", "MINE", "DROP")) {
        Err(IPTError::Other(message)) => assert_eq!(
            message,
            "given chain is not a default chain in the given table, can't set policy"
        ),
        other => panic!("not refused: {:?}", other),
    }
    match perform(&ipt, &mut tool, ipt.get_policy("bridge", "INPUT")) {
        Err(IPTError::Other(message)) => {
            assert_eq!(message, "given table is not supported by iptables")
        }
        other => panic!("not refused: {:?}", other),
    }
    assert_eq!(tool.runs, runs);
}

#[test]
fn exists_follows_append_and_delete() {
    for ipt in [modern(), ancient()] {
        let mut tool = Tool::new();
        assert!(perform(&ipt, &mut tool, ipt.new_chain("filter", "FRESH")).is_ok());
        assert!(!flag(perform(&ipt, &mut tool, ipt.rule_exists("filter", "FRESH", "-j DROP"))));
        assert!(perform(&ipt, &mut tool, ipt.append("filter", "FRESH", "-j DROP")).is_ok());
        assert!(flag(perform(&ipt, &mut tool, ipt.rule_exists("filter", "FRESH", "-j DROP"))));
        assert!(perform(&ipt, &mut tool, ipt.delete("filter", "FRESH", "-j DROP")).is_ok());
        assert!(!flag(perform(&ipt, &mut tool, ipt.rule_exists("filter", "FRESH", "-j DROP"))));
    }
}

#[test]
fn insert_unique_refuses_a_rule_that_is_there() {
    for ipt in [modern(), ancient()] {
        let mut tool = Tool::new();
        assert!(perform(&ipt, &mut tool, ipt.new_chain("filter", "ONCE")).is_ok());
        assert!(done(perform(&ipt, &mut tool, ipt.insert_unique("filter", "ONCE", "-j DROP", 1))));
        let runs = tool.runs;
        match perform(&ipt, &mut tool, ipt.insert_unique("filter", "ONCE", "-j DROP", 1)) {
            Err(IPTError::Other(message)) => {
                assert_eq!(message, "the rule exists in the table/chain")
            }
            other => panic!("not refused: {:?}", other),
        }
        // The probe ran; the insertion did not.
        assert_eq!(tool.runs, runs + 1);
        match perform(&ipt, &mut tool, ipt.append_unique("filter", "ONCE", "-j DROP")) {
            Err(IPTError::Other(message)) => {
                assert_eq!(message, "the rule exists in the table/chain")
            }
            other => panic!("not refused: {:?}", other),
        }
        assert!(done(perform(&ipt, &mut tool, ipt.append_unique("filter", "ONCE", "-j ACCEPT"))));
        assert_eq!(
            list(perform(&ipt, &mut tool, ipt.list("filter", "ONCE"))),
            vec!["-N ONCE", "-A ONCE -j DROP", "-A ONCE -j ACCEPT"]
        );
    }
}

#[test]
fn append_replace_leaves_one_copy() {
    for ipt in [modern(), ancient()] {
        let mut tool = Tool::new();
        assert!(perform(&ipt, &mut tool, ipt.new_chain("nat", "SWAP")).is_ok());
        assert!(done(perform(&ipt, &mut tool, ipt.append_replace("nat", "SWAP", "-j ACCEPT"))));
        assert!(done(perform(&ipt, &mut tool, ipt.append_replace("nat", "SWAP", "-j DROP"))));
        assert!(done(perform(&ipt, &mut tool, ipt.append_replace("nat", "SWAP", "-j ACCEPT"))));
        assert_eq!(
            list(perform(&ipt, &mut tool, ipt.list("nat", "SWAP"))),
            vec!["-N SWAP", "-A SWAP -j DROP", "-A SWAP -j ACCEPT"]
        );
    }
}

#[test]
fn delete_all_takes_every_copy() {
    for ipt in [modern(), ancient()] {
        let mut tool = Tool::new();
        assert!(perform(&ipt, &mut tool, ipt.new_chain("nat", "MANY")).is_ok());
        for _ in 0..3 {
            assert!(perform(&ipt, &mut tool, ipt.append("nat", "MANY", "-j ACCEPT")).is_ok());
        }
        assert!(perform(&ipt, &mut tool, ipt.append("nat", "MANY", "-j DROP")).is_ok());
        assert_eq!(flag(perform(&ipt, &mut tool, ipt.delete_all("nat", "MANY", "-j ACCEPT"))), true);
        assert_eq!(
            list(perform(&ipt, &mut tool, ipt.list("nat", "MANY"))),
            vec!["-N MANY", "-A MANY -j DROP"]
        );
        // Nothing left to take: one probe, no delete.
        let runs = tool.runs;
        assert_eq!(flag(perform(&ipt, &mut tool, ipt.delete_all("nat", "MANY", "-j ACCEPT"))), true);
        assert_eq!(tool.runs, runs + 1);
    }
}

#[test]
fn list_chains_follows_new_and_delete() {
    let ipt = modern();
    let mut tool = Tool::new();
    assert_eq!(
        list(perform(&ipt, &mut tool, ipt.list_chains("raw"))),
        vec!["PREROUTING", "OUTPUT"]
    );
    assert!(perform(&ipt, &mut tool, ipt.new_chain("raw", "EXTRA")).is_ok());
    assert_eq!(
        list(perform(&ipt, &mut tool, ipt.list_chains("raw"))),
        vec!["PREROUTING", "OUTPUT", "EXTRA"]
    );
    assert!(perform(&ipt, &mut tool, ipt.append("raw", "EXTRA", "-j ACCEPT")).is_ok());
    assert_eq!(
        list(perform(&ipt, &mut tool, ipt.list_table("raw"))),
        vec!["-P PREROUTING ACCEPT", "-P OUTPUT ACCEPT", "-N EXTRA", "-A EXTRA -j ACCEPT"]
    );
    assert!(perform(&ipt, &mut tool, ipt.flush_table("raw")).is_ok());
    assert!(perform(&ipt, &mut tool, ipt.delete_chain("raw", "EXTRA")).is_ok());
    assert_eq!(
        list(perform(&ipt, &mut tool, ipt.list_chains("raw"))),
        vec!["PREROUTING", "OUTPUT"]
    );
}

#[test]
fn a_busy_lock_is_tried_again() {
    let ipt = ancient();
    let mut tool = Tool::new();
    tool.busy = 5;
    assert!(perform(&ipt, &mut tool, ipt.new_chain("filter", "LATE")).is_ok());
    assert_eq!(tool.busy, 0);
    assert_eq!(flag(perform(&ipt, &mut tool, ipt.chain_exists("filter", "LATE"))), true);
}

#[test]
fn failures_of_the_tool_come_back_with_their_code() {
    let ipt = modern();
    let mut tool = Tool::new();
    match perform(&ipt, &mut tool, ipt.delete("filter", "INPUT", "-j DROP")) {
        Err(IPTError::BadExitStatus(1)) => (),
        other => panic!("unexpected: {:?}", other),
    }
    match perform(&ipt, &mut tool, ipt.chain_exists("bridge", "INPUT")) {
        Err(IPTError::BadExitStatus(3)) => (),
        other => panic!("unexpected: {:?}", other),
    }
    match perform(&ipt, &mut tool, ipt.rule_exists("bridge", "INPUT", "-j DROP")) {
        Err(IPTError::BadExitStatus(3)) => (),
        other => panic!("unexpected: {:?}", other),
    }
    match perform(&ipt, &mut tool, ipt.execute("filter", "-L INPUT")) {
        Ok(Reply::Raw(output)) => {
            assert_eq!(output.status, Some(0));
            assert!(String::from_utf8(output.stdout).unwrap().starts_with("Chain INPUT (policy"));
        }
        other => panic!("unexpected: {:?}", other),
    }
}
