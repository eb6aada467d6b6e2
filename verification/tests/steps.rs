//! Runs and requests, one step at a time.

use iptables::chains::{get_builtin_chains, names_contain};
use iptables::error::{ErrorKind, IPTError};
use iptables::invoke::{outcome_of, Event, Invocation, Output};
use iptables::operation::{Operation, Probe, Reading, Reply, Stage};
use iptables::IPTables;
use nix::errno::Errno;

fn words(list: &[&str]) -> Vec<String> {
    list.iter().map(|w| w.to_string()).collect()
}

fn output(code: Option<i32>, stdout: &[u8]) -> Output {
    Output { status: code, stdout: stdout.to_vec(), stderr: Vec::new() }
}

fn io_error() -> std::io::Error {
    std::io::Error::new(std::io::ErrorKind::NotFound, "no such tool")
}

const WITH_WAIT: IPTables = IPTables { cmd: "iptables", has_check: true, has_wait: true };
const WITH_LOCK: IPTables = IPTables { cmd: "iptables", has_check: true, has_wait: false };
const SCANNING: IPTables = IPTables { cmd: "iptables", has_check: false, has_wait: false };

#[test]
fn exit_codes_decide_the_outcome() {
    assert_eq!(outcome_of(output(Some(0), b"x")).unwrap(), output(Some(0), b"x"));
    assert_eq!(outcome_of(output(None, b"y")).unwrap(), output(None, b"y"));
    for code in [1, 2, 4, -1, 255] {
        match outcome_of(output(Some(code), b"z")) {
            Err(IPTError::BadExitStatus(found)) => assert_eq!(found, code),
            other => panic!("unexpected: {:?}", other),
        }
    }
}

#[test]
fn a_tool_that_waits_is_run_at_once() {
    let run = WITH_WAIT.run(words(&["-t", "nat", "-S"]));
    match &run {
        Invocation::Spawn { argv, locked } => {
            assert_eq!(*argv, words(&["-t", "nat", "-S", "--wait"]));
            assert!(!locked);
        }
        other => panic!("unexpected: {:?}", other),
    }
    match run.resume(Event::Exited(output(Some(0), b"-P INPUT ACCEPT\n"))) {
        Invocation::Finished(Ok(found)) => assert_eq!(found.stdout, b"-P INPUT ACCEPT\n"),
        other => panic!("unexpected: {:?}", other),
    }
    let run = WITH_WAIT.run(words(&["-t", "nat", "-S"]));
    match run.resume(Event::Exited(output(Some(4), b""))) {
        Invocation::Finished(Err(IPTError::BadExitStatus(4))) => (),
        other => panic!("unexpected: {:?}", other),
    }
    let run = WITH_WAIT.run(words(&["-t", "nat", "-S"]));
    match run.resume(Event::SpawnFailed(io_error())) {
        Invocation::Finished(Err(IPTError::Io(e))) => {
            assert_eq!(e.kind(), std::io::ErrorKind::NotFound)
        }
        other => panic!("unexpected: {:?}", other),
    }
}

#[test]
fn a_tool_that_cannot_wait_is_run_under_the_lock() {
    let run = WITH_LOCK.run(words(&["-t", "nat", "-F"]));
    match &run {
        Invocation::OpenLock { path, args } => {
            assert_eq!(*path, "/var/run/xtables_old.lock");
            assert_eq!(*args, words(&["-t", "nat", "-F"]));
        }
        other => panic!("unexpected: {:?}", other),
    }
    let run = run.resume(Event::LockOpened);
    assert!(matches!(run, Invocation::TryLock { .. }));
    // Somebody else holds the lock: try again, as often as it takes.
    let run = run.resume(Event::LockRefused(Errno::EAGAIN));
    assert!(matches!(run, Invocation::TryLock { .. }));
    let run = run.resume(Event::LockRefused(Errno::EWOULDBLOCK));
    assert!(matches!(run, Invocation::TryLock { .. }));
    let run = run.resume(Event::LockAcquired);
    match &run {
        Invocation::Spawn { argv, locked } => {
            assert_eq!(*argv, words(&["-t", "nat", "-F"]));
            assert!(locked);
        }
        other => panic!("unexpected: {:?}", other),
    }
    let run = run.resume(Event::Exited(output(Some(1), b"")));
    assert!(matches!(run, Invocation::Release { outcome: Err(IPTError::BadExitStatus(1)) }));
    match run.resume(Event::Released) {
        Invocation::Finished(Err(IPTError::BadExitStatus(1))) => (),
        other => panic!("unexpected: {:?}", other),
    }
}

#[test]
fn a_lock_that_fails_ends_the_run() {
    let run = WITH_LOCK.run(words(&["-t", "nat", "-F"])).resume(Event::LockOpened);
    let run = run.resume(Event::LockRefused(Errno::EBADF));
    assert!(matches!(run, Invocation::Release { outcome: Err(IPTError::Nix(Errno::EBADF)) }));
    match run.resume(Event::Released) {
        Invocation::Finished(Err(IPTError::Nix(Errno::EBADF))) => (),
        other => panic!("unexpected: {:?}", other),
    }
    let run = WITH_LOCK.run(words(&["-t", "nat", "-F"]));
    match run.resume(Event::OpenFailed(io_error())) {
        Invocation::Finished(Err(IPTError::Io(_))) => (),
        other => panic!("unexpected: {:?}", other),
    }
    let run = WITH_LOCK.run(words(&["-F"])).resume(Event::LockOpened).resume(Event::LockAcquired);
    let run = run.resume(Event::SpawnFailed(io_error()));
    assert!(matches!(run, Invocation::Release { outcome: Err(IPTError::Io(_)) }));
    assert!(matches!(run.resume(Event::Released), Invocation::Finished(Err(IPTError::Io(_)))));
}

#[test]
fn an_event_out_of_turn_changes_nothing() {
    let run = WITH_LOCK.run(words(&["-F"]));
    let run = run.resume(Event::LockAcquired);
    assert!(matches!(run, Invocation::OpenLock { .. }));
    let run = run.resume(Event::Exited(output(Some(0), b"")));
    assert!(matches!(run, Invocation::OpenLock { .. }));
    let run = run.resume(Event::LockOpened).resume(Event::Released);
    assert!(matches!(run, Invocation::TryLock { .. }));
    let run = run.resume(Event::LockAcquired).resume(Event::LockAcquired);
    assert!(matches!(run, Invocation::Spawn { locked: true, .. }));
    let run = run.resume(Event::Exited(output(Some(0), b""))).resume(Event::LockOpened);
    assert!(matches!(run, Invocation::Release { .. }));
    let run = run.resume(Event::Released).resume(Event::Exited(output(Some(9), b"")));
    assert!(matches!(run, Invocation::Finished(Ok(_))));
}

fn args_of(op: &Operation) -> Vec<String> {
    match op {
        Operation::Invoke { args, .. } => args.clone(),
        other => panic!("finished: {:?}", other),
    }
}

#[test]
fn each_request_asks_for_its_run() {
    let ipt = WITH_WAIT;
    let args = |op: iptables::error::IPTResult<Operation>| args_of(&op.unwrap());
    assert_eq!(args(ipt.get_policy("nat", "OUTPUT")), words(&["-t", "nat", "-L", "OUTPUT"]));
    assert_eq!(
        args(ipt.set_policy("nat", "OUTPUT", "DROP")),
        words(&["-t", "nat", "-P", "OUTPUT", "DROP"])
    );
    assert_eq!(args(ipt.execute("nat", "-L 'a b'")), words(&["-t", "nat", "-L", "a b"]));
    assert_eq!(
        args(ipt.rule_exists("nat", "X", "-j ACCEPT")),
        words(&["-t", "nat", "-C", "X", "-j", "ACCEPT"])
    );
    assert_eq!(args(SCANNING.rule_exists("nat", "X", "-j ACCEPT")), words(&["-t", "nat", "-S"]));
    assert_eq!(
        args_of(&ipt.exists_old_version("nat", "X", "-j ACCEPT")),
        words(&["-t", "nat", "-S"])
    );
    assert_eq!(args(ipt.chain_exists("nat", "X")), words(&["-t", "nat", "-L", "X"]));
    assert_eq!(
        args(ipt.insert("nat", "X", "-j ACCEPT", 3)),
        words(&["-t", "nat", "-I", "X", "3", "-j", "ACCEPT"])
    );
    assert_eq!(
        args(ipt.replace("nat", "X", "-j \"A B\"", 12)),
        words(&["-t", "nat", "-R", "X", "12", "-j", "A B"])
    );
    assert_eq!(
        args(ipt.insert("nat", "X", "", -1)),
        words(&["-t", "nat", "-I", "X", "-1"])
    );
    assert_eq!(
        args(ipt.append("nat", "X", "-j ACCEPT")),
        words(&["-t", "nat", "-A", "X", "-j", "ACCEPT"])
    );
    assert_eq!(
        args(ipt.delete("nat", "X", "-j ACCEPT")),
        words(&["-t", "nat", "-D", "X", "-j", "ACCEPT"])
    );
    assert_eq!(args(ipt.list("nat", "X")), words(&["-t", "nat", "-S", "X"]));
    assert_eq!(args(ipt.list_table("nat")), words(&["-t", "nat", "-S"]));
    assert_eq!(args(ipt.list_chains("nat")), words(&["-t", "nat", "-S"]));
    assert_eq!(args(ipt.new_chain("nat", "X")), words(&["-t", "nat", "-N", "X"]));
    assert_eq!(args(ipt.flush_chain("nat", "X")), words(&["-t", "nat", "-F", "X"]));
    assert_eq!(args(ipt.rename_chain("nat", "X", "Y")), words(&["-t", "nat", "-E", "X", "Y"]));
    assert_eq!(args(ipt.delete_chain("nat", "X")), words(&["-t", "nat", "-X", "X"]));
    assert_eq!(args(ipt.flush_table("nat")), words(&["-t", "nat", "-F"]));
    assert_eq!(args_of(&ipt.get_list(words(&["-S"]))), words(&["-S"]));
}

#[test]
fn a_check_reads_the_exit_code() {
    let ask = || WITH_WAIT.rule_exists("nat", "X", "-j ACCEPT").unwrap();
    assert!(matches!(ask().resume(Ok(output(Some(0), b""))), Operation::Finished(Ok(Reply::Flag(true)))));
    assert!(matches!(
        ask().resume(Err(IPTError::BadExitStatus(1))),
        Operation::Finished(Ok(Reply::Flag(false)))
    ));
    assert!(matches!(
        ask().resume(Err(IPTError::BadExitStatus(2))),
        Operation::Finished(Ok(Reply::Flag(false)))
    ));
    assert!(matches!(
        ask().resume(Err(IPTError::BadExitStatus(3))),
        Operation::Finished(Err(IPTError::BadExitStatus(3)))
    ));
    assert!(matches!(
        ask().resume(Err(IPTError::Io(io_error()))),
        Operation::Finished(Err(IPTError::Io(_)))
    ));
}

#[test]
fn a_scan_reads_the_dump() {
    let ask = || SCANNING.rule_exists("nat", "X", "-j ACCEPT").unwrap();
    let dump = b"-N X\n-A X -j ACCEPT\n";
    assert!(matches!(ask().resume(Ok(output(Some(0), dump))), Operation::Finished(Ok(Reply::Flag(true)))));
    assert!(matches!(
        ask().resume(Ok(output(Some(0), b"-N X\n"))),
        Operation::Finished(Ok(Reply::Flag(false)))
    ));
    // A scan has no exit code that means "no".
    assert!(matches!(
        ask().resume(Err(IPTError::BadExitStatus(1))),
        Operation::Finished(Err(IPTError::BadExitStatus(1)))
    ));
    let probe = Probe::Scan { chain: "X".to_string(), rule: "-j ACCEPT".to_string() };
    assert_eq!(probe.find(Ok(output(None, dump))).unwrap(), true);
    assert_eq!(probe.copy().find(Ok(output(None, b""))).unwrap(), false);
    assert_eq!(Probe::Check.find(Ok(output(None, b""))).unwrap(), true);
}

#[test]
fn a_listed_chain_is_there() {
    let ask = || WITH_WAIT.chain_exists("nat", "X").unwrap();
    assert!(matches!(ask().resume(Ok(output(Some(0), b""))), Operation::Finished(Ok(Reply::Flag(true)))));
    assert!(matches!(
        ask().resume(Err(IPTError::BadExitStatus(1))),
        Operation::Finished(Ok(Reply::Flag(false)))
    ));
    assert!(matches!(
        ask().resume(Err(IPTError::BadExitStatus(2))),
        Operation::Finished(Err(IPTError::BadExitStatus(2)))
    ));
}

#[test]
fn readings_decode_what_was_printed() {
    let printed = Ok(output(Some(0), b"-P INPUT ACCEPT\n-N caf\xc3\xa9\n-N bad\xff\n"));
    match Reading::ChainNames.interpret(printed) {
        Ok(Reply::Lines(names)) => assert_eq!(names, vec!["INPUT", "café", "bad\u{fffd}"]),
        other => panic!("unexpected: {:?}", other),
    }
    match Reading::Lines.interpret(Ok(output(Some(0), b"\xe2\x82\xac 1\n\xe2\x82 2\n"))) {
        Ok(Reply::Lines(lines)) => assert_eq!(lines, vec!["€ 1", "\u{fffd} 2"]),
        other => panic!("unexpected: {:?}", other),
    }
    let policy = Reading::Policy { chain: "INPUT".to_string() };
    match policy.interpret(Ok(output(Some(0), b"Chain INPUT (policy DROP)\n"))) {
        Ok(Reply::Text(found)) => assert_eq!(found, "DROP"),
        other => panic!("unexpected: {:?}", other),
    }
    match policy.interpret(Ok(output(Some(0), b"nothing\n"))) {
        Err(IPTError::Other(message)) => {
            assert_eq!(message, "could not find the default policy for table and chain")
        }
        other => panic!("unexpected: {:?}", other),
    }
    assert!(matches!(policy.interpret(Err(IPTError::BadExitStatus(1))), Err(IPTError::BadExitStatus(1))));
    assert_eq!(Reading::Unit.interpret(Ok(output(Some(0), b"x"))).unwrap(), Reply::Unit);
    assert_eq!(
        Reading::Raw.interpret(Ok(output(Some(0), b"x"))).unwrap(),
        Reply::Raw(output(Some(0), b"x"))
    );
    assert!(matches!(Reading::Raw.interpret(Err(IPTError::BadExitStatus(7))), Err(IPTError::BadExitStatus(7))));
}

#[test]
fn a_unique_insert_probes_first() {
    let op = WITH_WAIT.insert_unique("nat", "X", "-j ACCEPT", 1).unwrap();
    assert_eq!(args_of(&op), words(&["-t", "nat", "-C", "X", "-j", "ACCEPT"]));
    let op = op.resume(Err(IPTError::BadExitStatus(1)));
    assert_eq!(args_of(&op), words(&["-t", "nat", "-I", "X", "1", "-j", "ACCEPT"]));
    assert!(matches!(op.resume(Ok(output(Some(0), b""))), Operation::Finished(Ok(Reply::Unit))));

    let op = WITH_WAIT.append_unique("nat", "X", "-j ACCEPT").unwrap();
    match op.resume(Ok(output(Some(0), b""))) {
        Operation::Finished(Err(IPTError::Other(message))) => {
            assert_eq!(message, "the rule exists in the table/chain")
        }
        other => panic!("unexpected: {:?}", other),
    }
    let op = WITH_WAIT.append_unique("nat", "X", "-j ACCEPT").unwrap();
    assert!(matches!(
        op.resume(Err(IPTError::BadExitStatus(4))),
        Operation::Finished(Err(IPTError::BadExitStatus(4)))
    ));
    let op = SCANNING.append_unique("nat", "X", "-j ACCEPT").unwrap();
    let op = op.resume(Ok(output(Some(0), b"-N X\n")));
    assert_eq!(args_of(&op), words(&["-t", "nat", "-A", "X", "-j", "ACCEPT"]));
    assert!(matches!(
        op.resume(Err(IPTError::BadExitStatus(1))),
        Operation::Finished(Err(IPTError::BadExitStatus(1)))
    ));
}

#[test]
fn a_replacing_append_deletes_first() {
    let op = WITH_WAIT.append_replace("nat", "X", "-j ACCEPT").unwrap();
    assert_eq!(args_of(&op), words(&["-t", "nat", "-C", "X", "-j", "ACCEPT"]));
    let op = op.resume(Ok(output(Some(0), b"")));
    assert_eq!(args_of(&op), words(&["-t", "nat", "-D", "X", "-j", "ACCEPT"]));
    let op = op.resume(Ok(output(Some(0), b"")));
    assert_eq!(args_of(&op), words(&["-t", "nat", "-A", "X", "-j", "ACCEPT"]));
    assert!(matches!(op.resume(Ok(output(Some(0), b""))), Operation::Finished(Ok(Reply::Unit))));

    let op = WITH_WAIT.append_replace("nat", "X", "-j ACCEPT").unwrap();
    let op = op.resume(Err(IPTError::BadExitStatus(1)));
    assert_eq!(args_of(&op), words(&["-t", "nat", "-A", "X", "-j", "ACCEPT"]));

    let op = WITH_WAIT.append_replace("nat", "X", "-j ACCEPT").unwrap();
    let op = op.resume(Ok(output(Some(0), b""))).resume(Err(IPTError::BadExitStatus(1)));
    assert!(matches!(op, Operation::Finished(Err(IPTError::BadExitStatus(1)))));
}

#[test]
fn deleting_all_goes_round_until_nothing_is_found() {
    let mut op = WITH_WAIT.delete_all("nat", "X", "-j ACCEPT").unwrap();
    for _ in 0..4 {
        assert_eq!(args_of(&op), words(&["-t", "nat", "-C", "X", "-j", "ACCEPT"]));
        assert!(matches!(op, Operation::Invoke { stage: Stage::PurgeProbe { .. }, .. }));
        op = op.resume(Ok(output(Some(0), b"")));
        assert_eq!(args_of(&op), words(&["-t", "nat", "-D", "X", "-j", "ACCEPT"]));
        op = op.resume(Ok(output(Some(0), b"")));
    }
    let end = op.resume(Err(IPTError::BadExitStatus(1)));
    assert!(matches!(end, Operation::Finished(Ok(Reply::Flag(true)))));
    // Finished is finished.
    let end = end.resume(Ok(output(Some(0), b"")));
    assert!(matches!(end, Operation::Finished(Ok(Reply::Flag(true)))));

    let op = SCANNING.delete_all("nat", "X", "-j ACCEPT").unwrap();
    let op = op.resume(Ok(output(Some(0), b"-A X -j ACCEPT\n")));
    assert_eq!(args_of(&op), words(&["-t", "nat", "-D", "X", "-j", "ACCEPT"]));
    let op = op.resume(Err(IPTError::BadExitStatus(2)));
    assert!(matches!(op, Operation::Finished(Err(IPTError::BadExitStatus(2)))));
}

#[test]
fn built_in_chains_depend_on_the_table() {
    assert_eq!(get_builtin_chains("filter").unwrap(), vec!["INPUT", "FORWARD", "OUTPUT"]);
    assert_eq!(
        get_builtin_chains("mangle").unwrap(),
        vec!["PREROUTING", "OUTPUT", "INPUT", "FORWARD", "POSTROUTING"]
    );
    assert_eq!(get_builtin_chains("nat").unwrap(), vec!["PREROUTING", "POSTROUTING", "OUTPUT"]);
    assert_eq!(get_builtin_chains("raw").unwrap(), vec!["PREROUTING", "OUTPUT"]);
    assert_eq!(get_builtin_chains("security").unwrap(), vec!["INPUT", "OUTPUT", "FORWARD"]);
    for table in ["", "Filter", "filter ", "bridge"] {
        match get_builtin_chains(table) {
            Err(IPTError::Other(message)) => {
                assert_eq!(message, "given table is not supported by iptables")
            }
            other => panic!("unexpected: {:?}", other),
        }
    }
    let names = get_builtin_chains("raw").unwrap();
    assert!(names_contain(&names, "OUTPUT"));
    assert!(!names_contain(&names, "INPUT"));
    assert!(!names_contain(&Vec::new(), "INPUT"));
}

#[test]
fn failures_say_what_they_are() {
    assert_eq!(IPTError::BadExitStatus(3).message(), "3");
    assert_eq!(IPTError::BadExitStatus(-1).message(), "-1");
    assert_eq!(IPTError::Other("some message").message(), "some message");
    assert_eq!(IPTError::Nix(Errno::EAGAIN).message(), Errno::EAGAIN.to_string());
    assert_eq!(IPTError::Io(io_error()).message(), io_error().to_string());
    let parse = "x".parse::<i32>().unwrap_err();
    assert_eq!(IPTError::Parse(parse.clone()).message(), parse.to_string());
    let regex = regex::Regex::new("(").unwrap_err();
    assert_eq!(IPTError::Regex(regex.clone()).message(), regex.to_string());

    assert_eq!(IPTError::Io(io_error()).kind(), ErrorKind::Io);
    assert_eq!(IPTError::Regex(regex.clone()).kind(), ErrorKind::Regex);
    assert_eq!(IPTError::Nix(Errno::EPERM).kind(), ErrorKind::Nix);
    assert_eq!(IPTError::Parse(parse.clone()).kind(), ErrorKind::Parse);
    assert_eq!(IPTError::BadExitStatus(2).kind(), ErrorKind::BadExitStatus(2));
    assert_eq!(IPTError::Other("m").kind(), ErrorKind::Other("m"));

    assert!(matches!(IPTError::from(io_error()), IPTError::Io(_)));
    assert!(matches!(IPTError::from(regex), IPTError::Regex(_)));
    assert!(matches!(IPTError::from(Errno::EPERM), IPTError::Nix(Errno::EPERM)));
    assert!(matches!(IPTError::from(parse), IPTError::Parse(_)));
    assert!(matches!(IPTError::from("m"), IPTError::Other("m")));
}
