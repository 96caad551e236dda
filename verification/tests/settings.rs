use raftust_core::config::{help_text, parse_config, str_eq};
use raftust_core::counter::CounterCommand;
use raftust_core::key_value::{braced_pairs, StateMachineCommand};
use raftust_core::text::{
    chars_of, find_char, parse_i64_at, parse_u64, push_signed_decimal, trim_str, u64_to_string,
};
use raftust_core::{
    CounterStateMachine, FileStorage, KeyValueStateMachine, NoopStorage, StateMachineStrategy,
    StorageSnapshot, StorageStrategy,
};

fn args(list: &[&str]) -> Vec<String> {
    list.iter().map(|s| s.to_string()).collect()
}

#[test]
fn config_takes_defaults_for_timers() {
    let c = parse_config(args(&["--id", "1", "--addr", "127.0.0.1:5001", "--peer", "2=127.0.0.1:5002"]))
        .unwrap();
    assert_eq!(c.id, 1);
    assert_eq!(c.addr, "127.0.0.1:5001");
    assert_eq!(c.peer_addrs.len(), 1);
    assert_eq!(c.peer_addrs.get(&2).map(|s| s.as_str()), Some("127.0.0.1:5002"));
    assert_eq!(c.election_timeout_ticks, 20);
    assert_eq!(c.heartbeat_interval_ticks, 4);
    assert_eq!(c.tick_ms, 100);
}

#[test]
fn config_reads_every_option() {
    let c = parse_config(args(&[
        "--addr",
        "h:1",
        "--id",
        "+7",
        "--peer",
        "8=h:2=x",
        "--peer",
        "9=h:3",
        "--election-timeout",
        "30",
        "--heartbeat-interval",
        "29",
        "--tick-ms",
        "5",
    ]))
    .unwrap();
    assert_eq!(c.id, 7);
    assert_eq!(c.addr, "h:1");
    assert_eq!(c.peer_addrs.get(&8).map(|s| s.as_str()), Some("h:2=x"));
    assert_eq!(c.peer_addrs.get(&9).map(|s| s.as_str()), Some("h:3"));
    assert_eq!(c.election_timeout_ticks, 30);
    assert_eq!(c.heartbeat_interval_ticks, 29);
    assert_eq!(c.tick_ms, 5);
}

#[test]
fn config_errors_name_the_problem() {
    let err = |list: &[&str]| parse_config(args(list)).unwrap_err();
    assert_eq!(err(&["--id"]), "--id requires a value");
    assert_eq!(err(&["--id", "one"]), "invalid --id value");
    assert_eq!(err(&["--id", "-1"]), "invalid --id value");
    assert_eq!(err(&["--addr"]), "--addr requires a value");
    assert_eq!(err(&["--peer"]), "--peer requires <id>=<addr>");
    assert_eq!(err(&["--peer", "2"]), "--peer must be formatted as <id>=<addr>");
    assert_eq!(err(&["--peer", "x=h:1"]), "invalid peer id");
    assert_eq!(err(&["--election-timeout"]), "--election-timeout requires a value");
    assert_eq!(err(&["--election-timeout", "1.5"]), "invalid --election-timeout value");
    assert_eq!(err(&["--heartbeat-interval"]), "--heartbeat-interval requires a value");
    assert_eq!(err(&["--heartbeat-interval", ""]), "invalid --heartbeat-interval value");
    assert_eq!(err(&["--tick-ms"]), "--tick-ms requires a value");
    assert_eq!(err(&["--tick-ms", "18446744073709551616"]), "invalid --tick-ms value");
    assert_eq!(
        err(&["--id", "1", "--addr", "h:1", "--peer", "1=h:2"]),
        "--peer cannot include this node's own id"
    );
    assert_eq!(
        err(&["--id", "1", "--addr", "h:1", "--heartbeat-interval", "20"]),
        "heartbeat interval must be less than election timeout"
    );
}

#[test]
fn config_help_and_unknown_options() {
    let help = help_text();
    assert!(help.starts_with("Usage:\n  raftust-core --id <node-id>"));
    assert!(help.ends_with("--peer 3=127.0.0.1:5003"));
    assert_eq!(parse_config(args(&["--help"])).unwrap_err(), help);
    assert_eq!(parse_config(args(&["-h", "--id"])).unwrap_err(), help);
    assert_eq!(
        parse_config(args(&["--verbose"])).unwrap_err(),
        format!("unknown arg: --verbose\n\n{}", help)
    );
    assert_eq!(parse_config(args(&["--addr", "h:1"])).unwrap_err(), help);
    assert_eq!(parse_config(args(&["--id", "3"])).unwrap_err(), help);
    assert_eq!(parse_config(Vec::new()).unwrap_err(), help);
}

#[test]
fn strings_compare_by_characters() {
    assert!(str_eq("--id", "--id"));
    assert!(!str_eq("--id", "--ID"));
    assert!(!str_eq("--id", "--i"));
    assert!(str_eq("", ""));
}

#[test]
fn key_value_parses_set_and_del() {
    let sm = KeyValueStateMachine::new();
    match sm.parse_command("  set color light blue ") {
        Some(StateMachineCommand::Put { key, value }) => {
            assert_eq!(key, "color");
            assert_eq!(value, "light blue");
        }
        _ => panic!("expected a put"),
    }
    match sm.parse_command("del  size ") {
        Some(StateMachineCommand::Delete { key }) => assert_eq!(key, "size"),
        _ => panic!("expected a delete"),
    }
    assert!(sm.parse_command("set color").is_none());
    assert!(sm.parse_command("set  blue").is_none());
    assert!(sm.parse_command("del   ").is_none());
    assert!(sm.parse_command("SET a b").is_none());
    assert!(sm.parse_command("   ").is_none());
}

#[test]
fn key_value_overwrites_and_ignores_missing_deletes() {
    let mut sm = KeyValueStateMachine::new();
    sm.apply("set a 1");
    sm.apply("set b 2");
    sm.apply("set a 3");
    sm.apply("del zzz");
    sm.apply("bogus");
    assert_eq!(sm.describe(), "{\"a\": \"3\", \"b\": \"2\"}");
    sm.apply("del a");
    sm.apply("del b");
    assert_eq!(sm.describe(), "{}");
}

#[test]
fn key_value_describe_escapes_like_debug() {
    let mut sm = KeyValueStateMachine::new();
    sm.apply("set k a\"b\\c");
    assert_eq!(sm.describe(), "{\"k\": \"a\\\"b\\\\c\"}");
}

#[test]
fn counter_parses_each_command() {
    assert_eq!(CounterStateMachine::parse_command("add 5"), Some(CounterCommand::Add(5)));
    assert_eq!(CounterStateMachine::parse_command(" add  -3 "), Some(CounterCommand::Add(-3)));
    assert_eq!(CounterStateMachine::parse_command(" ADD -3 "), None);
    assert_eq!(CounterStateMachine::parse_command("INC"), Some(CounterCommand::Add(1)));
    assert_eq!(CounterStateMachine::parse_command("dec"), Some(CounterCommand::Add(-1)));
    assert_eq!(CounterStateMachine::parse_command("set 9"), Some(CounterCommand::SetTo(9)));
    assert_eq!(CounterStateMachine::parse_command("reset"), Some(CounterCommand::Reset));
    assert_eq!(CounterStateMachine::parse_command("Reset"), Some(CounterCommand::Reset));
    assert_eq!(CounterStateMachine::parse_command("add"), None);
    assert_eq!(CounterStateMachine::parse_command("add x"), None);
    assert_eq!(CounterStateMachine::parse_command("reset 1"), None);
    assert_eq!(CounterStateMachine::parse_command(""), None);
}

#[test]
fn counter_describes_negative_values() {
    let mut sm = CounterStateMachine::new();
    sm.apply("add -12");
    assert_eq!(sm.value(), -12);
    assert_eq!(sm.describe(), "counter=-12");
}

#[test]
fn default_description_is_generic() {
    struct Silent;
    impl StateMachineStrategy for Silent {
        fn apply(&mut self, _raw: &str) {}
    }
    assert_eq!(Silent.describe(), "<state-machine>");
}

#[test]
fn file_storage_names_its_files() {
    let storage = FileStorage::new("/tmp/raft".to_string());
    assert_eq!(storage.directory(), "/tmp/raft");
    assert_eq!(storage.snapshot_path(7), "/tmp/raft/node-7.json");
    assert_eq!(storage.temp_snapshot_path(7), "/tmp/raft/node-7.json.tmp");
    assert_eq!(storage.snapshot_path(1234567890), "/tmp/raft/node-1234567890.json");
    let slashed = FileStorage::new("data/".to_string());
    assert_eq!(slashed.snapshot_path(2), "data/node-2.json");
    let here = FileStorage::new(String::new());
    assert_eq!(here.temp_snapshot_path(3), "node-3.json.tmp");
}

#[test]
fn noop_storage_keeps_nothing() {
    let mut storage = NoopStorage;
    storage.save(StorageSnapshot {
        node_id: 1,
        current_term: 1,
        voted_for: None,
        log: Vec::new(),
        commit_index: 0,
        last_included_index: 0,
        last_included_term: 0,
        state_machine_snapshot: Vec::new(),
    });
    assert!(storage.load(1).is_none());
}

#[test]
fn numbers_parse_as_std_does() {
    assert_eq!(parse_u64("0"), Some(0));
    assert_eq!(parse_u64("+42"), Some(42));
    assert_eq!(parse_u64("18446744073709551615"), Some(u64::MAX));
    assert_eq!(parse_u64("18446744073709551616"), None);
    assert_eq!(parse_u64(""), None);
    assert_eq!(parse_u64("+"), None);
    assert_eq!(parse_u64("-1"), None);
    assert_eq!(parse_u64(" 1"), None);
    let v = chars_of("x-9223372036854775808y");
    assert_eq!(parse_i64_at(&v, 1, v.len() - 1), Some(i64::MIN));
    let v = chars_of("9223372036854775808");
    assert_eq!(parse_i64_at(&v, 0, v.len()), None);
    let v = chars_of("-0");
    assert_eq!(parse_i64_at(&v, 0, v.len()), Some(0));
}

#[test]
fn text_helpers_trim_find_and_print() {
    assert_eq!(trim_str("  a b \t\n"), "a b");
    assert_eq!(trim_str("   "), "");
    let v = chars_of("id=host=port");
    assert_eq!(find_char(&v, 0, v.len(), '='), Some(2));
    assert_eq!(find_char(&v, 3, v.len(), '='), Some(7));
    assert_eq!(find_char(&v, 0, 2, '='), None);
    assert_eq!(u64_to_string(0), "0");
    assert_eq!(u64_to_string(u64::MAX), "18446744073709551615");
    let mut out = String::from("n=");
    push_signed_decimal(&mut out, i64::MIN);
    assert_eq!(out, "n=-9223372036854775808");
}

#[test]
fn quoted_pairs_are_braced_and_joined() {
    assert_eq!(braced_pairs(&Vec::new()), "{}");
    let pairs = vec![
        ("\"a\"".to_string(), "\"1\"".to_string()),
        ("k".to_string(), "v w".to_string()),
    ];
    assert_eq!(braced_pairs(&pairs), "{\"a\": \"1\", k: v w}");
}
