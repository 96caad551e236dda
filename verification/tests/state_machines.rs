use raftust_core::{CounterStateMachine, KeyValueStateMachine, StateMachineStrategy};

#[test]
fn applies_basic_counter_commands() {
    let mut sm = CounterStateMachine::new();

    sm.apply("inc");
    sm.apply("add 4");
    sm.apply("dec");

    assert_eq!(sm.value(), 4);
    assert_eq!(sm.describe(), "counter=4");
}

#[test]
fn supports_set_and_reset() {
    let mut sm = CounterStateMachine::new();

    sm.apply("set 10");
    sm.apply("reset");

    assert_eq!(sm.value(), 0);
}

#[test]
fn ignores_invalid_commands() {
    let mut sm = CounterStateMachine::new();

    sm.apply("add nope");
    sm.apply("something else");

    assert_eq!(sm.value(), 0);
}

#[test]
fn handles_whitespace_and_case_for_keywords() {
    let mut sm = CounterStateMachine::new();

    sm.apply("  INC  ");
    sm.apply("  dec");
    sm.apply("  reset   ");

    assert_eq!(sm.value(), 0);
    assert_eq!(sm.describe(), "counter=0");
}

#[test]
fn supports_negative_add_amounts() {
    let mut sm = CounterStateMachine::new();

    sm.apply("set 10");
    sm.apply("add -3");

    assert_eq!(sm.value(), 7);
}

#[test]
fn add_saturates_at_i64_bounds() {
    let mut sm = CounterStateMachine::new();

    sm.apply(&format!("set {}", i64::MAX));
    sm.apply("inc");
    assert_eq!(sm.value(), i64::MAX);

    sm.apply(&format!("set {}", i64::MIN));
    sm.apply("dec");
    assert_eq!(sm.value(), i64::MIN);
}

#[test]
fn applies_set_and_delete_commands() {
    let mut sm = KeyValueStateMachine::new();

    sm.apply("set color blue");
    sm.apply("set size large");
    sm.apply("del color");

    assert_eq!(sm.describe(), "{\"size\": \"large\"}");
}
