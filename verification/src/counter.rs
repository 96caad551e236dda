use vstd::prelude::*;

use crate::state_machine::StateMachineStrategy;
use crate::text::{
    chars_of, eq_ignore_case_at, has_prefix_at, parse_i64_at, push_signed_decimal, push_str,
    trim_bounds,
};

verus! {

/// A counter driven by text commands: `inc`, `dec`, `reset` (keywords in any
/// letter case), `add <n>` and `set <n>`, with surrounding white space
/// ignored. Anything else leaves it unchanged.
#[derive(Debug, Clone, Default)]
pub struct CounterStateMachine {
    value: i64,
}

/// A parsed counter command.
#[derive(Debug, Clone, Copy, PartialEq, Eq, Structural)]
pub enum CounterCommand {
    Add(i64),
    SetTo(i64),
    Reset,
}

/// The command that the text `raw` stands for, if any.
pub open spec fn counter_command(raw: Seq<char>) -> Option<CounterCommand> {
    let t = crate::text::trim(raw);
    if t.len() == 0 {
        None
    } else if crate::text::eq_ignore_ascii_case(t, "inc"@) {
        Some(CounterCommand::Add(1i64))
    } else if crate::text::eq_ignore_ascii_case(t, "dec"@) {
        Some(CounterCommand::Add(-1i64))
    } else if crate::text::eq_ignore_ascii_case(t, "reset"@) {
        Some(CounterCommand::Reset)
    } else if crate::text::starts_with(t, "add "@) {
        match crate::text::parse_i64_spec(crate::text::trim(t.skip("add "@.len() as int))) {
            Some(n) => Some(CounterCommand::Add(n)),
            None => None,
        }
    } else if crate::text::starts_with(t, "set "@) {
        match crate::text::parse_i64_spec(crate::text::trim(t.skip("set "@.len() as int))) {
            Some(n) => Some(CounterCommand::SetTo(n)),
            None => None,
        }
    } else {
        None
    }
}

/// `a + b`, held at the bounds of `i64` when it would leave them.
pub open spec fn saturating_add(a: i64, b: i64) -> i64 {
    if a + b > i64::MAX {
        i64::MAX
    } else if a + b < i64::MIN {
        i64::MIN
    } else {
        (a + b) as i64
    }
}

/// The counter value after applying the text `raw` to `value`.
pub open spec fn counter_after(value: i64, raw: Seq<char>) -> i64 {
    match counter_command(raw) {
        Some(CounterCommand::Add(d)) => saturating_add(value, d),
        Some(CounterCommand::SetTo(v)) => v,
        Some(CounterCommand::Reset) => 0,
        None => value,
    }
}

impl View for CounterStateMachine {
    type V = i64;

    closed spec fn view(&self) -> i64 {
        self.value
    }
}

impl CounterStateMachine {
    /// A counter at zero.
    pub fn new() -> (r: Self)
        ensures
            r@ == 0,
    {
        CounterStateMachine { value: 0 }
    }

    /// The current value.
    pub fn value(&self) -> (r: i64)
        ensures
            r == self@,
    {
        self.value
    }

    /// Reads the command that `raw` stands for.
    pub fn parse_command(raw: &str) -> (r: Option<CounterCommand>)
        ensures
            r == counter_command(raw@),
    {
        let v = chars_of(raw);
        let (start, end) = trim_bounds(&v);
        let ghost t = v@.subrange(start as int, end as int);
        proof {
            reveal_strlit("add ");
            reveal_strlit("set ");
        }
        if start == end {
            return None;
        }
        if eq_ignore_case_at(&v, start, end, "inc") {
            return Some(CounterCommand::Add(1));
        }
        if eq_ignore_case_at(&v, start, end, "dec") {
            return Some(CounterCommand::Add(-1));
        }
        if eq_ignore_case_at(&v, start, end, "reset") {
            return Some(CounterCommand::Reset);
        }
        if has_prefix_at(&v, start, end, "add ") {
            let (s2, e2) = Self::trimmed_rest(&v, start + 4, end);
            proof {
                assert(v@.subrange(start + 4, end as int) == t.skip(4));
            }
            return match parse_i64_at(&v, s2, e2) {
                Some(n) => Some(CounterCommand::Add(n)),
                None => None,
            };
        }
        if has_prefix_at(&v, start, end, "set ") {
            let (s2, e2) = Self::trimmed_rest(&v, start + 4, end);
            proof {
                assert(v@.subrange(start + 4, end as int) == t.skip(4));
            }
            return match parse_i64_at(&v, s2, e2) {
                Some(n) => Some(CounterCommand::SetTo(n)),
                None => None,
            };
        }
        None
    }

    /// Bounds of `trim(v[from..to])` within `v`.
    fn trimmed_rest(v: &Vec<char>, from: usize, to: usize) -> (r: (usize, usize))
        requires
            from <= to <= v@.len(),
        ensures
            from <= r.0 <= r.1 <= to,
            v@.subrange(r.0 as int, r.1 as int) == crate::text::trim(
                v@.subrange(from as int, to as int),
            ),
    {
        let mut part: Vec<char> = Vec::new();
        let mut i: usize = from;
        while i < to
            invariant
                from <= i <= to <= v@.len(),
                part@ == v@.subrange(from as int, i as int),
            decreases to - i,
        {
            part.push(v[i]);
            i = i + 1;
        }
        let (s, e) = trim_bounds(&part);
        proof {
            assert(part@.subrange(s as int, e as int) == v@.subrange(from + s, from + e));
        }
        (from + s, from + e)
    }
}

impl StateMachineStrategy for CounterStateMachine {
    /// Applies the command `raw` stands for; text that is no command is ignored.
    fn apply(&mut self, raw: &str)
        ensures
            final(self)@ == counter_after(old(self)@, raw@),
    {
        match Self::parse_command(raw) {
            Some(CounterCommand::Add(delta)) => {
                self.value = match self.value.checked_add(delta) {
                    Some(v) => v,
                    None => if delta > 0 {
                        i64::MAX
                    } else {
                        i64::MIN
                    },
                };
            },
            Some(CounterCommand::SetTo(value)) => {
                self.value = value;
            },
            Some(CounterCommand::Reset) => {
                self.value = 0;
            },
            None => {},
        }
    }

    /// `counter=` followed by the value in decimal.
    fn describe(&self) -> (r: String)
        ensures
            r@ == "counter="@ + crate::text::signed_decimal(self@ as int),
    {
        let mut out = String::new();
        push_str(&mut out, "counter=");
        push_signed_decimal(&mut out, self.value);
        proof {
            assert(out@ =~= "counter="@ + crate::text::signed_decimal(self@ as int));
        }
        out
    }
}

} // verus!
