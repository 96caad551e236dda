use vstd::prelude::*;

use crate::state_machine::StateMachineStrategy;
use crate::text::{chars_of, find_char, has_prefix_at, push_char, push_str, trim_bounds};

verus! {

/// How `{:?}` writes a string: quoted, with quotes, backslashes and
/// characters that are not printable escaped. Its exact rules follow Unicode
/// tables that take pages to state, so the result is named rather than spelled
/// out.
pub uninterp spec fn debug_str(s: Seq<char>) -> Seq<char>;

/// Writes `s` the way `{:?}` (`<str as Debug>::fmt`) does. The contract
/// claims only that the result is a function of the characters of `s`.
#[verifier::external_body]
fn debug_quoted(s: &str) -> (r: String)
    ensures
        r@ == debug_str(s@),
{
    format!("{:?}", s)
}

/// A string-to-string map driven by text commands: `set <key> <value>`
/// stores a value (the value may contain spaces) and `del <key>` removes a
/// key. Anything else is ignored.
///
/// The pairs are kept in a vector, each key once, in the order keys were
/// first stored, rather than in a `HashMap`: with `String` keys vstd's
/// `HashMap` specifications say little that a proof can use, while the
/// vector's contents are exact (`entries`, with `contents` as the map they
/// stand for), and `describe` lists the pairs in that order.
#[derive(Debug, Default, Clone)]
pub struct KeyValueStateMachine {
    state: Vec<(String, String)>,
}

/// A parsed key-value command, over the characters of keys and values.
pub enum KeyValueOp {
    Put(Seq<char>, Seq<char>),
    Delete(Seq<char>),
}

/// A parsed key-value command.
pub enum StateMachineCommand {
    Put { key: String, value: String },
    Delete { key: String },
}

/// `raw` with `prefix` and everything before it removed, if `raw` starts with it.
pub open spec fn after_prefix(t: Seq<char>, prefix: Seq<char>) -> Seq<char> {
    t.skip(prefix.len() as int)
}

/// Index of the first space in `s`, if any.
pub open spec fn first_space(s: Seq<char>) -> Option<int> {
    if exists|i: int| 0 <= i < s.len() && s[i] == ' ' {
        Some(choose|i: int| 0 <= i < s.len() && s[i] == ' ' && forall|j: int| 0 <= j < i ==> s[j] != ' ')
    } else {
        None
    }
}

/// The command that the text `raw` stands for, if any.
pub open spec fn key_value_command(raw: Seq<char>) -> Option<KeyValueOp> {
    let t = crate::text::trim(raw);
    if t.len() == 0 {
        None
    } else if crate::text::starts_with(t, "set "@) {
        let rest = after_prefix(t, "set "@);
        match first_space(rest) {
            Some(i) => if i == 0 {
                None
            } else {
                Some(KeyValueOp::Put(rest.take(i), rest.skip(i + 1)))
            },
            None => None,
        }
    } else if crate::text::starts_with(t, "del "@) {
        let key = crate::text::trim(after_prefix(t, "del "@));
        if key.len() == 0 {
            None
        } else {
            Some(KeyValueOp::Delete(key))
        }
    } else {
        None
    }
}

/// The position of `key` among the keys of `entries`, if present.
pub open spec fn key_position(entries: Seq<(Seq<char>, Seq<char>)>, key: Seq<char>) -> Option<int> {
    if exists|i: int| 0 <= i < entries.len() && entries[i].0 == key {
        Some(
            choose|i: int|
                0 <= i < entries.len() && entries[i].0 == key && forall|j: int|
                    0 <= j < i ==> entries[j].0 != key,
        )
    } else {
        None
    }
}

/// No key occurs twice in `entries`.
pub open spec fn keys_unique(entries: Seq<(Seq<char>, Seq<char>)>) -> bool {
    forall|i: int, j: int|
        0 <= i < entries.len() && 0 <= j < entries.len() && i != j ==> entries[i].0 != entries[j].0
}

/// `entries` after storing `value` under `key`: replaced in place when the
/// key is present, appended otherwise.
pub open spec fn entries_put(
    entries: Seq<(Seq<char>, Seq<char>)>,
    key: Seq<char>,
    value: Seq<char>,
) -> Seq<(Seq<char>, Seq<char>)> {
    match key_position(entries, key) {
        Some(i) => entries.update(i, (key, value)),
        None => entries.push((key, value)),
    }
}

/// `entries` without `key`.
pub open spec fn entries_delete(entries: Seq<(Seq<char>, Seq<char>)>, key: Seq<char>) -> Seq<
    (Seq<char>, Seq<char>),
> {
    match key_position(entries, key) {
        Some(i) => entries.remove(i),
        None => entries,
    }
}

/// `entries` after applying the text `raw`.
pub open spec fn entries_after(entries: Seq<(Seq<char>, Seq<char>)>, raw: Seq<char>) -> Seq<
    (Seq<char>, Seq<char>),
> {
    match key_value_command(raw) {
        Some(KeyValueOp::Put(k, v)) => entries_put(entries, k, v),
        Some(KeyValueOp::Delete(k)) => entries_delete(entries, k),
        None => entries,
    }
}

/// The map that `entries` stands for.
pub open spec fn entries_map(entries: Seq<(Seq<char>, Seq<char>)>) -> Map<Seq<char>, Seq<char>> {
    Map::new(
        |k: Seq<char>| key_position(entries, k) is Some,
        |k: Seq<char>| entries[key_position(entries, k)->0].1,
    )
}

/// The description of `entries`: `{k1: v1, k2: v2}` with keys and values as
/// `{:?}` writes them, in the order given.
pub open spec fn describe_entries(entries: Seq<(Seq<char>, Seq<char>)>) -> Seq<char> {
    "{"@ + join_pairs(quoted_entries(entries)) + "}"@
}

/// Each key and value of `entries` as `{:?}` writes it.
pub open spec fn quoted_entries(entries: Seq<(Seq<char>, Seq<char>)>) -> Seq<(Seq<char>, Seq<char>)> {
    entries.map_values(|e: (Seq<char>, Seq<char>)| (debug_str(e.0), debug_str(e.1)))
}

/// The pairs written `k: v`, separated by `, `.
pub open spec fn join_pairs(pairs: Seq<(Seq<char>, Seq<char>)>) -> Seq<char>
    decreases pairs.len(),
{
    if pairs.len() == 0 {
        Seq::empty()
    } else if pairs.len() == 1 {
        pair_text(pairs[0])
    } else {
        join_pairs(pairs.drop_last()) + ", "@ + pair_text(pairs.last())
    }
}

/// One pair written `k: v`.
pub open spec fn pair_text(p: (Seq<char>, Seq<char>)) -> Seq<char> {
    p.0 + ": "@ + p.1
}

/// The characters of each string of `pairs`.
pub open spec fn pairs_view(pairs: Seq<(String, String)>) -> Seq<(Seq<char>, Seq<char>)> {
    pairs.map_values(|p: (String, String)| (p.0@, p.1@))
}

/// Writes already quoted pairs the way `{:?}` writes a map: `{k1: v1, k2: v2}`.
pub fn braced_pairs(pairs: &Vec<(String, String)>) -> (r: String)
    ensures
        r@ == "{"@ + join_pairs(pairs_view(pairs@)) + "}"@,
{
    let ghost ps = pairs_view(pairs@);
    let mut out = String::new();
    proof {
        reveal_strlit("{");
        reveal_strlit("}");
        reveal_strlit(", ");
        reveal_strlit(": ");
    }
    push_char(&mut out, '{');
    let mut i: usize = 0;
    while i < pairs.len()
        invariant
            0 <= i <= pairs@.len(),
            ps == pairs_view(pairs@),
            out@ == "{"@ + join_pairs(ps.take(i as int)),
        decreases pairs@.len() - i,
    {
        proof {
            assert(ps.take(i + 1).drop_last() == ps.take(i as int));
            assert(ps.take(i + 1).last() == ps[i as int]);
            assert(ps[i as int] == (pairs@[i as int].0@, pairs@[i as int].1@));
        }
        if i > 0 {
            push_str(&mut out, ", ");
        }
        push_str(&mut out, pairs[i].0.as_str());
        push_str(&mut out, ": ");
        push_str(&mut out, pairs[i].1.as_str());
        proof {
            if i == 0 {
                assert(ps.take(1) =~= seq![ps[0]]);
            }
            assert(out@ =~= "{"@ + join_pairs(ps.take(i + 1)));
        }
        i = i + 1;
    }
    push_char(&mut out, '}');
    proof {
        assert(ps.take(ps.len() as int) == ps);
        assert(out@ =~= "{"@ + join_pairs(ps) + "}"@);
    }
    out
}

/// With unique keys, a key found at position `i` is at its (only) position.
proof fn lemma_position_of_unique(entries: Seq<(Seq<char>, Seq<char>)>, i: int)
    requires
        keys_unique(entries),
        0 <= i < entries.len(),
    ensures
        key_position(entries, entries[i].0) == Some(i),
{
    let k = entries[i].0;
    let c = choose|c: int|
        0 <= c < entries.len() && entries[c].0 == k && forall|j: int|
            0 <= j < c ==> entries[j].0 != k;
    assert(0 <= c < entries.len() && entries[c].0 == k && forall|j: int|
        0 <= j < c ==> entries[j].0 != k) by {
        assert forall|j: int| 0 <= j < i implies entries[j].0 != k by {
            assert(j != i);
        }
    }
    if c != i {
        assert(entries[c].0 != entries[i].0);
    }
}

/// Where a key occurs at all, it has a first position.
proof fn lemma_first_position_exists(entries: Seq<(Seq<char>, Seq<char>)>, k: Seq<char>, w: int)
    requires
        0 <= w < entries.len(),
        entries[w].0 == k,
    ensures
        exists|c: int|
            0 <= c < entries.len() && entries[c].0 == k && forall|j: int|
                0 <= j < c ==> entries[j].0 != k,
    decreases w,
{
    if exists|j: int| 0 <= j < w && entries[j].0 == k {
        let j = choose|j: int| 0 <= j < w && entries[j].0 == k;
        lemma_first_position_exists(entries, k, j);
    } else {
        assert(forall|j: int| 0 <= j < w ==> entries[j].0 != k);
    }
}

/// A key that has a position is stored there.
proof fn lemma_position_found(entries: Seq<(Seq<char>, Seq<char>)>, k: Seq<char>)
    requires
        key_position(entries, k) is Some,
    ensures
        0 <= key_position(entries, k)->0 < entries.len(),
        entries[key_position(entries, k)->0].0 == k,
{
    let w = choose|i: int| 0 <= i < entries.len() && entries[i].0 == k;
    lemma_first_position_exists(entries, k, w);
}

/// Storing a value under a key makes the map hold that value there and leaves
/// every other key as it was; keys stay unique.
pub proof fn law_put_stores_value(
    entries: Seq<(Seq<char>, Seq<char>)>,
    key: Seq<char>,
    value: Seq<char>,
)
    requires
        keys_unique(entries),
    ensures
        keys_unique(entries_put(entries, key, value)),
        entries_map(entries_put(entries, key, value)) == entries_map(entries).insert(key, value),
{
    let after = entries_put(entries, key, value);
    match key_position(entries, key) {
        Some(i) => {
            lemma_position_found(entries, key);
            assert(after == entries.update(i, (key, value)));
            assert forall|x: int, y: int|
                0 <= x < after.len() && 0 <= y < after.len() && x != y implies after[x].0
                != after[y].0 by {}
        },
        None => {
            assert(after == entries.push((key, value)));
            assert forall|x: int, y: int|
                0 <= x < after.len() && 0 <= y < after.len() && x != y implies after[x].0
                != after[y].0 by {
                if x == entries.len() as int {
                    if entries[y].0 == key {
                        lemma_position_of_unique(entries, y);
                    }
                } else if y == entries.len() as int {
                    if entries[x].0 == key {
                        lemma_position_of_unique(entries, x);
                    }
                }
            }
        },
    }
    assert forall|k: Seq<char>| #[trigger] entries_map(after).contains_key(k)
        == entries_map(entries).insert(key, value).contains_key(k) && (entries_map(
        after,
    ).contains_key(k) ==> entries_map(after)[k] == entries_map(entries).insert(key, value)[k]) by {
        if k == key {
            let i = choose|i: int| 0 <= i < after.len() && after[i].0 == key;
            assert(exists|i: int| 0 <= i < after.len() && after[i].0 == key) by {
                match key_position(entries, key) {
                    Some(i) => {
                        lemma_position_found(entries, key);
                        assert(after[i].0 == key);
                    },
                    None => {
                        assert(after[entries.len() as int].0 == key);
                    },
                }
            }
            lemma_position_of_unique(after, i);
        } else {
            if key_position(after, k) is Some {
                lemma_position_found(after, k);
                let i = key_position(after, k)->0;
                assert(after[i].0 == k);
                assert(i < entries.len() && entries[i] == after[i]);
                lemma_position_of_unique(entries, i);
            } else {
                if key_position(entries, k) is Some {
                    lemma_position_found(entries, k);
                    let i = key_position(entries, k)->0;
                    assert(after[i] == entries[i]);
                    lemma_position_of_unique(after, i);
                }
            }
        }
    }
    assert(entries_map(after) =~= entries_map(entries).insert(key, value));
}

/// Deleting a key removes it from the map and leaves every other key as it
/// was; keys stay unique.
pub proof fn law_delete_removes_key(entries: Seq<(Seq<char>, Seq<char>)>, key: Seq<char>)
    requires
        keys_unique(entries),
    ensures
        keys_unique(entries_delete(entries, key)),
        entries_map(entries_delete(entries, key)) == entries_map(entries).remove(key),
{
    let after = entries_delete(entries, key);
    match key_position(entries, key) {
        Some(i) => {
            lemma_position_found(entries, key);
            assert(after == entries.remove(i));
            assert forall|x: int| 0 <= x < after.len() implies #[trigger] after[x] == entries[if x
                < i {
                x
            } else {
                x + 1
            }] by {}
            assert forall|x: int, y: int|
                0 <= x < after.len() && 0 <= y < after.len() && x != y implies after[x].0
                != after[y].0 by {
                let x0 = if x < i {
                    x
                } else {
                    x + 1
                };
                let y0 = if y < i {
                    y
                } else {
                    y + 1
                };
                assert(after[x] == entries[x0]);
                assert(after[y] == entries[y0]);
            }
            assert forall|k: Seq<char>| #[trigger] entries_map(after).contains_key(k)
                == entries_map(entries).remove(key).contains_key(k) && (entries_map(
                after,
            ).contains_key(k) ==> entries_map(after)[k] == entries_map(entries).remove(key)[k]) by {
                if key_position(after, k) is Some {
                    lemma_position_found(after, k);
                    let x = key_position(after, k)->0;
                    let x0 = if x < i {
                        x
                    } else {
                        x + 1
                    };
                    assert(after[x] == entries[x0]);
                    lemma_position_of_unique(entries, x0);
                    if k == key {
                        assert(x0 == i);
                    }
                } else {
                    if k != key && key_position(entries, k) is Some {
                        lemma_position_found(entries, k);
                        let y0 = key_position(entries, k)->0;
                        assert(y0 != i);
                        let y = if y0 < i {
                            y0
                        } else {
                            y0 - 1
                        };
                        assert(after[y] == entries[y0]);
                        lemma_position_of_unique(after, y);
                    }
                }
            }
            assert(entries_map(after) =~= entries_map(entries).remove(key));
        },
        None => {
            assert(entries_map(entries) =~= entries_map(entries).remove(key));
        },
    }
}

/// The forms of key-value command, read from the trimmed text `t` of a raw
/// command: `set <key> <value>` with a key of one or more non-space
/// characters stores the rest (spaces included) as the value; `del <key>`
/// with a key that is not blank deletes the key, trimmed; empty text, text
/// with neither prefix, `set ` without a space after a non-empty key, and
/// `del ` with a blank key are no command.
pub proof fn law_key_value_command_forms(raw: Seq<char>, k: Seq<char>, v: Seq<char>, r: Seq<char>)
    ensures
        ({
            let t = crate::text::trim(raw);
            &&& (t == "set "@ + k + " "@ + v && k.len() > 0 && !k.contains(' ')) ==> key_value_command(
                raw,
            ) == Some(KeyValueOp::Put(k, v))
            &&& (t == "del "@ + r && crate::text::trim(r).len() > 0) ==> key_value_command(raw)
                == Some(KeyValueOp::Delete(crate::text::trim(r)))
            &&& t.len() == 0 ==> key_value_command(raw) is None
            &&& (!crate::text::starts_with(t, "set "@) && !crate::text::starts_with(t, "del "@))
                ==> key_value_command(raw) is None
            &&& (crate::text::starts_with(t, "set "@) && (first_space(after_prefix(t, "set "@))
                is None || first_space(after_prefix(t, "set "@)) == Some(0int)))
                ==> key_value_command(raw) is None
            &&& (crate::text::starts_with(t, "del "@) && !crate::text::starts_with(t, "set "@)
                && crate::text::trim(after_prefix(t, "del "@)).len() == 0) ==> key_value_command(
                raw,
            ) is None
        }),
{
    reveal_strlit("set ");
    reveal_strlit("del ");
    reveal_strlit(" ");
    let t = crate::text::trim(raw);
    if t == "set "@ + k + " "@ + v && k.len() > 0 && !k.contains(' ') {
        assert(t.take(4) =~= "set "@);
        let rest = after_prefix(t, "set "@);
        assert(rest =~= k + " "@ + v);
        let n = k.len() as int;
        assert(rest[n] == ' ');
        assert forall|j: int| 0 <= j < n implies rest[j] != ' ' by {
            assert(rest[j] == k[j]);
            if k[j] == ' ' {
                assert(k.contains(' '));
            }
        }
        let c = choose|i: int|
            0 <= i < rest.len() && rest[i] == ' ' && forall|j: int| 0 <= j < i ==> rest[j] != ' ';
        assert(0 <= c < rest.len() && rest[c] == ' ' && forall|j: int| 0 <= j < c ==> rest[j] != ' ');
        assert(c == n) by {
            if c < n {
                assert(rest[c] != ' ');
            } else if c > n {
                assert(rest[n] != ' ');
            }
        }
        assert(rest.take(n) =~= k);
        assert(rest.skip(n + 1) =~= v);
    }
    if t == "del "@ + r && crate::text::trim(r).len() > 0 {
        assert(t.take(4) =~= "del "@);
        assert(t[0] == 'd');
        assert(!crate::text::starts_with(t, "set "@)) by {
            if crate::text::starts_with(t, "set "@) {
                assert(t.take(4)[0] == 's');
            }
        }
        assert(after_prefix(t, "del "@) =~= r);
    }
}

impl KeyValueStateMachine {
    /// The stored pairs in the order they were first stored.
    pub closed spec fn entries(&self) -> Seq<(Seq<char>, Seq<char>)> {
        self.state@.map_values(|p: (String, String)| (p.0@, p.1@))
    }

    /// The stored pairs as a map.
    pub open spec fn contents(&self) -> Map<Seq<char>, Seq<char>> {
        entries_map(self.entries())
    }

    pub closed spec fn wf(&self) -> bool {
        keys_unique(self.entries())
    }

    /// An empty map.
    pub fn new() -> (r: Self)
        ensures
            r.wf(),
            r.entries() == Seq::<(Seq<char>, Seq<char>)>::empty(),
    {
        let r = KeyValueStateMachine { state: Vec::new() };
        proof {
            assert(r.entries() =~= Seq::<(Seq<char>, Seq<char>)>::empty());
        }
        r
    }

    /// Reads the command that `raw` stands for.
    pub fn parse_command(&self, raw: &str) -> (r: Option<StateMachineCommand>)
        ensures
            match (r, key_value_command(raw@)) {
                (Some(StateMachineCommand::Put { key, value }), Some(KeyValueOp::Put(k, v))) => key@
                    == k && value@ == v,
                (Some(StateMachineCommand::Delete { key }), Some(KeyValueOp::Delete(k))) => key@
                    == k,
                (None, None) => true,
                _ => false,
            },
    {
        let v = chars_of(raw);
        let (start, end) = trim_bounds(&v);
        let ghost t = v@.subrange(start as int, end as int);
        proof {
            reveal_strlit("set ");
            reveal_strlit("del ");
        }
        if start == end {
            return None;
        }
        if has_prefix_at(&v, start, end, "set ") {
            let rest_from = start + 4;
            let ghost rest = v@.subrange(rest_from as int, end as int);
            proof {
                assert(rest == after_prefix(t, "set "@));
            }
            return match find_char(&v, rest_from, end, ' ') {
                Some(sp) => {
                    let ghost i: int = sp - rest_from;
                    proof {
                        assert(rest[i] == ' ');
                        let c = choose|c: int|
                            0 <= c < rest.len() && rest[c] == ' ' && forall|j: int|
                                0 <= j < c ==> rest[j] != ' ';
                        assert(0 <= c < rest.len() && rest[c] == ' ' && forall|j: int|
                            0 <= j < c ==> rest[j] != ' ') by {
                            assert(forall|j: int| 0 <= j < i ==> rest[j] == v@[rest_from + j]);
                        }
                        assert(c == i) by {
                            if c < i {
                                assert(rest[c] == v@[rest_from + c]);
                            } else if c > i {
                            }
                        }
                    }
                    if sp == rest_from {
                        None
                    } else {
                        let key = raw.substring_char(rest_from, sp).to_owned();
                        let value = raw.substring_char(sp + 1, end).to_owned();
                        proof {
                            assert(key@ == rest.take(i));
                            assert(value@ == rest.skip(i + 1));
                        }
                        Some(StateMachineCommand::Put { key, value })
                    }
                },
                None => {
                    proof {
                        assert forall|j: int| 0 <= j < rest.len() implies rest[j] != ' ' by {
                            assert(rest[j] == v@[rest_from + j]);
                        }
                    }
                    None
                },
            };
        }
        if has_prefix_at(&v, start, end, "del ") {
            let rest_from = start + 4;
            let ghost rest = v@.subrange(rest_from as int, end as int);
            proof {
                assert(rest == after_prefix(t, "del "@));
            }
            let (s2, e2) = Self::trimmed_rest(&v, rest_from, end);
            if s2 == e2 {
                return None;
            }
            let key = raw.substring_char(s2, e2).to_owned();
            return Some(StateMachineCommand::Delete { key });
        }
        None
    }

    /// Bounds of `trim(v[from..to])` within `v`.
    fn trimmed_rest(v: &Vec<char>, from: usize, to: usize) -> (r: (usize, usize))
        requires
            from <= to <= v@.len(),
        ensures
            from <= r.0 <= r.1 <= to,
            v@.subrange(r.0 as int, r.1 as int) == crate::text::trim(
                v@.subrange(from as int, to as int),
            ),
    {
        let mut part: Vec<char> = Vec::new();
        let mut i: usize = from;
        while i < to
            invariant
                from <= i <= to <= v@.len(),
                part@ == v@.subrange(from as int, i as int),
            decreases to - i,
        {
            part.push(v[i]);
            i = i + 1;
        }
        let (s, e) = trim_bounds(&part);
        proof {
            assert(part@.subrange(s as int, e as int) == v@.subrange(from + s, from + e));
        }
        (from + s, from + e)
    }


    fn put(&mut self, key: String, value: String)
        ensures
            final(self).entries() == entries_put(old(self).entries(), key@, value@),
            old(self).wf() ==> final(self).wf(),
    {
        let ghost pre = self.entries();
        let ghost kv = (key@, value@);
        match self.position_of_any(&key) {
            Some(i) => {
                self.state.set(i, (key, value));
                proof {
                    assert(self.entries() =~= pre.update(i as int, kv));
                    if old(self).wf() {
                        assert forall|x: int, y: int|
                            0 <= x < self.entries().len() && 0 <= y < self.entries().len() && x
                                != y implies self.entries()[x].0 != self.entries()[y].0 by {
                            assert(pre[i as int].0 == kv.0);
                        }
                    }
                }
            },
            None => {
                self.state.push((key, value));
                proof {
                    assert(self.entries() =~= pre.push(kv));
                }
            },
        }
    }

    fn delete(&mut self, key: &String)
        ensures
            final(self).entries() == entries_delete(old(self).entries(), key@),
            old(self).wf() ==> final(self).wf(),
    {
        let ghost pre = self.entries();
        match self.position_of_any(key) {
            Some(i) => {
                self.state.remove(i);
                proof {
                    assert(self.entries() =~= pre.remove(i as int));
                    if old(self).wf() {
                        assert forall|x: int, y: int|
                            0 <= x < self.entries().len() && 0 <= y < self.entries().len() && x
                                != y implies self.entries()[x].0 != self.entries()[y].0 by {
                            let x0 = if x < i {
                                x
                            } else {
                                x + 1
                            };
                            let y0 = if y < i {
                                y
                            } else {
                                y + 1
                            };
                            assert(self.entries()[x] == pre[x0]);
                            assert(self.entries()[y] == pre[y0]);
                        }
                    }
                }
            },
            None => {},
        }
    }

    /// Position of `key` among the stored keys.
    fn position_of_any(&self, key: &String) -> (r: Option<usize>)
        ensures
            match r {
                Some(i) => i < self.state@.len() && key_position(self.entries(), key@) == Some(
                    i as int,
                ),
                None => key_position(self.entries(), key@) is None,
            },
    {
        let mut i: usize = 0;
        while i < self.state.len()
            invariant
                0 <= i <= self.state@.len(),
                forall|j: int| 0 <= j < i ==> (#[trigger] self.entries()[j]).0 != key@,
            decreases self.state@.len() - i,
        {
            if self.state[i].0 == *key {
                proof {
                    let es = self.entries();
                    assert(es[i as int].0 == key@);
                    let c = choose|c: int|
                        0 <= c < es.len() && es[c].0 == key@ && forall|j: int|
                            0 <= j < c ==> es[j].0 != key@;
                    assert(0 <= c < es.len() && es[c].0 == key@ && forall|j: int|
                        0 <= j < c ==> es[j].0 != key@);
                    assert(c == i) by {
                        if c < i {
                            assert(es[c].0 != key@);
                        }
                    }
                }
                return Some(i);
            }
            i = i + 1;
        }
        None
    }
}

impl StateMachineStrategy for KeyValueStateMachine {
    /// Applies the command `raw` stands for; text that is no command is ignored.
    fn apply(&mut self, raw: &str)
        ensures
            final(self).entries() == entries_after(old(self).entries(), raw@),
            old(self).wf() ==> final(self).wf(),
    {
        match self.parse_command(raw) {
            Some(StateMachineCommand::Put { key, value }) => self.put(key, value),
            Some(StateMachineCommand::Delete { key }) => self.delete(&key),
            None => {},
        }
    }

    /// The stored pairs as `{:?}` writes a map: `{"k1": "v1", "k2": "v2"}`,
    /// in the order the keys were first stored.
    fn describe(&self) -> (r: String)
        ensures
            r@ == describe_entries(self.entries()),
    {
        let ghost es = self.entries();
        let mut quoted: Vec<(String, String)> = Vec::new();
        proof {
            assert(es.len() == self.state@.len());
            assert(pairs_view(quoted@) =~= quoted_entries(es.take(0)));
        }
        let mut i: usize = 0;
        while i < self.state.len()
            invariant
                0 <= i <= self.state@.len(),
                es == self.entries(),
                es.len() == self.state@.len(),
                quoted@.len() == i,
                pairs_view(quoted@) == quoted_entries(es.take(i as int)),
            decreases self.state@.len() - i,
        {
            let k = debug_quoted(self.state[i].0.as_str());
            let v = debug_quoted(self.state[i].1.as_str());
            proof {
                assert(es[i as int] == (self.state@[i as int].0@, self.state@[i as int].1@));
                assert(es.take(i + 1) == es.take(i as int).push(es[i as int]));
            }
            let ghost before = quoted@;
            quoted.push((k, v));
            proof {
                let lhs = pairs_view(quoted@);
                let rhs = quoted_entries(es.take(i + 1));
                assert(lhs.len() == rhs.len());
                assert forall|j: int| 0 <= j < lhs.len() implies lhs[j] == rhs[j] by {
                    if j < i {
                        assert(quoted@[j] == before[j]);
                        assert(pairs_view(before)[j] == quoted_entries(es.take(i as int))[j]);
                    } else {
                        assert(quoted@[j] == (k, v));
                    }
                }
                assert(lhs =~= rhs);
            }
            i = i + 1;
        }
        proof {
            assert(es.take(es.len() as int) == es);
        }
        braced_pairs(&quoted)
    }
}

} // verus!
