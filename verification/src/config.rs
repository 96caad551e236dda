use std::collections::HashMap;

use vstd::prelude::*;

use crate::text::{chars_of, find_char, parse_u64, parse_u64_at, push_str};
use crate::types::NodeId;

verus! {

broadcast use vstd::std_specs::hash::group_hash_axioms;

/// The settings of one node, as given on its command line.
#[derive(Debug)]
pub struct Config {
    pub id: NodeId,
    pub addr: String,
    pub peer_addrs: HashMap<NodeId, String>,
    pub election_timeout_ticks: u64,
    pub heartbeat_interval_ticks: u64,
    pub tick_ms: u64,
}

/// The settings gathered so far while reading the command line.
pub struct ConfigDraft {
    pub id: Option<u64>,
    pub addr: Option<Seq<char>>,
    pub peers: Map<u64, Seq<char>>,
    pub election: u64,
    pub heartbeat: u64,
    pub tick: u64,
}

/// The usage text.
pub open spec fn help_text_spec() -> Seq<char> {
    "Usage:\n  raftust-core --id <node-id> --addr <host:port> --peer <id=host:port> [--peer ...]\n\nOptions:\n  --id <u64>                  Node ID\n  --addr <host:port>          Listen address for this node\n  --peer <id=host:port>       Peer mapping (repeatable)\n  --election-timeout <ticks>  Election timeout in ticks (default: 20)\n  --heartbeat-interval <ticks> Heartbeat interval in ticks (default: 4)\n  --tick-ms <ms>              Tick duration in ms (default: 100)\n\nExample (3 nodes on localhost):\n  raftust-core --id 1 --addr 127.0.0.1:5001 --peer 2=127.0.0.1:5002 --peer 3=127.0.0.1:5003"@
}

/// The defaults before any option is read.
pub open spec fn initial_draft() -> ConfigDraft {
    ConfigDraft {
        id: None,
        addr: None,
        peers: Map::empty(),
        election: 20,
        heartbeat: 4,
        tick: 100,
    }
}

/// The position of the first `=` in `s`, if any.
pub open spec fn first_equals(s: Seq<char>) -> Option<int> {
    if exists|i: int| 0 <= i < s.len() && s[i] == '=' {
        Some(choose|i: int| 0 <= i < s.len() && s[i] == '=' && forall|j: int| 0 <= j < i ==> s[j] != '=')
    } else {
        None
    }
}

/// Reads the options from position `i` on, starting from `d`: each option
/// takes the argument after it; `--peer` takes `<id>=<addr>` and may repeat;
/// the first problem found is the error.
pub open spec fn parse_args(args: Seq<Seq<char>>, i: int, d: ConfigDraft) -> Result<ConfigDraft, Seq<char>>
    decreases args.len() - i,
{
    if i < 0 || i >= args.len() {
        Ok(d)
    } else {
        let a = args[i];
        let has_value = i + 1 < args.len();
        if a == "--id"@ {
            if !has_value {
                Err("--id requires a value"@)
            } else {
                match crate::text::parse_u64_spec(args[i + 1]) {
                    Some(v) => parse_args(args, i + 2, ConfigDraft { id: Some(v), ..d }),
                    None => Err("invalid --id value"@),
                }
            }
        } else if a == "--addr"@ {
            if !has_value {
                Err("--addr requires a value"@)
            } else {
                parse_args(args, i + 2, ConfigDraft { addr: Some(args[i + 1]), ..d })
            }
        } else if a == "--peer"@ {
            if !has_value {
                Err("--peer requires <id>=<addr>"@)
            } else {
                let v = args[i + 1];
                match first_equals(v) {
                    None => Err("--peer must be formatted as <id>=<addr>"@),
                    Some(k) => match crate::text::parse_u64_spec(v.take(k)) {
                        Some(peer) => parse_args(
                            args,
                            i + 2,
                            ConfigDraft { peers: d.peers.insert(peer, v.skip(k + 1)), ..d },
                        ),
                        None => Err("invalid peer id"@),
                    },
                }
            }
        } else if a == "--election-timeout"@ {
            if !has_value {
                Err("--election-timeout requires a value"@)
            } else {
                match crate::text::parse_u64_spec(args[i + 1]) {
                    Some(v) => parse_args(args, i + 2, ConfigDraft { election: v, ..d }),
                    None => Err("invalid --election-timeout value"@),
                }
            }
        } else if a == "--heartbeat-interval"@ {
            if !has_value {
                Err("--heartbeat-interval requires a value"@)
            } else {
                match crate::text::parse_u64_spec(args[i + 1]) {
                    Some(v) => parse_args(args, i + 2, ConfigDraft { heartbeat: v, ..d }),
                    None => Err("invalid --heartbeat-interval value"@),
                }
            }
        } else if a == "--tick-ms"@ {
            if !has_value {
                Err("--tick-ms requires a value"@)
            } else {
                match crate::text::parse_u64_spec(args[i + 1]) {
                    Some(v) => parse_args(args, i + 2, ConfigDraft { tick: v, ..d }),
                    None => Err("invalid --tick-ms value"@),
                }
            }
        } else if a == "--help"@ || a == "-h"@ {
            Err(help_text_spec())
        } else {
            Err("unknown arg: "@ + a + "\n\n"@ + help_text_spec())
        }
    }
}

/// What the command line `args` configures: the options read in order, then
/// the id and address required, the node's own id kept out of its peers, and
/// the heartbeat interval kept below the election timeout.
pub open spec fn parse_config_spec(args: Seq<Seq<char>>) -> Result<ConfigDraft, Seq<char>> {
    match parse_args(args, 0, initial_draft()) {
        Err(e) => Err(e),
        Ok(d) => if d.id is None || d.addr is None {
            Err(help_text_spec())
        } else if d.peers.contains_key(d.id->0) {
            Err("--peer cannot include this node's own id"@)
        } else if d.heartbeat >= d.election {
            Err("heartbeat interval must be less than election timeout"@)
        } else {
            Ok(d)
        },
    }
}

/// Every configuration the command line is accepted with names the node and
/// its address, leaves the node's own id out of its peers, and keeps the
/// heartbeat interval below the election timeout (so that timeout is not 0).
pub proof fn law_accepted_config_is_consistent(args: Seq<Seq<char>>)
    requires
        parse_config_spec(args) is Ok,
    ensures
        ({
            let d = parse_config_spec(args)->Ok_0;
            &&& d.id is Some
            &&& d.addr is Some
            &&& !d.peers.contains_key(d.id->0)
            &&& d.heartbeat < d.election
            &&& d.election > 0
        }),
{
}

/// `c` holds the settings of `d`.
pub open spec fn config_matches(c: Config, d: ConfigDraft) -> bool {
    &&& d.id == Some(c.id)
    &&& d.addr == Some(c.addr@)
    &&& c.peer_addrs@.map_values(|s: String| s@) == d.peers
    &&& c.election_timeout_ticks == d.election
    &&& c.heartbeat_interval_ticks == d.heartbeat
    &&& c.tick_ms == d.tick
}

/// The usage text.
pub fn help_text() -> (r: String)
    ensures
        r@ == help_text_spec(),
{
    "Usage:\n  raftust-core --id <node-id> --addr <host:port> --peer <id=host:port> [--peer ...]\n\nOptions:\n  --id <u64>                  Node ID\n  --addr <host:port>          Listen address for this node\n  --peer <id=host:port>       Peer mapping (repeatable)\n  --election-timeout <ticks>  Election timeout in ticks (default: 20)\n  --heartbeat-interval <ticks> Heartbeat interval in ticks (default: 4)\n  --tick-ms <ms>              Tick duration in ms (default: 100)\n\nExample (3 nodes on localhost):\n  raftust-core --id 1 --addr 127.0.0.1:5001 --peer 2=127.0.0.1:5002 --peer 3=127.0.0.1:5003".to_owned()
}

/// `a` and `b` hold the same characters.
pub fn str_eq(a: &str, b: &str) -> (r: bool)
    ensures
        r == (a@ == b@),
{
    let av = chars_of(a);
    let bv = chars_of(b);
    if av.len() != bv.len() {
        return false;
    }
    let mut i: usize = 0;
    while i < av.len()
        invariant
            av@ == a@,
            bv@ == b@,
            av@.len() == bv@.len(),
            0 <= i <= av@.len(),
            forall|j: int| 0 <= j < i ==> av@[j] == bv@[j],
        decreases av@.len() - i,
    {
        if av[i] != bv[i] {
            return false;
        }
        i = i + 1;
    }
    proof {
        assert(a@ =~= b@);
    }
    true
}

/// The characters of the string held, if any.
pub open spec fn opt_string_view(o: Option<String>) -> Option<Seq<char>> {
    match o {
        Some(a) => Some(a@),
        None => None,
    }
}

/// The views of `args`.
pub open spec fn args_view(args: Seq<String>) -> Seq<Seq<char>> {
    args.map_values(|s: String| s@)
}

/// An error message made of `s`.
fn error_of(s: &str) -> (r: String)
    ensures
        r@ == s@,
{
    s.to_owned()
}

/// Reads a node's settings from its command line (program name excluded).
pub fn parse_config(args: Vec<String>) -> (r: Result<Config, String>)
    ensures
        match (r, parse_config_spec(args_view(args@))) {
            (Ok(c), Ok(d)) => config_matches(c, d),
            (Err(e), Err(m)) => e@ == m,
            _ => false,
        },
{
    let ghost av = args_view(args@);
    let mut id: Option<NodeId> = None;
    let mut addr: Option<String> = None;
    let mut peer_addrs: HashMap<NodeId, String> = HashMap::new();
    let mut election_timeout_ticks: u64 = 20;
    let mut heartbeat_interval_ticks: u64 = 4;
    let mut tick_ms: u64 = 100;
    let mut i: usize = 0;
    proof {
        assert(peer_addrs@.map_values(|s: String| s@) =~= Map::<u64, Seq<char>>::empty());
    }
    while i < args.len()
        invariant
            av == args_view(args@),
            av.len() == args@.len(),
            i <= args@.len() + 1,
            parse_args(av, 0, initial_draft()) == parse_args(
                av,
                i as int,
                ConfigDraft {
                    id,
                    addr: opt_string_view(addr),
                    peers: peer_addrs@.map_values(|s: String| s@),
                    election: election_timeout_ticks,
                    heartbeat: heartbeat_interval_ticks,
                    tick: tick_ms,
                },
            ),
        decreases args@.len() - i,
    {
        let ghost d = ConfigDraft {
            id,
            addr: opt_string_view(addr),
            peers: peer_addrs@.map_values(|s: String| s@),
            election: election_timeout_ticks,
            heartbeat: heartbeat_interval_ticks,
            tick: tick_ms,
        };
        let arg = args[i].as_str();
        let has_value = i + 1 < args.len();
        proof {
            assert(av[i as int] == arg@);
            if has_value {
                assert(av[i + 1] == args@[i + 1]@);
            }
        }
        if str_eq(arg, "--id") {
            if !has_value {
                return Err(error_of("--id requires a value"));
            }
            match parse_u64(args[i + 1].as_str()) {
                Some(v) => {
                    id = Some(v);
                },
                None => {
                    return Err(error_of("invalid --id value"));
                },
            }
            i = i + 2;
        } else if str_eq(arg, "--addr") {
            if !has_value {
                return Err(error_of("--addr requires a value"));
            }
            addr = Some(args[i + 1].clone());
            i = i + 2;
        } else if str_eq(arg, "--peer") {
            if !has_value {
                return Err(error_of("--peer requires <id>=<addr>"));
            }
            let value = args[i + 1].as_str();
            let chars = chars_of(value);
            match find_char(&chars, 0, chars.len(), '=') {
                None => {
                    proof {
                        assert(first_equals(value@) is None);
                    }
                    return Err(error_of("--peer must be formatted as <id>=<addr>"));
                },
                Some(k) => {
                    proof {
                        let c = choose|c: int|
                            0 <= c < value@.len() && value@[c] == '=' && forall|j: int|
                                0 <= j < c ==> value@[j] != '=';
                        assert(0 <= c < value@.len() && value@[c] == '=' && forall|j: int|
                            0 <= j < c ==> value@[j] != '=');
                        assert(c == k) by {
                            if c < k {
                                assert(value@[c] != '=');
                            } else if c > k {
                                assert(value@[k as int] != '=');
                            }
                        }
                        assert(chars@.subrange(0, k as int) == value@.take(k as int));
                    }
                    match parse_u64_at(&chars, 0, k) {
                        Some(peer_id) => {
                            let peer_addr = value.substring_char(k + 1, chars.len()).to_owned();
                            let ghost pa = peer_addr@;
                            proof {
                                assert(pa == value@.skip(k + 1));
                            }
                            peer_addrs.insert(peer_id, peer_addr);
                            proof {
                                assert(peer_addrs@.map_values(|s: String| s@) =~= d.peers.insert(
                                    peer_id,
                                    pa,
                                ));
                            }
                        },
                        None => {
                            return Err(error_of("invalid peer id"));
                        },
                    }
                },
            }
            i = i + 2;
        } else if str_eq(arg, "--election-timeout") {
            if !has_value {
                return Err(error_of("--election-timeout requires a value"));
            }
            match parse_u64(args[i + 1].as_str()) {
                Some(v) => {
                    election_timeout_ticks = v;
                },
                None => {
                    return Err(error_of("invalid --election-timeout value"));
                },
            }
            i = i + 2;
        } else if str_eq(arg, "--heartbeat-interval") {
            if !has_value {
                return Err(error_of("--heartbeat-interval requires a value"));
            }
            match parse_u64(args[i + 1].as_str()) {
                Some(v) => {
                    heartbeat_interval_ticks = v;
                },
                None => {
                    return Err(error_of("invalid --heartbeat-interval value"));
                },
            }
            i = i + 2;
        } else if str_eq(arg, "--tick-ms") {
            if !has_value {
                return Err(error_of("--tick-ms requires a value"));
            }
            match parse_u64(args[i + 1].as_str()) {
                Some(v) => {
                    tick_ms = v;
                },
                None => {
                    return Err(error_of("invalid --tick-ms value"));
                },
            }
            i = i + 2;
        } else if str_eq(arg, "--help") || str_eq(arg, "-h") {
            return Err(help_text());
        } else {
            let mut message = String::new();
            push_str(&mut message, "unknown arg: ");
            push_str(&mut message, arg);
            push_str(&mut message, "\n\n");
            let help = help_text();
            push_str(&mut message, help.as_str());
            proof {
                assert(message@ =~= "unknown arg: "@ + arg@ + "\n\n"@ + help_text_spec());
            }
            return Err(message);
        }
    }
    let ghost d = ConfigDraft {
        id,
        addr: opt_string_view(addr),
        peers: peer_addrs@.map_values(|s: String| s@),
        election: election_timeout_ticks,
        heartbeat: heartbeat_interval_ticks,
        tick: tick_ms,
    };
    proof {
        assert(parse_args(av, i as int, d) == Ok::<ConfigDraft, Seq<char>>(d));
    }
    let id = match id {
        Some(v) => v,
        None => {
            return Err(help_text());
        },
    };
    let addr = match addr {
        Some(v) => v,
        None => {
            return Err(help_text());
        },
    };
    if peer_addrs.contains_key(&id) {
        proof {
            assert(d.peers.contains_key(id));
        }
        return Err(error_of("--peer cannot include this node's own id"));
    }
    proof {
        assert(!d.peers.contains_key(id));
    }
    if heartbeat_interval_ticks >= election_timeout_ticks {
        return Err(error_of("heartbeat interval must be less than election timeout"));
    }
    Ok(
        Config {
            id,
            addr,
            peer_addrs,
            election_timeout_ticks,
            heartbeat_interval_ticks,
            tick_ms,
        },
    )
}

} // verus!
