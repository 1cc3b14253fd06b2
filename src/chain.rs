//! Chain nodes, and reading the output of the remote log searches.
use vstd::prelude::*;
use vstd::string::*;
use crate::text::{chars_of, split_tokens, string_of_chars, tokens, views};

verus! {

/// One host that the operator may connect to.
#[derive(Clone)]
pub struct ServerConfig {
    pub id: String,
    pub host: String,
    pub port: u16,
    pub username: String,
    pub password: String,
    pub description: String,
    pub environment: String,
    pub status: String,
}

/// One matched log entry, on the host it was found on, with what it led to.
pub struct ChainNode {
    pub filename: String,
    pub dus_id: String,
    pub ip: String,
    pub log_path: String,
    pub children: Vec<ChainNode>,
}

/// What a whole trace hands back to its caller.
pub struct ChainTraceResult {
    pub nodes: Vec<ChainNode>,
    pub trace_log: Vec<String>,
    pub total_hops: u32,
    pub duration_ms: u64,
    pub error: Option<String>,
}

/// One log file on a host, with how often the trace id occurs in it.
#[derive(Clone)]
pub struct LogFileInfo {
    pub path: String,
    pub name: String,
    pub match_count: u32,
}

/// The log files found on one host.
pub struct LogSearchResult {
    pub server_id: String,
    pub host: String,
    pub files: Vec<LogFileInfo>,
    pub total_matches: u32,
    pub duration_ms: u64,
    pub error: Option<String>,
}

/// `s` without its leading repetitions of `./`.
pub open spec fn strip_dot_slash(s: Seq<char>) -> Seq<char>
    decreases s.len(),
{
    if s.len() >= 2 && s[0] == '.' && s[1] == '/' {
        strip_dot_slash(s.skip(2))
    } else {
        s
    }
}

/// The `(filename, business id, peer ip)` that a primary search line carries,
/// if it has at least three tokens.
pub open spec fn chain_entry(line: Seq<char>) -> Option<(Seq<char>, Seq<char>, Seq<char>)> {
    let t = tokens(line);
    if t.len() >= 3 {
        Some((strip_dot_slash(t[0]), t[1], t[2]))
    } else {
        None
    }
}

/// A genuine processing hop: the business id starts with `B` or `C`.
pub open spec fn is_valid_id(id: Seq<char>) -> bool {
    id.len() > 0 && (id[0] == 'B' || id[0] == 'C')
}

/// A router entry: the business id starts with `G`.
pub open spec fn is_router_id(id: Seq<char>) -> bool {
    id.len() > 0 && id[0] == 'G'
}

/// The secondary search runs when the primary one found no line, or only
/// lines that are unreadable or carry a router id.
pub open spec fn spec_needs_fallback(lines: Seq<Seq<char>>) -> bool {
    !exists|i: int|
        0 <= i < lines.len() && (#[trigger] chain_entry(lines[i])) is Some && !is_router_id(
            (chain_entry(lines[i])->0).1,
        )
}

/// The `(filename, business id)` pairs of the secondary search's lines that
/// have at least two tokens, in order.
pub open spec fn fallback_entries(lines: Seq<Seq<char>>) -> Seq<(Seq<char>, Seq<char>)>
    decreases lines.len(),
{
    if lines.len() == 0 {
        seq![]
    } else {
        let rest = fallback_entries(lines.drop_last());
        let t = tokens(lines.last());
        if t.len() >= 2 {
            rest.push((t[0], t[1]))
        } else {
            rest
        }
    }
}

pub fn trim_dot_slash(s: &Vec<char>) -> (r: Vec<char>)
    ensures
        r@ == strip_dot_slash(s@),
{
    let mut i: usize = 0;
    assert(s@.skip(0) =~= s@);
    while s.len() - i >= 2 && s[i] == '.' && s[i + 1] == '/'
        invariant
            i <= s.len(),
            strip_dot_slash(s@) == strip_dot_slash(s@.skip(i as int)),
        decreases s.len() - i,
    {
        assert(s@.skip(i as int).skip(2) =~= s@.skip(i + 2));
        i = i + 2;
    }
    assert(strip_dot_slash(s@.skip(i as int)) == s@.skip(i as int));
    let mut r: Vec<char> = Vec::new();
    let mut j: usize = i;
    while j < s.len()
        invariant
            i <= j <= s.len(),
            r@ == s@.subrange(i as int, j as int),
        decreases s.len() - j,
    {
        r.push(s[j]);
        j = j + 1;
        assert(r@ =~= s@.subrange(i as int, j as int));
    }
    assert(r@ =~= s@.skip(i as int));
    r
}

/// Reads a primary search line from its characters.
pub fn parse_chain_chars(line: &Vec<char>) -> (r: Option<(String, String, String)>)
    ensures
        match r {
            Some((f, d, ip)) => chain_entry(line@) == Some((f@, d@, ip@)),
            None => chain_entry(line@) is None,
        },
{
    let t = split_tokens(line);
    if t.len() >= 3 {
        let f = trim_dot_slash(&t[0]);
        Some((string_of_chars(&f), string_of_chars(&t[1]), string_of_chars(&t[2])))
    } else {
        None
    }
}

/// Reads `filename dus_id ip` from a primary search line; a line with fewer
/// than three tokens gives `None`. The filename loses its leading `./`.
pub fn parse_chain_line(line: &str) -> (r: Option<(String, String, String)>)
    ensures
        match r {
            Some((f, d, ip)) => chain_entry(line@) == Some((f@, d@, ip@)),
            None => chain_entry(line@) is None,
        },
{
    parse_chain_chars(&chars_of(line))
}

/// Whether a business id names a processing hop (`B` or `C`) rather than a
/// router or anything else.
pub fn is_valid_chain_node(dus_id: &str) -> (r: bool)
    ensures
        r == is_valid_id(dus_id@),
{
    if dus_id.unicode_len() == 0 {
        false
    } else {
        let c = dus_id.get_char(0);
        c == 'B' || c == 'C'
    }
}

fn starts_with_g(s: &str) -> (r: bool)
    ensures
        r == is_router_id(s@),
{
    if s.unicode_len() == 0 {
        false
    } else {
        s.get_char(0) == 'G'
    }
}

/// Whether the primary search's non-empty lines call for the secondary search.
pub fn needs_fallback(lines: &Vec<Vec<char>>) -> (r: bool)
    ensures
        r == spec_needs_fallback(views(lines@)),
{
    let mut i: usize = 0;
    while i < lines.len()
        invariant
            i <= lines.len(),
            forall|k: int|
                0 <= k < i ==> !((#[trigger] chain_entry(views(lines@)[k])) is Some
                    && !is_router_id((chain_entry(views(lines@)[k])->0).1)),
        decreases lines.len() - i,
    {
        let ghost l = views(lines@)[i as int];
        assert(l == lines@[i as int]@);
        let p = parse_chain_chars(&lines[i]);
        if p.is_some() {
            let (_, d, _) = p.unwrap();
            if !starts_with_g(d.as_str()) {
                assert(chain_entry(l) is Some && !is_router_id((chain_entry(l)->0).1));
                return false;
            }
        }
        i = i + 1;
    }
    true
}

pub open spec fn pair_views(v: Seq<(String, String)>) -> Seq<(Seq<char>, Seq<char>)> {
    v.map_values(|p: (String, String)| (p.0@, p.1@))
}

/// Reads the secondary search's `(filename, business id)` pairs; lines with
/// fewer than two tokens are skipped.
pub fn parse_fallback_lines(lines: &Vec<Vec<char>>) -> (r: Vec<(String, String)>)
    ensures
        pair_views(r@) == fallback_entries(views(lines@)),
{
    let mut r: Vec<(String, String)> = Vec::new();
    let mut i: usize = 0;
    while i < lines.len()
        invariant
            i <= lines.len(),
            pair_views(r@) == fallback_entries(views(lines@).take(i as int)),
        decreases lines.len() - i,
    {
        let ghost r0 = r@;
        let t = split_tokens(&lines[i]);
        proof {
            assert(views(lines@).take(i + 1).drop_last() =~= views(lines@).take(i as int));
            assert(views(lines@).take(i + 1).last() == lines@[i as int]@);
        }
        if t.len() >= 2 {
            let f = string_of_chars(&t[0]);
            let d = string_of_chars(&t[1]);
            r.push((f, d));
            assert(pair_views(r@) =~= pair_views(r0).push((t@[0]@, t@[1]@)));
        }
        i = i + 1;
    }
    assert(views(lines@).take(lines.len() as int) =~= views(lines@));
    r
}

} // verus!
