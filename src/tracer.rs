//! The chain tracer: a walk over hosts, driven one remote search at a time.
//!
//! The tracer never talks to a host itself. `next_step` names the search to
//! run and where; the caller runs it and hands the output (or the failure) to
//! `trace_chain_recursive`, which decides everything that follows.
use vstd::prelude::*;
use vstd::string::*;
use crate::chain::{
    chain_entry, fallback_entries, is_valid_id, pair_views, parse_chain_chars,
    parse_fallback_lines, is_valid_chain_node, needs_fallback, spec_needs_fallback, ChainNode,
    ChainTraceResult, ServerConfig,
};
use crate::messages::{
    backup_msg, build_fallback_command, build_primary_command, fallback_command,
    fallback_found_msg, found_msg, make_backup_msg, make_entry_msg, make_fallback_found_msg,
    make_found_msg, make_max_depth_msg, make_no_results_msg, make_searching_msg, make_skip_msg,
    make_trace_failed_msg, make_unregistered_msg, max_depth_msg, no_results_msg,
    primary_command, searching_msg, skip_msg, trace_failed_msg, entry_msg, unregistered_msg,
};
use crate::text::{chars_of, decimal, decimal_string, nonempty_lines, split_lines, views};

verus! {

pub open spec fn texts(v: Seq<String>) -> Seq<Seq<char>> {
    v.map_values(|s: String| s@)
}

pub open spec fn hosts(v: Seq<ServerConfig>) -> Seq<Seq<char>> {
    v.map_values(|s: ServerConfig| s.host@)
}

/// Whether `s` is one of the texts of `v`.
pub fn contains_text(v: &Vec<String>, s: &str) -> (r: bool)
    ensures
        r == texts(v@).contains(s@),
{
    let key = String::from_str(s);
    let mut i: usize = 0;
    while i < v.len()
        invariant
            i <= v.len(),
            key@ == s@,
            forall|k: int| 0 <= k < i ==> texts(v@)[k] != s@,
        decreases v.len() - i,
    {
        if v[i] == key {
            assert(texts(v@)[i as int] == s@);
            return true;
        }
        i = i + 1;
    }
    false
}

/// The first known server whose host is `ip`.
pub fn find_server(known: &Vec<ServerConfig>, ip: &str) -> (r: Option<usize>)
    ensures
        match r {
            Some(k) => k < known.len() && hosts(known@)[k as int] == ip@ && forall|j: int|
                0 <= j < k ==> hosts(known@)[j] != ip@,
            None => !hosts(known@).contains(ip@),
        },
{
    let key = String::from_str(ip);
    let mut i: usize = 0;
    while i < known.len()
        invariant
            i <= known.len(),
            key@ == ip@,
            forall|k: int| 0 <= k < i ==> hosts(known@)[k] != ip@,
        decreases known.len() - i,
    {
        if known[i].host == key {
            return Some(i);
        }
        i = i + 1;
    }
    None
}

/// The position of the first `x` in `s` (its length when there is none).
pub open spec fn first_index(s: Seq<Seq<char>>, x: Seq<char>) -> int
    decreases s.len(),
{
    if s.len() == 0 || s[0] == x {
        0
    } else {
        1 + first_index(s.skip(1), x)
    }
}

proof fn lemma_first_index(s: Seq<Seq<char>>, x: Seq<char>, k: int)
    requires
        0 <= k < s.len(),
        s[k] == x,
        forall|j: int| 0 <= j < k ==> s[j] != x,
    ensures
        first_index(s, x) == k,
    decreases k,
{
    if k > 0 {
        assert forall|j: int| 0 <= j < k - 1 implies s.skip(1)[j] != x by {
            assert(s.skip(1)[j] == s[j + 1]);
        }
        lemma_first_index(s.skip(1), x, k - 1);
    }
}

/// What becomes of one entry found in a primary search.
pub enum HopDecision {
    /// Recorded without following it: not a processing hop (a router entry).
    Leaf,
    /// A processing hop whose peer was searched already in this trace.
    Visited,
    /// A processing hop whose peer is not among the known servers.
    Unregistered,
    /// Follow it on the known server at this index.
    Follow(usize),
}

/// An entry is followed only when its id marks a processing hop and its peer
/// has not been searched; then the peer must be a known server.
pub fn next_hop(dus_id: &str, ip: &str, visited: &Vec<String>, known: &Vec<ServerConfig>) -> (r:
    HopDecision)
    ensures
        r is Leaf <==> !is_valid_id(dus_id@),
        r is Visited <==> is_valid_id(dus_id@) && texts(visited@).contains(ip@),
        r is Unregistered <==> (is_valid_id(dus_id@) && !texts(visited@).contains(ip@)
            && !hosts(known@).contains(ip@)),
        match r {
            HopDecision::Follow(k) => k < known.len() && hosts(known@)[k as int] == ip@
                && forall|j: int| 0 <= j < k ==> hosts(known@)[j] != ip@,
            _ => true,
        },
{
    if !is_valid_chain_node(dus_id) {
        HopDecision::Leaf
    } else if contains_text(visited, ip) {
        HopDecision::Visited
    } else {
        match find_server(known, ip) {
            Some(k) => {
                assert(hosts(known@).contains(ip@)) by {
                    assert(hosts(known@)[k as int] == ip@);
                }
                HopDecision::Follow(k)
            },
            None => HopDecision::Unregistered,
        }
    }
}

/// A search to run on one host, with the credentials to log in there.
pub struct RemoteCommand {
    pub host: String,
    pub port: u16,
    pub username: String,
    pub password: String,
    pub command: String,
}

/// What the tracer needs next.
pub enum TraceStep {
    /// Run this search and hand its output to `trace_chain_recursive`
    /// (`TraceInput::Output`).
    Run(RemoteCommand),
    /// Call `trace_chain_recursive` with `TraceInput::Expand`: the current
    /// host has entries to follow, or is done.
    Expand,
    /// The trace is over; `finish` gives the result.
    Finished,
}

/// Where the search on one host stands.
pub enum Stage {
    /// The primary search has been asked for.
    Primary,
    /// The secondary search has been asked for.
    Fallback,
    /// The entries of the primary search are being followed.
    Expanding,
}

/// One host on the path being searched, and what was found there so far.
pub struct Frame {
    pub host: String,
    pub port: u16,
    pub username: String,
    pub password: String,
    /// 0 for the start host.
    pub depth: u32,
    pub stage: Stage,
    /// The non-empty lines of the primary search.
    pub lines: Vec<Vec<char>>,
    /// The line to follow next.
    pub next: usize,
    /// Nodes for the lines followed so far.
    pub nodes: Vec<ChainNode>,
    /// Nodes from the secondary search.
    pub fallback: Vec<ChainNode>,
    /// The entry whose peer is being searched: filename, business id, peer ip.
    pub pending: Option<(String, String, String)>,
}

/// A trace in progress. The path of hosts being searched is a stack; each host
/// is searched at most once per trace.
pub struct ChainTracer {
    trace_id: String,
    log_path: String,
    known_servers: Vec<ServerConfig>,
    max_depth: u32,
    root_host: String,
    stack: Vec<Frame>,
    visited: Vec<String>,
    trace_log: Vec<String>,
    outcome: Option<Result<Vec<ChainNode>, String>>,
}

spec fn frames_ok(stack: Seq<Frame>, max_depth: u32) -> bool {
    forall|i: int|
        #![trigger stack[i]]
        0 <= i < stack.len() ==> stack[i].depth == i && i < max_depth && stack[i].next
            <= stack[i].lines@.len()
}

/// Every host on the path has been searched, and none is on it twice.
pub open spec fn path_hosts_ok(stack: Seq<Frame>, visited: Seq<Seq<char>>) -> bool {
    &&& forall|i: int| 0 <= i < stack.len() ==> visited.contains(#[trigger] stack[i].host@)
    &&& forall|i: int, j: int|
        0 <= i < j < stack.len() ==> (#[trigger] stack[i]).host@ != (#[trigger] stack[j]).host@
}

proof fn lemma_path_prefix(s: Seq<Frame>, n: int, vis: Seq<Seq<char>>)
    requires
        path_hosts_ok(s, vis),
        0 <= n <= s.len(),
    ensures
        path_hosts_ok(s.subrange(0, n), vis),
{
    let t = s.subrange(0, n);
    assert forall|i: int| 0 <= i < t.len() implies vis.contains(#[trigger] t[i].host@) by {
        assert(t[i] == s[i]);
    }
    assert forall|i: int, j: int| 0 <= i < j < t.len() implies (#[trigger] t[i]).host@ != (
    #[trigger] t[j]).host@ by {
        assert(t[i] == s[i] && t[j] == s[j]);
    }
}

proof fn lemma_path_push(s: Seq<Frame>, f: Frame, vis: Seq<Seq<char>>)
    requires
        path_hosts_ok(s, vis),
        vis.contains(f.host@),
        forall|i: int| 0 <= i < s.len() ==> s[i].host@ != f.host@,
    ensures
        path_hosts_ok(s.push(f), vis),
{
    let t = s.push(f);
    assert forall|i: int| 0 <= i < t.len() implies vis.contains(#[trigger] t[i].host@) by {
        if i < s.len() {
            assert(t[i] == s[i]);
        }
    }
    assert forall|i: int, j: int| 0 <= i < j < t.len() implies (#[trigger] t[i]).host@ != (
    #[trigger] t[j]).host@ by {
        assert(t[i] == s[i]);
        if j < s.len() {
            assert(t[j] == s[j]);
        }
    }
}

proof fn lemma_path_vis_grow(s: Seq<Frame>, vis: Seq<Seq<char>>, x: Seq<char>)
    requires
        path_hosts_ok(s, vis),
    ensures
        path_hosts_ok(s, vis.push(x)),
{
    assert forall|i: int| 0 <= i < s.len() implies vis.push(x).contains(#[trigger] s[i].host@) by {
        let k = choose|k: int| 0 <= k < vis.len() && vis[k] == s[i].host@;
        assert(vis.push(x)[k] == s[i].host@);
    }
}

/// Putting back the last frame of `s` with its host unchanged keeps the path's hosts in order.
proof fn lemma_path_replace_last(s: Seq<Frame>, f: Frame, vis: Seq<Seq<char>>)
    requires
        path_hosts_ok(s, vis),
        s.len() > 0,
        f.host@ == s.last().host@,
    ensures
        path_hosts_ok(s.subrange(0, s.len() - 1).push(f), vis),
{
    lemma_path_prefix(s, s.len() - 1, vis);
    let t = s.subrange(0, s.len() - 1);
    assert forall|i: int| 0 <= i < t.len() implies t[i].host@ != f.host@ by {
        assert(t[i] == s[i]);
    }
    lemma_path_push(t, f, vis);
}

spec fn waiting_below(stack: Seq<Frame>, n: int) -> bool {
    forall|i: int|
        0 <= i < n ==> (#[trigger] stack[i]).stage is Expanding && stack[i].pending is Some
}

proof fn lemma_no_dup_push(s: Seq<Seq<char>>, x: Seq<char>)
    requires
        s.no_duplicates(),
        !s.contains(x),
    ensures
        s.push(x).no_duplicates(),
{
    let t = s.push(x);
    assert forall|i: int, j: int| 0 <= i < t.len() && 0 <= j < t.len() && i != j implies t[i]
        != t[j] by {
        if i == s.len() {
            assert(s[j] == t[j]);
        } else if j == s.len() {
            assert(s[i] == t[i]);
        }
    }
}

broadcast proof fn lemma_texts_push(v: Seq<String>, x: String)
    ensures
        #[trigger] texts(v.push(x)) == texts(v).push(x@),
{
    assert(texts(v.push(x)) =~= texts(v).push(x@));
}

broadcast proof fn lemma_frames_pop(s: Seq<Frame>, m: u32)
    requires
        frames_ok(s, m),
        s.len() > 0,
    ensures
        #[trigger] frames_ok(s.subrange(0, s.len() - 1), m),
{
    let t = s.subrange(0, s.len() - 1);
    assert forall|i: int| 0 <= i < t.len() implies t[i].depth == i && i < m && t[i].next
        <= t[i].lines@.len() by {
        assert(t[i] == s[i]);
    }
}

broadcast proof fn lemma_frames_push(s: Seq<Frame>, f: Frame, m: u32)
    requires
        frames_ok(s, m),
        f.depth == s.len(),
        s.len() < m,
        f.next <= f.lines@.len(),
    ensures
        #[trigger] frames_ok(s.push(f), m),
{
    let t = s.push(f);
    assert forall|i: int| 0 <= i < t.len() implies t[i].depth == i && i < m && t[i].next
        <= t[i].lines@.len() by {
        if i < s.len() {
            assert(t[i] == s[i]);
        }
    }
}

broadcast proof fn lemma_waiting_push(s: Seq<Frame>, n: int, f: Frame)
    requires
        waiting_below(s, n),
        n <= s.len(),
    ensures
        #[trigger] waiting_below(s.push(f), n),
{
    assert forall|i: int| 0 <= i < n implies (#[trigger] s.push(f)[i]).stage is Expanding
        && s.push(f)[i].pending is Some by {
        assert(s.push(f)[i] == s[i]);
    }
}

impl ChainTracer {
    /// The hosts searched so far, in the order they were first searched.
    pub closed spec fn visited_hosts(&self) -> Seq<Seq<char>> {
        texts(self.visited@)
    }

    pub closed spec fn log_lines(&self) -> Seq<Seq<char>> {
        texts(self.trace_log@)
    }

    pub open spec fn is_finished(&self) -> bool {
        self.outcome_of() is Some
    }

    pub closed spec fn max_depth_of(&self) -> nat {
        self.max_depth as nat
    }

    pub closed spec fn root(&self) -> Seq<char> {
        self.root_host@
    }

    pub closed spec fn trace_id_of(&self) -> Seq<char> {
        self.trace_id@
    }

    pub closed spec fn log_path_of(&self) -> Seq<char> {
        self.log_path@
    }

    /// How many hosts lie on the path from the start host to the current one.
    pub open spec fn path_len(&self) -> nat {
        self.frames().len()
    }

    /// The host whose search is asked for, with its port and login.
    pub open spec fn current(&self) -> (Seq<char>, u16, Seq<char>, Seq<char>) {
        let f = self.frames().last();
        (f.host@, f.port, f.username@, f.password@)
    }

    /// The depth of the current host: 0 for the start host.
    pub open spec fn current_depth(&self) -> nat {
        self.frames().last().depth as nat
    }

    pub open spec fn awaiting_primary(&self) -> bool {
        self.frames().len() > 0 && self.frames().last().stage is Primary
    }

    pub open spec fn expanding(&self) -> bool {
        self.frames().len() > 0 && self.frames().last().stage is Expanding
    }

    /// The path of hosts being searched, from the start host.
    pub closed spec fn frames(&self) -> Seq<Frame> {
        self.stack@
    }

    pub open spec fn awaiting_fallback(&self) -> bool {
        self.frames().len() > 0 && self.frames().last().stage is Fallback
    }

    pub closed spec fn wf(&self) -> bool {
        &&& frames_ok(self.stack@, self.max_depth)
        &&& waiting_below(self.stack@, self.stack@.len() - 1)
        &&& self.visited_hosts().no_duplicates()
        &&& (self.outcome is None <==> self.stack@.len() > 0)
        &&& self.stack@.len() > 0 ==> {
            &&& self.stack@.last().pending is None
            &&& self.stack@.last().stage is Primary ==> self.visited_hosts().len() > 0
                && self.stack@.last().host@ == self.visited_hosts().last()
        }
        &&& self.stack@.len() > 0 ==> self.stack@[0].host@ == self.root_host@
        &&& path_hosts_ok(self.stack@, self.visited_hosts())
    }
}

/// The lines that open a trace's log.
pub open spec fn header(trace_id: Seq<char>, host: Seq<char>, log_path: Seq<char>) -> Seq<
    Seq<char>,
> {
    seq![
        "=== 开始追踪交易链路 ==="@,
        "流水号: "@ + trace_id,
        "起始服务器: "@ + host,
        "日志路径: "@ + log_path,
        seq![],
    ]
}

/// The line that closes a trace's log.
pub open spec fn completion_msg(hops: nat) -> Seq<char> {
    "=== 追踪完成: 共访问 "@ + decimal(hops) + " 个节点 ==="@
}

/// The count of hosts, as far as a `u32` holds it.
pub open spec fn hop_count(n: nat) -> u32 {
    if n <= u32::MAX {
        n as u32
    } else {
        u32::MAX
    }
}

impl ChainTracer {
    pub closed spec fn outcome_of(&self) -> Option<Result<Vec<ChainNode>, String>> {
        self.outcome
    }

    pub closed spec fn known(&self) -> Seq<ServerConfig> {
        self.known_servers@
    }

    /// Begins a trace of `trace_id` from `host`, searching `log_path` on each
    /// host, following hops only to `known_servers` and no deeper than
    /// `max_depth` hosts.
    pub fn start(
        host: String,
        port: u16,
        username: String,
        password: String,
        trace_id: String,
        log_path: String,
        known_servers: Vec<ServerConfig>,
        max_depth: u32,
    ) -> (t: Self)
        ensures
            t.wf(),
            t.trace_id_of() == trace_id@,
            t.log_path_of() == log_path@,
            t.max_depth_of() == max_depth,
            t.root() == host@,
            t.known() == known_servers@,
            max_depth == 0 ==> {
                &&& t.frames().len() == 0
                &&& t.outcome_of() matches Some(Ok(v)) && v@.len() == 0
                &&& t.visited_hosts() == Seq::<Seq<char>>::empty()
                &&& t.log_lines() == header(trace_id@, host@, log_path@).push(
                    max_depth_msg(0, host@),
                )
            },
            max_depth > 0 ==> {
                &&& t.frames().len() == 1
                &&& t.frames()[0].host == host
                &&& t.frames()[0].port == port
                &&& t.frames()[0].username == username
                &&& t.frames()[0].password == password
                &&& t.frames()[0].depth == 0
                &&& t.frames()[0].stage is Primary
                &&& t.frames()[0].lines@.len() == 0
                &&& t.frames()[0].next == 0
                &&& t.frames()[0].nodes@.len() == 0
                &&& t.frames()[0].fallback@.len() == 0
                &&& t.frames()[0].pending is None
                &&& t.visited_hosts() == seq![host@]
                &&& t.log_lines() == header(trace_id@, host@, log_path@).push(
                    searching_msg(1, host@),
                )
            },
    {
        let mut trace_log: Vec<String> = Vec::new();
        trace_log.push(String::from_str("=== 开始追踪交易链路 ==="));
        trace_log.push(crate::text::concat("流水号: ", trace_id.as_str()));
        trace_log.push(crate::text::concat("起始服务器: ", host.as_str()));
        trace_log.push(crate::text::concat("日志路径: ", log_path.as_str()));
        trace_log.push(String::new());
        let mut visited: Vec<String> = Vec::new();
        let mut stack: Vec<Frame> = Vec::new();
        let outcome;
        if max_depth == 0 {
            trace_log.push(make_max_depth_msg(max_depth, host.as_str()));
            outcome = Some(Ok(Vec::new()));
        } else {
            visited.push(host.clone());
            trace_log.push(make_searching_msg(1, host.as_str()));
            stack.push(
                Frame {
                    host: host.clone(),
                    port,
                    username,
                    password,
                    depth: 0,
                    stage: Stage::Primary,
                    lines: Vec::new(),
                    next: 0,
                    nodes: Vec::new(),
                    fallback: Vec::new(),
                    pending: None,
                },
            );
            outcome = None;
        }
        let t = ChainTracer {
            trace_id,
            log_path,
            known_servers,
            max_depth,
            root_host: host,
            stack,
            visited,
            trace_log,
            outcome,
        };
        assert(t.log_lines() =~= header(t.trace_id@, t.root_host@, t.log_path@).push(
            texts(t.trace_log@).last(),
        ));
        assert(t.visited_hosts().no_duplicates());
        t
    }

    /// The search to run next, or `Finished` once the trace is over.
    pub fn next_step(&self) -> (r: TraceStep)
        requires
            self.wf(),
        ensures
            match r {
                TraceStep::Finished => self.is_finished(),
                TraceStep::Expand => self.expanding(),
                TraceStep::Run(c) => {
                    &&& (self.awaiting_primary() || self.awaiting_fallback())
                    &&& (c.host@, c.port, c.username@, c.password@) == self.current()
                    &&& c.command@ == if self.awaiting_primary() {
                        primary_command(self.log_path_of(), self.trace_id_of())
                    } else {
                        fallback_command(self.log_path_of(), self.trace_id_of())
                    }
                },
            },
    {
        if self.stack.len() == 0 {
            return TraceStep::Finished;
        }
        let f = &self.stack[self.stack.len() - 1];
        let command = match f.stage {
            Stage::Primary => build_primary_command(self.log_path.as_str(), self.trace_id.as_str()),
            Stage::Fallback => build_fallback_command(
                self.log_path.as_str(),
                self.trace_id.as_str(),
            ),
            Stage::Expanding => {
                return TraceStep::Expand;
            },
        };
        TraceStep::Run(
            RemoteCommand {
                host: f.host.clone(),
                port: f.port,
                username: f.username.clone(),
                password: f.password.clone(),
                command,
            },
        )
    }

    /// Ends a finished trace. A failure of the start host gives an empty
    /// forest, the log so far with the error appended, and the error;
    /// otherwise the forest, the log with a closing line, and the number of
    /// distinct hosts searched.
    pub fn finish(self, duration_ms: u64) -> (r: ChainTraceResult)
        requires
            self.wf(),
            self.is_finished(),
        ensures
            r.duration_ms == duration_ms,
            match self.outcome_of() {
                Some(Ok(nodes)) => {
                    &&& r.nodes == nodes
                    &&& texts(r.trace_log@) == self.log_lines() + seq![
                        seq![],
                        completion_msg(hop_count(self.visited_hosts().len()) as nat),
                    ]
                    &&& r.total_hops == hop_count(self.visited_hosts().len())
                    &&& r.error is None
                },
                Some(Err(e)) => {
                    &&& r.nodes@.len() == 0
                    &&& texts(r.trace_log@) == self.log_lines().push("Error: "@ + e@)
                    &&& r.total_hops == 0
                    &&& r.error == Some(e)
                },
                None => false,
            },
    {
        let ChainTracer { visited, trace_log, outcome, .. } = self;
        match outcome {
            Some(Ok(nodes)) => {
                let n = visited.len();
                let hops: u32 = if n <= u32::MAX as usize {
                    n as u32
                } else {
                    u32::MAX
                };
                let mut log = trace_log;
                let ghost l0 = log@;
                log.push(String::new());
                let mut done = String::from_str("=== 追踪完成: 共访问 ");
                done.append(decimal_string(hops as u64).as_str());
                done.append(" 个节点 ===");
                log.push(done);
                assert(texts(log@) =~= texts(l0) + seq![
                    seq![],
                    completion_msg(hops as nat),
                ]);
                ChainTraceResult { nodes, trace_log: log, total_hops: hops, duration_ms, error: None }
            },
            Some(Err(e)) => {
                let mut log = trace_log;
                let ghost l0 = log@;
                log.push(crate::text::concat("Error: ", e.as_str()));
                assert(texts(log@) =~= texts(l0).push("Error: "@ + e@));
                ChainTraceResult {
                    nodes: Vec::new(),
                    trace_log: log,
                    total_hops: 0,
                    duration_ms,
                    error: Some(e),
                }
            },
            None => {
                ChainTraceResult {
                    nodes: Vec::new(),
                    trace_log: Vec::new(),
                    total_hops: 0,
                    duration_ms,
                    error: None,
                }
            },
        }
    }
}

/// Leaf nodes for the secondary search's entries, found on `host`; each
/// entry also gets a line in `log`.
fn fallback_nodes(
    pairs: &Vec<(String, String)>,
    host: &String,
    log_path: &String,
    log: &mut Vec<String>,
) -> (r: Vec<ChainNode>)
    ensures
        r@.len() == pairs@.len(),
        forall|i: int|
            0 <= i < r@.len() ==> {
                &&& (#[trigger] r@[i]).filename@ == pairs@[i].0@
                &&& r@[i].dus_id@ == pairs@[i].1@
                &&& r@[i].ip@ == host@
                &&& r@[i].log_path@ == log_path@
                &&& r@[i].children@ == Seq::<ChainNode>::empty()
            },
        texts(final(log)@) == texts(old(log)@) + pairs@.map_values(
            |p: (String, String)| fallback_found_msg(p.0@, p.1@, host@),
        ),
{
    let mut r: Vec<ChainNode> = Vec::new();
    let mut i: usize = 0;
    while i < pairs.len()
        invariant
            i <= pairs.len(),
            r@.len() == i,
            forall|j: int|
                0 <= j < i ==> {
                    &&& (#[trigger] r@[j]).filename@ == pairs@[j].0@
                    &&& r@[j].dus_id@ == pairs@[j].1@
                    &&& r@[j].ip@ == host@
                    &&& r@[j].log_path@ == log_path@
                    &&& r@[j].children@ == Seq::<ChainNode>::empty()
                },
            texts(log@) == texts(old(log)@) + pairs@.take(i as int).map_values(
                |p: (String, String)| fallback_found_msg(p.0@, p.1@, host@),
            ),
        decreases pairs.len() - i,
    {
        let ghost l0 = log@;
        let (f, d) = (&pairs[i].0, &pairs[i].1);
        log.push(make_fallback_found_msg(f.as_str(), d.as_str(), host.as_str()));
        r.push(
            ChainNode {
                filename: f.clone(),
                dus_id: d.clone(),
                ip: host.clone(),
                log_path: log_path.clone(),
                children: Vec::new(),
            },
        );
        assert(pairs@.take(i + 1) =~= pairs@.take(i as int).push(pairs@[i as int]));
        assert(texts(log@) =~= texts(l0).push(fallback_found_msg(f@, d@, host@)));
        i = i + 1;
    }
    assert(pairs@.take(pairs.len() as int) =~= pairs@);
    r
}

pub open spec fn pending_view(p: Option<(String, String, String)>) -> Option<
    (Seq<char>, Seq<char>, Seq<char>),
> {
    match p {
        Some((f, d, i)) => Some((f@, d@, i@)),
        None => None,
    }
}

pub open spec fn result_view(r: Result<Vec<ChainNode>, String>) -> Result<Seq<ChainNode>, Seq<char>> {
    match r {
        Ok(v) => Ok(v@),
        Err(e) => Err(e@),
    }
}

/// `n` records the entry `(file, id)` found on `host`, leading to `children`.
pub open spec fn node_is(
    n: ChainNode,
    file: Seq<char>,
    id: Seq<char>,
    host: Seq<char>,
    log_path: Seq<char>,
    children: Seq<ChainNode>,
) -> bool {
    &&& n.filename@ == file
    &&& n.dus_id@ == id
    &&& n.ip@ == host
    &&& n.log_path@ == log_path
    &&& n.children@ == children
}

/// `child` logs in with the port and login of the first known server at `ip`.
pub open spec fn logs_in_as(child: Frame, known: Seq<ServerConfig>, ip: Seq<char>) -> bool {
    let k = first_index(hosts(known), ip);
    &&& 0 <= k < known.len()
    &&& child.port == known[k].port
    &&& child.username == known[k].username
    &&& child.password == known[k].password
}

/// Frames `a` and `b` are about the same host, at the same depth.
pub open spec fn same_host(a: Frame, b: Frame) -> bool {
    &&& b.host == a.host
    &&& b.port == a.port
    &&& b.username == a.username
    &&& b.password == a.password
    &&& b.depth == a.depth
}

/// `b` is `a` with the first `n` frames untouched.
pub open spec fn below_same(a: Seq<Frame>, b: Seq<Frame>, n: int) -> bool {
    forall|i: int| 0 <= i < n ==> #[trigger] b[i] == a[i]
}

/// Frame `b` is `a` moved on to line `next`, holding `nodes` and waiting on `pending`.
pub open spec fn frame_moved(
    a: Frame,
    b: Frame,
    next: int,
    nodes: Seq<ChainNode>,
    pending: Option<(Seq<char>, Seq<char>, Seq<char>)>,
) -> bool {
    &&& same_host(a, b)
    &&& b.stage == a.stage
    &&& b.lines@ == a.lines@
    &&& b.next == next
    &&& b.nodes@ == nodes
    &&& b.fallback@ == a.fallback@
    &&& pending_view(b.pending) == pending
}

/// Frame `q` is `p` with its waiting entry recorded as a node over `children`.
pub open spec fn returned_to(p: Frame, q: Frame, log_path: Seq<char>, children: Seq<ChainNode>) -> bool {
    let e = pending_view(p.pending)->0;
    &&& p.pending is Some
    &&& q.nodes@.len() == p.nodes@.len() + 1
    &&& frame_moved(p, q, p.next as int, p.nodes@.push(q.nodes@.last()), None)
    &&& node_is(q.nodes@.last(), e.0, e.1, p.host@, log_path, children)
}

/// The host on top of `s0` returned `res`: at the start host that is the
/// trace's outcome; otherwise the entry that led to it is recorded, over the
/// nodes returned (or none, with a line in the log, on failure).
pub open spec fn frame_returned(
    s0: Seq<Frame>,
    log0: Seq<Seq<char>>,
    log_path: Seq<char>,
    s1: Seq<Frame>,
    log1: Seq<Seq<char>>,
    outcome1: Option<Result<Vec<ChainNode>, String>>,
    res: Result<Seq<ChainNode>, Seq<char>>,
) -> bool {
    if s0.len() == 1 {
        &&& s1.len() == 0
        &&& log1 == log0
        &&& outcome1 is Some
        &&& result_view(outcome1->0) == res
    } else {
        let p = s0[s0.len() - 2];
        &&& s1.len() == s0.len() - 1
        &&& below_same(s0, s1, s0.len() - 2)
        &&& outcome1 is None
        &&& returned_to(
            p,
            s1.last(),
            log_path,
            match res {
                Ok(v) => v,
                Err(_) => seq![],
            },
        )
        &&& log1 == match res {
            Ok(_) => log0,
            Err(e) => log0.push(trace_failed_msg((pending_view(p.pending)->0).2, e)),
        }
    }
}

/// One `Expand` step: follows the current host's next entry, or, when none
/// is left, returns its nodes (those of its entries, then those of its
/// secondary search) to the entry that led to it, or as the outcome at the
/// start host.
///
/// An entry with fewer than three tokens is passed over. Any other gets a
/// line in the log and becomes a node of the current host. It is followed
/// when its id marks a processing hop and its peer was not searched yet
/// (a peer searched before is logged as skipped): then the peer must be a
/// known server (otherwise a diagnostic is logged) and lie within the
/// depth bound (otherwise a warning is logged); if so, the peer becomes
/// the current host, with the known server's login, and its primary
/// search is next.
pub open spec fn expanded(t0: ChainTracer, t1: ChainTracer) -> bool {
    &&& (t1.wf())
    &&& (t1.trace_id_of() == t0.trace_id_of())
    &&& (t1.log_path_of() == t0.log_path_of())
    &&& (t1.known() == t0.known())
    &&& (t1.max_depth_of() == t0.max_depth_of())
    &&& (t1.root() == t0.root())
    &&& (t0.frames().last().next >= t0.frames().last().lines@.len() ==> {
                &&& frame_returned(
                    t0.frames(),
                    t0.log_lines(),
                    t0.log_path_of(),
                    t1.frames(),
                    t1.log_lines(),
                    t1.outcome_of(),
                    Ok(t0.frames().last().nodes@ + t0.frames().last().fallback@),
                )
                &&& t1.visited_hosts() == t0.visited_hosts()
            })
    &&& (({
                let s = t0.frames();
                let top = s.last();
                let s1 = t1.frames();
                top.next < top.lines@.len() && chain_entry(top.lines@[top.next as int]@) is None
                    ==> {
                    &&& s1.len() == s.len()
                    &&& below_same(s, s1, s.len() - 1)
                    &&& frame_moved(top, s1.last(), top.next + 1, top.nodes@, None)
                    &&& t1.log_lines() == t0.log_lines()
                    &&& t1.visited_hosts() == t0.visited_hosts()
                    &&& !t1.is_finished()
                }
            }))
    &&& (({
                let s = t0.frames();
                let top = s.last();
                let s1 = t1.frames();
                let lp = t0.log_path_of();
                let log0 = t0.log_lines();
                let vis = t0.visited_hosts();
                let n1 = top.next + 1;
                top.next < top.lines@.len() && chain_entry(top.lines@[top.next as int]@) is Some
                    ==> {
                    let (f, d, ip) = chain_entry(top.lines@[top.next as int]@)->0;
                    let log1 = log0.push(entry_msg(f, d, ip, is_valid_id(d)));
                    let follows = is_valid_id(d) && !vis.contains(ip);
                    let known = hosts(t0.known()).contains(ip);
                    let deep = top.depth + 1 >= t0.max_depth_of();
                    &&& !t1.is_finished()
                    &&& below_same(s, s1, s.len() - 1)
                    &&& if follows && known && !deep {
                        let child = s1.last();
                        &&& s1.len() == s.len() + 1
                        &&& frame_moved(top, s1[s.len() - 1], n1, top.nodes@, Some((f, d, ip)))
                        &&& child.host@ == ip
                        &&& logs_in_as(child, t0.known(), ip)
                        &&& child.depth == top.depth + 1
                        &&& child.stage is Primary
                        &&& child.lines@.len() == 0
                        &&& child.next == 0
                        &&& child.nodes@.len() == 0
                        &&& child.fallback@.len() == 0
                        &&& child.pending is None
                        &&& t1.visited_hosts() == vis.push(ip)
                        &&& t1.log_lines() == log1.push(
                            searching_msg((top.depth + 2) as nat, ip),
                        )
                    } else {
                        &&& s1.len() == s.len()
                        &&& s1.last().nodes@.len() == top.nodes@.len() + 1
                        &&& frame_moved(
                            top,
                            s1.last(),
                            n1,
                            top.nodes@.push(s1.last().nodes@.last()),
                            None,
                        )
                        &&& node_is(s1.last().nodes@.last(), f, d, top.host@, lp, seq![])
                        &&& t1.visited_hosts() == vis
                        &&& t1.log_lines() == if !is_valid_id(d) {
                            log1
                        } else if vis.contains(ip) {
                            log1.push(skip_msg(ip))
                        } else if !known {
                            log1.push(unregistered_msg(ip))
                        } else {
                            log1.push(max_depth_msg(t0.max_depth_of(), ip))
                        }
                    }
                }
            }))
}

/// One `Output` step: the tracer takes the output of the search that
/// `next_step` asked for (or the failure to run it).
///
/// A primary search that failed ends the current host with the error: at the
/// start host that ends the trace, elsewhere the entry that led there is
/// recorded with no children and the failure is logged. Otherwise its
/// non-empty lines are kept, and the secondary search is asked for when no
/// line holds a readable non-router entry. The secondary search's entries
/// become leaf nodes on the current host (a failure counts as none); if
/// neither search found anything the host returns no nodes.
pub open spec fn took_output(t0: ChainTracer, t1: ChainTracer, output: Result<String, String>) -> bool {
    &&& (t1.wf())
    &&& (t1.trace_id_of() == t0.trace_id_of())
    &&& (t1.log_path_of() == t0.log_path_of())
    &&& (t1.known() == t0.known())
    &&& (t1.max_depth_of() == t0.max_depth_of())
    &&& (t1.root() == t0.root())
    &&& (t1.visited_hosts() == t0.visited_hosts())
    &&& (t0.awaiting_primary() && output is Err ==> frame_returned(
            t0.frames(),
            t0.log_lines(),
            t0.log_path_of(),
            t1.frames(),
            t1.log_lines(),
            t1.outcome_of(),
            Err(output->Err_0@),
        ))
    &&& (t0.awaiting_primary() && output is Ok ==> ({
            let s = t0.frames();
            let top = s.last();
            let s1 = t1.frames();
            let log0 = t0.log_lines();
            let level = (top.depth + 1) as nat;
            let lines = nonempty_lines(output->Ok_0@);
            let last = s1.last();
            &&& s1.len() == s.len()
            &&& below_same(s, s1, s.len() - 1)
            &&& same_host(top, last)
            &&& views(last.lines@) == lines
            &&& last.next == 0
            &&& last.nodes@ == top.nodes@
            &&& last.fallback@ == top.fallback@
            &&& last.pending is None
            &&& if spec_needs_fallback(lines) {
                &&& last.stage is Fallback
                &&& t1.log_lines() == log0.push(backup_msg(level, top.host@))
            } else {
                &&& last.stage is Expanding
                &&& t1.log_lines() == log0.push(
                    found_msg(level, lines.len(), top.host@),
                )
            }
        }))
    &&& (t0.awaiting_fallback() ==> ({
            let s = t0.frames();
            let top = s.last();
            let s1 = t1.frames();
            let lp = t0.log_path_of();
            let log0 = t0.log_lines();
            let level = (top.depth + 1) as nat;
            let entries = if output is Ok {
                fallback_entries(nonempty_lines(output->Ok_0@))
            } else {
                seq![]
            };
            let log_fb = log0 + entries.map_values(
                |p: (Seq<char>, Seq<char>)| fallback_found_msg(p.0, p.1, top.host@),
            );
            if top.lines@.len() == 0 && entries.len() == 0 {
                frame_returned(
                    s,
                    log_fb.push(no_results_msg(level, top.host@)),
                    lp,
                    s1,
                    t1.log_lines(),
                    t1.outcome_of(),
                    Ok(seq![]),
                )
            } else {
                let last = s1.last();
                &&& s1.len() == s.len()
                &&& below_same(s, s1, s.len() - 1)
                &&& same_host(top, last)
                &&& last.stage is Expanding
                &&& last.lines@ == top.lines@
                &&& last.next == 0
                &&& last.nodes@ == top.nodes@
                &&& last.pending is None
                &&& last.fallback@.len() == entries.len()
                &&& forall|i: int|
                    0 <= i < entries.len() ==> node_is(
                        #[trigger] last.fallback@[i],
                        entries[i].0,
                        entries[i].1,
                        top.host@,
                        lp,
                        seq![],
                    )
                &&& t1.log_lines() == log_fb.push(
                    found_msg(level, top.lines@.len(), top.host@),
                )
            }
        }))
}

impl ChainTracer {
    /// The frame on top has been taken off the stack (it was `s0.last()`) and
    /// returned `r`.
    fn deliver(&mut self, r: Result<Vec<ChainNode>, String>, Ghost(s0): Ghost<Seq<Frame>>)
        requires
            s0.len() > 0,
            old(self).stack@ == s0.subrange(0, s0.len() - 1),
            frames_ok(s0, old(self).max_depth),
            waiting_below(s0, s0.len() - 1),
            old(self).visited_hosts().no_duplicates(),
            old(self).outcome is None,
            s0[0].host@ == old(self).root_host@,
            path_hosts_ok(s0, old(self).visited_hosts()),
        ensures
            final(self).wf(),
            frame_returned(
                s0,
                old(self).log_lines(),
                old(self).log_path@,
                final(self).stack@,
                final(self).log_lines(),
                final(self).outcome,
                result_view(r),
            ),
            final(self).visited == old(self).visited,
            final(self).trace_id == old(self).trace_id,
            final(self).log_path == old(self).log_path,
            final(self).known_servers == old(self).known_servers,
            final(self).max_depth == old(self).max_depth,
            final(self).root_host == old(self).root_host,
    {
        broadcast use lemma_texts_push, lemma_frames_pop, lemma_frames_push, lemma_waiting_push;

        if self.stack.len() == 0 {
            self.outcome = Some(r);
            return;
        }
        let ghost s1 = self.stack@;
        assert(s1 == s0.subrange(0, s0.len() - 1));
        proof {
            lemma_path_prefix(s0, s0.len() - 1, self.visited_hosts());
        }
        let mut parent = self.stack.pop().unwrap();
        assert(parent == s0[s0.len() - 2]);
        let (fname, did, ip) = match parent.pending {
            Some(t) => t,
            None => {
                assert(false);
                (String::new(), String::new(), String::new())
            },
        };
        parent.pending = None;
        let children = match r {
            Ok(n) => n,
            Err(e) => {
                self.trace_log.push(make_trace_failed_msg(ip.as_str(), e.as_str()));
                Vec::new()
            },
        };
        let node = ChainNode {
            filename: fname,
            dus_id: did,
            ip: parent.host.clone(),
            log_path: self.log_path.clone(),
            children,
        };
        parent.nodes.push(node);
        proof {
            lemma_path_replace_last(s1, parent, self.visited_hosts());
        }
        self.stack.push(parent);
        assert(self.stack@[0].host@ == s0[0].host@);
    }

    #[verifier::spinoff_prover]
    #[verifier::rlimit(60)]
    fn expand_step(&mut self)
        requires
            old(self).wf(),
            old(self).expanding(),
        ensures
            expanded(*old(self), *final(self)),
    {
        broadcast use lemma_texts_push, lemma_frames_pop, lemma_frames_push, lemma_waiting_push;

        let ghost s0 = self.stack@;
        let mut f = self.stack.pop().unwrap();
        assert(f == s0.last());
        assert(f.depth == s0.len() - 1);
        if f.next >= f.lines.len() {
            let mut nodes = f.nodes;
            let mut fb = f.fallback;
            nodes.append(&mut fb);
            self.deliver(Ok(nodes), Ghost(s0));
            return;
        }
        let line_i = f.next;
        f.next = f.next + 1;
        let parsed = parse_chain_chars(&f.lines[line_i]);
        match parsed {
            None => {
                proof {
                    lemma_path_replace_last(s0, f, self.visited_hosts());
                }
                self.stack.push(f);
                assert(below_same(s0, self.stack@, s0.len() - 1));
                assert(frame_moved(s0.last(), self.stack@.last(), line_i + 1, s0.last().nodes@, None));
            },
            Some((fname, did, ip)) => {
                let valid = is_valid_chain_node(did.as_str());
                self.trace_log.push(make_entry_msg(fname.as_str(), did.as_str(), ip.as_str(), valid));
                let decision = next_hop(did.as_str(), ip.as_str(), &self.visited, &self.known_servers);
                let mut follow: Option<usize> = None;
                match decision {
                    HopDecision::Leaf => {},
                    HopDecision::Visited => {
                        self.trace_log.push(make_skip_msg(ip.as_str()));
                    },
                    HopDecision::Unregistered => {
                        self.trace_log.push(make_unregistered_msg(ip.as_str()));
                    },
                    HopDecision::Follow(k) => {
                        let depth = f.depth + 1;
                        let next_host = self.known_servers[k].host.clone();
                        if depth >= self.max_depth {
                            self.trace_log.push(make_max_depth_msg(self.max_depth, next_host.as_str()));
                        } else {
                            follow = Some(k);
                        }
                    },
                }
                match follow {
                    Some(k) => {
                        let depth = f.depth + 1;
                        proof {
                            lemma_first_index(hosts(self.known_servers@), ip@, k as int);
                        }
                        let server = &self.known_servers[k];
                        let child = Frame {
                            host: server.host.clone(),
                            port: server.port,
                            username: server.username.clone(),
                            password: server.password.clone(),
                            depth,
                            stage: Stage::Primary,
                            lines: Vec::new(),
                            next: 0,
                            nodes: Vec::new(),
                            fallback: Vec::new(),
                            pending: None,
                        };
                        let msg = make_searching_msg(depth as u64 + 1, child.host.as_str());
                        proof {
                            lemma_no_dup_push(self.visited_hosts(), child.host@);
                        }
                        let h = child.host.clone();
                        let ghost vb = self.visited@;
                        let ghost hv = h;
                        let ghost vb_hosts = self.visited_hosts();
                        self.visited.push(h);
                        proof {
                            lemma_path_vis_grow(s0, vb_hosts, hv@);
                        }
                        proof {
                            lemma_texts_push(vb, hv);
                        }
                        self.trace_log.push(msg);
                        f.pending = Some((fname, did, ip));
                        proof {
                            lemma_path_replace_last(s0, f, self.visited_hosts());
                            let t = s0.subrange(0, s0.len() - 1).push(f);
                            assert forall|i: int| 0 <= i < t.len() implies t[i].host@
                                != child.host@ by {
                                if i < s0.len() - 1 {
                                    assert(t[i] == s0[i]);
                                } else {
                                    assert(t[i] == f);
                                    assert(f.host@ == s0[s0.len() - 1].host@);
                                }
                                assert(vb_hosts.contains(t[i].host@));
                            }
                            assert(self.visited_hosts()[self.visited_hosts().len() - 1]
                                == child.host@);
                            lemma_path_push(t, child, self.visited_hosts());
                        }
                        self.stack.push(f);
                        self.stack.push(child);
                    },
                    None => {
                        let node = ChainNode {
                            filename: fname,
                            dus_id: did,
                            ip: f.host.clone(),
                            log_path: self.log_path.clone(),
                            children: Vec::new(),
                        };
                        f.nodes.push(node);
                        proof {
                            lemma_path_replace_last(s0, f, self.visited_hosts());
                        }
                        self.stack.push(f);
                    },
                }
            },
        }
    }
}

#[verifier::spinoff_prover]
fn take_output(tracer: &mut ChainTracer, output: Result<String, String>)
    requires
        old(tracer).wf(),
        old(tracer).awaiting_primary() || old(tracer).awaiting_fallback(),
    ensures
        took_output(*old(tracer), *final(tracer), output),
{
    broadcast use lemma_texts_push, lemma_frames_pop, lemma_frames_push, lemma_waiting_push;

    let ghost s0 = tracer.stack@;
    let mut f = tracer.stack.pop().unwrap();
    assert(f == s0.last());
    assert(f.depth == s0.len() - 1);
    let level = f.depth as u64 + 1;
    match f.stage {
        Stage::Primary => {
            match output {
                Err(e) => {
                    tracer.deliver(Err(e), Ghost(s0));
                },
                Ok(out) => {
                    let chars = chars_of(out.as_str());
                    let lines = split_lines(&chars);
                    let fb = needs_fallback(&lines);
                    f.lines = lines;
                    f.next = 0;
                    if fb {
                        tracer.trace_log.push(make_backup_msg(level, f.host.as_str()));
                        f.stage = Stage::Fallback;
                    } else {
                        tracer.trace_log.push(
                            make_found_msg(level, f.lines.len() as u64, f.host.as_str()),
                        );
                        f.stage = Stage::Expanding;
                    }
                    tracer.stack.push(f);
                    assert(below_same(s0, tracer.stack@, s0.len() - 1));
                    assert(views(tracer.stack@.last().lines@) == nonempty_lines(out@));
                },
            }
        },
        Stage::Fallback => {
            let ghost log0 = tracer.trace_log@;
            let ghost entries = if output is Ok {
                fallback_entries(nonempty_lines(output->Ok_0@))
            } else {
                seq![]
            };
            let mut pairs: Vec<(String, String)> = Vec::new();
            match output {
                Ok(out) => {
                    let lines = split_lines(&chars_of(out.as_str()));
                    pairs = parse_fallback_lines(&lines);
                },
                Err(_) => {},
            }
            assert(pair_views(pairs@) =~= entries);
            let fb_nodes = fallback_nodes(&pairs, &f.host, &tracer.log_path, &mut tracer.trace_log);
            let ghost lg = tracer.log_lines();
            proof {
                let host = f.host@;
                assert forall|i: int| 0 <= i < entries.len() implies entries[i] == (
                    pairs@[i].0@,
                    pairs@[i].1@,
                ) by {
                    assert(pair_views(pairs@)[i] == (pairs@[i].0@, pairs@[i].1@));
                }
                assert(pairs@.map_values(
                    |p: (String, String)| fallback_found_msg(p.0@, p.1@, host),
                ) =~= entries.map_values(
                    |p: (Seq<char>, Seq<char>)| fallback_found_msg(p.0, p.1, host),
                ));
                assert(lg == old(tracer).log_lines() + entries.map_values(
                    |p: (Seq<char>, Seq<char>)| fallback_found_msg(p.0, p.1, host),
                ));
            }
            f.fallback = fb_nodes;
            if f.lines.len() == 0 && f.fallback.len() == 0 {
                tracer.trace_log.push(make_no_results_msg(level, f.host.as_str()));
                let none: Vec<ChainNode> = Vec::new();
                assert(none@ =~= seq![]);
                tracer.deliver(Ok(none), Ghost(s0));
            } else {
                tracer.trace_log.push(
                    make_found_msg(level, f.lines.len() as u64, f.host.as_str()),
                );
                f.stage = Stage::Expanding;
                f.next = 0;
                tracer.stack.push(f);
                assert(below_same(s0, tracer.stack@, s0.len() - 1));
            }
        },
        Stage::Expanding => {
            tracer.stack.push(f);
        },
    }
}

/// How many of the known servers' hosts have not been searched yet.
pub open spec fn unvisited_known(known: Seq<Seq<char>>, visited: Seq<Seq<char>>) -> nat
    decreases known.len(),
{
    if known.len() == 0 {
        0
    } else {
        unvisited_known(known.drop_last(), visited) + if visited.contains(known.last()) {
            0nat
        } else {
            1nat
        }
    }
}

/// 2 while the current host waits on its primary search, 1 on its secondary
/// search, 0 otherwise.
pub open spec fn stage_rank(frames: Seq<Frame>) -> nat {
    if frames.len() == 0 {
        0
    } else if frames.last().stage is Primary {
        2
    } else if frames.last().stage is Fallback {
        1
    } else {
        0
    }
}

/// The hosts on the path, each counted with the lines it has left to follow.
pub open spec fn path_work(frames: Seq<Frame>) -> nat
    decreases frames.len(),
{
    if frames.len() == 0 {
        0
    } else {
        let f = frames.last();
        path_work(frames.drop_last()) + 1 + if f.next <= f.lines@.len() {
            (f.lines@.len() - f.next) as nat
        } else {
            0nat
        }
    }
}

/// `t1` is closer to the end of the trace than `t0`: fewer known servers left
/// unsearched, or as many and an earlier stage of the current host, or both
/// the same and less left to follow on the path.
pub open spec fn progressed(t1: ChainTracer, t0: ChainTracer) -> bool {
    let u0 = unvisited_known(hosts(t0.known()), t0.visited_hosts());
    let u1 = unvisited_known(hosts(t1.known()), t1.visited_hosts());
    let p0 = stage_rank(t0.frames());
    let p1 = stage_rank(t1.frames());
    u1 < u0 || (u1 == u0 && (p1 < p0 || (p1 == p0 && path_work(t1.frames()) < path_work(
        t0.frames(),
    ))))
}

proof fn lemma_unvisited_push(known: Seq<Seq<char>>, vis: Seq<Seq<char>>, x: Seq<char>)
    ensures
        unvisited_known(known, vis.push(x)) <= unvisited_known(known, vis),
        known.contains(x) && !vis.contains(x) ==> unvisited_known(known, vis.push(x))
            < unvisited_known(known, vis),
    decreases known.len(),
{
    if known.len() > 0 {
        let k = known.drop_last();
        lemma_unvisited_push(k, vis, x);
        let y = known.last();
        if vis.contains(y) {
            let i = choose|i: int| 0 <= i < vis.len() && vis[i] == y;
            assert(vis.push(x)[i] == y);
        }
        if y == x {
            assert(vis.push(x)[vis.len() as int] == y);
        }
        if known.contains(x) && !vis.contains(x) && y != x {
            let i = choose|i: int| 0 <= i < known.len() && known[i] == x;
            assert(k[i] == x);
        }
    }
}

/// Two paths with the same lines left on each host have the same work.
proof fn lemma_work_same(a: Seq<Frame>, b: Seq<Frame>)
    requires
        a.len() == b.len(),
        forall|i: int|
            0 <= i < a.len() ==> (#[trigger] a[i]).lines@.len() == b[i].lines@.len() && a[i].next
                == b[i].next,
    ensures
        path_work(a) == path_work(b),
    decreases a.len(),
{
    if a.len() > 0 {
        lemma_work_same(a.drop_last(), b.drop_last());
    }
}

proof fn lemma_expand_progress(t0: ChainTracer, t1: ChainTracer)
    requires
        t0.wf(),
        t0.expanding(),
        expanded(t0, t1),
    ensures
        t1.is_finished() || progressed(t1, t0),
{
    let s = t0.frames();
    let s1 = t1.frames();
    let top = s.last();
    let n = s.len();
    assert(s[n - 1] == top);
    if top.next >= top.lines@.len() {
        if n > 1 {
            let pre = s.subrange(0, n - 1);
            assert(pre.drop_last() =~= s.subrange(0, n - 2));
            assert(s.drop_last() =~= pre);
            assert(s1.drop_last() =~= s1.subrange(0, n - 2));
            lemma_work_same(s1, pre);
            assert(s[n - 2].stage is Expanding);
        }
    } else {
        let e = chain_entry(top.lines@[top.next as int]@);
        lemma_unvisited_push(hosts(t0.known()), t0.visited_hosts(), s1.last().host@);
        if e is None {
            assert(s1.drop_last() =~= s.drop_last());
        } else {
            let ip = (e->0).2;
            let d = (e->0).1;
            if is_valid_id(d) && !t0.visited_hosts().contains(ip) && hosts(t0.known()).contains(ip)
                && !(top.depth + 1 >= t0.max_depth_of()) {
                lemma_unvisited_push(hosts(t0.known()), t0.visited_hosts(), ip);
            } else {
                assert(s1.drop_last() =~= s.drop_last());
            }
        }
    }
}

proof fn lemma_output_progress(t0: ChainTracer, t1: ChainTracer, output: Result<String, String>)
    requires
        t0.wf(),
        t0.awaiting_primary() || t0.awaiting_fallback(),
        took_output(t0, t1, output),
    ensures
        t1.is_finished() || progressed(t1, t0),
{
    let s = t0.frames();
    let n = s.len();
    if n > 1 {
        assert(s[n - 2].stage is Expanding);
    }
}

/// What a trace step is given.
pub enum TraceInput {
    /// The output of the search that `next_step` asked for, or why it failed.
    Output(Result<String, String>),
    /// Go on with the current host, as `next_step` asked.
    Expand,
}

/// Advances the trace by one step: the one `next_step` asked for. The step is
/// the search's output taken by the current host (`took_output`) or the
/// current host's next entry followed, or its nodes returned (`expanded`).
/// Each step ends the trace or brings it closer to its end (`progressed`), so
/// a trace ends even where the hosts point at each other in a cycle.
pub fn trace_chain_recursive(tracer: &mut ChainTracer, input: TraceInput)
    requires
        old(tracer).wf(),
        input is Expand ==> old(tracer).expanding(),
        input is Output ==> old(tracer).awaiting_primary() || old(tracer).awaiting_fallback(),
    ensures
        final(tracer).wf(),
        match input {
            TraceInput::Expand => expanded(*old(tracer), *final(tracer)),
            TraceInput::Output(output) => took_output(*old(tracer), *final(tracer), output),
        },
        final(tracer).is_finished() || progressed(*final(tracer), *old(tracer)),
{
    match input {
        TraceInput::Expand => {
            tracer.expand_step();
            proof {
                lemma_expand_progress(*old(tracer), *tracer);
            }
        },
        TraceInput::Output(output) => {
            let ghost o = output;
            take_output(tracer, output);
            proof {
                lemma_output_progress(*old(tracer), *tracer, o);
            }
        },
    }
}

/// What a well-formed tracer's path looks like: it is empty exactly when the
/// trace is over; below the current host every host waits on one entry whose
/// peer is being searched, and the current host waits on none; depths count
/// up from 0; every host on the path has been searched, and none is on it
/// twice.
pub proof fn lemma_wf_shape(t: &ChainTracer)
    requires
        t.wf(),
    ensures
        t.is_finished() <==> t.frames().len() == 0,
        t.frames().len() <= t.max_depth_of(),
        t.frames().len() > 0 ==> t.frames().last().pending is None && t.frames()[0].host@
            == t.root(),
        forall|i: int|
            0 <= i < t.frames().len() ==> (#[trigger] t.frames()[i]).depth == i
                && t.frames()[i].next <= t.frames()[i].lines@.len(),
        forall|i: int|
            0 <= i < t.frames().len() - 1 ==> (#[trigger] t.frames()[i]).stage is Expanding
                && t.frames()[i].pending is Some,
        path_hosts_ok(t.frames(), t.visited_hosts()),
{
}

/// No host is searched twice in one trace: the hosts searched are distinct
/// (so a trace's hop count counts each once), and a primary search is asked
/// only of the host added last. Each step that leaves a primary search to run
/// has added a host not searched before (see `expanded`).
pub proof fn lemma_hosts_searched_once(t: &ChainTracer)
    requires
        t.wf(),
    ensures
        t.visited_hosts().no_duplicates(),
        t.awaiting_primary() ==> t.visited_hosts().len() > 0 && t.current().0
            == t.visited_hosts().last(),
{
}

/// Hosts are only searched above the depth bound: the path from the start
/// host is never longer than the bound.
pub proof fn lemma_depth_bound(t: &ChainTracer)
    requires
        t.wf(),
    ensures
        t.path_len() <= t.max_depth_of(),
        !t.is_finished() ==> t.current_depth() < t.max_depth_of() && t.current_depth() + 1
            == t.path_len(),
{
    if t.stack@.len() > 0 {
        assert(t.stack@[t.stack@.len() - 1].depth == t.stack@.len() - 1);
    }
}

/// With a depth bound of one, the start host is the only host searched.
pub proof fn lemma_depth_one_searches_only_root(t: &ChainTracer)
    requires
        t.wf(),
        t.max_depth_of() == 1,
        !t.is_finished(),
    ensures
        t.path_len() == 1,
        t.current().0 == t.root(),
{
    lemma_depth_bound(t);
}

/// A primary search with an entry that marks a processing hop never calls for
/// the secondary search.
pub proof fn lemma_valid_entry_skips_fallback(lines: Seq<Seq<char>>, i: int)
    requires
        0 <= i < lines.len(),
        chain_entry(lines[i]) is Some,
        is_valid_id((chain_entry(lines[i])->0).1),
    ensures
        !spec_needs_fallback(lines),
{
}

} // verus!
