use ssh_chain::chain::{
    is_valid_chain_node, parse_chain_line, ChainNode, ChainTraceResult, ServerConfig,
};
use ssh_chain::messages::{build_fallback_command, build_primary_command, make_found_msg};
use ssh_chain::text::{chars_of, split_lines, split_tokens};
use ssh_chain::tracer::{
    next_hop, trace_chain_recursive, ChainTracer, HopDecision, TraceInput, TraceStep,
};

fn server(host: &str) -> ServerConfig {
    ServerConfig {
        id: format!("id-{}", host),
        host: host.to_string(),
        port: 22,
        username: format!("user-{}", host),
        password: "pw".to_string(),
        description: String::new(),
        environment: String::new(),
        status: String::new(),
    }
}

fn tracer(known: Vec<ServerConfig>, max_depth: u32) -> ChainTracer {
    ChainTracer::start(
        "A".to_string(),
        22,
        "root".to_string(),
        "secret".to_string(),
        "TX42".to_string(),
        "/var/log/app".to_string(),
        known,
        max_depth,
    )
}

/// Follows entries until a search is needed: its host and command, or `None`
/// once the trace is finished.
fn step(t: &mut ChainTracer) -> Option<(String, String)> {
    loop {
        match t.next_step() {
            TraceStep::Run(c) => return Some((c.host, c.command)),
            TraceStep::Expand => trace_chain_recursive(t, TraceInput::Expand),
            TraceStep::Finished => return None,
        }
    }
}

fn primary() -> String {
    build_primary_command("/var/log/app", "TX42")
}

fn fallback() -> String {
    build_fallback_command("/var/log/app", "TX42")
}

fn feed(t: &mut ChainTracer, out: &str) {
    assert!(step(t).is_some());
    trace_chain_recursive(t, TraceInput::Output(Ok(out.to_string())));
}

fn fail(t: &mut ChainTracer, err: &str) {
    assert!(step(t).is_some());
    trace_chain_recursive(t, TraceInput::Output(Err(err.to_string())));
}

fn node(n: &ChainNode) -> (&str, &str, &str, usize) {
    (n.filename.as_str(), n.dus_id.as_str(), n.ip.as_str(), n.children.len())
}

fn has_line(r: &ChainTraceResult, line: &str) -> bool {
    r.trace_log.iter().any(|l| l == line)
}

#[test]
fn single_hop_unknown_next_hop() {
    let mut t = tracer(vec![server("10.0.0.1")], 10);
    assert_eq!(step(&mut t), Some(("A".to_string(), primary())));
    feed(&mut t, "app.log B001Y 10.0.0.5\n");
    assert_eq!(step(&mut t), None);
    let r = t.finish(7);
    assert_eq!(r.nodes.len(), 1);
    assert_eq!(node(&r.nodes[0]), ("app.log", "B001Y", "A", 0));
    assert_eq!(r.nodes[0].log_path, "/var/log/app");
    assert!(has_line(
        &r,
        "[ERROR] 发现下一节点 IP 10.0.0.5 不在配置列表中。请先在服务器配置中添加该节点才能继续追踪。"
    ));
    assert_eq!(r.total_hops, 1);
    assert_eq!(r.duration_ms, 7);
    assert!(r.error.is_none());
}

#[test]
fn two_hops_with_self_reference() {
    let mut t = tracer(vec![server("10.0.0.9")], 10);
    feed(&mut t, "a.log B002Z 10.0.0.9\n");
    assert_eq!(step(&mut t), Some(("10.0.0.9".to_string(), primary())));
    match t.next_step() {
        TraceStep::Run(c) => {
            assert_eq!(c.username, "user-10.0.0.9");
            assert_eq!(c.port, 22);
        }
        _ => panic!("expected a search on the next hop"),
    }
    feed(&mut t, "b.log C003W 10.0.0.9\n");
    assert_eq!(step(&mut t), None);
    let r = t.finish(0);
    assert_eq!(r.nodes.len(), 1);
    assert_eq!(node(&r.nodes[0]), ("a.log", "B002Z", "A", 1));
    assert_eq!(node(&r.nodes[0].children[0]), ("b.log", "C003W", "10.0.0.9", 0));
    assert_eq!(r.total_hops, 2);
    assert!(has_line(&r, "[2] Searching on 10.0.0.9 ..."));
    assert!(has_line(&r, "[SKIP] Already visited: 10.0.0.9"));
    assert_eq!(r.trace_log.last().unwrap(), "=== 追踪完成: 共访问 2 个节点 ===");
}

#[test]
fn router_only_runs_fallback() {
    let mut t = tracer(vec![], 10);
    feed(&mut t, "r.log G100A 10.0.0.1\n");
    assert_eq!(step(&mut t), Some(("A".to_string(), fallback())));
    feed(&mut t, "fb.log B900X\n");
    assert_eq!(step(&mut t), None);
    let r = t.finish(0);
    let fb: Vec<_> = r.nodes.iter().filter(|n| n.filename == "fb.log").collect();
    assert_eq!(fb.len(), 1);
    assert_eq!(node(fb[0]), ("fb.log", "B900X", "A", 0));
    assert_eq!(node(&r.nodes[0]), ("r.log", "G100A", "A", 0));
    assert_eq!(node(&r.nodes[1]), ("fb.log", "B900X", "A", 0));
    assert!(has_line(&r, "[1] Checking backup app logs on A..."));
    assert!(has_line(&r, "  -> [Fallback] found fb.log B900X on A"));
    assert!(has_line(&r, "  -> r.log G100A 10.0.0.1 (路由节点)"));
}

#[test]
fn valid_entry_skips_fallback() {
    let mut t = tracer(vec![], 10);
    feed(&mut t, "r.log G100A 10.0.0.1\nx.log B1 10.0.0.2\n");
    assert_eq!(step(&mut t), None);
    let r = t.finish(0);
    assert_eq!(r.nodes.len(), 2);
    assert!(!r.trace_log.iter().any(|l| l.contains("backup")));
}

#[test]
fn empty_primary_runs_fallback_and_finds_nothing() {
    let mut t = tracer(vec![], 10);
    feed(&mut t, "\n\n");
    assert_eq!(step(&mut t), Some(("A".to_string(), fallback())));
    fail(&mut t, "channel closed");
    assert_eq!(step(&mut t), None);
    let r = t.finish(0);
    assert!(r.nodes.is_empty());
    assert!(has_line(&r, "[1] No results found on A"));
    assert_eq!(r.total_hops, 1);
}

#[test]
fn host_reached_twice_is_searched_once() {
    let mut t = tracer(vec![server("H"), server("K")], 10);
    feed(&mut t, "a.log B1 H\nb.log C2 K\n");
    assert_eq!(step(&mut t).unwrap().0, "H");
    feed(&mut t, "h.log B3 K\n");
    assert_eq!(step(&mut t).unwrap().0, "K");
    feed(&mut t, "k.log B4 H\n");
    // K points back at H, and A's second entry points at K: both already searched.
    assert_eq!(step(&mut t), None);
    let r = t.finish(0);
    assert_eq!(r.total_hops, 3);
    assert!(has_line(&r, "[SKIP] Already visited: H"));
    assert!(has_line(&r, "[SKIP] Already visited: K"));
    assert_eq!(r.trace_log.iter().filter(|l| l.contains("Searching on H")).count(), 1);
    assert_eq!(node(&r.nodes[0]), ("a.log", "B1", "A", 1));
    assert_eq!(node(&r.nodes[0].children[0]), ("h.log", "B3", "H", 1));
    assert_eq!(node(&r.nodes[0].children[0].children[0]), ("k.log", "B4", "K", 0));
    assert_eq!(node(&r.nodes[1]), ("b.log", "C2", "A", 0));
}

#[test]
fn depth_one_contacts_only_root() {
    let mut t = tracer(vec![server("H")], 1);
    feed(&mut t, "a.log B1 H\n");
    assert_eq!(step(&mut t), None);
    let r = t.finish(0);
    assert_eq!(node(&r.nodes[0]), ("a.log", "B1", "A", 0));
    assert_eq!(r.total_hops, 1);
    assert!(has_line(&r, "[WARN] Max depth 1 reached at H"));
}

#[test]
fn depth_zero_searches_nothing() {
    let mut t = tracer(vec![], 0);
    assert_eq!(step(&mut t), None);
    let r = t.finish(0);
    assert!(r.nodes.is_empty());
    assert_eq!(r.total_hops, 0);
}

#[test]
fn unknown_hop_does_not_stop_siblings() {
    let mut t = tracer(vec![server("H")], 10);
    feed(&mut t, "a.log B1 X\nb.log C2 H\n");
    assert_eq!(step(&mut t).unwrap().0, "H");
    feed(&mut t, "");
    assert_eq!(step(&mut t), Some(("H".to_string(), fallback())));
    feed(&mut t, "");
    assert_eq!(step(&mut t), None);
    let r = t.finish(0);
    assert_eq!(node(&r.nodes[0]), ("a.log", "B1", "A", 0));
    assert_eq!(node(&r.nodes[1]), ("b.log", "C2", "A", 0));
    assert!(has_line(&r, "[2] No results found on H"));
}

#[test]
fn failed_hop_is_logged_and_skipped() {
    let mut t = tracer(vec![server("H")], 10);
    feed(&mut t, "a.log B1 H\nb.log G2 Z\n");
    fail(&mut t, "Auth failed on H");
    assert_eq!(step(&mut t), None);
    let r = t.finish(0);
    assert_eq!(r.nodes.len(), 2);
    assert_eq!(node(&r.nodes[0]), ("a.log", "B1", "A", 0));
    assert!(has_line(&r, "[ERROR] Failed to trace H: Auth failed on H"));
    assert_eq!(r.total_hops, 2);
}

#[test]
fn unreachable_root_is_reported() {
    let mut t = tracer(vec![], 10);
    fail(&mut t, "Connection to A failed");
    assert_eq!(step(&mut t), None);
    let r = t.finish(3);
    assert!(r.nodes.is_empty());
    assert_eq!(r.trace_log[0], "=== 开始追踪交易链路 ===");
    assert_eq!(r.trace_log[5], "[1] Searching on A ...");
    assert_eq!(r.trace_log.last().unwrap(), "Error: Connection to A failed");
    assert_eq!(r.trace_log.len(), 7);
    assert_eq!(r.total_hops, 0);
    assert_eq!(r.error.as_deref(), Some("Connection to A failed"));
}

#[test]
fn trace_log_opens_with_header() {
    let mut t = tracer(vec![], 10);
    feed(&mut t, "");
    feed(&mut t, "");
    let r = t.finish(0);
    assert_eq!(r.trace_log[0], "=== 开始追踪交易链路 ===");
    assert_eq!(r.trace_log[1], "流水号: TX42");
    assert_eq!(r.trace_log[2], "起始服务器: A");
    assert_eq!(r.trace_log[3], "日志路径: /var/log/app");
    assert_eq!(r.trace_log[4], "");
    assert_eq!(r.trace_log[5], "[1] Searching on A ...");
}

#[test]
fn short_lines_are_skipped() {
    assert_eq!(parse_chain_line("a.log B1"), None);
    assert_eq!(parse_chain_line(""), None);
    assert_eq!(parse_chain_line("   \t "), None);
    let mut t = tracer(vec![], 10);
    feed(&mut t, "only two\nx.log C5 1.2.3.4\n");
    assert_eq!(step(&mut t), None);
    let r = t.finish(0);
    assert_eq!(r.nodes.len(), 1);
    assert_eq!(node(&r.nodes[0]), ("x.log", "C5", "A", 0));
}

#[test]
fn parse_strips_leading_dot_slash() {
    assert_eq!(
        parse_chain_line("./comm-1.log B001Y 10.1.2.3 extra"),
        Some(("comm-1.log".to_string(), "B001Y".to_string(), "10.1.2.3".to_string()))
    );
    assert_eq!(
        parse_chain_line("  ././a.log\tC9  9.9.9.9 "),
        Some(("a.log".to_string(), "C9".to_string(), "9.9.9.9".to_string()))
    );
    assert_eq!(
        parse_chain_line("dir/./a.log B1 1.1.1.1"),
        Some(("dir/./a.log".to_string(), "B1".to_string(), "1.1.1.1".to_string()))
    );
}

#[test]
fn classifies_business_ids() {
    assert!(is_valid_chain_node("B001Y"));
    assert!(is_valid_chain_node("C003W"));
    assert!(!is_valid_chain_node("G100A"));
    assert!(!is_valid_chain_node("b001"));
    assert!(!is_valid_chain_node(""));
}

#[test]
fn hop_decisions() {
    let known = vec![server("H"), server("K"), server("H")];
    let visited = vec!["A".to_string(), "K".to_string()];
    assert!(matches!(next_hop("B1", "H", &visited, &known), HopDecision::Follow(0)));
    assert!(matches!(next_hop("B1", "K", &visited, &known), HopDecision::Visited));
    assert!(matches!(next_hop("G1", "H", &visited, &known), HopDecision::Leaf));
    assert!(matches!(next_hop("C1", "Z", &visited, &known), HopDecision::Unregistered));
}

#[test]
fn search_commands() {
    assert_eq!(
        build_primary_command("/logs", "T1"),
        "cd /logs && find . -maxdepth 1 -name \"*log*\" -print0 | xargs -0 -P $(nproc) grep -H -F 'T1' 2>/dev/null | grep -F 'PEER' | sed -n 's/^\\([^:]*\\):.*DESTDUS=\\([^|]*\\).*PEER=\\([0-9.]*\\).*/\\1 \\2 \\3/p' | grep -v 'N/A' | sort -u"
    );
    assert_eq!(
        build_fallback_command("/logs", "T1"),
        "cd /logs && find . -maxdepth 1 -name \"*app*log*\" -print0 | xargs -0 -P $(nproc) grep -H -F 'T1' 2>/dev/null | awk -F: '/dusCode/ { filename = $1; sub(/^\\.\\//, \"\", filename); text = $0; sub(/.*dusCode : /, \"\", text); split(text, codes, \" \"); print filename, \" \", codes[1] }'"
    );
}

#[test]
fn numbers_in_log_lines() {
    assert_eq!(make_found_msg(3, 12, "h"), "[3] Found 12 entries on h");
    assert_eq!(make_found_msg(10, 0, "h"), "[10] Found 0 entries on h");
}

#[test]
fn lines_and_tokens() {
    let ls = split_lines(&chars_of("a b\r\n\n c \nlast\r"));
    let ls: Vec<String> = ls.iter().map(|l| l.iter().collect()).collect();
    assert_eq!(ls, vec!["a b", " c ", "last\r"]);
    let ts = split_tokens(&chars_of("\u{3000}x\u{a0}yz  w"));
    let ts: Vec<String> = ts.iter().map(|t| t.iter().collect()).collect();
    assert_eq!(ts, vec!["x", "yz", "w"]);
}

#[test]
fn one_step_at_a_time() {
    let mut t = tracer(vec![server("H")], 10);
    assert!(matches!(t.next_step(), TraceStep::Run(_)));
    trace_chain_recursive(&mut t, TraceInput::Output(Ok("x.log Z1 1.1.1.1\na.log B1 H\n".to_string())));
    // Entries are followed one per call.
    assert!(matches!(t.next_step(), TraceStep::Expand));
    trace_chain_recursive(&mut t, TraceInput::Expand);
    assert!(matches!(t.next_step(), TraceStep::Expand));
    trace_chain_recursive(&mut t, TraceInput::Expand);
    match t.next_step() {
        TraceStep::Run(c) => assert_eq!(c.host, "H"),
        _ => panic!("expected a search on H"),
    }
}
