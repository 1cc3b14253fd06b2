use ssh_chain::chain::{LogFileInfo, ServerConfig};
use ssh_chain::crypto::encrypt_password;
use ssh_chain::logsearch::{
    build_count_command, build_find_command, build_head_command, counts_matches, file_name,
    listed_paths,
    log_file_info, parse_count, rank_log_files, total_matches,
};
use ssh_chain::remote::{connection_ok_message, format_command_output};
use ssh_chain::store::{for_storage, remove_server, reveal_passwords, upsert_server};

fn server(id: &str, password: &str) -> ServerConfig {
    ServerConfig {
        id: id.to_string(),
        host: format!("{}.example", id),
        port: 22,
        username: "ops".to_string(),
        password: password.to_string(),
        description: String::new(),
        environment: "prod".to_string(),
        status: "ok".to_string(),
    }
}

fn info(path: &str, n: u32) -> LogFileInfo {
    log_file_info(path.to_string(), n)
}

#[test]
fn upsert_replaces_first_match_or_appends() {
    let mut v = vec![server("a", "1"), server("b", "2"), server("a", "3")];
    upsert_server(&mut v, server("a", "9"));
    assert_eq!(v.len(), 3);
    assert_eq!(v[0].password, "9");
    assert_eq!(v[2].password, "3");
    upsert_server(&mut v, server("c", "4"));
    assert_eq!(v.len(), 4);
    assert_eq!(v[3].id, "c");
}

#[test]
fn remove_drops_every_match() {
    let v = vec![server("a", "1"), server("b", "2"), server("a", "3")];
    let r = remove_server(v, "a");
    assert_eq!(r.len(), 1);
    assert_eq!(r[0].id, "b");
}

#[test]
fn stored_passwords_are_encrypted_and_shown_decrypted() {
    let s = server("a", "hunter2");
    let stored = for_storage(&s).unwrap();
    assert_ne!(stored.password, "hunter2");
    assert_eq!(stored.host, "a.example");
    let legacy = server("b", "plain-text");
    let shown = reveal_passwords(&vec![stored, legacy, server("c", "")]);
    assert_eq!(shown[0].password, "hunter2");
    assert_eq!(shown[1].password, "plain-text");
    assert_eq!(shown[2].password, "");
    assert_eq!(for_storage(&server("d", "")).unwrap().password, "");
    assert!(!encrypt_password("x").unwrap().is_empty());
}

#[test]
fn counts_from_grep() {
    assert_eq!(parse_count("12\n"), 12);
    assert_eq!(parse_count("  +7 "), 7);
    assert_eq!(parse_count("0\n0\n"), 0);
    assert_eq!(parse_count(""), 0);
    assert_eq!(parse_count("4294967295"), 4294967295);
    assert_eq!(parse_count("4294967296"), 0);
    assert_eq!(parse_count("-3"), 0);
    assert_eq!(parse_count("1a"), 0);
}

#[test]
fn names_and_paths() {
    assert_eq!(file_name("/var/log/app.log"), "app.log");
    assert_eq!(file_name("app.log"), "app.log");
    assert_eq!(file_name("/var/log/"), "");
    let p = listed_paths("/l/a.log\n\n/l/b.log\n");
    assert_eq!(p, vec!["/l/a.log".to_string(), "/l/b.log".to_string()]);
    assert_eq!(info("/l/b.log", 3).name, "b.log");
}

#[test]
fn ranking_keeps_matching_files_most_first() {
    let files = vec![info("/a", 1), info("/b", 0), info("/c", 5), info("/d", 1), info("/e", 5)];
    assert_eq!(total_matches(&files), 12);
    let r = rank_log_files(files, true);
    let order: Vec<&str> = r.iter().map(|f| f.path.as_str()).collect();
    assert_eq!(order, vec!["/c", "/e", "/a", "/d"]);
    let unranked = rank_log_files(vec![info("/a", 0), info("/b", 0)], false);
    assert_eq!(unranked.len(), 2);
}

#[test]
fn total_saturates() {
    assert_eq!(total_matches(&vec![info("/a", u32::MAX), info("/b", 2)]), u32::MAX);
    assert_eq!(total_matches(&vec![]), 0);
}

#[test]
fn one_shot_commands() {
    assert_eq!(
        build_find_command("/logs"),
        "find /logs -maxdepth 1 -type f -name '*log*' 2>/dev/null | head -100"
    );
    assert_eq!(build_count_command("T1", "/logs/a.log"), "grep -c 'T1' '/logs/a.log' 2>/dev/null || echo 0");
    assert_eq!(build_head_command(500, "/logs/a.log"), "head -500 '/logs/a.log' 2>/dev/null");
}

#[test]
fn command_output_reports() {
    assert_eq!(format_command_output("out", "", 1), "out");
    assert_eq!(format_command_output("out", "bad", 0), "out");
    assert_eq!(format_command_output("out", "bad", 2), "out\n[stderr] bad\n[exit: 2]");
    assert_eq!(format_command_output("", "bad", -1), "\n[stderr] bad\n[exit: -1]");
    assert_eq!(connection_ok_message("h", "u"), "✓ Successfully connected to h as u");
}

#[test]
fn matches_counted_only_with_trace_id() {
    assert!(counts_matches("TX1"));
    assert!(!counts_matches(""));
}
