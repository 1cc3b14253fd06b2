//! The remote search commands and the lines of a trace's progress log.
use vstd::prelude::*;
use vstd::string::*;
use crate::text::{decimal, decimal_string};

verus! {

/// Greps the files whose names hold `log` under `log_path` for the trace id,
/// keeps the lines with a peer address and prints `file business-id peer-ip`.
pub open spec fn primary_command(log_path: Seq<char>, trace_id: Seq<char>) -> Seq<char> {
    "cd "@ + log_path
        + " && find . -maxdepth 1 -name \"*log*\" -print0 | xargs -0 -P $(nproc) grep -H -F '"@
        + trace_id
        + "' 2>/dev/null | grep -F 'PEER' | sed -n 's/^\\([^:]*\\):.*DESTDUS=\\([^|]*\\).*PEER=\\([0-9.]*\\).*/\\1 \\2 \\3/p' | grep -v 'N/A' | sort -u"@
}

/// Greps the application logs under `log_path` for the trace id and prints
/// `file business-code` for each line that carries a business code.
pub open spec fn fallback_command(log_path: Seq<char>, trace_id: Seq<char>) -> Seq<char> {
    "cd "@ + log_path
        + " && find . -maxdepth 1 -name \"*app*log*\" -print0 | xargs -0 -P $(nproc) grep -H -F '"@
        + trace_id
        + "' 2>/dev/null | awk -F: '/dusCode/ { filename = $1; sub(/^\\.\\//, \"\", filename); text = $0; sub(/.*dusCode : /, \"\", text); split(text, codes, \" \"); print filename, \" \", codes[1] }'"@
}

pub fn build_primary_command(log_path: &str, trace_id: &str) -> (r: String)
    ensures
        r@ == primary_command(log_path@, trace_id@),
{
    let mut r = String::from_str("cd ");
    r.append(log_path);
    r.append(
        " && find . -maxdepth 1 -name \"*log*\" -print0 | xargs -0 -P $(nproc) grep -H -F '",
    );
    r.append(trace_id);
    r.append(
        "' 2>/dev/null | grep -F 'PEER' | sed -n 's/^\\([^:]*\\):.*DESTDUS=\\([^|]*\\).*PEER=\\([0-9.]*\\).*/\\1 \\2 \\3/p' | grep -v 'N/A' | sort -u",
    );
    r
}

pub fn build_fallback_command(log_path: &str, trace_id: &str) -> (r: String)
    ensures
        r@ == fallback_command(log_path@, trace_id@),
{
    let mut r = String::from_str("cd ");
    r.append(log_path);
    r.append(
        " && find . -maxdepth 1 -name \"*app*log*\" -print0 | xargs -0 -P $(nproc) grep -H -F '",
    );
    r.append(trace_id);
    r.append(
        "' 2>/dev/null | awk -F: '/dusCode/ { filename = $1; sub(/^\\.\\//, \"\", filename); text = $0; sub(/.*dusCode : /, \"\", text); split(text, codes, \" \"); print filename, \" \", codes[1] }'",
    );
    r
}

pub open spec fn max_depth_msg(max_depth: nat, host: Seq<char>) -> Seq<char> {
    "[WARN] Max depth "@ + decimal(max_depth) + " reached at "@ + host
}

pub fn make_max_depth_msg(max_depth: u32, host: &str) -> (r: String)
    ensures
        r@ == max_depth_msg(max_depth as nat, host@),
{
    let mut r = String::from_str("[WARN] Max depth ");
    r.append(decimal_string(max_depth as u64).as_str());
    r.append(" reached at ");
    r.append(host);
    r
}

pub open spec fn skip_msg(host: Seq<char>) -> Seq<char> {
    "[SKIP] Already visited: "@ + host
}

pub fn make_skip_msg(host: &str) -> (r: String)
    ensures
        r@ == skip_msg(host@),
{
    let mut r = String::from_str("[SKIP] Already visited: ");
    r.append(host);
    r
}

/// `[level] ` with which the lines about one host begin.
pub open spec fn level_tag(level: nat) -> Seq<char> {
    "["@ + decimal(level) + "] "@
}

fn make_level_tag(level: u64) -> (r: String)
    ensures
        r@ == level_tag(level as nat),
{
    let mut r = String::from_str("[");
    r.append(decimal_string(level).as_str());
    r.append("] ");
    r
}

pub open spec fn searching_msg(level: nat, host: Seq<char>) -> Seq<char> {
    level_tag(level) + "Searching on "@ + host + " ..."@
}

pub fn make_searching_msg(level: u64, host: &str) -> (r: String)
    ensures
        r@ == searching_msg(level as nat, host@),
{
    let mut r = make_level_tag(level);
    r.append("Searching on ");
    r.append(host);
    r.append(" ...");
    r
}

pub open spec fn backup_msg(level: nat, host: Seq<char>) -> Seq<char> {
    level_tag(level) + "Checking backup app logs on "@ + host + "..."@
}

pub fn make_backup_msg(level: u64, host: &str) -> (r: String)
    ensures
        r@ == backup_msg(level as nat, host@),
{
    let mut r = make_level_tag(level);
    r.append("Checking backup app logs on ");
    r.append(host);
    r.append("...");
    r
}

pub open spec fn no_results_msg(level: nat, host: Seq<char>) -> Seq<char> {
    level_tag(level) + "No results found on "@ + host
}

pub fn make_no_results_msg(level: u64, host: &str) -> (r: String)
    ensures
        r@ == no_results_msg(level as nat, host@),
{
    let mut r = make_level_tag(level);
    r.append("No results found on ");
    r.append(host);
    r
}

pub open spec fn found_msg(level: nat, count: nat, host: Seq<char>) -> Seq<char> {
    level_tag(level) + "Found "@ + decimal(count) + " entries on "@ + host
}

pub fn make_found_msg(level: u64, count: u64, host: &str) -> (r: String)
    ensures
        r@ == found_msg(level as nat, count as nat, host@),
{
    let mut r = make_level_tag(level);
    r.append("Found ");
    r.append(decimal_string(count).as_str());
    r.append(" entries on ");
    r.append(host);
    r
}

pub open spec fn fallback_found_msg(file: Seq<char>, id: Seq<char>, host: Seq<char>) -> Seq<
    char,
> {
    "  -> [Fallback] found "@ + file + " "@ + id + " on "@ + host
}

pub fn make_fallback_found_msg(file: &str, id: &str, host: &str) -> (r: String)
    ensures
        r@ == fallback_found_msg(file@, id@, host@),
{
    let mut r = String::from_str("  -> [Fallback] found ");
    r.append(file);
    r.append(" ");
    r.append(id);
    r.append(" on ");
    r.append(host);
    r
}

pub open spec fn entry_msg(file: Seq<char>, id: Seq<char>, ip: Seq<char>, valid: bool) -> Seq<
    char,
> {
    "  -> "@ + file + " "@ + id + " "@ + ip + if valid {
        " (有效节点)"@
    } else {
        " (路由节点)"@
    }
}

pub fn make_entry_msg(file: &str, id: &str, ip: &str, valid: bool) -> (r: String)
    ensures
        r@ == entry_msg(file@, id@, ip@, valid),
{
    let mut r = String::from_str("  -> ");
    r.append(file);
    r.append(" ");
    r.append(id);
    r.append(" ");
    r.append(ip);
    if valid {
        r.append(" (有效节点)");
    } else {
        r.append(" (路由节点)");
    }
    r
}

pub open spec fn trace_failed_msg(ip: Seq<char>, err: Seq<char>) -> Seq<char> {
    "[ERROR] Failed to trace "@ + ip + ": "@ + err
}

pub fn make_trace_failed_msg(ip: &str, err: &str) -> (r: String)
    ensures
        r@ == trace_failed_msg(ip@, err@),
{
    let mut r = String::from_str("[ERROR] Failed to trace ");
    r.append(ip);
    r.append(": ");
    r.append(err);
    r
}

/// The diagnostic for a next hop that is not among the known servers.
pub open spec fn unregistered_msg(ip: Seq<char>) -> Seq<char> {
    "[ERROR] 发现下一节点 IP "@ + ip
        + " 不在配置列表中。请先在服务器配置中添加该节点才能继续追踪。"@
}

pub fn make_unregistered_msg(ip: &str) -> (r: String)
    ensures
        r@ == unregistered_msg(ip@),
{
    let mut r = String::from_str("[ERROR] 发现下一节点 IP ");
    r.append(ip);
    r.append(
        " 不在配置列表中。请先在服务器配置中添加该节点才能继续追踪。",
    );
    r
}

} // verus!
