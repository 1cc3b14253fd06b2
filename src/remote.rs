//! What one-shot remote commands report back to the operator.
use vstd::prelude::*;
use vstd::string::*;
use crate::text::{signed_decimal, signed_decimal_string};

verus! {

/// The output of a command: its standard output, followed by its error output
/// and exit status when it failed and wrote to its error output.
pub open spec fn command_report(stdout: Seq<char>, stderr: Seq<char>, exit_status: int) -> Seq<
    char,
> {
    if stderr.len() > 0 && exit_status != 0 {
        stdout + "\n[stderr] "@ + stderr + "\n[exit: "@ + signed_decimal(exit_status) + "]"@
    } else {
        stdout
    }
}

pub fn format_command_output(stdout: &str, stderr: &str, exit_status: i32) -> (r: String)
    ensures
        r@ == command_report(stdout@, stderr@, exit_status as int),
{
    let mut r = String::from_str(stdout);
    if stderr.unicode_len() > 0 && exit_status != 0 {
        r.append("\n[stderr] ");
        r.append(stderr);
        r.append("\n[exit: ");
        r.append(signed_decimal_string(exit_status).as_str());
        r.append("]");
    }
    r
}

pub open spec fn connected_msg(host: Seq<char>, username: Seq<char>) -> Seq<char> {
    "✓ Successfully connected to "@ + host + " as "@ + username
}

/// The message of a successful connection test.
pub fn connection_ok_message(host: &str, username: &str) -> (r: String)
    ensures
        r@ == connected_msg(host@, username@),
{
    let mut r = String::from_str("✓ Successfully connected to ");
    r.append(host);
    r.append(" as ");
    r.append(username);
    r
}

} // verus!
