//! Tracing a transaction across a fleet of hosts by searching their logs over
//! successive remote hops, with the rest of the logic of a remote-operations
//! tool: the decisions of interactive sessions' reader loops, listing log
//! files, reporting one-shot commands, and keeping server passwords encrypted.
//!
//! Nothing here opens a connection. Where remote work is needed the library
//! says what to run (`tracer::ChainTracer::next_step`) and takes what came
//! back (`tracer::trace_chain_recursive`), so each decision is verified for
//! every possible reply.
//!
//! - `text`: whitespace tokens, lines and decimal text.
//! - `chain`: the records of a trace, and reading the remote searches' output.
//! - `messages`: the remote search commands and the trace log's lines.
//! - `tracer`: the trace itself, one remote search or one entry at a time.
//! - `session`: session events and each session's reader loop.
//! - `logsearch`: a host's log files ranked by matches of a trace id.
//! - `remote`: what one-shot commands report.
//! - `crypto`: passwords at rest.
//! - `store`: the list of configured servers.
use vstd::prelude::*;

pub mod chain;
pub mod crypto;
pub mod logsearch;
pub mod messages;
pub mod remote;
pub mod session;
pub mod store;
pub mod text;
pub mod tracer;

verus! {

} // verus!
