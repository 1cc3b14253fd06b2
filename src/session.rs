//! The events of interactive remote sessions, and the decisions of the loop
//! that reads each session's output.
//!
//! Each session has exactly one reader loop. Before every read it looks at the
//! session's shutdown flag; once the flag is set, or the remote side has ended
//! the stream, or a read has failed, the loop ends and never touches the
//! channel again.
use vstd::prelude::*;
use vstd::utf8::{decode_utf8, valid_utf8};

verus! {

/// Output that a session's shell produced, as text.
pub struct SshOutput {
    pub session_id: String,
    pub data: String,
}

/// The remote side ended a session's stream.
pub struct SshExit {
    pub session_id: String,
}

/// Why a session operation failed.
pub enum SessionError {
    /// No live session has this id.
    NotFound,
    /// The session's lock could not be taken.
    LockFailed,
    /// The channel refused the operation; the channel's own message.
    Channel(String),
}

impl SessionError {
    /// The message that callers are shown.
    pub fn message(&self) -> (r: String)
        ensures
            r@ == match self {
                SessionError::NotFound => "Session not found"@,
                SessionError::LockFailed => "Lock failed"@,
                SessionError::Channel(m) => m@,
            },
    {
        match self {
            SessionError::NotFound => String::from_str("Session not found"),
            SessionError::LockFailed => String::from_str("Lock failed"),
            SessionError::Channel(m) => m.clone(),
        }
    }
}

/// What one non-blocking read of a session's channel gave.
pub enum ReadOutcome {
    /// These bytes; none at all means the remote side ended the stream.
    Bytes(Vec<u8>),
    /// Nothing to read yet.
    WouldBlock,
    /// Any other failure.
    Failed,
}

/// What the reader loop does after a read.
pub enum ReaderAction {
    /// Hand this output to the consumer and read again.
    Emit(SshOutput),
    /// Hand this end-of-stream notice to the consumer and stop.
    Exit(SshExit),
    /// Release the channel, sleep for the polling interval and read again.
    Sleep,
    /// Stop without a further event.
    Stop,
}

/// The text that `String::from_utf8_lossy` makes of these bytes.
pub uninterp spec fn lossy_text(b: Seq<u8>) -> Seq<char>;

/// Relies on `String::from_utf8_lossy`: invalid sequences become U+FFFD, and
/// valid UTF-8 (ASCII in particular) decodes as it stands.
#[verifier::external_body]
fn decode_lossy(b: &[u8]) -> (r: String)
    ensures
        r@ == lossy_text(b@),
        valid_utf8(b@) ==> r@ == decode_utf8(b@),
        (forall|i: int| 0 <= i < b@.len() ==> b@[i] < 128) ==> r@ == b@.map_values(
            |x: u8| x as char,
        ),
{
    String::from_utf8_lossy(b).into_owned()
}

/// The state of one session's reader loop.
pub struct ReaderLoop {
    session_id: String,
    running: bool,
}

impl ReaderLoop {
    pub closed spec fn id(&self) -> Seq<char> {
        self.session_id@
    }

    /// Whether the loop goes on; once false it stays false.
    pub closed spec fn is_running(&self) -> bool {
        self.running
    }

    /// The loop of a session that has just started.
    pub fn new(session_id: &str) -> (r: Self)
        ensures
            r.id() == session_id@,
            r.is_running(),
    {
        ReaderLoop { session_id: String::from_str(session_id), running: true }
    }

    /// Checked at the top of every turn: a read happens only while the loop
    /// runs and the shutdown flag is clear. Once the flag is set the loop
    /// ends at this check, so within one polling interval.
    pub fn before_read(&mut self, shutdown: bool) -> (r: bool)
        ensures
            r == (old(self).is_running() && !shutdown),
            final(self).is_running() == r,
            final(self).id() == old(self).id(),
    {
        if shutdown {
            self.running = false;
        }
        self.running
    }

    /// Decides what follows a read. An empty read is the end of the stream:
    /// one exit notice, then nothing more. Any failure but "nothing yet"
    /// ends the loop silently. Output is decoded leniently.
    pub fn after_read(&mut self, outcome: ReadOutcome) -> (r: ReaderAction)
        requires
            old(self).is_running(),
        ensures
            final(self).id() == old(self).id(),
            final(self).is_running() == (r is Emit || r is Sleep),
            match outcome {
                ReadOutcome::Bytes(b) => if b@.len() == 0 {
                    r matches ReaderAction::Exit(e) && e.session_id@ == old(self).id()
                } else {
                    r matches ReaderAction::Emit(o) && o.session_id@ == old(self).id()
                        && o.data@ == lossy_text(b@)
                },
                ReadOutcome::WouldBlock => r is Sleep,
                ReadOutcome::Failed => r is Stop,
            },
    {
        match outcome {
            ReadOutcome::Bytes(b) => {
                if b.len() == 0 {
                    self.running = false;
                    ReaderAction::Exit(SshExit { session_id: self.session_id.clone() })
                } else {
                    let data = decode_lossy(b.as_slice());
                    ReaderAction::Emit(SshOutput { session_id: self.session_id.clone(), data })
                }
            },
            ReadOutcome::WouldBlock => ReaderAction::Sleep,
            ReadOutcome::Failed => {
                self.running = false;
                ReaderAction::Stop
            },
        }
    }
}

} // verus!
