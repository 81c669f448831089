//! The per-connection decision step.
//!
//! A connection handler repeats: read one line, call [`on_read`], perform
//! what the returned [`SessionStep`] says. A read of zero bytes is the peer
//! closing its write half; it is answered with a farewell line and ends the
//! session normally. Any other read is acknowledged with a consumed-bytes
//! notice and then either rejected with a bad-request line (the connection
//! stays usable) or decoded into a command for the handler to submit to the
//! service's queue. I/O failures and the submission itself are the runtime's
//! business; they never reach the store.

use vstd::prelude::*;

use crate::codec::Command;
use crate::codec::decode;
use crate::codec::decode_spec;
use crate::codec::encode_error;
use crate::codec::error_line_spec;
use crate::dec_rep;
use crate::usize_to_string;

verus! {

use vstd::string::StringExecFns;

/// What a connection handler must do after one read.
pub enum SessionStep {
    /// The peer closed: write this farewell line and end the session.
    Farewell(String),
    /// The line was not a valid command: write the notice and the error
    /// line, then keep reading.
    Reject { notice: String, error: String },
    /// A command: write the notice, submit the command, await its outcome,
    /// write the encoded outcome, then keep reading.
    Submit { notice: String, command: Command },
}

/// The line that answers a closed peer.
pub open spec fn farewell_spec() -> Seq<char> {
    "bye\r\n"@
}

/// The acknowledgement line for a read of `n` bytes.
pub open spec fn notice_spec(n: nat) -> Seq<char> {
    "consumed "@ + dec_rep(n) + " bytes\r\n"@
}

/// The line that answers a submission made after the queue's intake closed.
pub open spec fn unavailable_spec() -> Seq<char> {
    "service unavailable\r\n"@
}

/// The farewell line written before a normal session end.
pub fn farewell_line() -> (r: String)
    ensures
        r@ == farewell_spec(),
{
    String::from_str("bye\r\n")
}

/// The acknowledgement line for a read of `n` bytes.
pub fn notice_line(n: usize) -> (r: String)
    ensures
        r@ == notice_spec(n as nat),
{
    let mut r = String::from_str("consumed ");
    let count = usize_to_string(n);
    r.append(count.as_str());
    r.append(" bytes\r\n");
    r
}

/// The refusal line for a submission the closed service no longer takes.
pub fn unavailable_line() -> (r: String)
    ensures
        r@ == unavailable_spec(),
{
    String::from_str("service unavailable\r\n")
}

/// Decides what one read of `n_bytes` bytes holding `line` asks of the
/// connection handler.
pub fn on_read(n_bytes: usize, line: &str) -> (r: SessionStep)
    ensures
        n_bytes == 0 ==> (r matches SessionStep::Farewell(f) && f@ == farewell_spec()),
        n_bytes > 0 ==> match decode_spec(line@) {
            Ok(c) => r matches SessionStep::Submit { notice, command } && notice@ == notice_spec(
                n_bytes as nat,
            ) && command@ == c,
            Err(e) => r matches SessionStep::Reject { notice, error } && notice@ == notice_spec(
                n_bytes as nat,
            ) && error@ == error_line_spec(e),
        },
{
    if n_bytes == 0 {
        return SessionStep::Farewell(farewell_line());
    }
    let notice = notice_line(n_bytes);
    match decode(line) {
        Ok(command) => SessionStep::Submit { notice, command },
        Err(e) => SessionStep::Reject { notice, error: encode_error(&e) },
    }
}

} // verus!
