//! The client side of one control exchange.
//!
//! A client invocation encodes its command with the protocol codec, sends
//! the frame over the transport, and prints what this module makes of the
//! outcome. The transport itself is the embedding application's; it
//! reports here what happened, with "nobody listening", "empty reply" and
//! "other transport failure" kept apart so each draws its own diagnostic.

use vstd::prelude::*;

verus! {

use vstd::string::StringExecFns;
use vstd::utf8::valid_utf8;
use vstd::utf8::decode_utf8;
use vstd::utf8::encode_utf8_decode_utf8;
use crate::protocol::string_from_utf8;

/// What the transport's one round trip came to.
#[derive(Debug)]
pub enum SendOutcome {
    /// The listener replied with these bytes.
    Received(Vec<u8>),
    /// Nobody listens on the endpoint: no server is running.
    NoListener,
    /// A listener took the request but replied with nothing.
    EmptyReply,
    /// The transport failed some other way; the message is the reported
    /// reason.
    Failed(String),
}

/// The text a client invocation prints for each outcome.
pub open spec fn report_text(outcome: SendOutcome) -> Seq<char> {
    match outcome {
        SendOutcome::Received(b) => if valid_utf8(b@) {
            decode_utf8(b@)
        } else {
            "Received a reply that is not UTF-8."@
        },
        SendOutcome::NoListener => "Service is not running."@,
        SendOutcome::EmptyReply => "Failed to send message to pipe: empty reply"@,
        SendOutcome::Failed(m) => "Failed to send message to pipe: "@ + m@,
    }
}

/// Turns the transport's outcome into the text the invocation prints: a
/// reply is passed on as text, and each failure draws its diagnostic.
pub fn report(outcome: SendOutcome) -> (r: String)
    ensures
        r@ == report_text(outcome),
{
    match outcome {
        SendOutcome::Received(b) => {
            let ghost bytes = b@;
            match string_from_utf8(b) {
                Some(s) => {
                    proof {
                        encode_utf8_decode_utf8(s@);
                    }
                    s
                },
                None => "Received a reply that is not UTF-8.".to_owned(),
            }
        },
        SendOutcome::NoListener => "Service is not running.".to_owned(),
        SendOutcome::EmptyReply => "Failed to send message to pipe: empty reply".to_owned(),
        SendOutcome::Failed(m) => {
            let mut s = "Failed to send message to pipe: ".to_owned();
            s.append(m.as_str());
            s
        },
    }
}

} // verus!
