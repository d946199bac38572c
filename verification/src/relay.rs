//! The HTTP side of the hub: a request names a target identifier and an
//! emoji, the hub turns it into a send frame for the chat socket, and answers
//! the request according to how passing the frame on went.
use vstd::prelude::*;
use vstd::string::*;

verus! {

/// The body of a relay request: the identifier to reach and the emoji to
/// pass on.
pub struct HSendMessage {
    pub to: String,
    pub emoji: String,
}

/// The send frame for target `to` and text `emoji`. The two values are put
/// between the quotes as they are, without JSON escaping.
pub open spec fn relay_frame_spec(to: Seq<char>, emoji: Seq<char>) -> Seq<char> {
    "{\"cmd\": \"send\", \"to\": \""@ + to + "\", \"text\": \""@ + emoji + "\"}"@
}

/// Builds the send frame that carries a relay request to the chat socket.
pub fn relay_frame(body: &HSendMessage) -> (frame: String)
    ensures
        frame@ == relay_frame_spec(body.to@, body.emoji@),
        frame@ == "{\"cmd\": \"send\", \"to\": \""@ + body.to@ + "\", \"text\": \""@ + body.emoji@
            + "\"}"@,
{
    let mut frame = String::from_str("{\"cmd\": \"send\", \"to\": \"");
    frame.append(body.to.as_str());
    frame.append("\", \"text\": \"");
    frame.append(body.emoji.as_str());
    frame.append("\"}");
    frame
}

/// How passing a relay request on to the chat socket went.
pub enum RelayOutcome {
    /// No connection to the chat socket could be made.
    ConnectFailed,
    /// The connection was made but the frame could not be sent.
    SendFailed,
    /// The frame was sent.
    Sent,
}

/// The answer to a relay request.
pub struct HttpReply {
    pub status: u16,
    pub body: String,
}

/// The status code that answers a relay request: 500 when the frame could not
/// be passed on, 200 when it was.
pub open spec fn reply_status(outcome: RelayOutcome) -> u16 {
    match outcome {
        RelayOutcome::Sent => 200,
        _ => 500,
    }
}

/// The body text that answers a relay request.
pub open spec fn reply_body(outcome: RelayOutcome) -> Seq<char> {
    match outcome {
        RelayOutcome::ConnectFailed => "Failed to connect to WebSocket server"@,
        RelayOutcome::SendFailed => "Failed to send message over WebSocket"@,
        RelayOutcome::Sent => "Message sent successfully"@,
    }
}

/// The answer to a relay request, given how passing it on went.
pub fn relay_reply(outcome: RelayOutcome) -> (r: HttpReply)
    ensures
        r.status == reply_status(outcome),
        r.body@ == reply_body(outcome),
        r.status == 200 <==> outcome is Sent,
        !(outcome is Sent) ==> r.status == 500,
        outcome is ConnectFailed ==> r.body@ == "Failed to connect to WebSocket server"@,
        outcome is SendFailed ==> r.body@ == "Failed to send message over WebSocket"@,
        outcome is Sent ==> r.body@ == "Message sent successfully"@,
{
    match outcome {
        RelayOutcome::ConnectFailed => HttpReply {
            status: 500,
            body: String::from_str("Failed to connect to WebSocket server"),
        },
        RelayOutcome::SendFailed => HttpReply {
            status: 500,
            body: String::from_str("Failed to send message over WebSocket"),
        },
        RelayOutcome::Sent => HttpReply {
            status: 200,
            body: String::from_str("Message sent successfully"),
        },
    }
}

} // verus!
