use relay_hub::relay::{relay_frame, relay_reply, HSendMessage, RelayOutcome};

#[test]
fn frame_carries_target_and_emoji() {
    let body = HSendMessage {
        to: "8955D561-895C-44A2-8C99-7459CE826392".to_string(),
        emoji: "shen".to_string(),
    };
    assert_eq!(
        relay_frame(&body),
        "{\"cmd\": \"send\", \"to\": \"8955D561-895C-44A2-8C99-7459CE826392\", \"text\": \"shen\"}"
    );
}

#[test]
fn frame_does_not_escape() {
    let body = HSendMessage { to: "a\"b".to_string(), emoji: "".to_string() };
    assert_eq!(relay_frame(&body), "{\"cmd\": \"send\", \"to\": \"a\"b\", \"text\": \"\"}");
}

#[test]
fn replies_follow_outcome() {
    let r = relay_reply(RelayOutcome::Sent);
    assert_eq!((r.status, r.body.as_str()), (200, "Message sent successfully"));
    let r = relay_reply(RelayOutcome::ConnectFailed);
    assert_eq!((r.status, r.body.as_str()), (500, "Failed to connect to WebSocket server"));
    let r = relay_reply(RelayOutcome::SendFailed);
    assert_eq!((r.status, r.body.as_str()), (500, "Failed to send message over WebSocket"));
}

#[test]
fn frame_reads_back_as_send_frame() {
    let body = HSendMessage { to: "U-1".to_string(), emoji: "smile".to_string() };
    let v: serde_json::Value = serde_json::from_str(&relay_frame(&body)).unwrap();
    assert_eq!(v.get("cmd").and_then(|c| c.as_str()), Some("send"));
    assert_eq!(v.get("to").and_then(|c| c.as_str()), Some("U-1"));
    assert_eq!(v.get("text").and_then(|c| c.as_str()), Some("smile"));
}
