use relay_hub::message::{classify, Command, LoginMessage, SendMessage};
use relay_hub::registry::{Action, Registry};

fn login(cmd: &str, id: Option<&str>) -> Option<LoginMessage> {
    Some(LoginMessage { cmd: cmd.to_string(), id: id.map(|s| s.to_string()) })
}

fn send(cmd: &str, to: Option<&str>, text: Option<&str>) -> Option<SendMessage> {
    Some(SendMessage {
        cmd: cmd.to_string(),
        to: to.map(|s| s.to_string()),
        text: text.map(|s| s.to_string()),
    })
}

fn connect(r: &mut Registry<u32>, sender: u32) -> usize {
    let id = r.allocate_id();
    r.insert(id, sender);
    id
}

#[test]
fn ids_start_at_one_and_count_up() {
    let mut r: Registry<u32> = Registry::new();
    assert_eq!(r.allocate_id(), 1);
    assert_eq!(r.allocate_id(), 2);
    assert_eq!(r.allocate_id(), 3);
}

#[test]
fn new_connection_is_not_logged_in() {
    let mut r: Registry<u32> = Registry::new();
    let id = connect(&mut r, 10);
    assert_eq!(r.sender(id), Some(&10));
    assert_eq!(r.find_by_uuid(&"A".to_string()), None);
}

#[test]
fn login_then_send_is_delivered() {
    let mut r: Registry<u32> = Registry::new();
    let a = connect(&mut r, 10);
    let b = connect(&mut r, 20);
    let act = r.handle_message(a, login("login", Some("8955D561")), None);
    assert!(matches!(act, Action::LoggedIn { ref uuid } if uuid == "8955D561"));
    let act = r.handle_message(b, None, send("send", Some("8955D561"), Some("shen")));
    match act {
        Action::Deliver { recipient, to, text } => {
            assert_eq!(recipient, a);
            assert_eq!(to, "8955D561");
            assert_eq!(text, "shen");
            assert_eq!(r.sender(recipient), Some(&10));
        }
        _ => panic!("expected a delivery"),
    }
}

#[test]
fn send_to_unknown_uuid_is_not_found() {
    let mut r: Registry<u32> = Registry::new();
    let a = connect(&mut r, 10);
    let act = r.handle_message(a, None, send("send", Some("nobody"), Some("hi")));
    assert!(matches!(act, Action::RecipientNotFound { ref to } if to == "nobody"));
}

#[test]
fn login_without_id_changes_nothing() {
    let mut r: Registry<u32> = Registry::new();
    let a = connect(&mut r, 10);
    let act = r.handle_message(a, login("login", None), None);
    assert!(matches!(act, Action::LoginWithoutId));
    assert_eq!(r.find_by_uuid(&"".to_string()), None);
}

#[test]
fn send_without_text_or_target_is_incomplete() {
    let mut r: Registry<u32> = Registry::new();
    let a = connect(&mut r, 10);
    r.log_in(a, "U".to_string());
    let act = r.handle_message(a, None, send("send", Some("U"), None));
    assert!(matches!(act, Action::SendIncomplete));
    let act = r.handle_message(a, None, send("send", None, Some("x")));
    assert!(matches!(act, Action::SendIncomplete));
}

#[test]
fn other_frames_are_invalid() {
    let mut r: Registry<u32> = Registry::new();
    let a = connect(&mut r, 10);
    let act = r.handle_message(a, login("hello", Some("U")), send("hello", Some("U"), Some("x")));
    assert!(matches!(act, Action::Invalid));
    let act = r.handle_message(a, None, None);
    assert!(matches!(act, Action::Invalid));
    assert_eq!(r.find_by_uuid(&"U".to_string()), None);
}

#[test]
fn login_frame_wins_over_send_reading() {
    // A frame that decodes both ways is a login when its word is "login".
    let c = classify(login("login", Some("U")), send("login", Some("V"), Some("x")));
    assert!(matches!(c, Command::Login { id: Some(ref u) } if u == "U"));
    // A send frame also decodes as a login record without an id.
    let c = classify(login("send", None), send("send", Some("V"), Some("x")));
    assert!(matches!(c, Command::Send { to: Some(ref t), text: Some(ref x) } if t == "V" && x == "x"));
}

#[test]
fn relogin_replaces_identifier() {
    let mut r: Registry<u32> = Registry::new();
    let a = connect(&mut r, 10);
    r.log_in(a, "first".to_string());
    r.log_in(a, "second".to_string());
    assert_eq!(r.find_by_uuid(&"first".to_string()), None);
    assert_eq!(r.find_by_uuid(&"second".to_string()), Some(a));
}

#[test]
fn login_of_unknown_connection_changes_nothing() {
    let mut r: Registry<u32> = Registry::new();
    r.log_in(42, "U".to_string());
    assert_eq!(r.find_by_uuid(&"U".to_string()), None);
    assert_eq!(r.sender(42), None);
}

#[test]
fn disconnected_connection_gets_nothing() {
    let mut r: Registry<u32> = Registry::new();
    let a = connect(&mut r, 10);
    let b = connect(&mut r, 20);
    r.log_in(a, "U".to_string());
    r.remove(a);
    assert_eq!(r.sender(a), None);
    let act = r.handle_message(b, None, send("send", Some("U"), Some("x")));
    assert!(matches!(act, Action::RecipientNotFound { .. }));
}

#[test]
fn several_logins_under_one_uuid_deliver_to_one_of_them() {
    let mut r: Registry<u32> = Registry::new();
    let a = connect(&mut r, 10);
    let b = connect(&mut r, 20);
    let c = connect(&mut r, 30);
    r.log_in(a, "U".to_string());
    r.log_in(b, "U".to_string());
    match r.handle_message(c, None, send("send", Some("U"), Some("x"))) {
        Action::Deliver { recipient, .. } => assert!(recipient == a || recipient == b),
        _ => panic!("expected a delivery"),
    }
}

#[test]
fn reinserted_id_replaces_connection() {
    let mut r: Registry<u32> = Registry::new();
    r.insert(5, 1);
    r.log_in(5, "U".to_string());
    r.insert(5, 2);
    assert_eq!(r.sender(5), Some(&2));
    assert_eq!(r.find_by_uuid(&"U".to_string()), None);
}

#[test]
fn hundred_allocations_hand_out_one_to_hundred() {
    let mut r: Registry<u32> = Registry::new();
    let ids: Vec<usize> = (0..100).map(|_| r.allocate_id()).collect();
    assert_eq!(ids, (1..=100).collect::<Vec<usize>>());
}

#[test]
fn table_holds_exactly_live_connections_with_their_senders() {
    let mut r: Registry<u32> = Registry::new();
    let a = connect(&mut r, 10);
    let b = connect(&mut r, 20);
    let _ = r.handle_message(b, login("login", Some("U")), None);
    r.remove(a);
    let c = connect(&mut r, 30);
    assert_eq!((a, b, c), (1, 2, 3));
    assert_eq!(r.sender(a), None);
    assert_eq!(r.sender(b), Some(&20));
    assert_eq!(r.sender(c), Some(&30));
}
