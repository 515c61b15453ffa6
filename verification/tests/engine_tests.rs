use chat_sync::engine::{Chat, Msg};
use chat_sync::render::message_is_image;

fn avatar(name: &str) -> Vec<u8> {
    let mut url = b"https://avatars.dicebear.com/api/adventurer-neutral/".to_vec();
    url.extend_from_slice(name.as_bytes());
    url.extend_from_slice(b".svg");
    url
}

#[test]
fn create_queues_exactly_one_register_envelope() {
    let chat = Chat::create(&b"alice".to_vec());
    assert_eq!(
        chat.outbound,
        vec![br#"{"messageType":"register","data":"alice","dataArray":null}"#.to_vec()]
    );
    assert!(chat.users.is_empty());
    assert!(chat.messages.is_empty());
    assert!(!chat.dark_mode);
}

#[test]
fn users_envelope_projects_the_roster_in_order() {
    let mut chat = Chat::create(&b"alice".to_vec());
    let wire = br#"{"messageType":"users","dataArray":["alice","bob"]}"#.to_vec();
    let render = chat.update(Msg::HandleMsg(wire));
    assert!(render);
    assert_eq!(chat.users.len(), 2);
    assert_eq!(chat.users[0].name, b"alice".to_vec());
    assert_eq!(chat.users[0].avatar, avatar("alice"));
    assert_eq!(chat.users[1].name, b"bob".to_vec());
    assert_eq!(chat.users[1].avatar, avatar("bob"));
}

#[test]
fn users_envelope_replaces_rather_than_accumulates() {
    let mut chat = Chat::create(&b"alice".to_vec());
    let first = br#"{"messageType":"users","dataArray":["alice","bob"]}"#.to_vec();
    let second = br#"{"messageType":"users","dataArray":["carol"]}"#.to_vec();
    chat.update(Msg::HandleMsg(first));
    chat.update(Msg::HandleMsg(second));
    assert_eq!(chat.users.len(), 1);
    assert_eq!(chat.users[0].name, b"carol".to_vec());
}

#[test]
fn message_envelope_appends_its_record_once() {
    let mut chat = Chat::create(&b"alice".to_vec());
    let wire =
        br#"{"messageType":"message","data":"{\"from\":\"bob\",\"message\":\"hi.gif\"}"}"#
            .to_vec();
    let render = chat.update(Msg::HandleMsg(wire));
    assert!(render);
    assert_eq!(chat.messages.len(), 1);
    assert_eq!(chat.messages[0].from, b"bob".to_vec());
    assert_eq!(chat.messages[0].message, b"hi.gif".to_vec());
    // the body ends in .gif, so the view renders it as an image reference
    assert!(message_is_image(&chat.messages[0].message));
}

#[test]
fn malformed_message_record_is_dropped() {
    let mut chat = Chat::create(&b"alice".to_vec());
    let wire = br#"{"messageType":"message","data":"oops"}"#.to_vec();
    let render = chat.update(Msg::HandleMsg(wire));
    assert!(!render);
    assert!(chat.messages.is_empty());
    assert_eq!(chat.outbound.len(), 1);
}

#[test]
fn undecodable_transport_text_is_dropped() {
    let mut chat = Chat::create(&b"alice".to_vec());
    let before_users = chat.users.clone();
    let render = chat.update(Msg::HandleMsg(b"garbage".to_vec()));
    assert!(!render);
    assert_eq!(chat.users, before_users);
    assert!(chat.messages.is_empty());
    assert_eq!(chat.outbound.len(), 1);
}

#[test]
fn inbound_register_envelope_is_a_no_op() {
    let mut chat = Chat::create(&b"alice".to_vec());
    let wire = br#"{"messageType":"register","data":"mallory"}"#.to_vec();
    let render = chat.update(Msg::HandleMsg(wire));
    assert!(!render);
    assert!(chat.users.is_empty());
    assert!(chat.messages.is_empty());
    assert_eq!(chat.outbound.len(), 1);
}

#[test]
fn submit_queues_one_message_envelope_and_no_local_echo() {
    let mut chat = Chat::create(&b"alice".to_vec());
    let render = chat.update(Msg::SubmitMessage(b"hello".to_vec()));
    assert!(!render);
    assert_eq!(chat.outbound.len(), 2);
    assert_eq!(
        chat.outbound[1],
        br#"{"messageType":"message","data":"hello","dataArray":null}"#.to_vec()
    );
    // the log only grows when the server echoes the message back
    assert!(chat.messages.is_empty());
}

#[test]
fn submitting_empty_input_changes_nothing() {
    let mut chat = Chat::create(&b"alice".to_vec());
    let roster = br#"{"messageType":"users","dataArray":["alice"]}"#.to_vec();
    chat.update(Msg::HandleMsg(roster));
    let render = chat.update(Msg::SubmitMessage(Vec::new()));
    assert!(!render);
    assert_eq!(chat.outbound.len(), 1);
    assert_eq!(chat.users.len(), 1);
    assert!(chat.messages.is_empty());
}

#[test]
fn toggling_display_mode_twice_restores_it() {
    let mut chat = Chat::create(&b"alice".to_vec());
    assert!(!chat.dark_mode);
    let render = chat.update(Msg::ToggleDarkMode);
    assert!(render);
    assert!(chat.dark_mode);
    let render = chat.update(Msg::ToggleDarkMode);
    assert!(render);
    assert!(!chat.dark_mode);
}
