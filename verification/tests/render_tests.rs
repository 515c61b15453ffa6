use chat_sync::engine::{Chat, Msg};
use chat_sync::render::{avatar_for, message_is_image};

#[test]
fn gif_suffix_marks_an_image_body() {
    assert!(message_is_image(&b"hi.gif".to_vec()));
    assert!(message_is_image(&b".gif".to_vec()));
    assert!(!message_is_image(&b"hi.png".to_vec()));
    assert!(!message_is_image(&b"gif".to_vec()));
    assert!(!message_is_image(&b"".to_vec()));
    assert!(!message_is_image(&b"gif.not".to_vec()));
}

#[test]
fn avatar_for_finds_a_roster_entry() {
    let mut chat = Chat::create(&b"alice".to_vec());
    let roster = br#"{"messageType":"users","dataArray":["alice","bob"]}"#.to_vec();
    chat.update(Msg::HandleMsg(roster));
    let url = avatar_for(&chat.users, &b"bob".to_vec());
    assert_eq!(
        url,
        b"https://avatars.dicebear.com/api/adventurer-neutral/bob.svg".to_vec()
    );
}

#[test]
fn avatar_for_missing_sender_falls_back_to_placeholder() {
    let chat = Chat::create(&b"alice".to_vec());
    let url = avatar_for(&chat.users, &b"ghost".to_vec());
    assert_eq!(
        url,
        b"https://avatars.dicebear.com/api/adventurer-neutral/unknown.svg".to_vec()
    );
}
