use dbmap::{Attachment, Button, ButtonStyle, MessageBuilder};

#[test]
fn new_message_is_bare_and_visible() {
    let m = MessageBuilder::new("hello");
    assert_eq!(m.content, "hello".to_string());
    assert!(m.files.is_empty());
    assert!(m.buttons.is_empty());
    assert!(!m.ephemeral);
}

#[test]
fn default_message_is_empty() {
    let m = MessageBuilder::default();
    assert_eq!(m.content, String::new());
    assert!(m.files.is_empty());
    assert!(m.buttons.is_empty());
    assert!(!m.ephemeral);
}

#[test]
fn builder_methods_replace_one_field_each() {
    let m = MessageBuilder::new("first")
        .content("second")
        .files(vec![Attachment {
            file: vec![1, 2, 3],
            filename: "data.bin".to_string(),
        }])
        .buttons(vec![Button {
            custom_id: "ok".to_string(),
            style: ButtonStyle::Primary,
            label: "Go".to_string(),
        }])
        .ephemeral(true);
    assert_eq!(m.content, "second".to_string());
    assert_eq!(m.files.len(), 1);
    assert_eq!(m.files[0].file, vec![1, 2, 3]);
    assert_eq!(m.files[0].filename, "data.bin".to_string());
    assert_eq!(m.buttons.len(), 1);
    assert_eq!(m.buttons[0].custom_id, "ok".to_string());
    assert_eq!(m.buttons[0].style, ButtonStyle::Primary);
    assert_eq!(m.buttons[0].label, "Go".to_string());
    assert!(m.ephemeral);
}
