use logtail::chat::ChatAction;
use logtail::chat::ChatEvent;
use logtail::chat::ChatState;

#[test]
fn connection_greeting() {
    let mut h = ChatState::new();
    let a = h.handle_event(&ChatEvent::Hello);
    assert!(matches!(a, ChatAction::Reply { ref text } if text == "I'm back!"));
    assert!(!h.will_exit);
}

#[test]
fn test_command_is_acknowledged() {
    let mut h = ChatState::new();
    let a = h.handle_event(&ChatEvent::MessageText { text: "!test".to_string() });
    assert!(matches!(a, ChatAction::Reply { ref text } if text == "got test msg"));
    assert!(!h.will_exit);
}

#[test]
fn quit_command_says_bye_then_exits_on_confirmation() {
    let mut h = ChatState::new();
    let a = h.handle_event(&ChatEvent::MessageText { text: "!quit".to_string() });
    assert!(matches!(a, ChatAction::Reply { ref text } if text == "bye"));
    assert!(h.will_exit);
    let a = h.handle_event(&ChatEvent::MessageSent);
    assert!(matches!(a, ChatAction::Exit));
}

#[test]
fn ordinary_text_is_ignored() {
    let mut h = ChatState::new();
    let a = h.handle_event(&ChatEvent::MessageText { text: "hello there".to_string() });
    assert!(matches!(a, ChatAction::Ignore));
    assert!(!h.will_exit);
}

#[test]
fn confirmation_without_quit_is_ignored() {
    let mut h = ChatState::new();
    let a = h.handle_event(&ChatEvent::MessageSent);
    assert!(matches!(a, ChatAction::Ignore));
}

#[test]
fn unhandled_events_are_ignored() {
    let mut h = ChatState::new();
    assert!(matches!(h.handle_event(&ChatEvent::UnhandledMessage), ChatAction::Ignore));
    assert!(matches!(h.handle_event(&ChatEvent::Unhandled), ChatAction::Ignore));
    assert!(!h.will_exit);
}

#[test]
fn replies_go_to_the_home_channel() {
    assert_eq!(logtail::chat::channel_name(), "#wurstminebot-test");
}

#[test]
fn default_handler_has_no_exit_pending() {
    let h = ChatState::default();
    assert!(!h.will_exit);
}
