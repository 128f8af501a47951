use pollus::bot::{
    handle_message, handle_update, link_message, welcome_message, BotAction, ChatKind,
    MessageContent, Update, USER_TOKEN,
};
use pollus::text::starts_with;

fn text(s: &str) -> MessageContent {
    MessageContent::Text(s.to_string())
}

const WELCOME: &str = "Welcome to the Pollus Bot! I'm here to give you access to our great Pollus Polls! Your personal link is https://pollus.msrd0.de/auth/THISTOKENISNONSENSE. If you forget your link, just type '/link' and I'll send it to again!";

#[test]
fn prefix_checks() {
    assert!(starts_with("/start now", "/start"));
    assert!(starts_with("/start", "/start"));
    assert!(!starts_with("/sta", "/start"));
    assert!(!starts_with(" /start", "/start"));
    assert!(starts_with("äöü", "ä"));
    assert!(starts_with("anything", ""));
}

#[test]
fn welcome_and_link_texts() {
    assert_eq!(welcome_message(USER_TOKEN), WELCOME);
    assert_eq!(
        link_message("tok"),
        "Your personal link is https://pollus.msrd0.de/auth/tok"
    );
}

#[test]
fn start_command_is_welcomed() {
    assert_eq!(
        handle_message(ChatKind::Private, &text("/start")),
        vec![BotAction::Send(WELCOME.to_string())]
    );
    assert_eq!(
        handle_message(ChatKind::Private, &text("/start@PollusBot hi")),
        vec![BotAction::Send(WELCOME.to_string())]
    );
}

#[test]
fn link_command_gets_the_link() {
    assert_eq!(
        handle_message(ChatKind::Private, &text("/link")),
        vec![BotAction::Send(
            "Your personal link is https://pollus.msrd0.de/auth/THISTOKENISNONSENSE".to_string()
        )]
    );
}

#[test]
fn other_text_is_not_understood() {
    assert_eq!(
        handle_message(ChatKind::Private, &text("hello")),
        vec![BotAction::Reply("Sorry, I was unable to understand your request.".to_string())]
    );
}

#[test]
fn non_text_is_refused() {
    assert_eq!(
        handle_message(ChatKind::Private, &MessageContent::Other),
        vec![BotAction::Reply("Sorry, this bot only reads text messages.".to_string())]
    );
}

#[test]
fn group_chats_are_left() {
    let expected = vec![
        BotAction::Send("Sorry, this bot only supports private chats.".to_string()),
        BotAction::Leave,
    ];
    assert_eq!(handle_message(ChatKind::Group, &text("/start")), expected);
    assert_eq!(handle_message(ChatKind::Supergroup, &MessageContent::Other), expected);
}

#[test]
fn unknown_chats_are_ignored() {
    assert_eq!(handle_message(ChatKind::Unknown, &text("/start")), vec![]);
}

#[test]
fn updates_other_than_messages_are_ignored() {
    assert_eq!(handle_update(&Update::Other), vec![]);
    assert_eq!(
        handle_update(&Update::Message(ChatKind::Private, text("/link"))).len(),
        1
    );
}
