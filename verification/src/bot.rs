//! The decisions of the Telegram bot: what it answers to each update.

use vstd::prelude::*;
use crate::text::{has_prefix, starts_with};

verus! {

/// The token that the bot hands out in its links.
pub const USER_TOKEN: &'static str = "THISTOKENISNONSENSE";

/// The kind of chat a message was sent in.
#[derive(Clone, Copy, Debug, PartialEq, Eq, Structural)]
pub enum ChatKind {
    Private,
    Group,
    Supergroup,
    Unknown,
}

/// What a message holds, as far as the bot reads it.
#[derive(Debug, PartialEq, Eq)]
pub enum MessageContent {
    Text(String),
    Other,
}

/// An update that the bot receives from Telegram.
#[derive(Debug, PartialEq, Eq)]
pub enum Update {
    Message(ChatKind, MessageContent),
    Other,
}

/// Something the bot does in the chat that a message came from.
#[derive(Debug, PartialEq, Eq)]
pub enum BotAction {
    /// Sends a new message with this text to the chat (or its user).
    Send(String),
    /// Replies to the message with this text.
    Reply(String),
    /// Leaves the chat.
    Leave,
}

/// A `BotAction` with its text taken as characters.
pub enum ActionView {
    Send(Seq<char>),
    Reply(Seq<char>),
    Leave,
}

impl View for BotAction {
    type V = ActionView;

    open spec fn view(&self) -> ActionView {
        match self {
            BotAction::Send(t) => ActionView::Send(t@),
            BotAction::Reply(t) => ActionView::Reply(t@),
            BotAction::Leave => ActionView::Leave,
        }
    }
}

/// The actions of a list, each taken by its view.
pub open spec fn actions_view(actions: Seq<BotAction>) -> Seq<ActionView> {
    actions.map_values(|a: BotAction| a@)
}

/// The start of every link message, up to the token.
pub open spec fn link_prefix() -> Seq<char> {
    "Your personal link is https://pollus.msrd0.de/auth/"@
}

/// The greeting that opens the welcome message.
pub open spec fn greeting_text() -> Seq<char> {
    "Welcome to the Pollus Bot! I'm here to give you access to our great Pollus Polls! "@
}

/// The reminder of `/link` that closes the welcome message.
pub open spec fn reminder_text() -> Seq<char> {
    ". If you forget your link, just type '/link' and I'll send it to again!"@
}

/// The welcome message for a user with this token.
pub open spec fn welcome_text(token: Seq<char>) -> Seq<char> {
    greeting_text() + link_prefix() + token + reminder_text()
}

/// The message that hands a user the link with this token.
pub open spec fn link_text(token: Seq<char>) -> Seq<char> {
    link_prefix() + token
}

/// The notice sent before leaving a group chat.
pub open spec fn only_private_text() -> Seq<char> {
    "Sorry, this bot only supports private chats."@
}

/// The reply to a message that is not text.
pub open spec fn only_text_text() -> Seq<char> {
    "Sorry, this bot only reads text messages."@
}

/// The reply to text that is no known command.
pub open spec fn not_understood_text() -> Seq<char> {
    "Sorry, I was unable to understand your request."@
}

/// What the bot does, in order, on a message in a chat of kind `chat`:
/// it leaves group chats after saying why, ignores chats of unknown kind,
/// refuses anything but text, and answers the commands `/start` and `/link`.
pub open spec fn answer(chat: ChatKind, content: MessageContent) -> Seq<ActionView> {
    match chat {
        ChatKind::Group | ChatKind::Supergroup => seq![
            ActionView::Send(only_private_text()),
            ActionView::Leave,
        ],
        ChatKind::Unknown => Seq::empty(),
        ChatKind::Private => match content {
            MessageContent::Other => seq![ActionView::Reply(only_text_text())],
            MessageContent::Text(text) => if has_prefix(text@, "/start"@) {
                seq![ActionView::Send(welcome_text(USER_TOKEN@))]
            } else if has_prefix(text@, "/link"@) {
                seq![ActionView::Send(link_text(USER_TOKEN@))]
            } else {
                seq![ActionView::Reply(not_understood_text())]
            },
        },
    }
}

/// The welcome message for a user with this token.
pub fn welcome_message(token: &str) -> (text: String)
    ensures
        text@ == welcome_text(token@),
{
    let mut text = String::from_str(
        "Welcome to the Pollus Bot! I'm here to give you access to our great Pollus Polls! ",
    );
    text.append("Your personal link is https://pollus.msrd0.de/auth/");
    text.append(token);
    text.append(". If you forget your link, just type '/link' and I'll send it to again!");
    text
}

/// The message that hands a user the link with this token.
pub fn link_message(token: &str) -> (text: String)
    ensures
        text@ == link_text(token@),
{
    let mut text = String::from_str("Your personal link is https://pollus.msrd0.de/auth/");
    text.append(token);
    text
}

/// What the bot does on a message of kind `content` in a chat of kind `chat`.
pub fn handle_message(chat: ChatKind, content: &MessageContent) -> (actions: Vec<BotAction>)
    ensures
        actions_view(actions@) == answer(chat, *content),
        chat == ChatKind::Private ==> (content matches MessageContent::Text(text) ==> (!(
        text@.len() >= 6 && text@.subrange(0, 6) == "/start"@) && !(text@.len() >= 5
            && text@.subrange(0, 5) == "/link"@) ==> (actions@.len() == 1 && (actions@[0] matches BotAction::Reply(r)
            && r@ == "Sorry, I was unable to understand your request."@)))),
        chat == ChatKind::Private ==> (content matches MessageContent::Text(text) ==> ((
        text@.len() >= 6 && text@.subrange(0, 6) == "/start"@) ==> (actions@.len() == 1
            && (actions@[0] matches BotAction::Send(w) && w@ == welcome_text(USER_TOKEN@))))),
{
    proof {
        if let MessageContent::Text(text) = content {
            lemma_private_text_answers(*text);
        }
    }
    let mut actions: Vec<BotAction> = Vec::new();
    match chat {
        ChatKind::Group | ChatKind::Supergroup => {
            actions.push(BotAction::Send(String::from_str("Sorry, this bot only supports private chats.")));
            actions.push(BotAction::Leave);
        },
        ChatKind::Unknown => {},
        ChatKind::Private => match content {
            MessageContent::Other => {
                actions.push(BotAction::Reply(String::from_str("Sorry, this bot only reads text messages.")));
            },
            MessageContent::Text(text) => {
                if starts_with(text.as_str(), "/start") {
                    actions.push(BotAction::Send(welcome_message(USER_TOKEN)));
                } else if starts_with(text.as_str(), "/link") {
                    actions.push(BotAction::Send(link_message(USER_TOKEN)));
                } else {
                    actions.push(BotAction::Reply(String::from_str("Sorry, I was unable to understand your request.")));
                }
            },
        },
    }
    assert(actions_view(actions@) =~= answer(chat, *content));
    proof {
        if actions@.len() > 0 {
            assert(actions_view(actions@)[0] == actions@[0]@);
        }
    }
    actions
}

/// What the bot does on an update: it answers messages and ignores the rest.
pub fn handle_update(update: &Update) -> (actions: Vec<BotAction>)
    ensures
        match update {
            Update::Message(chat, content) => actions_view(actions@) == answer(*chat, *content),
            Update::Other => actions@.len() == 0,
        },
{
    match update {
        Update::Message(chat, content) => handle_message(*chat, content),
        Update::Other => Vec::new(),
    }
}

/// How the bot answers text in a private chat: a text that starts with
/// `/start` gets the welcome message, one that starts with `/link` (and not
/// `/start`) gets the link, and any other text gets exactly one reply that
/// it was not understood.
pub proof fn lemma_private_text_answers(text: String)
    ensures
        (text@.len() >= 6 && text@.subrange(0, 6) == "/start"@) ==> answer(
            ChatKind::Private,
            MessageContent::Text(text),
        ) == seq![ActionView::Send(welcome_text(USER_TOKEN@))],
        !(text@.len() >= 6 && text@.subrange(0, 6) == "/start"@) && (text@.len() >= 5
            && text@.subrange(0, 5) == "/link"@) ==> answer(
            ChatKind::Private,
            MessageContent::Text(text),
        ) == seq![ActionView::Send(link_text(USER_TOKEN@))],
        !(text@.len() >= 6 && text@.subrange(0, 6) == "/start"@) && !(text@.len() >= 5
            && text@.subrange(0, 5) == "/link"@) ==> answer(
            ChatKind::Private,
            MessageContent::Text(text),
        ) == seq![ActionView::Reply("Sorry, I was unable to understand your request."@)],
{
    reveal_strlit("/start");
    reveal_strlit("/link");
}

/// Only a private text that starts with `/start` is ever answered with the
/// welcome message.
pub proof fn lemma_welcome_only_for_start(chat: ChatKind, content: MessageContent)
    requires
        answer(chat, content).contains(ActionView::Send(welcome_text(USER_TOKEN@))),
    ensures
        chat == ChatKind::Private,
        content matches MessageContent::Text(t) && t@.len() >= 6 && t@.subrange(0, 6) == "/start"@,
{
    reveal_strlit("/start");
    reveal_strlit("/link");
    reveal_strlit("Welcome to the Pollus Bot! I'm here to give you access to our great Pollus Polls! ");
    reveal_strlit("Sorry, this bot only supports private chats.");
    let w = welcome_text(USER_TOKEN@);
    assert(w.len() > link_text(USER_TOKEN@).len());
    assert(w.len() > only_private_text().len()) by {
        reveal_strlit("Your personal link is https://pollus.msrd0.de/auth/");
    }
    let a = answer(chat, content);
    let j = choose|j: int| 0 <= j < a.len() && a[j] == ActionView::Send(w);
    match chat {
        ChatKind::Group | ChatKind::Supergroup => {
            assert(j == 0);
        },
        _ => {},
    }
}

/// The bot never stays in a chat that is not private: on any message in a
/// group or supergroup it says that it only supports private chats, then
/// leaves, and does nothing else.
pub proof fn lemma_leaves_group_chats(chat: ChatKind, content: MessageContent)
    requires
        chat == ChatKind::Group || chat == ChatKind::Supergroup,
    ensures
        answer(chat, content).len() == 2,
        answer(chat, content).last() == ActionView::Leave,
        answer(chat, content)[0] == ActionView::Send(only_private_text()),
{
}

/// In a private chat the bot answers every message with exactly one message
/// and never leaves.
pub proof fn lemma_private_chats_get_one_answer(content: MessageContent)
    ensures
        answer(ChatKind::Private, content).len() == 1,
        !(answer(ChatKind::Private, content)[0] is Leave),
{
}

/// `/link` sends again the link that `/start` gave: the welcome message
/// holds, word for word, the message that `/link` sends.
pub proof fn lemma_link_repeats_welcome_link(start: MessageContent, link: MessageContent)
    requires
        start matches MessageContent::Text(s) && has_prefix(s@, "/start"@),
        link matches MessageContent::Text(l) && has_prefix(l@, "/link"@),
    ensures
        answer(ChatKind::Private, start)[0] matches ActionView::Send(w) && answer(
            ChatKind::Private,
            link,
        )[0] matches ActionView::Send(k) && w.subrange(
            greeting_text().len() as int,
            (greeting_text().len() + k.len()) as int,
        ) == k,
{
    reveal_strlit("/start");
    reveal_strlit("/link");
    if let MessageContent::Text(l) = link {
        if has_prefix(l@, "/start"@) {
            assert(l@.subrange(0, 6)[1] == 's');
            assert(l@.subrange(0, 5)[1] == 'l');
        }
    }
    let w = welcome_text(USER_TOKEN@);
    let k = link_text(USER_TOKEN@);
    assert(w.subrange(greeting_text().len() as int, (greeting_text().len() + k.len()) as int) =~= k);
}

} // verus!
