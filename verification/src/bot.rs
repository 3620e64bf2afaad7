//! What a chat can ask for, and which of it reaches the book keeper.

use crate::book_keeping::{Message, MessageView};
use vstd::prelude::*;

verus! {

/// The text that explains the commands to a chat.
pub const HELP_TEXT: &'static str =
    "\nHello! I'm Caspie Bot, here is a list of commands I respond to:\n\n/subscribe {url} - Get notifications for the node at {url} when it goes offline or comes back online. \n/unsubscribe {url} - Stop getting notifications for the node at {url}.\n/help - display this help text.\n\nNote: {url} must be the full url of the status endpoint for a node: `http://mynode.mysite.com:8888/status`.\n";

/// A command as a chat wrote it.
#[derive(Debug)]
pub enum Command {
    /// Asks for the help text.
    Help,
    /// Asks for notifications about the endpoint at the given url.
    Subscribe(String),
    /// Asks for no more notifications about the endpoint at the given url.
    Unsubscribe(String),
}

/// Mathematical value of a [`Command`].
pub enum CommandView {
    Help,
    Subscribe(Seq<char>),
    Unsubscribe(Seq<char>),
}

impl View for Command {
    type V = CommandView;

    open spec fn view(&self) -> CommandView {
        match self {
            Command::Help => CommandView::Help,
            Command::Subscribe(url) => CommandView::Subscribe(url@),
            Command::Unsubscribe(url) => CommandView::Unsubscribe(url@),
        }
    }
}

/// The message that a parsed command of `chat_id` puts in the book keeper's
/// mailbox: none for a request for help and for what could not be parsed.
pub open spec fn spec_route(parsed: Option<CommandView>, chat_id: i64) -> Option<MessageView> {
    match parsed {
        Some(CommandView::Subscribe(url)) => Some(
            MessageView::Subscribe { status_url: url, chat_id },
        ),
        Some(CommandView::Unsubscribe(url)) => Some(
            MessageView::Unsubscribe { status_url: url, chat_id },
        ),
        Some(CommandView::Help) => None,
        None => None,
    }
}

/// The mathematical value of what was parsed, if anything was.
pub open spec fn parsed_view(parsed: Option<Command>) -> Option<CommandView> {
    match parsed {
        Some(command) => Some(command@),
        None => None,
    }
}

/// Turns what `chat_id` wrote, as far as it could be parsed, into the
/// message for the book keeper, if it calls for one.
pub fn route(parsed: Option<Command>, chat_id: i64) -> (message: Option<Message>)
    ensures
        (match message {
            Some(m) => spec_route(parsed_view(parsed), chat_id) == Some(m@),
            None => spec_route(parsed_view(parsed), chat_id) is None,
        }),
{
    match parsed {
        Some(Command::Help) => None,
        Some(Command::Subscribe(s)) => Some(Message::Subscribe { chat_id, status_url: s }),
        Some(Command::Unsubscribe(s)) => Some(Message::Unsubscribe { chat_id, status_url: s }),
        None => None,
    }
}

} // verus!
