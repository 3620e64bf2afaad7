//! What the book keeper tells a chat, and in which words.

use vstd::prelude::*;

verus! {

/// A text to deliver to one chat.
#[derive(Debug)]
pub struct Notice {
    pub chat_id: i64,
    pub text: String,
}

/// Mathematical value of a [`Notice`].
pub struct NoticeView {
    pub chat_id: i64,
    pub text: Seq<char>,
}

impl View for Notice {
    type V = NoticeView;

    open spec fn view(&self) -> NoticeView {
        NoticeView { chat_id: self.chat_id, text: self.text@ }
    }
}

/// What became of a request to subscribe.
#[derive(Debug, Clone, Copy, PartialEq, Eq, Structural)]
pub enum SubscribeOutcome {
    /// The chat was added to the subscribers of the endpoint.
    Ack,
    /// The chat was subscribed to the endpoint before, and still is.
    AlreadySubscribed,
}

/// What became of a request to unsubscribe.
#[derive(Debug, Clone, Copy, PartialEq, Eq, Structural)]
pub enum UnsubscribeOutcome {
    /// The chat was taken out of the subscribers of the endpoint.
    Ack,
    /// The chat was not subscribed to the endpoint.
    NotSubscribed,
}

/// `prefix` followed by `status_url`.
fn lead_in(prefix: &str, status_url: &String) -> (text: String)
    ensures
        text@ == prefix@ + status_url@,
{
    let mut text = prefix.to_owned();
    text.append(status_url.as_str());
    text
}

impl SubscribeOutcome {
    /// The words that answer a request to subscribe to `url`.
    pub open spec fn spec_text(self, url: Seq<char>) -> Seq<char> {
        match self {
            SubscribeOutcome::Ack => "You are now subscribed to updates for "@ + url,
            SubscribeOutcome::AlreadySubscribed => "You are already subscribed to updates for "@
                + url,
        }
    }

    /// The words that answer a request to subscribe to `status_url`.
    pub fn text(self, status_url: &String) -> (text: String)
        ensures
            text@ == self.spec_text(status_url@),
    {
        match self {
            SubscribeOutcome::Ack => lead_in("You are now subscribed to updates for ", status_url),
            SubscribeOutcome::AlreadySubscribed => lead_in(
                "You are already subscribed to updates for ",
                status_url,
            ),
        }
    }
}

impl UnsubscribeOutcome {
    /// The words that answer a request to unsubscribe from `url`.
    pub open spec fn spec_text(self, url: Seq<char>) -> Seq<char> {
        match self {
            UnsubscribeOutcome::Ack => "You will no longer receive updates for "@ + url,
            UnsubscribeOutcome::NotSubscribed => "You are not subscribed to updates for "@ + url,
        }
    }

    /// The words that answer a request to unsubscribe from `status_url`.
    pub fn text(self, status_url: &String) -> (text: String)
        ensures
            text@ == self.spec_text(status_url@),
    {
        match self {
            UnsubscribeOutcome::Ack => lead_in(
                "You will no longer receive updates for ",
                status_url,
            ),
            UnsubscribeOutcome::NotSubscribed => lead_in(
                "You are not subscribed to updates for ",
                status_url,
            ),
        }
    }
}

/// The words that announce the newly confirmed state of `url`.
pub open spec fn spec_status_text(url: Seq<char>, online: bool) -> Seq<char> {
    if online {
        "The node at "@ + url + " is now online"@
    } else {
        "The node at "@ + url + " is now offline"@
    }
}

/// The words that announce the newly confirmed state of `status_url`.
pub fn status_text(status_url: &String, online: bool) -> (text: String)
    ensures
        text@ == spec_status_text(status_url@, online),
{
    let mut text = lead_in("The node at ", status_url);
    if online {
        text.append(" is now online");
    } else {
        text.append(" is now offline");
    }
    text
}

/// One notice with `text` for each of `chats`, in their order.
pub open spec fn spec_fan_out(chats: Seq<i64>, text: Seq<char>) -> Seq<NoticeView> {
    chats.map_values(|chat_id: i64| NoticeView { chat_id, text })
}

/// One notice with `text` for each of `chats`, in their order.
pub fn fan_out(chats: &Vec<i64>, text: &String) -> (notices: Vec<Notice>)
    ensures
        notices@.map_values(|n: Notice| n@) == spec_fan_out(chats@, text@),
{
    let mut notices: Vec<Notice> = Vec::new();
    let mut i: usize = 0;
    while i < chats.len()
        invariant
            i <= chats.len(),
            notices.len() == i,
            forall|j: int|
                0 <= j < i ==> (#[trigger] notices@[j])@ == (NoticeView {
                    chat_id: chats@[j],
                    text: text@,
                }),
        decreases chats.len() - i,
    {
        notices.push(Notice { chat_id: chats[i], text: text.clone() });
        i = i + 1;
    }
    notices
}

} // verus!
