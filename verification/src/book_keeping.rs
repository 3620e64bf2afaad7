//! The registry of subscriptions and the command processor that owns it.

use crate::notice::{
    fan_out, spec_fan_out, spec_status_text, status_text, Notice, NoticeView, SubscribeOutcome,
    UnsubscribeOutcome,
};
use crate::status::{NodeStatus, NodeSubscription, StatusView, SubscriptionView, DEFAULT_WINDOW};
use vstd::prelude::*;

verus! {

/// One monitored endpoint of the registry, as a mathematical value.
pub struct EntryView {
    pub url: Seq<char>,
    pub sub: SubscriptionView,
}

/// Mathematical value of a [`BookKeeper`]: its endpoints in the order in
/// which they were first subscribed to, each with its subscription.
pub struct BookView {
    pub entries: Seq<EntryView>,
    pub window: nat,
}

impl BookView {
    /// A registry without endpoints.
    pub open spec fn empty(window: nat) -> Self {
        BookView { entries: Seq::empty(), window }
    }

    /// The monitored endpoints, in the order in which they were first subscribed to.
    pub open spec fn endpoints(self) -> Seq<Seq<char>> {
        self.entries.map_values(|e: EntryView| e.url)
    }

    /// Whether `url` is a monitored endpoint.
    pub open spec fn tracks(self, url: Seq<char>) -> bool {
        self.endpoints().contains(url)
    }

    /// Where the entry of `url` stands.
    pub open spec fn slot(self, url: Seq<char>) -> int
        recommends
            self.tracks(url),
    {
        self.endpoints().index_of(url)
    }

    /// The subscription of `url`, where `url` is monitored.
    pub open spec fn subscription(self, url: Seq<char>) -> SubscriptionView
        recommends
            self.tracks(url),
    {
        self.entries[self.slot(url)].sub
    }

    /// The chats subscribed to `url`: none where `url` is not monitored.
    pub open spec fn subscribers_of(self, url: Seq<char>) -> Seq<i64> {
        if self.tracks(url) {
            self.subscription(url).subscribers
        } else {
            Seq::empty()
        }
    }

    /// Whether `chat_id` is subscribed to `url`.
    pub open spec fn is_subscribed(self, url: Seq<char>, chat_id: i64) -> bool {
        self.subscribers_of(url).contains(chat_id)
    }

    /// The invariant of a registry: no endpoint is listed twice, every
    /// endpoint has a well-formed subscription with the registry's window,
    /// and every endpoint has at least one subscriber.
    pub open spec fn wf(self) -> bool {
        &&& 1 <= self.window <= u8::MAX
        &&& self.endpoints().no_duplicates()
        &&& forall|i: int|
            0 <= i < self.entries.len() ==> {
                &&& (#[trigger] self.entries[i]).sub.wf()
                &&& self.entries[i].sub.window == self.window
                &&& self.entries[i].sub.subscribers.len() > 0
            }
    }

    /// The registry with the entry of a monitored `url` replaced by `sub`.
    pub open spec fn with_subscription(self, url: Seq<char>, sub: SubscriptionView) -> Self
        recommends
            self.tracks(url),
    {
        BookView { entries: self.entries.update(self.slot(url), EntryView { url, sub }), ..self }
    }

    /// The registry after `chat_id` asked to follow `url`.
    pub open spec fn subscribe(self, url: Seq<char>, chat_id: i64) -> Self {
        if self.tracks(url) {
            self.with_subscription(url, self.subscription(url).with_subscriber(chat_id))
        } else {
            BookView {
                entries: self.entries.push(
                    EntryView {
                        url,
                        sub: SubscriptionView::fresh(self.window).with_subscriber(chat_id),
                    },
                ),
                ..self
            }
        }
    }

    /// The registry after `chat_id` asked to stop following `url`: the
    /// endpoint goes with its last subscriber.
    pub open spec fn unsubscribe(self, url: Seq<char>, chat_id: i64) -> Self {
        if self.is_subscribed(url, chat_id) {
            let rest = self.subscription(url).without_subscriber(chat_id);
            if rest.subscribers.len() == 0 {
                BookView { entries: self.entries.remove(self.slot(url)), ..self }
            } else {
                self.with_subscription(url, rest)
            }
        } else {
            self
        }
    }

    /// Whether recording `outcome` for `url` changes the confirmed state of `url`.
    pub open spec fn status_changes(self, url: Seq<char>, outcome: StatusView) -> bool {
        self.tracks(url) && self.subscription(url).push(outcome).transition_due()
    }

    /// The registry after `outcome` was recorded for `url`: as before where
    /// `url` is not monitored.
    pub open spec fn record(self, url: Seq<char>, outcome: StatusView) -> Self {
        if self.tracks(url) {
            self.with_subscription(url, self.subscription(url).feed(outcome))
        } else {
            self
        }
    }

    /// One notice of the confirmed state of `url` for each of its
    /// subscribers, in their order: none where `url` is not monitored.
    pub open spec fn announcements(self, url: Seq<char>) -> Seq<NoticeView> {
        if self.tracks(url) {
            spec_fan_out(
                self.subscribers_of(url),
                spec_status_text(url, self.subscription(url).current.is_online()),
            )
        } else {
            Seq::empty()
        }
    }

    /// The registry after `message` was processed.
    pub open spec fn step(self, message: MessageView) -> Self {
        match message {
            MessageView::Subscribe { status_url, chat_id } => self.subscribe(status_url, chat_id),
            MessageView::Unsubscribe { status_url, chat_id } => self.unsubscribe(
                status_url,
                chat_id,
            ),
            MessageView::GetNodesList => self,
            MessageView::NodeStatusUpdate { status_url, node_status } => self.record(
                status_url,
                node_status,
            ),
        }
    }

    /// What the registry answers to `message`.
    pub open spec fn reply(self, message: MessageView) -> ReplyView {
        match message {
            MessageView::Subscribe { status_url, chat_id } => {
                let outcome = if self.is_subscribed(status_url, chat_id) {
                    SubscribeOutcome::AlreadySubscribed
                } else {
                    SubscribeOutcome::Ack
                };
                ReplyView::Subscribed {
                    outcome,
                    notice: NoticeView { chat_id, text: outcome.spec_text(status_url) },
                }
            },
            MessageView::Unsubscribe { status_url, chat_id } => {
                let outcome = if self.is_subscribed(status_url, chat_id) {
                    UnsubscribeOutcome::Ack
                } else {
                    UnsubscribeOutcome::NotSubscribed
                };
                ReplyView::Unsubscribed {
                    outcome,
                    notice: NoticeView { chat_id, text: outcome.spec_text(status_url) },
                }
            },
            MessageView::GetNodesList => ReplyView::NodesList { urls: self.endpoints() },
            MessageView::NodeStatusUpdate { status_url, node_status } => {
                let changed = self.status_changes(status_url, node_status);
                ReplyView::StatusRecorded {
                    changed,
                    notices: if changed {
                        self.record(status_url, node_status).announcements(status_url)
                    } else {
                        Seq::empty()
                    },
                }
            },
        }
    }

    /// The registry after each of `messages` was processed, first to last.
    pub open spec fn run(self, messages: Seq<MessageView>) -> Self
        decreases messages.len(),
    {
        if messages.len() == 0 {
            self
        } else {
            self.run(messages.drop_last()).step(messages.last())
        }
    }
}

/// The net number of subscriptions of `chat_id` to `url` that `messages`
/// leave behind, counted from `before`. Subscribing twice is subscribing
/// once, so a subscribe brings the count to one and an unsubscribe brings it
/// to zero; other messages leave it alone.
pub open spec fn net_subscriptions(
    before: nat,
    messages: Seq<MessageView>,
    url: Seq<char>,
    chat_id: i64,
) -> nat
    decreases messages.len(),
{
    if messages.len() == 0 {
        before
    } else {
        match messages.last() {
            MessageView::Subscribe { status_url, chat_id: who } if status_url == url && who
                == chat_id => 1,
            MessageView::Unsubscribe { status_url, chat_id: who } if status_url == url && who
                == chat_id => 0,
            _ => net_subscriptions(before, messages.drop_last(), url, chat_id),
        }
    }
}

/// What the answers to `messages`, processed from `book` on, add to the
/// subscriptions of `chat_id` to `url`: one for each subscribe that was
/// acknowledged, less one for each unsubscribe that was.
pub open spec fn acknowledged(
    book: BookView,
    messages: Seq<MessageView>,
    url: Seq<char>,
    chat_id: i64,
) -> int
    decreases messages.len(),
{
    if messages.len() == 0 {
        0
    } else {
        let earlier = messages.drop_last();
        let answer = book.run(earlier).reply(messages.last());
        acknowledged(book, earlier, url, chat_id) + (match (messages.last(), answer) {
            (
                MessageView::Subscribe { status_url, chat_id: who },
                ReplyView::Subscribed { outcome: SubscribeOutcome::Ack, .. },
            ) if status_url == url && who == chat_id => 1int,
            (
                MessageView::Unsubscribe { status_url, chat_id: who },
                ReplyView::Unsubscribed { outcome: UnsubscribeOutcome::Ack, .. },
            ) if status_url == url && who == chat_id => -1int,
            _ => 0int,
        })
    }
}

/// A command to the book keeper.
#[derive(Debug)]
pub enum Message {
    /// `chat_id` wants to follow `status_url`.
    Subscribe { status_url: String, chat_id: i64 },
    /// `chat_id` wants to stop following `status_url`.
    Unsubscribe { status_url: String, chat_id: i64 },
    /// The poller asks which endpoints to probe.
    GetNodesList,
    /// A probe of `status_url` came back with `node_status`.
    NodeStatusUpdate { status_url: String, node_status: NodeStatus },
}

/// Mathematical value of a [`Message`].
pub enum MessageView {
    Subscribe { status_url: Seq<char>, chat_id: i64 },
    Unsubscribe { status_url: Seq<char>, chat_id: i64 },
    GetNodesList,
    NodeStatusUpdate { status_url: Seq<char>, node_status: StatusView },
}

impl View for Message {
    type V = MessageView;

    open spec fn view(&self) -> MessageView {
        match self {
            Message::Subscribe { status_url, chat_id } => MessageView::Subscribe {
                status_url: status_url@,
                chat_id: *chat_id,
            },
            Message::Unsubscribe { status_url, chat_id } => MessageView::Unsubscribe {
                status_url: status_url@,
                chat_id: *chat_id,
            },
            Message::GetNodesList => MessageView::GetNodesList,
            Message::NodeStatusUpdate { status_url, node_status } => MessageView::NodeStatusUpdate {
                status_url: status_url@,
                node_status: node_status@,
            },
        }
    }
}

/// What the book keeper hands back for one [`Message`].
#[derive(Debug)]
#[allow(inconsistent_fields)]
pub enum Reply {
    /// The answer to a `Subscribe`, with the words for the chat that asked.
    Subscribed { outcome: SubscribeOutcome, notice: Notice },
    /// The answer to an `Unsubscribe`, with the words for the chat that asked.
    Unsubscribed { outcome: UnsubscribeOutcome, notice: Notice },
    /// The answer to a `GetNodesList`.
    NodesList { urls: Vec<String> },
    /// The result of a `NodeStatusUpdate`: whether the confirmed state
    /// changed, and if so one notice for each subscriber of the endpoint.
    StatusRecorded { changed: bool, notices: Vec<Notice> },
}

/// Mathematical value of a [`Reply`].
#[allow(inconsistent_fields)]
pub enum ReplyView {
    Subscribed { outcome: SubscribeOutcome, notice: NoticeView },
    Unsubscribed { outcome: UnsubscribeOutcome, notice: NoticeView },
    NodesList { urls: Seq<Seq<char>> },
    StatusRecorded { changed: bool, notices: Seq<NoticeView> },
}

impl View for Reply {
    type V = ReplyView;

    open spec fn view(&self) -> ReplyView {
        match self {
            Reply::Subscribed { outcome, notice } => ReplyView::Subscribed {
                outcome: *outcome,
                notice: notice@,
            },
            Reply::Unsubscribed { outcome, notice } => ReplyView::Unsubscribed {
                outcome: *outcome,
                notice: notice@,
            },
            Reply::NodesList { urls } => ReplyView::NodesList { urls: urls.deep_view() },
            Reply::StatusRecorded { changed, notices } => ReplyView::StatusRecorded {
                changed: *changed,
                notices: notices@.map_values(|n: Notice| n@),
            },
        }
    }
}

/// One monitored endpoint of the registry.
#[derive(Debug)]
struct Entry {
    status_url: String,
    node_sub: NodeSubscription,
}

/// The single owner of all subscriptions and status histories.
#[derive(Debug)]
pub struct BookKeeper {
    subscriptions: Vec<Entry>,
    window: u8,
}

impl View for BookKeeper {
    type V = BookView;

    closed spec fn view(&self) -> BookView {
        BookView {
            entries: self.subscriptions@.map_values(
                |e: Entry| EntryView { url: e.status_url@, sub: e.node_sub@ },
            ),
            window: self.window as nat,
        }
    }
}

impl BookKeeper {
    /// A registry without endpoints, whose subscriptions get the default window.
    pub fn new() -> (keeper: BookKeeper)
        ensures
            keeper@ == BookView::empty(DEFAULT_WINDOW as nat),
            keeper@.wf(),
    {
        let keeper = BookKeeper { subscriptions: Vec::new(), window: DEFAULT_WINDOW };
        assert(keeper@.entries =~= Seq::empty());
        keeper
    }

    /// Like [`BookKeeper::new`], with subscriptions that confirm a state
    /// after `window` agreeing outcomes. A window of zero is refused.
    pub fn with_window(window: u8) -> (made: Option<BookKeeper>)
        ensures
            made is Some <==> window >= 1,
            made matches Some(keeper) ==> keeper@ == BookView::empty(window as nat) && keeper@.wf(),
    {
        if window == 0 {
            return None;
        }
        let keeper = BookKeeper { subscriptions: Vec::new(), window };
        assert(keeper@.entries =~= Seq::empty());
        Some(keeper)
    }

    /// Where the entry of `status_url` stands, if it is monitored.
    fn find(&self, status_url: &String) -> (at: Option<usize>)
        ensures
            at is Some <==> self@.tracks(status_url@),
            at matches Some(i) ==> i < self@.entries.len() && self@.entries[i as int].url
                == status_url@,
    {
        let mut i: usize = 0;
        while i < self.subscriptions.len()
            invariant
                i <= self.subscriptions.len(),
                forall|j: int| 0 <= j < i ==> self@.entries[j].url != status_url@,
            decreases self.subscriptions.len() - i,
        {
            if self.subscriptions[i].status_url == *status_url {
                assert(self@.endpoints()[i as int] == status_url@);
                return Some(i);
            }
            i = i + 1;
        }
        None
    }

    /// Subscribes `chat_id` to `status_url`, creating the endpoint's entry
    /// on its first subscription.
    pub fn subscribe(&mut self, status_url: &String, chat_id: i64) -> (outcome: SubscribeOutcome)
        requires
            old(self)@.wf(),
        ensures
            final(self)@ == old(self)@.subscribe(status_url@, chat_id),
            final(self)@.wf(),
            outcome == (if old(self)@.is_subscribed(status_url@, chat_id) {
                SubscribeOutcome::AlreadySubscribed
            } else {
                SubscribeOutcome::Ack
            }),
    {
        match self.find(status_url) {
            Some(i) => {
                proof {
                    lemma_slot(self@, status_url@, i as int);
                }
                let added = self.subscriptions[i].node_sub.subscribe(chat_id);
                proof {
                    let after = old(self)@.subscribe(status_url@, chat_id);
                    assert(self@.entries =~= after.entries);
                    assert(self@.endpoints() =~= old(self)@.endpoints());
                }
                if added {
                    SubscribeOutcome::Ack
                } else {
                    SubscribeOutcome::AlreadySubscribed
                }
            },
            None => {
                let mut node_sub = NodeSubscription::with_window(self.window).unwrap();
                node_sub.subscribe(chat_id);
                self.subscriptions.push(Entry { status_url: status_url.clone(), node_sub });
                proof {
                    let after = old(self)@.subscribe(status_url@, chat_id);
                    assert(self@.entries =~= after.entries);
                    assert(self@.endpoints() =~= old(self)@.endpoints().push(status_url@));
                }
                SubscribeOutcome::Ack
            },
        }
    }

    /// Unsubscribes `chat_id` from `status_url`, dropping the endpoint's
    /// entry with its last subscriber.
    pub fn unsubscribe(&mut self, status_url: &String, chat_id: i64) -> (outcome:
        UnsubscribeOutcome)
        requires
            old(self)@.wf(),
        ensures
            final(self)@ == old(self)@.unsubscribe(status_url@, chat_id),
            final(self)@.wf(),
            outcome == (if old(self)@.is_subscribed(status_url@, chat_id) {
                UnsubscribeOutcome::Ack
            } else {
                UnsubscribeOutcome::NotSubscribed
            }),
    {
        match self.find(status_url) {
            Some(i) => {
                proof {
                    lemma_slot(self@, status_url@, i as int);
                }
                let removed = self.subscriptions[i].node_sub.unsubscribe(chat_id);
                let emptied = self.subscriptions[i].node_sub.subscribed_chatters().len() == 0;
                proof {
                    let rest = old(self)@.subscription(status_url@).without_subscriber(chat_id);
                    assert(self@.entries =~= old(self)@.with_subscription(status_url@, rest).entries);
                    assert(self@.endpoints() =~= old(self)@.endpoints());
                }
                if emptied {
                    self.subscriptions.remove(i);
                    proof {
                        assert(self@.entries =~= old(self)@.entries.remove(i as int));
                        assert(self@.endpoints() =~= old(self)@.endpoints().remove(i as int));
                    }
                } else if !removed {
                    assert(self@.entries =~= old(self)@.entries);
                }
                if removed {
                    UnsubscribeOutcome::Ack
                } else {
                    UnsubscribeOutcome::NotSubscribed
                }
            },
            None => UnsubscribeOutcome::NotSubscribed,
        }
    }

    /// The monitored endpoints, in the order in which they were first subscribed to.
    pub fn list_endpoints(&self) -> (urls: Vec<String>)
        ensures
            urls.deep_view() == self@.endpoints(),
    {
        let mut urls: Vec<String> = Vec::new();
        let mut i: usize = 0;
        while i < self.subscriptions.len()
            invariant
                i <= self.subscriptions.len(),
                urls.len() == i,
                forall|j: int| 0 <= j < i ==> urls@[j]@ == self@.entries[j].url,
            decreases self.subscriptions.len() - i,
        {
            urls.push(self.subscriptions[i].status_url.clone());
            i = i + 1;
        }
        urls
    }

    /// The subscription of `status_url`, if it is monitored.
    pub fn subscription(&self, status_url: &String) -> (found: Option<&NodeSubscription>)
        requires
            self@.wf(),
        ensures
            found is Some <==> self@.tracks(status_url@),
            found matches Some(sub) ==> sub@ == self@.subscription(status_url@),
    {
        match self.find(status_url) {
            Some(i) => {
                proof {
                    lemma_slot(self@, status_url@, i as int);
                }
                Some(&self.subscriptions[i].node_sub)
            },
            None => None,
        }
    }

    /// Records a probe outcome for `status_url` and evaluates its window;
    /// reports whether the confirmed state changed. An outcome for an
    /// endpoint that is not monitored is dropped.
    pub fn record_status(&mut self, status_url: &String, node_status: NodeStatus) -> (changed: bool)
        requires
            old(self)@.wf(),
        ensures
            final(self)@ == old(self)@.record(status_url@, node_status@),
            final(self)@.wf(),
            changed == old(self)@.status_changes(status_url@, node_status@),
    {
        match self.find(status_url) {
            Some(i) => {
                proof {
                    lemma_slot(self@, status_url@, i as int);
                }
                self.subscriptions[i].node_sub.add_latest_status(node_status);
                let changed = self.subscriptions[i].node_sub.status_changed();
                proof {
                    let fed = old(self)@.subscription(status_url@).feed(node_status@);
                    assert(self@.entries =~= old(self)@.with_subscription(status_url@, fed).entries);
                    assert(self@.endpoints() =~= old(self)@.endpoints());
                }
                changed
            },
            None => false,
        }
    }

    /// One notice of the confirmed state of `status_url` for each of its subscribers.
    pub fn announce(&self, status_url: &String) -> (notices: Vec<Notice>)
        requires
            self@.wf(),
        ensures
            notices@.map_values(|n: Notice| n@) == self@.announcements(status_url@),
    {
        match self.subscription(status_url) {
            Some(node_sub) => {
                let text = status_text(status_url, node_sub.current_status().is_online());
                fan_out(node_sub.subscribed_chatters(), &text)
            },
            None => Vec::new(),
        }
    }

    /// Processes one command: updates the registry and says what is to be
    /// answered, and to whom.
    pub fn handle(&mut self, message: Message) -> (reply: Reply)
        requires
            old(self)@.wf(),
        ensures
            final(self)@ == old(self)@.step(message@),
            final(self)@.wf(),
            reply@ == old(self)@.reply(message@),
    {
        match message {
            Message::Subscribe { status_url, chat_id } => {
                let outcome = self.subscribe(&status_url, chat_id);
                let text = outcome.text(&status_url);
                Reply::Subscribed { outcome, notice: Notice { chat_id, text } }
            },
            Message::Unsubscribe { status_url, chat_id } => {
                let outcome = self.unsubscribe(&status_url, chat_id);
                let text = outcome.text(&status_url);
                Reply::Unsubscribed { outcome, notice: Notice { chat_id, text } }
            },
            Message::GetNodesList => Reply::NodesList { urls: self.list_endpoints() },
            Message::NodeStatusUpdate { status_url, node_status } => {
                let changed = self.record_status(&status_url, node_status);
                let notices = if changed {
                    self.announce(&status_url)
                } else {
                    Vec::new()
                };
                assert(!changed ==> notices@.map_values(|n: Notice| n@) =~= Seq::empty());
                Reply::StatusRecorded { changed, notices }
            },
        }
    }
}

/// In a registry that lists no endpoint twice, an entry is found where it stands.
pub proof fn lemma_slot(book: BookView, url: Seq<char>, i: int)
    requires
        book.endpoints().no_duplicates(),
        0 <= i < book.entries.len(),
        book.entries[i].url == url,
    ensures
        book.tracks(url),
        book.slot(url) == i,
        book.subscription(url) == book.entries[i].sub,
{
    assert(book.endpoints()[i] == url);
}

/// Replacing the subscription of a monitored endpoint touches that entry
/// alone: the endpoints and every other subscription stay.
pub proof fn lemma_with_subscription(book: BookView, url: Seq<char>, sub: SubscriptionView)
    requires
        book.endpoints().no_duplicates(),
        book.tracks(url),
    ensures
        book.with_subscription(url, sub).endpoints() == book.endpoints(),
        book.with_subscription(url, sub).window == book.window,
        book.with_subscription(url, sub).subscription(url) == sub,
        forall|other: Seq<char>|
            other != url && book.tracks(other) ==> #[trigger] book.with_subscription(
                url,
                sub,
            ).subscription(other) == book.subscription(other),
        forall|other: Seq<char>|
            other != url ==> #[trigger] book.with_subscription(url, sub).subscribers_of(other)
                == book.subscribers_of(other),
        forall|i: int|
            0 <= i < book.entries.len() && i != book.slot(url) ==> #[trigger] book.with_subscription(
                url,
                sub,
            ).entries[i] == book.entries[i],
{
    assert(book.with_subscription(url, sub).endpoints() =~= book.endpoints());
}

/// The registry's invariant survives every message: afterwards no endpoint
/// is listed twice and none is left without a subscriber.
pub proof fn lemma_step_preserves_wf(book: BookView, message: MessageView)
    requires
        book.wf(),
    ensures
        book.step(message).wf(),
        book.step(message).window == book.window,
{
    let after = book.step(message);
    match message {
        MessageView::Subscribe { status_url, chat_id } => {
            if book.tracks(status_url) {
                let joined = book.subscription(status_url).with_subscriber(chat_id);
                lemma_with_subscription(book, status_url, joined);
                assert(book.entries[book.slot(status_url)].sub.wf());
            } else {
                assert(after.endpoints() =~= book.endpoints().push(status_url));
            }
        },
        MessageView::Unsubscribe { status_url, chat_id } => {
            if book.is_subscribed(status_url, chat_id) {
                let i = book.slot(status_url);
                let rest = book.subscription(status_url).without_subscriber(chat_id);
                if rest.subscribers.len() == 0 {
                    assert(after.endpoints() =~= book.endpoints().remove(i));
                } else {
                    lemma_with_subscription(book, status_url, rest);
                }
            }
        },
        MessageView::GetNodesList => {},
        MessageView::NodeStatusUpdate { status_url, node_status } => {
            if book.tracks(status_url) {
                let fed = book.subscription(status_url).feed(node_status);
                lemma_with_subscription(book, status_url, fed);
            }
        },
    }
}

/// What one message does to one subscription: a subscribe of `chat_id` to
/// `url` makes it hold, an unsubscribe of `chat_id` from `url` ends it, and
/// every other message leaves it as it was.
pub proof fn lemma_step_membership(
    book: BookView,
    message: MessageView,
    url: Seq<char>,
    chat_id: i64,
)
    requires
        book.wf(),
    ensures
        book.step(message).is_subscribed(url, chat_id) == (match message {
            MessageView::Subscribe { status_url, chat_id: who } if status_url == url && who
                == chat_id => true,
            MessageView::Unsubscribe { status_url, chat_id: who } if status_url == url && who
                == chat_id => false,
            _ => book.is_subscribed(url, chat_id),
        }),
{
    let after = book.step(message);
    match message {
        MessageView::Subscribe { status_url, chat_id: who } => {
            if book.tracks(status_url) {
                let subs = book.subscription(status_url).subscribers;
                let joined = book.subscription(status_url).with_subscriber(who);
                lemma_with_subscription(book, status_url, joined);
                if !subs.contains(who) {
                    assert(joined.subscribers.last() == who);
                    assert forall|c: i64| c != who implies joined.subscribers.contains(c)
                        == subs.contains(c) by {
                        if joined.subscribers.contains(c) {
                            let k = joined.subscribers.index_of(c);
                            assert(subs[k] == c);
                        }
                        if subs.contains(c) {
                            let k = subs.index_of(c);
                            assert(joined.subscribers[k] == c);
                        }
                    }
                }
            } else {
                assert(after.endpoints() =~= book.endpoints().push(status_url));
                let n = book.entries.len() as int;
                let fresh = SubscriptionView::fresh(book.window).with_subscriber(who);
                lemma_step_preserves_wf(book, message);
                lemma_slot(after, status_url, n);
                if url == status_url {
                    assert(fresh.subscribers[0] == who);
                } else if book.tracks(url) {
                    lemma_slot(after, url, book.slot(url));
                } else if after.tracks(url) {
                    assert(book.endpoints()[after.slot(url)] == url);
                }
            }
        },
        MessageView::Unsubscribe { status_url, chat_id: who } => {
            if book.is_subscribed(status_url, who) {
                let i = book.slot(status_url);
                let subs = book.subscription(status_url).subscribers;
                let rest = book.subscription(status_url).without_subscriber(who);
                let k = subs.index_of(who);
                assert(book.entries[i].sub.wf());
                assert forall|c: i64| rest.subscribers.contains(c) == (subs.contains(c) && c
                    != who) by {
                    if rest.subscribers.contains(c) {
                        let r = rest.subscribers.index_of(c);
                        assert(subs[if r < k { r } else { r + 1 }] == c);
                    }
                    if subs.contains(c) && c != who {
                        let r = subs.index_of(c);
                        if r < k {
                            assert(rest.subscribers[r] == c);
                        } else {
                            assert(rest.subscribers[r - 1] == c);
                        }
                    }
                }
                if rest.subscribers.len() == 0 {
                    assert(after.endpoints() =~= book.endpoints().remove(i));
                    lemma_step_preserves_wf(book, message);
                    if after.tracks(url) {
                        let j = after.slot(url);
                        assert(book.endpoints()[if j < i { j } else { j + 1 }] == url);
                    }
                    if url != status_url && book.tracks(url) {
                        let j = book.slot(url);
                        lemma_slot(after, url, if j < i { j } else { j - 1 });
                    }
                } else {
                    lemma_with_subscription(book, status_url, rest);
                }
            }
        },
        MessageView::GetNodesList => {},
        MessageView::NodeStatusUpdate { status_url, node_status } => {
            if book.tracks(status_url) {
                let fed = book.subscription(status_url).feed(node_status);
                lemma_with_subscription(book, status_url, fed);
            }
        },
    }
}

/// After any sequence of messages, the subscribers of an endpoint are
/// exactly the chats with a positive net number of subscriptions to it, and
/// none of them is listed twice.
pub proof fn lemma_subscribers_after_messages(
    book: BookView,
    messages: Seq<MessageView>,
    url: Seq<char>,
    chat_id: i64,
)
    requires
        book.wf(),
    ensures
        book.run(messages).wf(),
        book.run(messages).is_subscribed(url, chat_id) <==> net_subscriptions(
            if book.is_subscribed(url, chat_id) {
                1
            } else {
                0
            },
            messages,
            url,
            chat_id,
        ) > 0,
        book.run(messages).subscribers_of(url).no_duplicates(),
    decreases messages.len(),
{
    if messages.len() > 0 {
        let before = book.run(messages.drop_last());
        lemma_subscribers_after_messages(book, messages.drop_last(), url, chat_id);
        lemma_step_preserves_wf(before, messages.last());
        lemma_step_membership(before, messages.last(), url, chat_id);
    }
}

/// The answers keep the books: a chat is subscribed to an endpoint exactly
/// when its acknowledged subscribes outnumber its acknowledged unsubscribes,
/// and they never do so by more than one.
pub proof fn lemma_acknowledged_requests_balance(
    book: BookView,
    messages: Seq<MessageView>,
    url: Seq<char>,
    chat_id: i64,
)
    requires
        book.wf(),
    ensures
        (if book.run(messages).is_subscribed(url, chat_id) {
            1int
        } else {
            0int
        }) == (if book.is_subscribed(url, chat_id) {
            1int
        } else {
            0int
        }) + acknowledged(book, messages, url, chat_id),
    decreases messages.len(),
{
    if messages.len() > 0 {
        let earlier = messages.drop_last();
        lemma_acknowledged_requests_balance(book, earlier, url, chat_id);
        lemma_subscribers_after_messages(book, earlier, url, chat_id);
        lemma_step_membership(book.run(earlier), messages.last(), url, chat_id);
    }
}

/// Subscribing twice is subscribing once, and unsubscribing twice is
/// unsubscribing once: the second request changes nothing.
pub proof fn lemma_requests_are_idempotent(book: BookView, url: Seq<char>, chat_id: i64)
    requires
        book.wf(),
    ensures
        book.subscribe(url, chat_id).is_subscribed(url, chat_id),
        book.subscribe(url, chat_id).subscribe(url, chat_id) == book.subscribe(url, chat_id),
        !book.unsubscribe(url, chat_id).is_subscribed(url, chat_id),
        book.unsubscribe(url, chat_id).unsubscribe(url, chat_id) == book.unsubscribe(url, chat_id),
{
    let subscribe = MessageView::Subscribe { status_url: url, chat_id };
    let unsubscribe = MessageView::Unsubscribe { status_url: url, chat_id };
    lemma_step_membership(book, subscribe, url, chat_id);
    lemma_step_membership(book, unsubscribe, url, chat_id);
    let joined = book.subscribe(url, chat_id);
    lemma_step_preserves_wf(book, subscribe);
    assert(joined.with_subscription(url, joined.subscription(url)).entries =~= joined.entries);
}

/// An endpoint is listed exactly while somebody is subscribed to it.
pub proof fn lemma_listed_iff_subscribed(book: BookView, url: Seq<char>)
    requires
        book.wf(),
    ensures
        book.endpoints().contains(url) <==> book.subscribers_of(url).len() > 0,
{
    if book.tracks(url) {
        assert(book.entries[book.slot(url)].sub.subscribers.len() > 0);
    }
}

/// Unsubscribing the last subscriber of an endpoint takes the endpoint off
/// the list; unsubscribing one of several leaves it there.
pub proof fn lemma_last_unsubscribe_prunes(book: BookView, url: Seq<char>, chat_id: i64)
    requires
        book.wf(),
        book.is_subscribed(url, chat_id),
    ensures
        book.subscribers_of(url).len() == 1 ==> !book.unsubscribe(url, chat_id).endpoints().contains(
            url,
        ),
        book.subscribers_of(url).len() > 1 ==> book.unsubscribe(url, chat_id).endpoints()
            == book.endpoints(),
{
    let unsubscribe = MessageView::Unsubscribe { status_url: url, chat_id };
    let after = book.unsubscribe(url, chat_id);
    let i = book.slot(url);
    let rest = book.subscription(url).without_subscriber(chat_id);
    assert(book.entries[i].sub.wf());
    if book.subscribers_of(url).len() == 1 {
        assert(after.endpoints() =~= book.endpoints().remove(i));
        if after.endpoints().contains(url) {
            let j = after.endpoints().index_of(url);
            assert(book.endpoints()[if j < i { j } else { j + 1 }] == url);
        }
    } else {
        lemma_with_subscription(book, url, rest);
    }
}

/// A confirmed change is announced to every subscriber of the endpoint, once
/// each and in the words for the new state, and to nobody else.
pub proof fn lemma_change_is_announced_to_subscribers(
    book: BookView,
    url: Seq<char>,
    outcome: StatusView,
)
    requires
        book.wf(),
        book.status_changes(url, outcome),
    ensures
        book.reply(
            MessageView::NodeStatusUpdate { status_url: url, node_status: outcome },
        ) matches ReplyView::StatusRecorded { changed, notices } && changed && notices.len()
            == book.subscribers_of(url).len() && forall|i: int|
            0 <= i < notices.len() ==> (#[trigger] notices[i]).chat_id == book.subscribers_of(
                url,
            )[i] && notices[i].text == spec_status_text(url, outcome.is_online()),
        book.record(url, outcome).subscription(url).current == outcome,
        book.record(url, outcome).subscription(url).previous == book.subscription(url).current,
{
    let pushed = book.subscription(url).push(outcome);
    let fed = book.subscription(url).feed(outcome);
    crate::status::lemma_transition_rule(pushed);
    lemma_with_subscription(book, url, fed);
}

} // verus!
