//! Probe outcomes and the per-endpoint debounce state machine.

use vstd::prelude::*;

verus! {

/// What a reachable node reports about itself.
#[derive(Debug)]
pub struct NodeStatusDetails {
    pub api_version: String,
    pub chainspec_name: String,
    pub our_public_signing_key: String,
}

/// Mathematical value of a [`NodeStatusDetails`].
pub struct DetailsView {
    pub api_version: Seq<char>,
    pub chainspec_name: Seq<char>,
    pub our_public_signing_key: Seq<char>,
}

impl View for NodeStatusDetails {
    type V = DetailsView;

    open spec fn view(&self) -> DetailsView {
        DetailsView {
            api_version: self.api_version@,
            chainspec_name: self.chainspec_name@,
            our_public_signing_key: self.our_public_signing_key@,
        }
    }
}

impl Clone for NodeStatusDetails {
    fn clone(&self) -> (res: Self)
        ensures
            res == *self,
    {
        NodeStatusDetails {
            api_version: self.api_version.clone(),
            chainspec_name: self.chainspec_name.clone(),
            our_public_signing_key: self.our_public_signing_key.clone(),
        }
    }
}

impl PartialEq for NodeStatusDetails {
    fn eq(&self, other: &Self) -> (res: bool) {
        self.api_version == other.api_version && self.chainspec_name == other.chainspec_name
            && self.our_public_signing_key == other.our_public_signing_key
    }
}

impl vstd::std_specs::cmp::PartialEqSpecImpl for NodeStatusDetails {
    open spec fn obeys_eq_spec() -> bool {
        true
    }

    open spec fn eq_spec(&self, other: &Self) -> bool {
        self@ == other@
    }
}

/// Outcome of one health probe.
#[derive(Debug)]
pub enum NodeStatus {
    Online(NodeStatusDetails),
    Offline,
}

/// Mathematical value of a [`NodeStatus`].
pub enum StatusView {
    Online(DetailsView),
    Offline,
}

impl View for NodeStatus {
    type V = StatusView;

    open spec fn view(&self) -> StatusView {
        match self {
            NodeStatus::Online(details) => StatusView::Online(details@),
            NodeStatus::Offline => StatusView::Offline,
        }
    }
}

impl Clone for NodeStatus {
    fn clone(&self) -> (res: Self)
        ensures
            res == *self,
    {
        match self {
            NodeStatus::Online(details) => NodeStatus::Online(details.clone()),
            NodeStatus::Offline => NodeStatus::Offline,
        }
    }
}

impl PartialEq for NodeStatus {
    fn eq(&self, other: &Self) -> (res: bool) {
        match (self, other) {
            (NodeStatus::Online(a), NodeStatus::Online(b)) => a == b,
            (NodeStatus::Offline, NodeStatus::Offline) => true,
            _ => false,
        }
    }
}

impl vstd::std_specs::cmp::PartialEqSpecImpl for NodeStatus {
    open spec fn obeys_eq_spec() -> bool {
        true
    }

    open spec fn eq_spec(&self, other: &Self) -> bool {
        self@ == other@
    }
}

impl Default for NodeStatus {
    fn default() -> (res: NodeStatus)
        ensures
            res == NodeStatus::Offline,
    {
        NodeStatus::Offline
    }
}

impl NodeStatus {
    /// Whether this outcome counts towards the online class.
    pub fn is_online(&self) -> (online: bool)
        ensures
            online == self@.is_online(),
    {
        match self {
            NodeStatus::Online(_) => true,
            NodeStatus::Offline => false,
        }
    }
}

impl StatusView {
    /// The class of an outcome: online when reachable, offline otherwise.
    pub open spec fn is_online(self) -> bool {
        self is Online
    }
}

/// Number of consecutive agreeing outcomes a subscription asks for unless told otherwise.
pub const DEFAULT_WINDOW: u8 = 5;

/// How many outcomes of `history` are online.
pub open spec fn online_count(history: Seq<StatusView>) -> nat
    decreases history.len(),
{
    if history.len() == 0 {
        0
    } else {
        online_count(history.drop_last()) + if history.last().is_online() {
            1nat
        } else {
            0nat
        }
    }
}

/// Every outcome of `history` is online.
pub open spec fn all_online(history: Seq<StatusView>) -> bool {
    forall|i: int| 0 <= i < history.len() ==> (#[trigger] history[i]).is_online()
}

/// Every outcome of `history` is offline.
pub open spec fn all_offline(history: Seq<StatusView>) -> bool {
    forall|i: int| 0 <= i < history.len() ==> !(#[trigger] history[i]).is_online()
}

/// The online count never exceeds the length, and reaches it (or zero)
/// exactly when the outcomes agree.
pub proof fn lemma_online_count(history: Seq<StatusView>)
    ensures
        online_count(history) <= history.len(),
        online_count(history) == history.len() <==> all_online(history),
        online_count(history) == 0 <==> all_offline(history),
    decreases history.len(),
{
    if history.len() > 0 {
        let front = history.drop_last();
        lemma_online_count(front);
        assert forall|i: int| 0 <= i < front.len() implies front[i] == history[i] by {}
        if online_count(history) == history.len() {
            assert(all_online(front) && history.last().is_online());
        }
        if online_count(history) == 0 {
            assert(all_offline(front) && !history.last().is_online());
        }
    }
}

/// Mathematical value of a [`NodeSubscription`].
pub struct SubscriptionView {
    /// The subscribed chats, in the order in which they subscribed.
    pub subscribers: Seq<i64>,
    /// The confirmed state.
    pub current: StatusView,
    /// The confirmed state before the last transition.
    pub previous: StatusView,
    /// The most recent outcomes, oldest first.
    pub history: Seq<StatusView>,
    /// How many agreeing outcomes confirm a state.
    pub window: nat,
}

impl SubscriptionView {
    /// The invariant of a subscription: a window of at least one outcome,
    /// a history that fits in it, and no chat listed twice.
    pub open spec fn wf(self) -> bool {
        &&& 1 <= self.window <= u8::MAX
        &&& self.history.len() <= self.window
        &&& self.subscribers.no_duplicates()
    }

    /// A subscription nobody has joined and nothing was recorded for: offline, empty history.
    pub open spec fn fresh(window: nat) -> Self {
        SubscriptionView {
            subscribers: Seq::empty(),
            current: StatusView::Offline,
            previous: StatusView::Offline,
            history: Seq::empty(),
            window,
        }
    }

    /// The subscription after `outcome` was recorded: appended, and the
    /// oldest outcome dropped once the history outgrows the window.
    pub open spec fn push(self, outcome: StatusView) -> Self {
        let appended = self.history.push(outcome);
        SubscriptionView {
            history: if appended.len() > self.window {
                appended.drop_first()
            } else {
                appended
            },
            ..self
        }
    }

    /// The class that a full window agrees on: `Some(true)` for online,
    /// `Some(false)` for offline, `None` while the window is not full or mixed.
    pub open spec fn consensus(self) -> Option<bool> {
        if self.history.len() != self.window || self.history.len() == 0 {
            None
        } else if all_online(self.history) {
            Some(true)
        } else if all_offline(self.history) {
            Some(false)
        } else {
            None
        }
    }

    /// A transition is due when the window is unanimous and its class is not
    /// the class of the confirmed state.
    pub open spec fn transition_due(self) -> bool {
        self.consensus() matches Some(online) && online != self.current.is_online()
    }

    /// The subscription after a due transition was taken; unchanged when none is due.
    pub open spec fn settle(self) -> Self {
        if self.transition_due() {
            SubscriptionView { previous: self.current, current: self.history.last(), ..self }
        } else {
            self
        }
    }

    /// One debounce step: record `outcome`, then evaluate the window.
    pub open spec fn feed(self, outcome: StatusView) -> Self {
        self.push(outcome).settle()
    }

    /// The subscription after a debounce step for each of `outcomes`, first to last.
    pub open spec fn feed_all(self, outcomes: Seq<StatusView>) -> Self
        decreases outcomes.len(),
    {
        if outcomes.len() == 0 {
            self
        } else {
            self.feed_all(outcomes.drop_last()).feed(outcomes.last())
        }
    }

    /// The subscription with `chat_id` among its subscribers.
    pub open spec fn with_subscriber(self, chat_id: i64) -> Self {
        if self.subscribers.contains(chat_id) {
            self
        } else {
            SubscriptionView { subscribers: self.subscribers.push(chat_id), ..self }
        }
    }

    /// The subscription with `chat_id` not among its subscribers.
    pub open spec fn without_subscriber(self, chat_id: i64) -> Self {
        if self.subscribers.contains(chat_id) {
            SubscriptionView {
                subscribers: self.subscribers.remove(self.subscribers.index_of(chat_id)),
                ..self
            }
        } else {
            self
        }
    }
}

/// All outcomes of `history` are of one class.
pub open spec fn unanimous(history: Seq<StatusView>) -> bool {
    forall|i: int, j: int|
        0 <= i < history.len() && 0 <= j < history.len() ==> (#[trigger] history[i]).is_online()
            == (#[trigger] history[j]).is_online()
}

/// The newest `n` of `outcomes`: all of them where there are no more than `n`.
pub open spec fn newest(outcomes: Seq<StatusView>, n: nat) -> Seq<StatusView> {
    if outcomes.len() <= n {
        outcomes
    } else {
        outcomes.subrange(outcomes.len() - n, outcomes.len() as int)
    }
}

/// Bounded window: whatever outcomes are fed, and however many, the history
/// never outgrows the window. It holds exactly the newest outcomes, oldest
/// first, and neither the window nor the subscribers are touched.
pub proof fn lemma_history_is_bounded_window(sub: SubscriptionView, outcomes: Seq<StatusView>)
    requires
        sub.wf(),
    ensures
        sub.feed_all(outcomes).wf(),
        sub.feed_all(outcomes).history.len() <= sub.window,
        sub.feed_all(outcomes).history == newest(sub.history + outcomes, sub.window),
        sub.feed_all(outcomes).window == sub.window,
        sub.feed_all(outcomes).subscribers == sub.subscribers,
    decreases outcomes.len(),
{
    if outcomes.len() > 0 {
        let front = outcomes.drop_last();
        lemma_history_is_bounded_window(sub, front);
        assert(sub.history + outcomes =~= (sub.history + front).push(outcomes.last()));
    }
}

/// A subscription with the default window never holds more than five outcomes.
pub proof fn lemma_default_history_holds_five(outcomes: Seq<StatusView>)
    ensures
        SubscriptionView::fresh(DEFAULT_WINDOW as nat).feed_all(outcomes).history.len() <= 5,
{
    lemma_history_is_bounded_window(SubscriptionView::fresh(DEFAULT_WINDOW as nat), outcomes);
}

/// The transition rule: a transition is due if and only if the window is
/// full, its outcomes are unanimous, and their class differs from the class
/// of the confirmed state. A mixed window, a window that is not full, and a
/// unanimous window of the confirmed class all leave the subscription as it is.
pub proof fn lemma_transition_rule(sub: SubscriptionView)
    requires
        sub.wf(),
    ensures
        sub.transition_due() <==> (sub.history.len() == sub.window && unanimous(sub.history)
            && sub.history.last().is_online() != sub.current.is_online()),
        !sub.transition_due() ==> sub.settle() == sub,
        sub.transition_due() ==> sub.settle().current == sub.history.last()
            && sub.settle().previous == sub.current,
        sub.settle().history == sub.history,
        sub.settle().wf(),
{
    let h = sub.history;
    if h.len() == sub.window && unanimous(h) {
        if h.last().is_online() {
            assert(all_online(h));
        } else {
            assert(all_offline(h));
        }
    }
}

/// A change is reported once: right after a transition was taken, no
/// transition is due.
pub proof fn lemma_transition_reported_once(sub: SubscriptionView)
    requires
        sub.wf(),
    ensures
        !sub.settle().transition_due(),
        sub.settle().settle() == sub.settle(),
{
    lemma_transition_rule(sub);
    lemma_transition_rule(sub.settle());
}

/// Steady state: while the outcomes keep the class of the confirmed state,
/// no transition is due.
pub proof fn lemma_steady_state(sub: SubscriptionView, outcome: StatusView)
    requires
        sub.wf(),
        outcome.is_online() == sub.current.is_online(),
    ensures
        !sub.push(outcome).transition_due(),
        sub.feed(outcome).current == sub.current,
        sub.feed(outcome).previous == sub.previous,
{
    lemma_transition_rule(sub.push(outcome));
}

/// Flap suppression: an outcome whose class differs from that of the outcome
/// before it cannot complete a unanimous window of two or more.
pub proof fn lemma_flap_is_suppressed(sub: SubscriptionView, outcome: StatusView)
    requires
        sub.wf(),
        sub.window >= 2,
        sub.history.len() >= 1,
        outcome.is_online() != sub.history.last().is_online(),
    ensures
        !sub.push(outcome).transition_due(),
        sub.feed(outcome).current == sub.current,
        sub.feed(outcome).previous == sub.previous,
{
    let pushed = sub.push(outcome);
    let h = pushed.history;
    lemma_transition_rule(pushed);
    if h.len() == sub.window {
        assert(h[h.len() - 2] == sub.history.last() && h.last() == outcome);
    }
}

/// The subscribers and the debounce state of one monitored endpoint.
#[derive(Debug)]
pub struct NodeSubscription {
    subscribed_chatters: Vec<i64>,
    current_status: NodeStatus,
    previous_status: NodeStatus,
    status_history: Vec<NodeStatus>,
    window: u8,
}

impl View for NodeSubscription {
    type V = SubscriptionView;

    closed spec fn view(&self) -> SubscriptionView {
        SubscriptionView {
            subscribers: self.subscribed_chatters@,
            current: self.current_status@,
            previous: self.previous_status@,
            history: self.status_history@.map_values(|s: NodeStatus| s@),
            window: self.window as nat,
        }
    }
}

impl NodeSubscription {
    /// A subscription with no subscribers, confirmed offline, with an empty
    /// history and the default window.
    pub fn new() -> (sub: NodeSubscription)
        ensures
            sub@ == SubscriptionView::fresh(DEFAULT_WINDOW as nat),
            sub@.wf(),
    {
        let sub = NodeSubscription {
            subscribed_chatters: Vec::new(),
            current_status: NodeStatus::Offline,
            previous_status: NodeStatus::Offline,
            status_history: Vec::new(),
            window: DEFAULT_WINDOW,
        };
        assert(sub@.history =~= Seq::empty());
        sub
    }

    /// Like [`NodeSubscription::new`], with a window of `window` outcomes.
    /// A window of zero outcomes could confirm nothing and is refused.
    pub fn with_window(window: u8) -> (made: Option<NodeSubscription>)
        ensures
            made is Some <==> window >= 1,
            made matches Some(sub) ==> sub@ == SubscriptionView::fresh(window as nat) && sub@.wf(),
    {
        if window == 0 {
            return None;
        }
        let sub = NodeSubscription {
            subscribed_chatters: Vec::new(),
            current_status: NodeStatus::Offline,
            previous_status: NodeStatus::Offline,
            status_history: Vec::new(),
            window,
        };
        assert(sub@.history =~= Seq::empty());
        Some(sub)
    }

    /// The subscribed chats, in the order in which they subscribed.
    pub fn subscribed_chatters(&self) -> (chatters: &Vec<i64>)
        ensures
            chatters@ == self@.subscribers,
    {
        &self.subscribed_chatters
    }

    /// The confirmed state.
    pub fn current_status(&self) -> (status: &NodeStatus)
        ensures
            status@ == self@.current,
    {
        &self.current_status
    }

    /// The confirmed state before the last transition.
    pub fn previous_status(&self) -> (status: &NodeStatus)
        ensures
            status@ == self@.previous,
    {
        &self.previous_status
    }

    /// The recorded outcomes, oldest first.
    pub fn status_history(&self) -> (history: &Vec<NodeStatus>)
        ensures
            history@.map_values(|s: NodeStatus| s@) == self@.history,
    {
        &self.status_history
    }

    /// How many agreeing outcomes confirm a state.
    pub fn window(&self) -> (window: u8)
        ensures
            window == self@.window,
    {
        self.window
    }

    /// Whether `chat_id` is among the subscribers.
    pub fn is_subscribed(&self, chat_id: i64) -> (found: bool)
        ensures
            found == self@.subscribers.contains(chat_id),
    {
        self.position(chat_id).is_some()
    }

    /// Where `chat_id` first stands among the subscribers, if anywhere.
    fn position(&self, chat_id: i64) -> (at: Option<usize>)
        ensures
            at is Some <==> self@.subscribers.contains(chat_id),
            at matches Some(i) ==> i < self@.subscribers.len() && self@.subscribers[i as int]
                == chat_id,
    {
        let mut i: usize = 0;
        while i < self.subscribed_chatters.len()
            invariant
                i <= self.subscribed_chatters.len(),
                forall|j: int| 0 <= j < i ==> self.subscribed_chatters@[j] != chat_id,
            decreases self.subscribed_chatters.len() - i,
        {
            if self.subscribed_chatters[i] == chat_id {
                return Some(i);
            }
            i = i + 1;
        }
        None
    }

    /// Adds `chat_id` to the subscribers unless it is there already, and
    /// reports whether it was added.
    pub fn subscribe(&mut self, chat_id: i64) -> (added: bool)
        ensures
            added == !old(self)@.subscribers.contains(chat_id),
            final(self)@ == old(self)@.with_subscriber(chat_id),
            old(self)@.wf() ==> final(self)@.wf(),
    {
        if self.is_subscribed(chat_id) {
            false
        } else {
            self.subscribed_chatters.push(chat_id);
            true
        }
    }

    /// Takes `chat_id` out of the subscribers if it is there, and reports
    /// whether it was.
    pub fn unsubscribe(&mut self, chat_id: i64) -> (removed: bool)
        requires
            old(self)@.wf(),
        ensures
            removed == old(self)@.subscribers.contains(chat_id),
            final(self)@ == old(self)@.without_subscriber(chat_id),
            final(self)@.wf(),
    {
        match self.position(chat_id) {
            Some(chatter_to_remove) => {
                self.subscribed_chatters.remove(chatter_to_remove);
                true
            },
            None => false,
        }
    }

    /// Records the latest probe outcome, keeping only the most recent
    /// `window` outcomes.
    pub fn add_latest_status(&mut self, latest: NodeStatus)
        ensures
            final(self)@ == old(self)@.push(latest@),
            old(self)@.wf() ==> final(self)@.wf(),
    {
        self.status_history.push(latest);
        assert(self@.history =~= old(self)@.history.push(latest@));
        if self.status_history.len() > self.window as usize {
            self.status_history.remove(0);
            assert(self@.history =~= old(self)@.history.push(latest@).drop_first());
        }
    }

    /// Counts the online and the offline outcomes of the history, in that order.
    pub fn count_status_history(&self) -> (counts: (u8, u8))
        requires
            self@.wf(),
        ensures
            counts.0 == online_count(self@.history),
            counts.0 + counts.1 == self@.history.len(),
    {
        let mut online: u8 = 0;
        let mut offline: u8 = 0;
        let mut i: usize = 0;
        while i < self.status_history.len()
            invariant
                self@.wf(),
                i <= self.status_history.len(),
                online == online_count(self@.history.take(i as int)),
                online + offline == i,
            decreases self.status_history.len() - i,
        {
            proof {
                let next = self@.history.take(i + 1);
                assert(next.drop_last() =~= self@.history.take(i as int));
            }
            match &self.status_history[i] {
                NodeStatus::Online(_) => {
                    online = online + 1;
                },
                NodeStatus::Offline => {
                    offline = offline + 1;
                },
            }
            i = i + 1;
        }
        assert(self@.history.take(i as int) =~= self@.history);
        (online, offline)
    }

    /// Evaluates the window once: reports whether the confirmed state
    /// changes, and if so moves the old state to `previous` and makes the
    /// latest outcome the confirmed one.
    pub fn status_changed(&mut self) -> (changed: bool)
        requires
            old(self)@.wf(),
        ensures
            changed == old(self)@.transition_due(),
            changed <==> (old(self)@.history.len() == old(self)@.window && unanimous(
                old(self)@.history,
            ) && old(self)@.history.last().is_online() != old(self)@.current.is_online()),
            final(self)@ == old(self)@.settle(),
            final(self)@.wf(),
    {
        proof {
            lemma_transition_rule(self@);
        }
        let len = self.status_history.len();
        if len == 0 {
            return false;
        }
        let latest_status = self.status_history[len - 1].clone();
        let (online_count, offline_count) = self.count_status_history();
        proof {
            lemma_online_count(self@.history);
        }
        if online_count == self.window && offline_count == 0 {
            match (&latest_status, &self.current_status) {
                (NodeStatus::Online(_), NodeStatus::Offline) => {
                    self.previous_status = self.current_status.clone();
                    self.current_status = latest_status;
                    true
                },
                _ => false,
            }
        } else if online_count == 0 && offline_count == self.window {
            match (&latest_status, &self.current_status) {
                (NodeStatus::Offline, NodeStatus::Online(_)) => {
                    self.previous_status = self.current_status.clone();
                    self.current_status = latest_status;
                    true
                },
                _ => false,
            }
        } else {
            false
        }
    }
}

impl Default for NodeSubscription {
    fn default() -> (sub: NodeSubscription)
        ensures
            sub@ == SubscriptionView::fresh(DEFAULT_WINDOW as nat),
            sub@.wf(),
    {
        NodeSubscription::new()
    }
}

} // verus!
