//! The polling policy and the path of a probe result into the mailbox.

use crate::book_keeping::{Message, MessageView};
use crate::status::{DetailsView, NodeStatus, NodeStatusDetails, StatusView, DEFAULT_WINDOW};
use vstd::prelude::*;

verus! {

/// Seconds between two rounds of probes unless told otherwise.
pub const DEFAULT_POLL_INTERVAL_SECS: u64 = 10;

/// How often the endpoints are probed and how many agreeing outcomes
/// confirm a state.
#[derive(Debug, Clone, Copy, PartialEq, Eq, Structural)]
pub struct PollPolicy {
    pub interval_secs: u64,
    pub window: u8,
}

impl Default for PollPolicy {
    fn default() -> (policy: PollPolicy)
        ensures
            policy.interval_secs == DEFAULT_POLL_INTERVAL_SECS,
            policy.window == DEFAULT_WINDOW,
    {
        PollPolicy { interval_secs: DEFAULT_POLL_INTERVAL_SECS, window: DEFAULT_WINDOW }
    }
}

impl PollPolicy {
    /// The default policy with the given values in place of its own. A
    /// window of zero outcomes could confirm nothing and is refused.
    pub fn with_overrides(interval_secs: Option<u64>, window: Option<u8>) -> (made: Option<
        PollPolicy,
    >)
        ensures
            made is Some <==> window != Some(0u8),
            made matches Some(policy) ==> policy.interval_secs == (match interval_secs {
                Some(secs) => secs,
                None => DEFAULT_POLL_INTERVAL_SECS,
            }) && policy.window == (match window {
                Some(outcomes) => outcomes,
                None => DEFAULT_WINDOW,
            }),
    {
        let interval_secs = match interval_secs {
            Some(secs) => secs,
            None => DEFAULT_POLL_INTERVAL_SECS,
        };
        let window = match window {
            Some(outcomes) => outcomes,
            None => DEFAULT_WINDOW,
        };
        if window == 0 {
            None
        } else {
            Some(PollPolicy { interval_secs, window })
        }
    }
}

/// The mathematical value of what a probe brought back, if anything.
pub open spec fn probe_view(probe: Option<NodeStatusDetails>) -> Option<DetailsView> {
    match probe {
        Some(details) => Some(details@),
        None => None,
    }
}

/// The outcome that a probe stands for: online with the details that came
/// back, offline where none did.
pub open spec fn spec_classify(probe: Option<DetailsView>) -> StatusView {
    match probe {
        Some(details) => StatusView::Online(details),
        None => StatusView::Offline,
    }
}

/// Folds the result of one probe into an outcome: whatever kept the details
/// from arriving, the node counts as offline.
pub fn classify(probe: Option<NodeStatusDetails>) -> (status: NodeStatus)
    ensures
        status@ == spec_classify(probe_view(probe)),
{
    match probe {
        Some(details) => NodeStatus::Online(details),
        None => NodeStatus::Offline,
    }
}

/// The message that reports the result of probing `status_url`.
pub fn status_update(status_url: String, probe: Option<NodeStatusDetails>) -> (message: Message)
    ensures
        message@ == (MessageView::NodeStatusUpdate {
            status_url: status_url@,
            node_status: spec_classify(probe_view(probe)),
        }),
{
    Message::NodeStatusUpdate { status_url, node_status: classify(probe) }
}

} // verus!
