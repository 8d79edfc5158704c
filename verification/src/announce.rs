//! The announce manager: keeps a stream to the scheduler open, asks it for the children of this
//! peer, and reconnects with a growing delay where the stream breaks.
use vstd::prelude::*;

use crate::types::Peer;
#[allow(unused_imports)]
use crate::types::PeerView;

verus! {

/// The delay before the first attempt to reconnect, in seconds.
pub const MIN_BACKOFF: u64 = 1;

/// The longest delay before an attempt to reconnect, in seconds.
pub const MAX_BACKOFF: u64 = 30;

/// How often the scheduler is asked for the children, in seconds.
pub const REQUEST_INTERVAL: u64 = 1;

/// Asks for the children of a peer.
#[derive(Debug, PartialEq, Eq)]
pub struct GetChildPeerRequest {
    pub description: Option<String>,
}

/// What a peer sends to the scheduler on the stream: who it is, and what it asks for.
#[derive(Debug, PartialEq, Eq)]
pub struct AnnounceRequest {
    pub host_id: String,
    pub task_id: String,
    pub peer_id: String,
    pub request: GetChildPeerRequest,
}

/// What the scheduler answers on the stream.
#[derive(Debug, PartialEq, Eq)]
pub enum AnnounceResponse {
    /// The peers that are to be the children from now on.
    NormalTask(Vec<Peer>),
    /// Any other response.
    Other,
}

/// What happened to the stream.
#[derive(Debug, PartialEq, Eq)]
pub enum AnnounceEvent {
    /// The manager was started, or it waited long enough.
    Ready,
    /// The stream is open.
    Connected,
    /// The stream could not be opened.
    ConnectFailed,
    /// A message came, with a response in it or none.
    Received(Option<AnnounceResponse>),
    /// The children were synced.
    Synced,
    /// No message came in time.
    ReadTimedOut,
    /// The scheduler closed the stream.
    StreamEnded,
    /// The stream broke.
    StreamFailed,
}

/// What is to be done next.
#[derive(Debug, PartialEq, Eq)]
pub enum AnnounceAction {
    /// Open a stream and send requests on it from now on.
    Connect,
    /// Wait for the next message.
    Receive,
    /// Sync the children with these peers.
    SyncChildren(Vec<Peer>),
    /// Give up the stream and wait that many seconds.
    Wait(u64),
    /// Leave.
    Stop,
}

/// What an action asks for.
#[verifier::ext_equal]
pub enum AnnounceActionView {
    Connect,
    Receive,
    SyncChildren(Seq<PeerView>),
    Wait(u64),
    Stop,
}

impl View for AnnounceAction {
    type V = AnnounceActionView;

    open spec fn view(&self) -> AnnounceActionView {
        match self {
            AnnounceAction::Connect => AnnounceActionView::Connect,
            AnnounceAction::Receive => AnnounceActionView::Receive,
            AnnounceAction::SyncChildren(peers) => AnnounceActionView::SyncChildren(
                crate::types::peer_views(peers@),
            ),
            AnnounceAction::Wait(seconds) => AnnounceActionView::Wait(*seconds),
            AnnounceAction::Stop => AnnounceActionView::Stop,
        }
    }
}

/// The delay that follows on `backoff`: twice as long, up to the longest.
pub open spec fn next_backoff(backoff: nat) -> nat {
    if 2 * backoff < MAX_BACKOFF {
        2 * backoff
    } else {
        MAX_BACKOFF as nat
    }
}

/// The delay after `failures` more delays.
pub open spec fn backoff_after(backoff: nat, failures: nat) -> nat
    decreases failures,
{
    if failures == 0 {
        backoff
    } else {
        next_backoff(backoff_after(backoff, (failures - 1) as nat))
    }
}

/// What is to be done on `event`, given the current delay and whether the manager is cancelled.
pub open spec fn announce_action(backoff: u64, event: AnnounceEvent, cancelled: bool) -> AnnounceActionView {
    match event {
        AnnounceEvent::Ready => if cancelled {
            AnnounceActionView::Stop
        } else {
            AnnounceActionView::Connect
        },
        AnnounceEvent::Connected => if cancelled {
            AnnounceActionView::Wait(MIN_BACKOFF)
        } else {
            AnnounceActionView::Receive
        },
        AnnounceEvent::Received(Some(AnnounceResponse::NormalTask(peers))) =>
            AnnounceActionView::SyncChildren(crate::types::peer_views(peers@)),
        AnnounceEvent::Received(_) | AnnounceEvent::Synced | AnnounceEvent::ReadTimedOut =>
            if cancelled {
                AnnounceActionView::Wait(backoff)
            } else {
                AnnounceActionView::Receive
            },
        AnnounceEvent::ConnectFailed | AnnounceEvent::StreamEnded | AnnounceEvent::StreamFailed =>
            AnnounceActionView::Wait(backoff),
    }
}

/// Decides what to do with the stream.
#[derive(Debug, PartialEq, Eq)]
pub struct AnnounceManager {
    backoff: u64,
}

impl AnnounceManager {
    /// The delay before the next attempt to reconnect, in seconds.
    pub closed spec fn backoff(&self) -> u64 {
        self.backoff
    }

    /// The delay stays between the shortest and the longest.
    pub open spec fn wf(&self) -> bool {
        MIN_BACKOFF <= self.backoff() <= MAX_BACKOFF
    }

    /// A manager that has not connected yet.
    pub fn new() -> (manager: Self)
        ensures
            manager.wf(),
            manager.backoff() == MIN_BACKOFF,
    {
        AnnounceManager { backoff: MIN_BACKOFF }
    }

    /// Decides what to do on `event`. A connection resets the delay, and each delay makes the
    /// next one longer.
    pub fn next_action(&mut self, event: AnnounceEvent, cancelled: bool) -> (action: AnnounceAction)
        requires
            old(self).wf(),
        ensures
            final(self).wf(),
            action@ == announce_action(old(self).backoff(), event, cancelled),
            final(self).backoff() == (if action@ is Wait {
                next_backoff(action@->Wait_0 as nat)
            } else if event is Connected {
                MIN_BACKOFF as nat
            } else {
                old(self).backoff() as nat
            }),
    {
        match event {
            AnnounceEvent::Ready => {
                if cancelled {
                    AnnounceAction::Stop
                } else {
                    AnnounceAction::Connect
                }
            },
            AnnounceEvent::Connected => {
                self.backoff = MIN_BACKOFF;
                self.receive(cancelled)
            },
            AnnounceEvent::Received(Some(AnnounceResponse::NormalTask(peers))) => {
                AnnounceAction::SyncChildren(peers)
            },
            AnnounceEvent::Received(_) => self.receive(cancelled),
            AnnounceEvent::Synced => self.receive(cancelled),
            AnnounceEvent::ReadTimedOut => self.receive(cancelled),
            AnnounceEvent::ConnectFailed => self.give_up(),
            AnnounceEvent::StreamEnded => self.give_up(),
            AnnounceEvent::StreamFailed => self.give_up(),
        }
    }

    /// Goes on with the stream, unless the manager is cancelled.
    fn receive(&mut self, cancelled: bool) -> (action: AnnounceAction)
        requires
            old(self).wf(),
        ensures
            final(self).wf(),
            action@ == (if cancelled {
                AnnounceActionView::Wait(old(self).backoff())
            } else {
                AnnounceActionView::Receive
            }),
            final(self).backoff() == (if cancelled {
                next_backoff(old(self).backoff() as nat)
            } else {
                old(self).backoff() as nat
            }),
    {
        if cancelled {
            self.give_up()
        } else {
            AnnounceAction::Receive
        }
    }

    /// Gives up the stream and waits.
    fn give_up(&mut self) -> (action: AnnounceAction)
        requires
            old(self).wf(),
        ensures
            final(self).wf(),
            action@ == AnnounceActionView::Wait(old(self).backoff()),
            final(self).backoff() == next_backoff(old(self).backoff() as nat),
    {
        let wait = self.backoff;
        let doubled = wait * 2;
        self.backoff = if doubled < MAX_BACKOFF {
            doubled
        } else {
            MAX_BACKOFF
        };
        AnnounceAction::Wait(wait)
    }
}

} // verus!
