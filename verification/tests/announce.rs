use piece_selector::announce::{AnnounceAction, AnnounceEvent, AnnounceManager, AnnounceResponse};
use piece_selector::types::Peer;

fn peers() -> Vec<Peer> {
    ["a", "b"]
        .iter()
        .map(|id| Peer { id: id.to_string(), host: None, details: vec![7] })
        .collect()
}

#[test]
fn failing_connections_wait_longer_and_longer() {
    let mut m = AnnounceManager::new();
    for seconds in [1, 2, 4, 8, 16, 30, 30, 30] {
        assert_eq!(m.next_action(AnnounceEvent::Ready, false), AnnounceAction::Connect);
        assert_eq!(
            m.next_action(AnnounceEvent::ConnectFailed, false),
            AnnounceAction::Wait(seconds)
        );
    }
}

#[test]
fn connection_resets_the_delay() {
    let mut m = AnnounceManager::new();
    for _ in 0..4 {
        m.next_action(AnnounceEvent::ConnectFailed, false);
    }
    assert_eq!(m.next_action(AnnounceEvent::Connected, false), AnnounceAction::Receive);
    assert_eq!(m.next_action(AnnounceEvent::StreamEnded, false), AnnounceAction::Wait(1));
    assert_eq!(m.next_action(AnnounceEvent::ConnectFailed, false), AnnounceAction::Wait(2));
}

#[test]
fn children_are_synced_with_the_announced_peers() {
    let mut m = AnnounceManager::new();
    m.next_action(AnnounceEvent::Connected, false);
    let event = AnnounceEvent::Received(Some(AnnounceResponse::NormalTask(peers())));
    assert_eq!(m.next_action(event, true), AnnounceAction::SyncChildren(peers()));
    assert_eq!(m.next_action(AnnounceEvent::Synced, false), AnnounceAction::Receive);
}

#[test]
fn other_messages_and_timeouts_keep_the_stream() {
    let mut m = AnnounceManager::new();
    m.next_action(AnnounceEvent::Connected, false);
    assert_eq!(m.next_action(AnnounceEvent::Received(None), false), AnnounceAction::Receive);
    assert_eq!(
        m.next_action(AnnounceEvent::Received(Some(AnnounceResponse::Other)), false),
        AnnounceAction::Receive
    );
    assert_eq!(m.next_action(AnnounceEvent::ReadTimedOut, false), AnnounceAction::Receive);
    assert_eq!(m.next_action(AnnounceEvent::StreamFailed, false), AnnounceAction::Wait(1));
}

#[test]
fn cancelled_manager_leaves() {
    let mut m = AnnounceManager::new();
    assert_eq!(m.next_action(AnnounceEvent::Connected, true), AnnounceAction::Wait(1));
    assert_eq!(m.next_action(AnnounceEvent::Ready, true), AnnounceAction::Stop);
    assert_eq!(m.next_action(AnnounceEvent::ReadTimedOut, true), AnnounceAction::Wait(2));
    assert_eq!(m.next_action(AnnounceEvent::Received(None), true), AnnounceAction::Wait(4));
    assert_eq!(m.next_action(AnnounceEvent::Synced, true), AnnounceAction::Wait(8));
}

#[test]
fn scheduler_is_asked_every_second() {
    assert_eq!(piece_selector::announce::REQUEST_INTERVAL, 1);
}
