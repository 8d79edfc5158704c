use piece_selector::announce::GetChildPeerRequest;
use piece_selector::selector::PieceSelector;
use piece_selector::types::{
    CollectedParent, CollectedPiece, CollectorStart, Host, Peer, Piece,
};

fn host(id: &str) -> Host {
    Host {
        id: id.to_string(),
        hostname: format!("{}.local", id),
        ip: "10.0.0.1".to_string(),
        port: 4000,
        download_port: 4001,
        details: vec![1, 2, 3],
    }
}

fn peer(id: &str) -> Peer {
    Peer { id: id.to_string(), host: Some(host(id)), details: vec![4, 5] }
}

fn piece(number: u32, parents: &[&str]) -> CollectedPiece {
    CollectedPiece {
        number,
        length: 4,
        parents: parents
            .iter()
            .map(|id| CollectedParent {
                id: id.to_string(),
                host: None,
                download_ip: Some("10.0.0.2".to_string()),
                download_tcp_port: Some(4002),
                download_quic_port: None,
            })
            .collect(),
    }
}

fn interested() -> Vec<Piece> {
    vec![
        Piece { number: 0, offset: 0, length: 4, details: vec![8] },
        Piece { number: 1, offset: 4, length: 4, details: vec![9, 9] },
    ]
}

fn selector(parents: Vec<Peer>) -> PieceSelector {
    PieceSelector::new("host", "peer", "task", interested(), parents)
}

fn running() -> PieceSelector {
    let mut s = selector(Vec::new());
    s.run();
    s
}

fn start_of(peer: Peer) -> CollectorStart {
    CollectorStart {
        host_id: "host".to_string(),
        task_id: "task".to_string(),
        interested_pieces: interested(),
        parent: CollectedParent {
            id: peer.id,
            host: peer.host,
            download_ip: None,
            download_tcp_port: None,
            download_quic_port: None,
        },
    }
}

fn sorted(ids: &[String]) -> Vec<&str> {
    let mut ids: Vec<&str> = ids.iter().map(|id| id.as_str()).collect();
    ids.sort();
    ids
}

fn started(starts: &[CollectorStart]) -> Vec<&str> {
    let mut ids: Vec<&str> = starts.iter().map(|s| s.parent.id.as_str()).collect();
    ids.sort();
    ids
}

#[test]
fn run_starts_everything_once() {
    let mut s = selector(vec![peer("a"), peer("b"), peer("a")]);
    let plan = s.run();
    assert!(plan.start_parent_pipeline);
    assert!(plan.start_child_pipeline);
    assert!(plan.start_announce_manager);
    assert_eq!(plan.start_collectors, vec![start_of(peer("a")), start_of(peer("b"))]);

    let again = s.run();
    assert!(!again.start_parent_pipeline);
    assert!(!again.start_child_pipeline);
    assert!(!again.start_announce_manager);
    assert!(again.start_collectors.is_empty());
}

#[test]
fn pipelines_and_announce_manager_start_once() {
    let mut s = selector(Vec::new());
    assert!(s.start_parent_pipeline());
    assert!(!s.start_parent_pipeline());
    assert!(s.start_child_pipeline());
    assert!(!s.start_child_pipeline());
    assert!(s.start_announce_manager_once());
    assert!(!s.start_announce_manager_once());
    let plan = s.run();
    assert!(!plan.start_parent_pipeline && !plan.start_child_pipeline);
    assert!(!plan.start_announce_manager);
}

#[test]
fn no_collector_starts_before_its_pipeline() {
    let mut s = selector(vec![peer("a")]);
    assert_eq!(s.start_parent_collector(peer("a")), None);
    assert_eq!(s.start_child_collector(peer("c")), None);
    assert!(s.start_parent_pipeline());
    assert_eq!(s.start_child_collector(peer("c")), None);
    assert_eq!(s.start_parent_collector(peer("a")), Some(start_of(peer("a"))));
    assert_eq!(s.start_parent_collector(peer("a")), None);
    assert!(s.start_child_pipeline());
    assert_eq!(s.start_child_collector(peer("a")), Some(start_of(peer("a"))));
    assert_eq!(s.start_child_collector(peer("a")), None);
    assert!(s.run().start_collectors.is_empty());
}

#[test]
fn inserted_child_gets_one_collector() {
    let mut s = running();
    assert_eq!(s.insert_child(peer("c")), Some(start_of(peer("c"))));
    assert_eq!(s.insert_child(peer("c")), None);
    assert!(s.remove_child(peer("c")));
    assert!(!s.remove_child(peer("c")));
    assert_eq!(s.insert_child(peer("c")), Some(start_of(peer("c"))));
}

#[test]
fn child_inserted_before_the_pipeline_has_no_collector() {
    let mut s = selector(Vec::new());
    assert_eq!(s.insert_child(peer("c")), None);
    s.run();
    assert_eq!(s.insert_child(peer("c")), None);
    assert!(!s.remove_child(peer("c")));
}

#[test]
fn sync_brings_children_in_line() {
    let mut s = running();
    let plan = s.sync_children(vec![peer("a"), peer("b")]);
    assert!(plan.stop_collectors.is_empty());
    assert_eq!(started(&plan.start_collectors), ["a", "b"]);

    let plan = s.sync_children(vec![peer("b"), peer("c"), peer("d")]);
    assert_eq!(sorted(&plan.stop_collectors), ["a"]);
    assert_eq!(started(&plan.start_collectors), ["c", "d"]);
    assert!(plan.start_collectors.contains(&start_of(peer("c"))));

    let plan = s.sync_children(Vec::new());
    assert_eq!(sorted(&plan.stop_collectors), ["b", "c", "d"]);
    assert!(plan.start_collectors.is_empty());
}

#[test]
fn second_sync_does_nothing() {
    let mut s = running();
    s.sync_children(vec![peer("a"), peer("b")]);
    let plan = s.sync_children(vec![peer("b"), peer("a")]);
    assert!(plan.stop_collectors.is_empty());
    assert!(plan.start_collectors.is_empty());
}

#[test]
fn sync_takes_the_last_of_peers_that_share_an_id() {
    let mut s = running();
    let first = Peer { id: "a".to_string(), host: None, details: Vec::new() };
    let plan = s.sync_children(vec![first, peer("a")]);
    assert_eq!(plan.start_collectors, vec![start_of(peer("a"))]);
}

#[test]
fn sync_stops_only_running_collectors() {
    let mut s = selector(Vec::new());
    s.insert_child(peer("early"));
    s.run();
    s.insert_child(peer("late"));
    let plan = s.sync_children(Vec::new());
    assert_eq!(sorted(&plan.stop_collectors), ["late"]);
}

#[test]
fn cleanup_leaves_the_parent_side_alone() {
    let mut s = running();
    s.insert_child(peer("c"));
    s.insert_child_piece(piece(0, &["c"]));
    s.insert_child_piece(piece(0, &["d", "c"]));
    s.insert_child_piece(piece(1, &["c", "c"]));
    assert!(s.insert_parent_piece(piece(0, &["c"])));
    s.cleanup_child_pieces("c");
    s.cleanup_child_pieces("c");
    assert!(s.remove_child(peer("c")));
    assert_eq!(s.remaining(), 2);
    match s.select_piece() {
        piece_selector::selector::Selection::Selected(selected) => {
            assert_eq!(selected, piece(0, &["c"]));
        }
        other => panic!("no piece was selected: {:?}", other),
    }
}

#[test]
fn shutdown_stops_every_collector() {
    let mut s = selector(vec![peer("a"), peer("b")]);
    s.run();
    s.insert_child(peer("c"));
    s.insert_child(peer("a"));
    let plan = s.shutdown();
    assert_eq!(sorted(&plan.stop_parent_collectors), ["a", "b"]);
    assert_eq!(sorted(&plan.stop_child_collectors), ["a", "c"]);
    let again = s.shutdown();
    assert!(again.stop_parent_collectors.is_empty());
    assert!(again.stop_child_collectors.is_empty());
}

#[test]
fn announce_request_names_the_peer() {
    let request = selector(Vec::new()).announce_request();
    assert_eq!(request.host_id, "host");
    assert_eq!(request.task_id, "task");
    assert_eq!(request.peer_id, "peer");
    assert_eq!(request.request, GetChildPeerRequest { description: None });
}

#[test]
fn second_sync_with_other_records_of_the_same_ids_does_nothing() {
    let mut s = running();
    s.sync_children(vec![peer("a"), peer("b")]);
    let other = Peer { id: "a".to_string(), host: None, details: Vec::new() };
    let plan = s.sync_children(vec![other, peer("b")]);
    assert!(plan.stop_collectors.is_empty());
    assert!(plan.start_collectors.is_empty());
}

#[test]
fn collectors_match_children_after_a_run() {
    let mut s = running();
    s.sync_children(vec![peer("a"), peer("b"), peer("c")]);
    assert!(s.remove_child(peer("b")));
    assert!(s.insert_child(peer("d")).is_some());
    assert_eq!(s.start_child_collector(peer("d")), None);
    s.run();
    let plan = s.sync_children(Vec::new());
    assert_eq!(sorted(&plan.stop_collectors), ["a", "c", "d"]);
    assert!(s.shutdown().stop_child_collectors.is_empty());
}

#[test]
fn collector_gets_the_records_whole() {
    let mut s = running();
    let start = s.insert_child(peer("c")).unwrap();
    assert_eq!(start.parent.host, Some(host("c")));
    assert_eq!(start.parent.host.unwrap().details, [1, 2, 3]);
    assert_eq!(start.interested_pieces, interested());
    assert_eq!(start.interested_pieces[1].details, [9, 9]);
    let bare = Peer { id: "d".to_string(), host: None, details: vec![6] };
    assert_eq!(bare.clone(), bare);
    assert_eq!(s.insert_child(bare).unwrap().parent.host, None);
}
