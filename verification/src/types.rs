//! Plain values that the selector works on, and what they mean.
use vstd::prelude::*;

verus! {

/// The host that a peer runs on. The selector only carries it, whole, from a peer to its collector.
#[derive(Debug, PartialEq, Eq)]
pub struct Host {
    pub id: String,
    pub hostname: String,
    pub ip: String,
    pub port: i32,
    pub download_port: i32,
    /// Whatever else the scheduler says of the host, encoded.
    pub details: Vec<u8>,
}

/// A peer of the task, as the scheduler announces it. The selector reads its id.
#[derive(Debug, PartialEq, Eq)]
pub struct Peer {
    pub id: String,
    pub host: Option<Host>,
    /// Whatever else the scheduler says of the peer, encoded.
    pub details: Vec<u8>,
}

/// A piece of the task that this peer is interested in. The selector only carries it, whole, to
/// the collectors.
#[derive(Debug, PartialEq, Eq)]
pub struct Piece {
    pub number: u32,
    pub offset: u64,
    pub length: u64,
    /// Whatever else is stored of the piece, encoded.
    pub details: Vec<u8>,
}

/// A peer from which a collected piece can be downloaded.
#[derive(Debug, PartialEq, Eq)]
pub struct CollectedParent {
    pub id: String,
    pub host: Option<Host>,
    pub download_ip: Option<String>,
    pub download_tcp_port: Option<i32>,
    pub download_quic_port: Option<i32>,
}

/// A piece that collectors reported, with the peers that hold it.
#[derive(Debug, PartialEq, Eq)]
pub struct CollectedPiece {
    pub number: u32,
    pub length: u64,
    pub parents: Vec<CollectedParent>,
}

/// Everything that a new collector is made from.
#[derive(Debug, PartialEq, Eq)]
pub struct CollectorStart {
    pub host_id: String,
    pub task_id: String,
    pub interested_pieces: Vec<Piece>,
    pub parent: CollectedParent,
}

/// What a `Host` holds.
#[verifier::ext_equal]
pub struct HostView {
    pub id: Seq<char>,
    pub hostname: Seq<char>,
    pub ip: Seq<char>,
    pub port: i32,
    pub download_port: i32,
    pub details: Seq<u8>,
}

/// What a `Peer` holds.
#[verifier::ext_equal]
pub struct PeerView {
    pub id: Seq<char>,
    pub host: Option<HostView>,
    pub details: Seq<u8>,
}

/// What a `Piece` holds.
#[verifier::ext_equal]
pub struct PieceView {
    pub number: u32,
    pub offset: u64,
    pub length: u64,
    pub details: Seq<u8>,
}

/// What a `CollectedParent` holds.
#[verifier::ext_equal]
pub struct CollectedParentView {
    pub id: Seq<char>,
    pub host: Option<HostView>,
    pub download_ip: Option<Seq<char>>,
    pub download_tcp_port: Option<i32>,
    pub download_quic_port: Option<i32>,
}

/// What a `CollectedPiece` holds.
#[verifier::ext_equal]
pub struct CollectedPieceView {
    pub number: u32,
    pub length: u64,
    pub parents: Seq<CollectedParentView>,
}

/// What a `CollectorStart` holds.
#[verifier::ext_equal]
pub struct CollectorStartView {
    pub host_id: Seq<char>,
    pub task_id: Seq<char>,
    pub interested_pieces: Seq<PieceView>,
    pub parent: CollectedParentView,
}

/// What an optional host holds.
pub open spec fn host_view(host: Option<Host>) -> Option<HostView> {
    match host {
        Some(h) => Some(h@),
        None => None,
    }
}

impl View for Host {
    type V = HostView;

    open spec fn view(&self) -> HostView {
        HostView {
            id: self.id@,
            hostname: self.hostname@,
            ip: self.ip@,
            port: self.port,
            download_port: self.download_port,
            details: self.details@,
        }
    }
}

impl View for Peer {
    type V = PeerView;

    open spec fn view(&self) -> PeerView {
        PeerView { id: self.id@, host: host_view(self.host), details: self.details@ }
    }
}

impl View for Piece {
    type V = PieceView;

    open spec fn view(&self) -> PieceView {
        PieceView {
            number: self.number,
            offset: self.offset,
            length: self.length,
            details: self.details@,
        }
    }
}

impl View for CollectedParent {
    type V = CollectedParentView;

    open spec fn view(&self) -> CollectedParentView {
        CollectedParentView {
            id: self.id@,
            host: host_view(self.host),
            download_ip: match self.download_ip {
                Some(ip) => Some(ip@),
                None => None,
            },
            download_tcp_port: self.download_tcp_port,
            download_quic_port: self.download_quic_port,
        }
    }
}

/// The views of a sequence of parents, in order.
pub open spec fn parent_views(parents: Seq<CollectedParent>) -> Seq<CollectedParentView> {
    parents.map_values(|p: CollectedParent| p@)
}

/// The views of a sequence of peers, in order.
pub open spec fn peer_views(peers: Seq<Peer>) -> Seq<PeerView> {
    peers.map_values(|p: Peer| p@)
}

/// The views of a sequence of interesting pieces, in order.
pub open spec fn piece_views(pieces: Seq<Piece>) -> Seq<PieceView> {
    pieces.map_values(|p: Piece| p@)
}

/// The views of a sequence of collectors to start, in order.
pub open spec fn start_views(starts: Seq<CollectorStart>) -> Seq<CollectorStartView> {
    starts.map_values(|s: CollectorStart| s@)
}

/// The characters of a sequence of strings, in order.
pub open spec fn string_views(strings: Seq<String>) -> Seq<Seq<char>> {
    strings.map_values(|s: String| s@)
}

impl View for CollectedPiece {
    type V = CollectedPieceView;

    open spec fn view(&self) -> CollectedPieceView {
        CollectedPieceView {
            number: self.number,
            length: self.length,
            parents: parent_views(self.parents@),
        }
    }
}

impl View for CollectorStart {
    type V = CollectorStartView;

    open spec fn view(&self) -> CollectorStartView {
        CollectorStartView {
            host_id: self.host_id@,
            task_id: self.task_id@,
            interested_pieces: piece_views(self.interested_pieces@),
            parent: self.parent@,
        }
    }
}

impl PeerView {
    /// The parent that a collector for this peer reports: its id and host, with no download
    /// address of its own yet.
    pub open spec fn as_parent(self) -> CollectedParentView {
        CollectedParentView {
            id: self.id,
            host: self.host,
            download_ip: None,
            download_tcp_port: None,
            download_quic_port: None,
        }
    }
}

impl Clone for Host {
    fn clone(&self) -> (copy: Self)
        ensures
            copy@ == self@,
    {
        let details = self.details.clone();
        assert(details@ =~= self.details@);
        Host {
            id: self.id.clone(),
            hostname: self.hostname.clone(),
            ip: self.ip.clone(),
            port: self.port,
            download_port: self.download_port,
            details,
        }
    }
}

impl Clone for Peer {
    fn clone(&self) -> (copy: Self)
        ensures
            copy@ == self@,
    {
        let details = self.details.clone();
        assert(details@ =~= self.details@);
        let host = match &self.host {
            Some(h) => Some(h.clone()),
            None => None,
        };
        Peer { id: self.id.clone(), host, details }
    }
}

impl Clone for Piece {
    fn clone(&self) -> (copy: Self)
        ensures
            copy@ == self@,
    {
        let details = self.details.clone();
        assert(details@ =~= self.details@);
        Piece { number: self.number, offset: self.offset, length: self.length, details }
    }
}

impl Peer {
    /// The parent that a collector for this peer reports.
    pub fn into_parent(self) -> (parent: CollectedParent)
        ensures
            parent@ == self@.as_parent(),
    {
        CollectedParent {
            id: self.id,
            host: self.host,
            download_ip: None,
            download_tcp_port: None,
            download_quic_port: None,
        }
    }
}

} // verus!
