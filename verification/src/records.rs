//! What the views of records and lists say: every field, and every element in its place.
use vstd::prelude::*;

#[allow(unused_imports)]
use crate::announce::{AnnounceAction, AnnounceActionView};
#[allow(unused_imports)]
use crate::types::{
    CollectedParent, CollectedParentView, CollectedPiece, CollectorStart, Host, Peer, PeerView, Piece,
};

verus! {

/// A host is seen with every field.
pub proof fn law_host_is_seen_whole(host: Host)
    ensures
        host@.id == host.id@,
        host@.hostname == host.hostname@,
        host@.ip == host.ip@,
        host@.port == host.port,
        host@.download_port == host.download_port,
        host@.details == host.details@,
{
}

/// A peer is seen with every field, and with its host where it has one.
pub proof fn law_peer_is_seen_whole(peer: Peer)
    ensures
        peer@.id == peer.id@,
        peer@.details == peer.details@,
        peer@.host is Some <==> peer.host is Some,
        peer.host matches Some(host) ==> peer@.host == Some(host@),
{
}

/// An interesting piece is seen with every field.
pub proof fn law_piece_is_seen_whole(piece: Piece)
    ensures
        piece@.number == piece.number,
        piece@.offset == piece.offset,
        piece@.length == piece.length,
        piece@.details == piece.details@,
{
}

/// A parent of a collected piece is seen with every field, and with its host and its download
/// address where it has them.
pub proof fn law_parent_is_seen_whole(parent: CollectedParent)
    ensures
        parent@.id == parent.id@,
        parent@.host is Some <==> parent.host is Some,
        parent.host matches Some(host) ==> parent@.host == Some(host@),
        parent@.download_ip is Some <==> parent.download_ip is Some,
        parent.download_ip matches Some(ip) ==> parent@.download_ip == Some(ip@),
        parent@.download_tcp_port == parent.download_tcp_port,
        parent@.download_quic_port == parent.download_quic_port,
{
}

/// A collected piece is seen with its number, its length and every parent, in order.
pub proof fn law_collected_piece_is_seen_whole(piece: CollectedPiece)
    ensures
        piece@.number == piece.number,
        piece@.length == piece.length,
        piece@.parents.len() == piece.parents@.len(),
        forall|i: int|
            0 <= i < piece.parents@.len() ==> #[trigger] piece@.parents[i] == piece.parents@[i]@,
{
}

/// What a collector is made from is seen whole, with every interesting piece, in order.
pub proof fn law_collector_start_is_seen_whole(start: CollectorStart)
    ensures
        start@.host_id == start.host_id@,
        start@.task_id == start.task_id@,
        start@.parent == start.parent@,
        start@.interested_pieces.len() == start.interested_pieces@.len(),
        forall|i: int|
            0 <= i < start.interested_pieces@.len() ==> #[trigger] start@.interested_pieces[i]
                == start.interested_pieces@[i]@,
{
}

/// A list of records is seen with every record, in order.
pub proof fn law_lists_are_seen_in_order(
    parents: Seq<CollectedParent>,
    peers: Seq<Peer>,
    pieces: Seq<Piece>,
    starts: Seq<CollectorStart>,
    strings: Seq<String>,
    i: int,
)
    ensures
        crate::types::parent_views(parents).len() == parents.len(),
        0 <= i < parents.len() ==> crate::types::parent_views(parents)[i] == parents[i]@,
        crate::types::peer_views(peers).len() == peers.len(),
        0 <= i < peers.len() ==> crate::types::peer_views(peers)[i] == peers[i]@,
        crate::types::piece_views(pieces).len() == pieces.len(),
        0 <= i < pieces.len() ==> crate::types::piece_views(pieces)[i] == pieces[i]@,
        crate::types::start_views(starts).len() == starts.len(),
        0 <= i < starts.len() ==> crate::types::start_views(starts)[i] == starts[i]@,
        crate::types::string_views(strings).len() == strings.len(),
        0 <= i < strings.len() ==> crate::types::string_views(strings)[i] == strings[i]@,
{
}

/// The parent that a collector for a peer reports has the peer's id and host, and no download
/// address of its own.
pub proof fn law_peer_reports_as_itself(peer: PeerView)
    ensures
        peer.as_parent().id == peer.id,
        peer.as_parent().host == peer.host,
        peer.as_parent().download_ip is None,
        peer.as_parent().download_tcp_port is None,
        peer.as_parent().download_quic_port is None,
{
}

/// An action is seen as what it is, with its delay or with every peer, in order.
pub proof fn law_action_is_seen_whole(action: AnnounceAction)
    ensures
        action is Connect <==> action@ is Connect,
        action is Receive <==> action@ is Receive,
        action is Stop <==> action@ is Stop,
        action is SyncChildren <==> action@ is SyncChildren,
        action is Wait <==> action@ is Wait,
        action matches AnnounceAction::Wait(seconds) ==> action@ == AnnounceActionView::Wait(
            seconds,
        ),
        action matches AnnounceAction::SyncChildren(peers) ==> {
            let seen = action@->SyncChildren_0;
            &&& seen.len() == peers@.len()
            &&& forall|i: int| 0 <= i < peers@.len() ==> #[trigger] seen[i] == peers@[i]@
        },
{
}

} // verus!
