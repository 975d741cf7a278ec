use vstd::prelude::*;

use crate::behaviour::{holds_id, TransferAction, TransferBehaviour};
use crate::discovery::{peer_views, ConnectedPoint, DiscoveryAction, DiscoveryBehaviour};
use crate::peer::{FileToSend, InnerMessage, OperatingSystem, Peer, PeerEvent, PeerId, TransferCommand};
use crate::router::CommandRouter;

verus! {

/// What the network reports to the core, one variant per protocol event.
pub enum NetworkEvent {
    /// Multicast DNS found a peer at an address; the last field is its display name.
    Discovered(PeerId, String, String),
    /// Multicast DNS lost a peer.
    Expired(PeerId),
    /// A connection to a peer is up, with its id and how it came about.
    ConnectionEstablished(PeerId, u64, ConnectedPoint),
    /// The last connection to a peer closed.
    Disconnected(PeerId),
    /// A dial of a peer failed.
    DialFailure(PeerId),
    /// The discovery handler of a connection to a peer reported.
    Discovery(PeerId, InnerMessage),
    /// The discovery exchange with a peer completed.
    PeerDescribed(PeerId, String, OperatingSystem),
    /// The outbound transfer to a peer ended, whichever way.
    TransferEnded(PeerId),
}

/// What the core asks of the network next.
pub enum CoreAction {
    Discovery(DiscoveryAction),
    Transfer(TransferAction),
}

/// The swarm's logic: the peer table, the outbound scheduler and the router of
/// user decisions, fed by network events and polled for actions.
pub struct MyBehaviour {
    pub discovery: DiscoveryBehaviour,
    pub transfer: TransferBehaviour,
    pub router: CommandRouter,
}

impl MyBehaviour {
    pub open spec fn wf(&self) -> bool {
        self.discovery.wf() && self.transfer.wf()
    }

    pub fn new(hostname: String, os: OperatingSystem) -> (r: MyBehaviour)
        ensures
            r.wf(),
            r.discovery.peers@.len() == 0,
            r.transfer.payloads@.len() == 0,
    {
        MyBehaviour { discovery: DiscoveryBehaviour::new(hostname, os), transfer: TransferBehaviour::new(), router: CommandRouter::new() }
    }

    /// Queues a payload that the user dropped.
    pub fn push_file(&mut self, file: FileToSend)
        requires
            old(self).wf(),
        ensures
            final(self).wf(),
            final(self).transfer.payloads@ == old(self).transfer.payloads@.push(file),
    {
        self.transfer.push_file(file);
    }

    /// A user decision: handed to the transfer waiting on its hash, if any.
    pub fn on_command(&mut self, cmd: TransferCommand, now: u64) -> (r: Option<TransferCommand>)
        requires
            old(self).wf(),
        ensures
            final(self).wf(),
            old(self).router.waits_for(cmd.hash_view()) ==> r == Some(cmd),
            !old(self).router.waits_for(cmd.hash_view()) ==> r is None,
    {
        self.router.on_command(cmd, now)
    }

    /// Applies a network event; where the peer list changed, the update for
    /// the user interface is returned.
    pub fn handle(&mut self, event: NetworkEvent) -> (r: Option<PeerEvent>)
        requires
            old(self).wf(),
        ensures
            final(self).wf(),
            match event {
                NetworkEvent::Discovered(id, _, _) => r is None && final(self).discovery.knows(id@)
                    && holds_id(final(self).transfer.peers@, id@),
                NetworkEvent::Expired(id) => !final(self).discovery.knows(id@)
                    && !holds_id(final(self).transfer.peers@, id@)
                    && !holds_id(final(self).transfer.connected_peers@, id@)
                    && (r matches Some(PeerEvent::PeersUpdated(v)) && peer_views(v@) == peer_views(final(self).discovery.peers@)),
                NetworkEvent::ConnectionEstablished(id, _, _) => r is None
                    && holds_id(final(self).transfer.connected_peers@, id@)
                    && holds_id(final(self).transfer.peers@, id@),
                NetworkEvent::Disconnected(id) => r is None
                    && !holds_id(final(self).transfer.connected_peers@, id@)
                    && final(self).discovery.peers@ == old(self).discovery.peers@,
                NetworkEvent::DialFailure(id) => r is None
                    && !holds_id(final(self).transfer.connected_peers@, id@),
                NetworkEvent::Discovery(_, _) => r is None
                    && final(self).discovery.peers@ == old(self).discovery.peers@,
                NetworkEvent::PeerDescribed(id, h, os) => {
                    &&& r matches Some(PeerEvent::PeersUpdated(v)) && peer_views(v@) == peer_views(final(self).discovery.peers@)
                    &&& old(self).discovery.knows(id@) ==> {
                        let i = old(self).discovery.index_of(id@);
                        &&& final(self).discovery.peers@[i]@.hostname == h@
                        &&& final(self).discovery.peers@[i]@.os == os
                    }
                },
                NetworkEvent::TransferEnded(id) => r is None
                    && !holds_id(final(self).transfer.busy@, id@),
            },
    {
        match event {
            NetworkEvent::Discovered(id, addr, name) => {
                self.transfer.add_peer(&id);
                let ghost gid = id@;
                self.discovery.add_peer(id, addr, name);
                proof {
                    if !old(self).discovery.knows(gid) {
                        let before = peer_views(old(self).discovery.peers@);
                        let after = peer_views(self.discovery.peers@);
                        assert(after.len() == self.discovery.peers@.len());
                        assert(before.len() == old(self).discovery.peers@.len());
                        let n = old(self).discovery.peers@.len() as int;
                        assert(after[n].peer_id == gid);
                        assert(after[n] == self.discovery.peers@[n]@);
                        assert(self.discovery.peers@[n].peer_id@ == gid);
                    }
                }
                None
            },
            NetworkEvent::Expired(id) => {
                self.transfer.remove_peer(&id);
                Some(self.discovery.remove_peer(&id))
            },
            NetworkEvent::ConnectionEstablished(id, c, endpoint) => {
                self.transfer.inject_connected(&id);
                self.discovery.inject_connection_established(&id, c, endpoint);
                None
            },
            NetworkEvent::Disconnected(id) => {
                self.transfer.inject_disconnected(&id);
                None
            },
            NetworkEvent::DialFailure(id) => {
                self.transfer.inject_dial_failure(&id);
                None
            },
            NetworkEvent::Discovery(id, message) => {
                self.discovery.inject_event(id, message);
                None
            },
            NetworkEvent::PeerDescribed(id, hostname, os) => {
                let ghost h = hostname@;
                let r = self.discovery.update_peer(&id, hostname, os);
                proof {
                    if old(self).discovery.knows(id@) {
                        let i = old(self).discovery.index_of(id@);
                        let before = peer_views(old(self).discovery.peers@);
                        let after = peer_views(self.discovery.peers@);
                        assert(before.len() == old(self).discovery.peers@.len());
                        assert(after.len() == self.discovery.peers@.len());
                        assert(after.len() == before.len());
                        assert(after[i] == self.discovery.peers@[i]@);
                    }
                }
                Some(r)
            },
            NetworkEvent::TransferEnded(id) => {
                self.transfer.transfer_finished(&id);
                None
            },
        }
    }

    /// The next action at `now`: pending discovery actions first, oldest
    /// first, then what the scheduler asks for.
    pub fn poll(&mut self, now: u64) -> (r: Option<CoreAction>)
        requires
            old(self).wf(),
        ensures
            final(self).wf(),
            old(self).discovery.events@.len() > 0 ==> r == Some(CoreAction::Discovery(old(self).discovery.events@[0]))
                && final(self).transfer == old(self).transfer,
            old(self).discovery.events@.len() == 0 ==> match r {
                Some(CoreAction::Transfer(_)) => true,
                Some(CoreAction::Discovery(_)) => false,
                None => final(self).transfer.payloads@ == old(self).transfer.payloads@,
            },
    {
        match self.discovery.poll() {
            Some(a) => Some(CoreAction::Discovery(a)),
            None => match self.transfer.poll(now) {
                Some(a) => Some(CoreAction::Transfer(a)),
                None => None,
            },
        }
    }
}

/// Window over which peer-list updates are merged, in milliseconds.
pub const COALESCE_WINDOW_MS: u64 = 50;

/// Merges the peer-list updates of a burst into one, carrying the latest list.
pub struct PeerListCoalescer {
    /// The latest list not yet delivered.
    pub pending: Option<Vec<Peer>>,
    /// When the oldest undelivered update arrived, in milliseconds.
    pub since: u64,
}

impl PeerListCoalescer {
    pub fn new() -> (r: PeerListCoalescer)
        ensures
            r.pending is None,
    {
        PeerListCoalescer { pending: None, since: 0 }
    }

    /// A new list at `now`: it replaces any undelivered one, and the window
    /// runs from the first undelivered update.
    pub fn offer(&mut self, peers: Vec<Peer>, now: u64)
        ensures
            final(self).pending == Some(peers),
            old(self).pending is None ==> final(self).since == now,
            old(self).pending is Some ==> final(self).since == old(self).since,
    {
        if self.pending.is_none() {
            self.since = now;
        }
        self.pending = Some(peers);
    }

    /// The merged update, once the window has passed at `now`.
    pub fn flush(&mut self, now: u64) -> (r: Option<PeerEvent>)
        ensures
            match old(self).pending {
                Some(v) => if now >= old(self).since + COALESCE_WINDOW_MS {
                    r == Some(PeerEvent::PeersUpdated(v)) && final(self).pending is None
                } else {
                    r is None && final(self).pending == old(self).pending && final(self).since == old(self).since
                },
                None => r is None && final(self).pending is None,
            },
    {
        if self.pending.is_some() && now >= self.since && now - self.since >= COALESCE_WINDOW_MS {
            match self.pending.take() {
                Some(v) => Some(PeerEvent::PeersUpdated(v)),
                None => None,
            }
        } else {
            None
        }
    }
}

} // verus!
