use vstd::prelude::*;

use crate::peer::{Discovery, InnerMessage, OperatingSystem, Peer, PeerEvent, PeerId, PeerView};

verus! {

/// How a connection came about, with the remote address it gives.
pub enum ConnectedPoint {
    /// We dialled the peer at this address.
    Dialer(String),
    /// The peer dialled us; this is the address to reach it back.
    Listener(String),
}

/// What the discovery behaviour asks of the network, in order.
pub enum DiscoveryAction {
    /// Dial a newly discovered peer unless a dial is under way.
    DialPeer(PeerId),
    /// Send our record on the given connection to the peer.
    NotifyHandler(PeerId, u64, Discovery),
    /// A peer reported its hostname and operating system.
    GenerateEvent(PeerId, String, OperatingSystem),
}

pub open spec fn peer_views(s: Seq<Peer>) -> Seq<PeerView> {
    s.map_values(|p: Peer| p@)
}

/// Keeps the table of known peers, learnt from multicast DNS and completed by
/// the discovery exchange.
pub struct DiscoveryBehaviour {
    /// Actions not yet handed to the network, oldest first.
    pub events: Vec<DiscoveryAction>,
    /// Known peers, each identifier once.
    pub peers: Vec<Peer>,
    /// This host's name, sent in the discovery exchange.
    pub hostname: String,
    /// This host's operating system, sent in the discovery exchange.
    pub os: OperatingSystem,
}

/// Relies on `hostname::get`: the name of this host, as the platform reports
/// it; empty where it cannot be read.
#[verifier::external_body]
fn host_name() -> (r: String) {
    match hostname::get() {
        Ok(value) => value.to_string_lossy().into_owned(),
        Err(_) => String::new(),
    }
}

/// The name of this host; empty where the platform cannot give it.
pub fn get_hostname() -> (r: String) {
    host_name()
}

impl DiscoveryBehaviour {
    pub open spec fn wf(&self) -> bool {
        forall|i: int, j: int|
            0 <= i < j < self.peers@.len() ==> (#[trigger] self.peers@[i]).peer_id@ != (#[trigger] self.peers@[j]).peer_id@
    }

    /// Whether the table holds a peer with identifier `id`.
    pub open spec fn knows(&self, id: Seq<u8>) -> bool {
        exists|i: int| 0 <= i < self.peers@.len() && (#[trigger] self.peers@[i]).peer_id@ == id
    }

    /// The position of the peer with identifier `id`, where the table holds it.
    pub open spec fn index_of(&self, id: Seq<u8>) -> int {
        choose|i: int| 0 <= i < self.peers@.len() && (#[trigger] self.peers@[i]).peer_id@ == id
    }

    /// A behaviour with no peer yet, that introduces this host by `hostname` and `os`.
    pub fn new(hostname: String, os: OperatingSystem) -> (r: DiscoveryBehaviour)
        ensures
            r.wf(),
            r.peers@.len() == 0,
            r.events@.len() == 0,
            r.hostname == hostname,
            r.os == os,
    {
        DiscoveryBehaviour { events: Vec::new(), peers: Vec::new(), hostname, os }
    }

    fn find(&self, id: &PeerId) -> (r: Option<usize>)
        requires
            self.wf(),
        ensures
            r matches Some(i) ==> i < self.peers@.len() && self.peers@[i as int].peer_id@ == id@
                && self.knows(id@) && self.index_of(id@) == i,
            r is None ==> !self.knows(id@),
    {
        let mut i: usize = 0;
        while i < self.peers.len()
            invariant
                self.wf(),
                i <= self.peers@.len(),
                forall|j: int| 0 <= j < i ==> (#[trigger] self.peers@[j]).peer_id@ != id@,
            decreases self.peers@.len() - i,
        {
            if self.peers[i].peer_id.same(id) {
                proof {
                    let k = self.index_of(id@);
                    assert(self.peers@[k].peer_id@ == id@);
                    if k != i {
                        if k < i {
                        } else {
                            assert(self.peers@[i as int].peer_id@ != self.peers@[k].peer_id@);
                        }
                    }
                }
                return Some(i);
            }
            i = i + 1;
        }
        None
    }

    /// A snapshot of the known peers.
    pub fn peers_event(&self) -> (r: Vec<Peer>)
        ensures
            peer_views(r@) == peer_views(self.peers@),
    {
        let mut out: Vec<Peer> = Vec::new();
        let mut i: usize = 0;
        while i < self.peers.len()
            invariant
                i <= self.peers@.len(),
                out@.len() == i,
                forall|j: int| 0 <= j < i ==> (#[trigger] out@[j])@ == self.peers@[j]@,
            decreases self.peers@.len() - i,
        {
            out.push(self.peers[i].duplicate());
            i = i + 1;
        }
        assert(peer_views(out@) =~= peer_views(self.peers@));
        out
    }

    /// The update for the user interface: the peers given, or else the table.
    pub fn notify_frontend(&self, peers: Option<Vec<Peer>>) -> (r: PeerEvent)
        ensures
            r matches PeerEvent::PeersUpdated(v) && match peers {
                Some(p) => v == p,
                None => peer_views(v@) == peer_views(self.peers@),
            },
    {
        match peers {
            Some(p) => PeerEvent::PeersUpdated(p),
            None => PeerEvent::PeersUpdated(self.peers_event()),
        }
    }

    /// Multicast DNS found `peer_id` at `addr`. A new peer enters the table
    /// with no hostname and an unknown system, under `name`, and is dialled;
    /// a known one is left as it is.
    pub fn add_peer(&mut self, peer_id: PeerId, addr: String, name: String)
        requires
            old(self).wf(),
        ensures
            final(self).wf(),
            final(self).hostname == old(self).hostname && final(self).os == old(self).os,
            old(self).knows(peer_id@) ==> final(self).peers@ == old(self).peers@ && final(self).events@ == old(self).events@,
            !old(self).knows(peer_id@) ==> {
                &&& peer_views(final(self).peers@) == peer_views(old(self).peers@).push(PeerView {
                    name: name@,
                    address: addr@,
                    peer_id: peer_id@,
                    hostname: Seq::empty(),
                    os: OperatingSystem::Unknown,
                })
                &&& final(self).events@.len() == old(self).events@.len() + 1
                &&& final(self).events@.take(old(self).events@.len() as int) == old(self).events@
                &&& final(self).events@.last() matches DiscoveryAction::DialPeer(p) && p@ == peer_id@
            },
    {
        if self.find(&peer_id).is_some() {
            return;
        }
        let ghost old_peers = self.peers@;
        let ghost old_events = self.events@;
        self.events.push(DiscoveryAction::DialPeer(peer_id.duplicate()));
        self.peers.push(Peer { name, address: addr, peer_id, hostname: String::new(), os: OperatingSystem::Unknown });
        proof {
            assert(self.events@.take(old_events.len() as int) =~= old_events);
            assert(peer_views(self.peers@) =~= peer_views(old_peers).push(self.peers@.last()@));
            assert forall|i: int, j: int| 0 <= i < j < self.peers@.len() implies (#[trigger] self.peers@[i]).peer_id@ != (#[trigger] self.peers@[j]).peer_id@ by {
                assert(self.peers@[i] == old_peers[i]);
                if j < old_peers.len() {
                    assert(self.peers@[j] == old_peers[j]);
                } else {
                    assert(!old(self).knows(self.peers@[j].peer_id@));
                }
            }
        }
    }

    /// Multicast DNS lost `peer_id`: it leaves the table, and the user
    /// interface gets the new list.
    pub fn remove_peer(&mut self, peer_id: &PeerId) -> (r: PeerEvent)
        requires
            old(self).wf(),
        ensures
            final(self).wf(),
            final(self).hostname == old(self).hostname && final(self).os == old(self).os,
            final(self).events@ == old(self).events@,
            old(self).knows(peer_id@) ==> final(self).peers@ == old(self).peers@.remove(old(self).index_of(peer_id@)),
            !old(self).knows(peer_id@) ==> final(self).peers@ == old(self).peers@,
            !final(self).knows(peer_id@),
            r matches PeerEvent::PeersUpdated(v) && peer_views(v@) == peer_views(final(self).peers@),
    {
        match self.find(peer_id) {
            Some(i) => {
                let ghost before = self.peers@;
                self.peers.remove(i);
                proof {
                    assert forall|a: int, b: int| 0 <= a < b < self.peers@.len() implies (#[trigger] self.peers@[a]).peer_id@ != (#[trigger] self.peers@[b]).peer_id@ by {
                        let a2 = if a < i { a } else { a + 1 };
                        let b2 = if b < i { b } else { b + 1 };
                        assert(self.peers@[a] == before[a2]);
                        assert(self.peers@[b] == before[b2]);
                    }
                    if self.knows(peer_id@) {
                        let k = choose|k: int| 0 <= k < self.peers@.len() && (#[trigger] self.peers@[k]).peer_id@ == peer_id@;
                        let k2 = if k < i { k } else { k + 1 };
                        assert(self.peers@[k] == before[k2]);
                        assert(before[i as int].peer_id@ == peer_id@);
                    }
                }
            },
            None => {},
        }
        self.notify_frontend(None)
    }

    /// The discovery exchange with `peer_id` gave its hostname and system;
    /// the user interface gets the new list.
    pub fn update_peer(&mut self, peer_id: &PeerId, hostname: String, os: OperatingSystem) -> (r: PeerEvent)
        requires
            old(self).wf(),
        ensures
            final(self).wf(),
            final(self).hostname == old(self).hostname && final(self).os == old(self).os,
            final(self).events@ == old(self).events@,
            old(self).knows(peer_id@) ==> {
                let i = old(self).index_of(peer_id@);
                let p = old(self).peers@[i]@;
                peer_views(final(self).peers@) == peer_views(old(self).peers@).update(
                    i,
                    PeerView { hostname: hostname@, os, ..p },
                )
            },
            !old(self).knows(peer_id@) ==> final(self).peers@ == old(self).peers@,
            r matches PeerEvent::PeersUpdated(v) && peer_views(v@) == peer_views(final(self).peers@),
    {
        match self.find(peer_id) {
            Some(i) => {
                let ghost before = self.peers@;
                let old_peer = self.peers.remove(i);
                let updated = Peer { hostname, os, ..old_peer };
                self.peers.insert(i, updated);
                proof {
                    assert(peer_views(self.peers@) =~= peer_views(before).update(i as int, PeerView { hostname: hostname@, os, ..before[i as int]@ }));
                    assert forall|a: int, b: int| 0 <= a < b < self.peers@.len() implies (#[trigger] self.peers@[a]).peer_id@ != (#[trigger] self.peers@[b]).peer_id@ by {
                        assert(self.peers@[a].peer_id@ == before[a].peer_id@);
                        assert(self.peers@[b].peer_id@ == before[b].peer_id@);
                    }
                }
            },
            None => {},
        }
        self.notify_frontend(None)
    }

    /// Sets the address of a known peer.
    fn set_address(&mut self, peer_id: &PeerId, address: String)
        requires
            old(self).wf(),
        ensures
            final(self).wf(),
            final(self).hostname == old(self).hostname && final(self).os == old(self).os,
            final(self).events@ == old(self).events@,
            old(self).knows(peer_id@) ==> {
                let i = old(self).index_of(peer_id@);
                let p = old(self).peers@[i]@;
                peer_views(final(self).peers@) == peer_views(old(self).peers@).update(i, PeerView { address: address@, ..p })
            },
            !old(self).knows(peer_id@) ==> final(self).peers@ == old(self).peers@,
    {
        match self.find(peer_id) {
            Some(i) => {
                let ghost before = self.peers@;
                let old_peer = self.peers.remove(i);
                let updated = Peer { address, ..old_peer };
                self.peers.insert(i, updated);
                proof {
                    assert(peer_views(self.peers@) =~= peer_views(before).update(i as int, PeerView { address: address@, ..before[i as int]@ }));
                    assert forall|a: int, b: int| 0 <= a < b < self.peers@.len() implies (#[trigger] self.peers@[a]).peer_id@ != (#[trigger] self.peers@[b]).peer_id@ by {
                        assert(self.peers@[a].peer_id@ == before[a].peer_id@);
                        assert(self.peers@[b].peer_id@ == before[b].peer_id@);
                    }
                }
            },
            None => {},
        }
    }

    /// A connection to `peer_id` is up. The peer's address becomes the one the
    /// connection gives; where we dialled, our record is to be sent on it.
    pub fn inject_connection_established(&mut self, peer_id: &PeerId, connection: u64, endpoint: ConnectedPoint)
        requires
            old(self).wf(),
        ensures
            final(self).wf(),
            final(self).hostname == old(self).hostname && final(self).os == old(self).os,
            ({
                let address = match endpoint {
                    ConnectedPoint::Dialer(a) => a,
                    ConnectedPoint::Listener(a) => a,
                };
                &&& old(self).knows(peer_id@) ==> {
                    let i = old(self).index_of(peer_id@);
                    peer_views(final(self).peers@) == peer_views(old(self).peers@).update(
                        i,
                        PeerView { address: address@, ..old(self).peers@[i]@ },
                    )
                }
                &&& !old(self).knows(peer_id@) ==> final(self).peers@ == old(self).peers@
            }),
            endpoint is Listener ==> final(self).events@ == old(self).events@,
            endpoint is Dialer ==> {
                &&& final(self).events@.len() == old(self).events@.len() + 1
                &&& final(self).events@.take(old(self).events@.len() as int) == old(self).events@
                &&& final(self).events@.last() matches DiscoveryAction::NotifyHandler(p, c, d)
                    && p@ == peer_id@ && c == connection && d.hostname == old(self).hostname && d.os == old(self).os
            },
    {
        match endpoint {
            ConnectedPoint::Dialer(address) => {
                self.set_address(peer_id, address);
                let ghost before = self.events@;
                let record = Discovery { hostname: self.hostname.clone(), os: self.os };
                self.events.push(DiscoveryAction::NotifyHandler(peer_id.duplicate(), connection, record));
                assert(self.events@.take(before.len() as int) =~= before);
            },
            ConnectedPoint::Listener(address) => {
                self.set_address(peer_id, address);
            },
        }
    }

    /// A message from the handler of a connection to `peer`: a received record
    /// becomes an event for the swarm; the notice that ours was sent is dropped.
    pub fn inject_event(&mut self, peer: PeerId, message: InnerMessage)
        ensures
            final(self).peers@ == old(self).peers@,
            final(self).hostname == old(self).hostname && final(self).os == old(self).os,
            message is Sent ==> final(self).events@ == old(self).events@,
            message matches InnerMessage::Received(d) ==> {
                &&& final(self).events@.len() == old(self).events@.len() + 1
                &&& final(self).events@.take(old(self).events@.len() as int) == old(self).events@
                &&& final(self).events@.last() matches DiscoveryAction::GenerateEvent(p, h, os)
                    && p@ == peer@ && h == d.hostname && os == d.os
            },
    {
        match message {
            InnerMessage::Received(d) => {
                let ghost before = self.events@;
                self.events.push(DiscoveryAction::GenerateEvent(peer, d.hostname, d.os));
                assert(self.events@.take(before.len() as int) =~= before);
            },
            InnerMessage::Sent => {},
        }
    }

    /// The oldest action not yet handed out.
    pub fn poll(&mut self) -> (r: Option<DiscoveryAction>)
        ensures
            final(self).peers@ == old(self).peers@,
            final(self).hostname == old(self).hostname && final(self).os == old(self).os,
            old(self).events@.len() == 0 ==> r is None && final(self).events@ == old(self).events@,
            old(self).events@.len() > 0 ==> r == Some(old(self).events@[0]) && final(self).events@ == old(self).events@.skip(1),
    {
        if self.events.len() == 0 {
            None
        } else {
            let e = self.events.remove(0);
            assert(old(self).events@.skip(1) =~= self.events@);
            Some(e)
        }
    }
}

} // verus!
