use vstd::prelude::*;

use crate::peer::{FileToSend, PeerId};

verus! {

/// Wait before the first retry of a dial, in milliseconds.
pub const FIRST_DIAL_DELAY_MS: u64 = 100;

/// Longest wait between two dials of one peer, in milliseconds.
pub const MAX_DIAL_DELAY_MS: u64 = 5000;

/// Whether some identifier in `v` is `id`.
pub open spec fn holds_id(v: Seq<PeerId>, id: Seq<u8>) -> bool {
    exists|i: int| 0 <= i < v.len() && (#[trigger] v[i])@ == id
}

/// No identifier stands twice in `v`.
pub open spec fn distinct(v: Seq<PeerId>) -> bool {
    forall|i: int, j: int| 0 <= i < j < v.len() ==> (#[trigger] v[i])@ != (#[trigger] v[j])@
}

/// Whether `id` is in `v`.
pub fn contains_id(v: &Vec<PeerId>, id: &PeerId) -> (r: bool)
    ensures
        r == holds_id(v@, id@),
{
    let mut i: usize = 0;
    while i < v.len()
        invariant
            i <= v@.len(),
            forall|j: int| 0 <= j < i ==> (#[trigger] v@[j])@ != id@,
        decreases v@.len() - i,
    {
        if v[i].same(id) {
            return true;
        }
        i = i + 1;
    }
    false
}

/// Adds `id` to `v` unless it is there.
pub fn add_id(v: &mut Vec<PeerId>, id: &PeerId)
    requires
        distinct(old(v)@),
    ensures
        distinct(final(v)@),
        forall|x: Seq<u8>| #[trigger] holds_id(final(v)@, x) <==> holds_id(old(v)@, x) || x == id@,
{
    if !contains_id(v, id) {
        let ghost before = v@;
        v.push(id.duplicate());
        proof {
            assert forall|x: Seq<u8>| #[trigger] holds_id(v@, x) <==> holds_id(before, x) || x == id@ by {
                if holds_id(before, x) {
                    let i = choose|i: int| 0 <= i < before.len() && (#[trigger] before[i])@ == x;
                    assert(v@[i] == before[i]);
                }
                if x == id@ {
                    assert(v@[before.len() as int]@ == x);
                }
                if holds_id(v@, x) {
                    let i = choose|i: int| 0 <= i < v@.len() && (#[trigger] v@[i])@ == x;
                    if i < before.len() {
                        assert(v@[i] == before[i]);
                    }
                }
            }
            assert forall|i: int, j: int| 0 <= i < j < v@.len() implies (#[trigger] v@[i])@ != (#[trigger] v@[j])@ by {
                if j < before.len() {
                    assert(v@[i] == before[i]);
                    assert(v@[j] == before[j]);
                } else {
                    assert(v@[i] == before[i]);
                }
            }
        }
    }
}

/// Takes `id` out of `v`.
pub fn remove_id(v: &mut Vec<PeerId>, id: &PeerId)
    requires
        distinct(old(v)@),
    ensures
        distinct(final(v)@),
        forall|x: Seq<u8>| #[trigger] holds_id(final(v)@, x) <==> holds_id(old(v)@, x) && x != id@,
{
    let mut i: usize = 0;
    while i < v.len()
        invariant
            i <= v@.len(),
            v@ == old(v)@,
            distinct(v@),
            forall|j: int| 0 <= j < i ==> (#[trigger] v@[j])@ != id@,
        decreases v@.len() - i,
    {
        if v[i].same(id) {
            let ghost before = v@;
            v.remove(i);
            proof {
                assert(before[i as int]@ == id@);
                assert forall|x: Seq<u8>| #[trigger] holds_id(v@, x) <==> holds_id(before, x) && x != id@ by {
                    if holds_id(v@, x) {
                        let k = choose|k: int| 0 <= k < v@.len() && (#[trigger] v@[k])@ == x;
                        if k < i {
                            assert(v@[k] == before[k]);
                            assert(before[k]@ != id@);
                        } else {
                            assert(v@[k] == before[k + 1]);
                            assert(before[i as int]@ != before[k + 1]@);
                        }
                        assert(before[if k < i { k } else { k + 1 }]@ == x);
                    }
                    if holds_id(before, x) && x != id@ {
                        let k = choose|k: int| 0 <= k < before.len() && (#[trigger] before[k])@ == x;
                        if k < i {
                            assert(v@[k] == before[k]);
                        } else {
                            assert(k != i);
                            assert(v@[k - 1] == before[k]);
                        }
                    }
                }
                assert forall|a: int, b: int| 0 <= a < b < v@.len() implies (#[trigger] v@[a])@ != (#[trigger] v@[b])@ by {
                    let a2 = if a < i { a } else { a + 1 };
                    let b2 = if b < i { b } else { b + 1 };
                    assert(v@[a] == before[a2]);
                    assert(v@[b] == before[b2]);
                    assert(before[a2]@ != before[b2]@);
                }
            }
            return;
        }
        i = i + 1;
    }
    proof {
        assert forall|x: Seq<u8>| #[trigger] holds_id(v@, x) <==> holds_id(old(v)@, x) && x != id@ by {
            if holds_id(v@, x) {
                let k = choose|k: int| 0 <= k < v@.len() && (#[trigger] v@[k])@ == x;
            }
        }
    }
}

/// When a peer was last dialled, and how long to wait before the next dial.
pub struct Retry {
    pub peer: PeerId,
    pub last_at: u64,
    pub delay: u64,
}

/// The wait after one of `delay`: twice as long, up to the longest wait.
pub open spec fn next_delay(delay: u64) -> u64 {
    if delay >= MAX_DIAL_DELAY_MS / 2 {
        MAX_DIAL_DELAY_MS
    } else {
        (delay * 2) as u64
    }
}

/// Whether a peer last dialled at `last_at`, to wait `delay`, may be dialled at `now`.
pub open spec fn due(last_at: u64, delay: u64, now: u64) -> bool {
    now < last_at || now - last_at >= delay
}

/// Whether the first dial record for `id` in `retries`, if there is one,
/// allows a dial at `now`.
pub open spec fn retry_due(retries: Seq<Retry>, id: Seq<u8>, now: u64) -> bool {
    forall|k: int|
        0 <= k < retries.len() && (#[trigger] retries[k]).peer@ == id && (forall|j: int|
            0 <= j < k ==> (#[trigger] retries[j]).peer@ != id) ==> due(retries[k].last_at, retries[k].delay, now)
}

/// What the scheduler asks of the network.
pub enum TransferAction {
    /// Open a substream to the payload's peer and send it.
    Send(FileToSend),
    /// Dial a peer that a queued payload waits for.
    Dial(PeerId),
}

/// Pairs queued payloads with connected peers: at most one transfer per peer
/// at a time, and the payloads for one peer in the order they were queued.
pub struct TransferBehaviour {
    /// Peers known from discovery.
    pub peers: Vec<PeerId>,
    /// Peers with a live connection.
    pub connected_peers: Vec<PeerId>,
    /// Payloads not yet sent, oldest first.
    pub payloads: Vec<FileToSend>,
    /// Peers with an outbound transfer under way.
    pub busy: Vec<PeerId>,
    /// Dial history of the peers that queued payloads wait for.
    pub retries: Vec<Retry>,
}

impl TransferBehaviour {
    pub open spec fn wf(&self) -> bool {
        &&& distinct(self.peers@)
        &&& distinct(self.connected_peers@)
        &&& distinct(self.busy@)
    }

    /// Whether a payload for `id` can start now.
    pub open spec fn ready(&self, id: Seq<u8>) -> bool {
        holds_id(self.connected_peers@, id) && !holds_id(self.busy@, id)
    }

    /// Whether a payload for `id` calls for a dial.
    pub open spec fn dialable(&self, id: Seq<u8>) -> bool {
        holds_id(self.peers@, id) && !holds_id(self.connected_peers@, id)
    }

    pub fn new() -> (r: TransferBehaviour)
        ensures
            r.wf(),
            r.peers@.len() == 0 && r.connected_peers@.len() == 0 && r.busy@.len() == 0,
            r.payloads@.len() == 0,
    {
        TransferBehaviour {
            peers: Vec::new(),
            connected_peers: Vec::new(),
            payloads: Vec::new(),
            busy: Vec::new(),
            retries: Vec::new(),
        }
    }

    /// Queues a payload behind those already queued.
    pub fn push_file(&mut self, file: FileToSend)
        ensures
            final(self).payloads@ == old(self).payloads@.push(file),
            final(self).peers@ == old(self).peers@,
            final(self).connected_peers@ == old(self).connected_peers@,
            final(self).busy@ == old(self).busy@,
    {
        self.payloads.push(file);
    }

    /// Discovery learnt of a peer.
    pub fn add_peer(&mut self, peer: &PeerId)
        requires
            old(self).wf(),
        ensures
            final(self).wf(),
            forall|x: Seq<u8>| #[trigger] holds_id(final(self).peers@, x) <==> holds_id(old(self).peers@, x) || x == peer@,
            final(self).connected_peers@ == old(self).connected_peers@,
            final(self).busy@ == old(self).busy@,
            final(self).payloads@ == old(self).payloads@,
    {
        add_id(&mut self.peers, peer);
    }

    /// Discovery lost a peer.
    pub fn remove_peer(&mut self, peer: &PeerId)
        requires
            old(self).wf(),
        ensures
            final(self).wf(),
            forall|x: Seq<u8>| #[trigger] holds_id(final(self).peers@, x) <==> holds_id(old(self).peers@, x) && x != peer@,
            forall|x: Seq<u8>| #[trigger] holds_id(final(self).connected_peers@, x) <==> holds_id(old(self).connected_peers@, x) && x != peer@,
            final(self).busy@ == old(self).busy@,
            final(self).payloads@ == old(self).payloads@,
    {
        remove_id(&mut self.peers, peer);
        remove_id(&mut self.connected_peers, peer);
    }

    /// A connection to `peer` was established: it is known and connected, and
    /// its dial history is cleared.
    pub fn inject_connected(&mut self, peer: &PeerId)
        requires
            old(self).wf(),
        ensures
            final(self).wf(),
            forall|x: Seq<u8>| #[trigger] holds_id(final(self).peers@, x) <==> holds_id(old(self).peers@, x) || x == peer@,
            forall|x: Seq<u8>| #[trigger] holds_id(final(self).connected_peers@, x) <==> holds_id(old(self).connected_peers@, x) || x == peer@,
            final(self).busy@ == old(self).busy@,
            final(self).payloads@ == old(self).payloads@,
    {
        add_id(&mut self.peers, peer);
        add_id(&mut self.connected_peers, peer);
        let ghost peers = self.peers@;
        let ghost connected = self.connected_peers@;
        let ghost busy = self.busy@;
        let ghost payloads = self.payloads@;
        let mut i: usize = 0;
        while i < self.retries.len()
            invariant
                i <= self.retries@.len(),
                self.peers@ == peers,
                self.connected_peers@ == connected,
                self.busy@ == busy,
                self.payloads@ == payloads,
            decreases self.retries@.len() - i,
        {
            if self.retries[i].peer.same(peer) {
                self.retries.remove(i);
            } else {
                i = i + 1;
            }
        }
    }

    /// A dial of `peer` failed: it is not connected.
    pub fn inject_dial_failure(&mut self, peer: &PeerId)
        requires
            old(self).wf(),
        ensures
            final(self).wf(),
            final(self).peers@ == old(self).peers@,
            forall|x: Seq<u8>| #[trigger] holds_id(final(self).connected_peers@, x) <==> holds_id(old(self).connected_peers@, x) && x != peer@,
            final(self).busy@ == old(self).busy@,
            final(self).payloads@ == old(self).payloads@,
    {
        remove_id(&mut self.connected_peers, peer);
    }

    /// The connection to `peer` closed: it is neither connected nor known
    /// until discovery sees it again.
    pub fn inject_disconnected(&mut self, peer: &PeerId)
        requires
            old(self).wf(),
        ensures
            final(self).wf(),
            forall|x: Seq<u8>| #[trigger] holds_id(final(self).peers@, x) <==> holds_id(old(self).peers@, x) && x != peer@,
            forall|x: Seq<u8>| #[trigger] holds_id(final(self).connected_peers@, x) <==> holds_id(old(self).connected_peers@, x) && x != peer@,
            final(self).busy@ == old(self).busy@,
            final(self).payloads@ == old(self).payloads@,
    {
        self.remove_peer(peer);
    }

    /// The transfer to `peer` reached its end, whichever way: the next payload
    /// for it may start.
    pub fn transfer_finished(&mut self, peer: &PeerId)
        requires
            old(self).wf(),
        ensures
            final(self).wf(),
            forall|x: Seq<u8>| #[trigger] holds_id(final(self).busy@, x) <==> holds_id(old(self).busy@, x) && x != peer@,
            final(self).peers@ == old(self).peers@,
            final(self).connected_peers@ == old(self).connected_peers@,
            final(self).payloads@ == old(self).payloads@,
    {
        remove_id(&mut self.busy, peer);
    }

    /// Index of the first dial record for `id`.
    fn find_retry(&self, id: &PeerId) -> (r: Option<usize>)
        ensures
            r matches Some(k) ==> k < self.retries@.len() && self.retries@[k as int].peer@ == id@
                && forall|j: int| 0 <= j < k ==> (#[trigger] self.retries@[j]).peer@ != id@,
            r is None ==> forall|j: int| 0 <= j < self.retries@.len() ==> (#[trigger] self.retries@[j]).peer@ != id@,
    {
        let mut i: usize = 0;
        while i < self.retries.len()
            invariant
                i <= self.retries@.len(),
                forall|j: int| 0 <= j < i ==> (#[trigger] self.retries@[j]).peer@ != id@,
            decreases self.retries@.len() - i,
        {
            if self.retries[i].peer.same(id) {
                return Some(i);
            }
            i = i + 1;
        }
        None
    }

    /// The next thing to do at `now`, in milliseconds. The oldest payload whose
    /// peer is connected and has no transfer under way is sent, and its peer
    /// becomes busy. Failing that, the peer of the oldest payload that waits on
    /// a known but unconnected peer whose dial wait has run out is dialled:
    /// at once the first time, then after 100 ms, doubling up to 5 s.
    /// Payloads for peers neither known nor connected stay queued.
    pub fn poll(&mut self, now: u64) -> (r: Option<TransferAction>)
        requires
            old(self).wf(),
        ensures
            final(self).wf(),
            final(self).peers@ == old(self).peers@,
            final(self).connected_peers@ == old(self).connected_peers@,
            match r {
                Some(TransferAction::Send(f)) => exists|i: int|
                    0 <= i < old(self).payloads@.len() && f == old(self).payloads@[i]
                        && old(self).ready(f.peer@)
                        && final(self).payloads@ == old(self).payloads@.remove(i)
                        && (forall|j: int| 0 <= j < i ==> !old(self).ready((#[trigger] old(self).payloads@[j]).peer@))
                        && (forall|x: Seq<u8>| #[trigger] holds_id(final(self).busy@, x) <==> holds_id(old(self).busy@, x) || x == f.peer@),
                Some(TransferAction::Dial(id)) => {
                    &&& final(self).payloads@ == old(self).payloads@
                    &&& final(self).busy@ == old(self).busy@
                    &&& forall|j: int| 0 <= j < old(self).payloads@.len() ==> !old(self).ready((#[trigger] old(self).payloads@[j]).peer@)
                    &&& exists|i: int| 0 <= i < old(self).payloads@.len() && old(self).payloads@[i].peer@ == id@
                    &&& old(self).dialable(id@) && retry_due(old(self).retries@, id@, now)
                },
                None => {
                    &&& final(self).payloads@ == old(self).payloads@
                    &&& final(self).busy@ == old(self).busy@
                    &&& forall|j: int| 0 <= j < old(self).payloads@.len() ==> !old(self).ready((#[trigger] old(self).payloads@[j]).peer@)
                        && !(old(self).dialable(old(self).payloads@[j].peer@) && retry_due(old(self).retries@, old(self).payloads@[j].peer@, now))
                },
            },
    {
        let mut i: usize = 0;
        while i < self.payloads.len()
            invariant
                self.wf(),
                *self == *old(self),
                i <= self.payloads@.len(),
                forall|j: int| 0 <= j < i ==> !self.ready((#[trigger] self.payloads@[j]).peer@),
            decreases self.payloads@.len() - i,
        {
            let ready = contains_id(&self.connected_peers, &self.payloads[i].peer) && !contains_id(&self.busy, &self.payloads[i].peer);
            if ready {
                let f = self.payloads.remove(i);
                add_id(&mut self.busy, &f.peer);
                return Some(TransferAction::Send(f));
            }
            i = i + 1;
        }
        let mut i: usize = 0;
        while i < self.payloads.len()
            invariant
                self.wf(),
                *self == *old(self),
                i <= self.payloads@.len(),
                forall|j: int| 0 <= j < self.payloads@.len() ==> !self.ready((#[trigger] self.payloads@[j]).peer@),
                forall|j: int| 0 <= j < i ==> !(self.dialable((#[trigger] self.payloads@[j]).peer@) && retry_due(self.retries@, self.payloads@[j].peer@, now)),
            decreases self.payloads@.len() - i,
        {
            let p = self.payloads[i].peer.duplicate();
            if contains_id(&self.peers, &p) && !contains_id(&self.connected_peers, &p) {
                match self.find_retry(&p) {
                    None => {
                        self.retries.push(Retry { peer: p.duplicate(), last_at: now, delay: FIRST_DIAL_DELAY_MS });
                        return Some(TransferAction::Dial(p));
                    },
                    Some(k) => {
                        let last_at = self.retries[k].last_at;
                        let delay = self.retries[k].delay;
                        if now < last_at || now - last_at >= delay {
                            let next = if delay >= MAX_DIAL_DELAY_MS / 2 {
                                MAX_DIAL_DELAY_MS
                            } else {
                                delay * 2
                            };
                            self.retries.set(k, Retry { peer: p.duplicate(), last_at: now, delay: next });
                            return Some(TransferAction::Dial(p));
                        }
                    },
                }
            }
            i = i + 1;
        }
        None
    }
}

} // verus!
