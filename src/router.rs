use vstd::prelude::*;

use crate::peer::TransferCommand;

verus! {

/// How long a command that no transfer waits for is kept: 30 s, in milliseconds.
pub const COMMAND_TTL_MS: u64 = 30000;

/// A command that arrived before any transfer waited for its hash.
pub struct ParkedCommand {
    pub command: TransferCommand,
    /// When it arrived, in milliseconds.
    pub at: u64,
}

/// Whether a command that arrived at `at` may still be handed out at `now`.
pub open spec fn fresh(at: u64, now: u64) -> bool {
    now <= at + COMMAND_TTL_MS
}

/// Hands each user decision to the inbound transfer that waits on the hash it
/// names; a decision that no transfer claims within the time to live is dropped.
pub struct CommandRouter {
    /// Hashes of the transfers that wait for a decision.
    pub waiting: Vec<String>,
    /// Decisions that no transfer waited for yet, oldest first.
    pub parked: Vec<ParkedCommand>,
}

impl TransferCommand {
    /// A copy of this command.
    pub fn duplicate(&self) -> (r: TransferCommand)
        ensures
            r == *self,
    {
        match self {
            TransferCommand::Accept(h) => TransferCommand::Accept(h.clone()),
            TransferCommand::Deny(h) => TransferCommand::Deny(h.clone()),
        }
    }
}

impl CommandRouter {
    pub open spec fn waits_for(&self, hash: Seq<char>) -> bool {
        exists|i: int| 0 <= i < self.waiting@.len() && self.waiting@[i]@ == hash
    }

    pub fn new() -> (r: CommandRouter)
        ensures
            r.waiting@.len() == 0,
            r.parked@.len() == 0,
    {
        CommandRouter { waiting: Vec::new(), parked: Vec::new() }
    }

    /// Index of a waiting transfer for `hash`.
    fn find_waiter(&self, hash: &String) -> (r: Option<usize>)
        ensures
            r matches Some(i) ==> i < self.waiting@.len() && self.waiting@[i as int]@ == hash@,
            r is None ==> !self.waits_for(hash@),
    {
        let mut i: usize = 0;
        while i < self.waiting.len()
            invariant
                i <= self.waiting@.len(),
                forall|j: int| 0 <= j < i ==> self.waiting@[j]@ != hash@,
            decreases self.waiting@.len() - i,
        {
            if self.waiting[i] == *hash {
                return Some(i);
            }
            i = i + 1;
        }
        None
    }

    /// Drops every parked command older than the time to live at `now`,
    /// keeping the others in order.
    pub fn expire(&mut self, now: u64)
        ensures
            final(self).waiting@ == old(self).waiting@,
            final(self).parked@ == old(self).parked@.filter(fresh_at(now)),
    {
        let mut kept: Vec<ParkedCommand> = Vec::new();
        let mut i: usize = 0;
        while i < self.parked.len()
            invariant
                i <= self.parked@.len(),
                kept@ == self.parked@.take(i as int).filter(fresh_at(now)),
            decreases self.parked@.len() - i,
        {
            let at = self.parked[i].at;
            proof {
                assert(self.parked@.take(i + 1).drop_last() =~= self.parked@.take(i as int));
                reveal(Seq::filter);
            }
            if now <= at || now - at <= COMMAND_TTL_MS {
                let c = self.parked[i].command.duplicate();
                kept.push(ParkedCommand { command: c, at });
            }
            i = i + 1;
        }
        assert(self.parked@.take(self.parked@.len() as int) =~= self.parked@);
        self.parked = kept;
    }

    /// A user decision that arrived at `now`. It goes to the transfer waiting
    /// on its hash, which stops waiting; with no such transfer it is parked.
    pub fn on_command(&mut self, cmd: TransferCommand, now: u64) -> (r: Option<TransferCommand>)
        ensures
            old(self).waits_for(cmd.hash_view()) ==> r == Some(cmd) && final(self).parked@ == old(self).parked@
                && final(self).waiting@.len() == old(self).waiting@.len() - 1,
            !old(self).waits_for(cmd.hash_view()) ==> r is None && final(self).waiting@ == old(self).waiting@
                && final(self).parked@ == old(self).parked@.push(ParkedCommand { command: cmd, at: now }),
    {
        let h = cmd.hash().clone();
        match self.find_waiter(&h) {
            Some(i) => {
                self.waiting.remove(i);
                Some(cmd)
            },
            None => {
                self.parked.push(ParkedCommand { command: cmd, at: now });
                None
            },
        }
    }

    /// A transfer starts waiting, at `now`, for a decision on `hash`. Stale
    /// parked decisions are dropped first; the oldest fresh one for `hash` is
    /// handed out at once, else the transfer is put among the waiting.
    pub fn wait_for(&mut self, hash: String, now: u64) -> (r: Option<TransferCommand>)
        ensures
            ({
                let e = old(self).parked@.filter(fresh_at(now));
                &&& r is None ==> final(self).parked@ == e && final(self).waiting@ == old(self).waiting@.push(hash)
                    && forall|j: int| 0 <= j < e.len() ==> (#[trigger] e[j]).command.hash_view() != hash@
                &&& r matches Some(c) ==> final(self).waiting@ == old(self).waiting@ && exists|i: int|
                    0 <= i < e.len() && e[i].command == c && c.hash_view() == hash@ && final(self).parked@ == e.remove(i)
                        && forall|j: int| 0 <= j < i ==> (#[trigger] e[j]).command.hash_view() != hash@
            }),
    {
        self.expire(now);
        let mut i: usize = 0;
        while i < self.parked.len()
            invariant
                i <= self.parked@.len(),
                self.waiting@ == old(self).waiting@,
                self.parked@ == old(self).parked@.filter(fresh_at(now)),
                forall|j: int| 0 <= j < i ==> (#[trigger] self.parked@[j]).command.hash_view() != hash@,
            decreases self.parked@.len() - i,
        {
            if *self.parked[i].command.hash() == hash {
                let p = self.parked.remove(i);
                return Some(p.command);
            }
            i = i + 1;
        }
        self.waiting.push(hash);
        None
    }
}

/// The predicate that keeps the commands still fresh at `now`.
pub open spec fn fresh_at(now: u64) -> spec_fn(ParkedCommand) -> bool {
    |p: ParkedCommand| fresh(p.at, now)
}

/// A decision handed to a waiting transfer is one that arrived no longer than
/// the time to live before, naming the hash that the transfer waits on: a
/// decision that no transfer claims in that time never reaches a later one.
pub proof fn lemma_no_stale_delivery(parked: Seq<ParkedCommand>, now: u64, i: int)
    requires
        0 <= i < parked.filter(fresh_at(now)).len(),
    ensures
        fresh(parked.filter(fresh_at(now))[i].at, now),
        parked.contains(parked.filter(fresh_at(now))[i]),
{
    parked.filter_lemma(fresh_at(now));
    let e = parked.filter(fresh_at(now));
    assert(fresh_at(now)(e[i]));
    assert(e.contains(e[i]));
    parked.lemma_filter_contains_rev(fresh_at(now), e[i]);
}

} // verus!
