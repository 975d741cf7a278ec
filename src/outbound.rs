use vstd::prelude::*;

use crate::codec::{encode_metadata, metadata_bytes, Metadata};
use crate::inbound::{InboundPhase, TransferPayload, Step};
use crate::peer::{Direction, PeerEvent, TransferError, TransferType};
use crate::progress::{
    is_progress, lemma_progress_run_push, lemma_progress_run_widen, progress_done,
    progress_run, progress_total, time_to_notify,
};
use crate::util::{hash_contents, sha1_hex};

verus! {

/// Where a payload that this host sends stands.
#[derive(Debug, Clone, Copy, PartialEq, Eq, Structural)]
pub enum OutboundPhase {
    /// Not announced yet.
    Created,
    /// The metadata went out; the receiver's answer is awaited.
    AwaitAnswer,
    /// Accepted: the payload's bytes go out.
    Streaming,
    /// Every byte went out.
    Completed,
    /// The receiver refused the payload.
    Rejected,
    /// The transfer broke.
    Failed(TransferError),
}

/// Events of a finished outbound transfer: `WaitingForAnswer`, then either
/// `TransferRejected`, or progress reports and `TransferCompleted`.
pub open spec fn outbound_order(log: Seq<PeerEvent>) -> bool {
    &&& log.len() >= 2
    &&& log[0] is WaitingForAnswer
    &&& {
        ||| log.len() == 2 && log[1] is TransferRejected
        ||| log.last() is TransferCompleted && forall|i: int|
            0 < i < log.len() - 1 ==> is_progress(#[trigger] log[i], Direction::Outgoing)
    }
}

/// A payload that this host sends, from its announcement to its last byte.
pub struct TransferOut {
    pub meta: Metadata,
    pub contents: Vec<u8>,
    pub phase: OutboundPhase,
    /// Bytes sent so far.
    pub done: u64,
    /// Bytes sent since the last progress report.
    pub unreported: u64,
    /// Bytes of the payload handed to the substream so far.
    pub sent: Ghost<Seq<u8>>,
    /// Events emitted so far.
    pub log: Ghost<Seq<PeerEvent>>,
}

impl TransferOut {
    pub open spec fn wf(&self) -> bool {
        &&& self.meta.size == self.contents@.len()
        &&& self.meta.hash@ == sha1_hex(self.contents@)
        &&& self.done <= self.meta.size
        &&& self.unreported <= self.done
        &&& self.sent@ == self.contents@.take(self.done as int)
        &&& match self.phase {
            OutboundPhase::Created => self.log@.len() == 0 && self.done == 0,
            OutboundPhase::AwaitAnswer => self.log@ == seq![PeerEvent::WaitingForAnswer] && self.done == 0,
            OutboundPhase::Streaming => {
                &&& self.log@.len() >= 1
                &&& self.log@[0] is WaitingForAnswer
                &&& progress_run(self.log@, 1, self.log@.len() as int, Direction::Outgoing, self.meta.size, self.done)
            },
            OutboundPhase::Completed => {
                &&& self.done == self.meta.size
                &&& self.log@.len() >= 3
                &&& self.log@[0] is WaitingForAnswer
                &&& progress_run(self.log@, 1, self.log@.len() - 1, Direction::Outgoing, self.meta.size, self.meta.size)
                &&& progress_done(self.log@[self.log@.len() - 2]) == self.meta.size
                &&& self.log@.last() is TransferCompleted
            },
            OutboundPhase::Rejected => self.log@ == seq![PeerEvent::WaitingForAnswer, PeerEvent::TransferRejected],
            OutboundPhase::Failed(_) => true,
        }
    }

    /// A transfer of `contents` under `name`; the hash and size are those of
    /// the contents.
    pub fn new(name: String, transfer_type: TransferType, contents: Vec<u8>) -> (r: TransferOut)
        ensures
            r.wf(),
            r.phase == OutboundPhase::Created,
            r.done == 0,
            r.meta.name == name,
            r.meta.hash@ == sha1_hex(contents@),
            r.meta.size == contents@.len(),
            r.meta.transfer_type == transfer_type,
            r.contents@ == contents@,
    {
        let hash = hash_contents(&contents);
        let size = contents.len() as u64;
        let t = TransferOut {
            meta: Metadata { name, hash, size, transfer_type },
            contents,
            phase: OutboundPhase::Created,
            done: 0,
            unreported: 0,
            sent: Ghost(Seq::empty()),
            log: Ghost(Seq::empty()),
        };
        assert(t.contents@.take(0) =~= Seq::<u8>::empty());
        t
    }

    /// Announces the payload: the metadata goes out and the user is told that
    /// the receiver's answer is awaited.
    pub fn start(&mut self) -> (r: Step)
        requires
            old(self).wf(),
            old(self).phase == OutboundPhase::Created,
        ensures
            final(self).wf(),
            final(self).meta == old(self).meta,
            final(self).contents@ == old(self).contents@,
            final(self).phase == OutboundPhase::AwaitAnswer,
            final(self).done == old(self).done,
            final(self).log@ == old(self).log@ + r.events@,
            r.events@ == seq![PeerEvent::WaitingForAnswer],
            r.send@ == metadata_bytes(old(self).meta@),
            !r.write && !r.verify && !r.delete && !r.close,
    {
        let mut step = Step::quiet();
        step.send = encode_metadata(&self.meta);
        step.events.push(PeerEvent::WaitingForAnswer);
        self.phase = OutboundPhase::AwaitAnswer;
        self.log = Ghost(self.log@ + step.events@);
        assert(self.log@ =~= seq![PeerEvent::WaitingForAnswer]);
        step
    }

    /// The receiver's answer. A refusal ends the transfer; an accept that
    /// echoes another hash than the one sent is taken as a broken stream; an
    /// accept of ours starts the payload.
    pub fn on_answer(&mut self, accepted: bool, echo: &String) -> (r: Step)
        requires
            old(self).wf(),
            old(self).phase == OutboundPhase::AwaitAnswer,
        ensures
            final(self).wf(),
            final(self).meta == old(self).meta,
            final(self).contents@ == old(self).contents@,
            final(self).done == old(self).done,
            final(self).log@ == old(self).log@ + r.events@,
            r.send@.len() == 0,
            !r.write && !r.verify && !r.delete,
            !accepted ==> final(self).phase == OutboundPhase::Rejected && r.events@ == seq![PeerEvent::TransferRejected] && r.close,
            accepted && echo@ != old(self).meta.hash@ ==> final(self).phase == OutboundPhase::Failed(TransferError::Transport)
                && r.events@.len() == 1 && r.events@[0] is Error && r.close,
            accepted && echo@ == old(self).meta.hash@ ==> final(self).phase == OutboundPhase::Streaming
                && r.events@.len() == 0 && !r.close,
    {
        let mut step = Step::quiet();
        if !accepted {
            step.events.push(PeerEvent::TransferRejected);
            step.close = true;
            self.phase = OutboundPhase::Rejected;
        } else if *echo != self.meta.hash {
            step.events.push(PeerEvent::Error(TransferError::Transport.describe()));
            step.close = true;
            self.phase = OutboundPhase::Failed(TransferError::Transport);
        } else {
            self.phase = OutboundPhase::Streaming;
        }
        self.log = Ghost(self.log@ + step.events@);
        proof {
            if self.phase == OutboundPhase::Streaming {
                assert(self.log@ =~= old(self).log@);
            }
            if self.phase == OutboundPhase::Rejected {
                assert(self.log@ =~= seq![PeerEvent::WaitingForAnswer, PeerEvent::TransferRejected]);
            }
        }
        step
    }

    /// The next piece of the payload, of at most `max` bytes, to be written on
    /// the substream, with a progress report whenever enough bytes have passed.
    /// Once every byte is out, the last report and `TransferCompleted` follow
    /// and the substream is to be closed.
    pub fn next_chunk(&mut self, max: usize) -> (r: Step)
        requires
            old(self).wf(),
            old(self).phase == OutboundPhase::Streaming,
            max > 0,
        ensures
            final(self).wf(),
            final(self).meta == old(self).meta,
            final(self).contents@ == old(self).contents@,
            final(self).log@ == old(self).log@ + r.events@,
            !r.write && !r.verify && !r.delete,
            if old(self).done < old(self).meta.size {
                &&& final(self).phase == OutboundPhase::Streaming
                &&& final(self).done > old(self).done
                &&& r.send@ == old(self).contents@.subrange(old(self).done as int, final(self).done as int)
                &&& r.send@.len() <= max
                &&& !r.close
                &&& r.events@.len() <= 1
                &&& r.events@.len() == 1 ==> r.events@[0] == PeerEvent::TransferProgress(
                    final(self).done, old(self).meta.size, Direction::Outgoing)
            } else {
                &&& final(self).phase == OutboundPhase::Completed
                &&& r.send@.len() == 0
                &&& r.close
                &&& r.events@ == seq![
                    PeerEvent::TransferProgress(old(self).meta.size, old(self).meta.size, Direction::Outgoing),
                    PeerEvent::TransferCompleted,
                ]
            },
    {
        let mut step = Step::quiet();
        let ghost old_log = self.log@;
        let ghost old_done = self.done;
        if self.done == self.meta.size {
            step.events.push(PeerEvent::TransferProgress(self.done, self.meta.size, Direction::Outgoing));
            step.events.push(PeerEvent::TransferCompleted);
            step.close = true;
            self.phase = OutboundPhase::Completed;
            self.log = Ghost(self.log@ + step.events@);
            proof {
                lemma_progress_run_push(old_log, 1, Direction::Outgoing, self.meta.size, self.done, self.done);
                let l1 = old_log.push(PeerEvent::TransferProgress(self.done, self.meta.size, Direction::Outgoing));
                assert(self.log@ =~= l1.push(PeerEvent::TransferCompleted));
                assert forall|i: int| 1 <= i < self.log@.len() - 1 implies self.log@[i] == l1[i] by {}
                assert forall|i: int| 0 <= i < l1.len() implies self.log@[i] == l1[i] by {}
            }
            return step;
        }
        let start = self.done as usize;
        let left = self.contents.len() - start;
        let take = if left < max { left } else { max };
        let end = start + take;
        let mut chunk: Vec<u8> = Vec::new();
        let mut i: usize = start;
        while i < end
            invariant
                start <= i <= end <= self.contents@.len(),
                chunk@ == self.contents@.subrange(start as int, i as int),
            decreases end - i,
        {
            chunk.push(self.contents[i]);
            i = i + 1;
            assert(chunk@ =~= self.contents@.subrange(start as int, i as int));
        }
        let n = take as u64;
        self.done = self.done + n;
        self.unreported = self.unreported + n;
        self.sent = Ghost(self.contents@.take(self.done as int));
        step.send = chunk;
        if time_to_notify(self.unreported, self.meta.size) {
            step.events.push(PeerEvent::TransferProgress(self.done, self.meta.size, Direction::Outgoing));
            self.unreported = 0;
            proof {
                lemma_progress_run_push(old_log, 1, Direction::Outgoing, self.meta.size, old_done, self.done);
            }
        } else {
            proof {
                lemma_progress_run_widen(old_log, 1, old_log.len() as int, Direction::Outgoing, self.meta.size, old_done, self.done);
            }
        }
        self.log = Ghost(self.log@ + step.events@);
        proof {
            if step.events@.len() == 1 {
                assert(self.log@ =~= old_log.push(PeerEvent::TransferProgress(self.done, self.meta.size, Direction::Outgoing)));
            } else {
                assert(self.log@ =~= old_log);
            }
        }
        step
    }
}

/// The progress reports of a sent payload never go back, never pass the
/// total, and the last before `TransferCompleted` reports the whole payload.
pub proof fn lemma_outbound_progress(t: TransferOut)
    requires
        t.wf(),
        t.phase == OutboundPhase::Streaming || t.phase == OutboundPhase::Completed,
    ensures
        forall|i: int, j: int|
            0 < i <= j < t.log@.len() && is_progress(t.log@[i], Direction::Outgoing) && is_progress(
                t.log@[j],
                Direction::Outgoing,
            ) ==> progress_done(t.log@[i]) <= progress_done(t.log@[j]) && progress_done(t.log@[j])
                <= progress_total(t.log@[j]) && progress_total(t.log@[j]) == t.meta.size,
        t.phase == OutboundPhase::Completed ==> progress_done(t.log@[t.log@.len() - 2]) == t.meta.size
            && is_progress(t.log@[t.log@.len() - 2], Direction::Outgoing),
{
    if t.phase == OutboundPhase::Completed {
        assert forall|i: int, j: int|
            0 < i <= j < t.log@.len() && is_progress(t.log@[i], Direction::Outgoing) && is_progress(
                t.log@[j],
                Direction::Outgoing,
            ) implies progress_done(t.log@[i]) <= progress_done(t.log@[j]) && progress_done(t.log@[j])
                <= progress_total(t.log@[j]) && progress_total(t.log@[j]) == t.meta.size by {
            assert(j < t.log@.len() - 1);
        }
        assert(is_progress(t.log@[t.log@.len() - 2], Direction::Outgoing));
    }
}

/// A finished outbound transfer emitted `WaitingForAnswer`, then either
/// `TransferRejected`, or progress reports and `TransferCompleted`.
pub proof fn lemma_outbound_event_order(t: TransferOut)
    requires
        t.wf(),
        t.phase == OutboundPhase::Completed || t.phase == OutboundPhase::Rejected,
    ensures
        outbound_order(t.log@),
{
}

/// A payload that was sent whole and received over a stream that carried its
/// bytes and its hash unchanged was written whole to the receiver's file, and
/// the receiver reports it correct exactly when the file it read back hashes
/// as the sent bytes do.
pub proof fn lemma_round_trip(out: TransferOut, inb: TransferPayload)
    requires
        out.wf(),
        out.phase == OutboundPhase::Completed,
        inb.wf(),
        inb.phase == InboundPhase::Done,
        inb.written@ == out.sent@,
        inb.meta.hash@ == out.meta.hash@,
    ensures
        inb.written@ == out.contents@,
        inb.log@.last() is FileCorrect <==> sha1_hex(inb.checked@) == sha1_hex(out.contents@),
        inb.checked@ == inb.written@ ==> inb.log@.last() is FileCorrect,
{
    assert(out.contents@.take(out.meta.size as int) =~= out.contents@);
}

} // verus!
