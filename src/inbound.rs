use vstd::prelude::*;

use crate::codec::{answer_bytes, encode_answer, Metadata};
use crate::peer::{Direction, Payload, PeerEvent, TransferCommand, TransferError};
use crate::progress::{
    is_progress, lemma_progress_run_push, lemma_progress_run_widen, progress_done, progress_run, progress_total,
    time_to_notify,
};
use crate::util::{payload_matches, sha1_hex};

verus! {

/// What the task that drives a transfer does after one step of it.
pub struct Step {
    /// Events for the user interface, in order.
    pub events: Vec<PeerEvent>,
    /// Bytes to write on the substream.
    pub send: Vec<u8>,
    /// Whether the chunk just handed in is to be appended to the file.
    pub write: bool,
    /// Whether the file is to be read back and handed to `on_file_read`.
    pub verify: bool,
    /// Whether the partial file is to be removed.
    pub delete: bool,
    /// Whether the substream is to be closed.
    pub close: bool,
}

impl Step {
    pub fn quiet() -> (r: Step)
        ensures
            r.events@.len() == 0,
            r.send@.len() == 0,
            !r.write && !r.verify && !r.delete && !r.close,
    {
        Step { events: Vec::new(), send: Vec::new(), write: false, verify: false, delete: false, close: false }
    }
}

/// Where a payload that this host receives stands.
#[derive(Debug, Clone, Copy, PartialEq, Eq, Structural)]
pub enum InboundPhase {
    /// The metadata was announced to the user, whose answer is awaited.
    AwaitCommand,
    /// Accepted: the payload's bytes arrive.
    Streaming,
    /// All bytes arrived: the file is read back to check its hash.
    Verifying,
    /// The file was checked; the last event says how it went.
    Done,
    /// The transfer ended without a file.
    Failed(TransferError),
}

/// The event that announces an incoming payload.
pub open spec fn incoming_event(m: Metadata) -> PeerEvent {
    PeerEvent::FileIncoming(m.name, m.hash, m.size, m.transfer_type)
}

/// Events of a completed inbound transfer: `FileIncoming`, progress reports,
/// then `FileCorrect` or `FileIncorrect`.
pub open spec fn inbound_order(log: Seq<PeerEvent>) -> bool {
    &&& log.len() >= 2
    &&& log[0] is FileIncoming
    &&& forall|i: int| 0 < i < log.len() - 1 ==> is_progress(#[trigger] log[i], Direction::Incoming)
    &&& (log.last() is FileCorrect || log.last() is FileIncorrect)
}

/// A payload that this host receives, from the announcement to the check of
/// the stored file.
pub struct TransferPayload {
    pub meta: Metadata,
    pub phase: InboundPhase,
    /// Bytes received so far.
    pub done: u64,
    /// Bytes received since the last progress report.
    pub unreported: u64,
    /// Bytes handed to the file so far.
    pub written: Ghost<Seq<u8>>,
    /// Events emitted so far.
    pub log: Ghost<Seq<PeerEvent>>,
    /// What was read back from the file to check it.
    pub checked: Ghost<Seq<u8>>,
}

impl TransferPayload {
    pub open spec fn body_ok(&self) -> bool {
        &&& self.log@.len() >= 1
        &&& self.log@[0] is FileIncoming
        &&& self.done == self.written@.len()
        &&& self.done <= self.meta.size
        &&& self.unreported <= self.done
    }

    pub open spec fn wf(&self) -> bool {
        match self.phase {
            InboundPhase::AwaitCommand => self.log@.len() == 1 && self.log@[0] is FileIncoming,
            InboundPhase::Streaming => {
                &&& self.body_ok()
                &&& progress_run(self.log@, 1, self.log@.len() as int, Direction::Incoming, self.meta.size, self.done)
            },
            InboundPhase::Verifying => {
                &&& self.body_ok()
                &&& self.done == self.meta.size
                &&& self.log@.len() >= 2
                &&& progress_run(self.log@, 1, self.log@.len() as int, Direction::Incoming, self.meta.size, self.meta.size)
                &&& progress_done(self.log@.last()) == self.meta.size
            },
            InboundPhase::Done => {
                &&& self.body_ok()
                &&& self.done == self.meta.size
                &&& self.log@.len() >= 3
                &&& progress_run(self.log@, 1, self.log@.len() - 1, Direction::Incoming, self.meta.size, self.meta.size)
                &&& progress_done(self.log@[self.log@.len() - 2]) == self.meta.size
                &&& (self.log@.last() is FileCorrect || self.log@.last() is FileIncorrect)
                &&& (self.log@.last() is FileCorrect <==> sha1_hex(self.checked@) == self.meta.hash@)
            },
            InboundPhase::Failed(_) => true,
        }
    }

    /// A transfer for announced metadata: the user is told of the payload.
    pub fn new(meta: Metadata) -> (r: (TransferPayload, Step))
        ensures
            r.0.wf(),
            r.0.meta == meta,
            r.0.phase == InboundPhase::AwaitCommand,
            r.0.done == 0,
            r.1.events@ == seq![incoming_event(meta)],
            r.0.log@ == r.1.events@,
            r.1.send@.len() == 0,
            !r.1.write && !r.1.verify && !r.1.delete && !r.1.close,
    {
        let mut step = Step::quiet();
        step.events.push(PeerEvent::FileIncoming(meta.name.clone(), meta.hash.clone(), meta.size, meta.transfer_type));
        let t = TransferPayload {
            meta,
            phase: InboundPhase::AwaitCommand,
            done: 0,
            unreported: 0,
            written: Ghost(Seq::empty()),
            log: Ghost(step.events@),
            checked: Ghost(Seq::empty()),
        };
        assert(step.events@ =~= seq![incoming_event(t.meta)]);
        (t, step)
    }

    /// The user's answer. An accept that names the announced hash starts the
    /// payload; one that names another hash, or a refusal, ends the transfer.
    /// Either way the answer goes back to the sender with the hash it names.
    pub fn on_command(&mut self, cmd: TransferCommand) -> (r: Step)
        requires
            old(self).wf(),
            old(self).phase == InboundPhase::AwaitCommand,
        ensures
            final(self).wf(),
            final(self).meta == old(self).meta,
            final(self).log@ == old(self).log@ + r.events@,
            !r.write && !r.verify && !r.delete,
            match cmd {
                TransferCommand::Accept(h) => if h@ == old(self).meta.hash@ {
                    &&& final(self).phase == InboundPhase::Streaming
                    &&& final(self).done == 0 && final(self).unreported == 0
                    &&& final(self).written@ == Seq::<u8>::empty()
                    &&& r.send@ == answer_bytes(true, h@)
                    &&& r.events@.len() == 0
                    &&& !r.close
                } else {
                    &&& final(self).phase == InboundPhase::Failed(TransferError::PermissionDenied)
                    &&& r.send@ == answer_bytes(false, h@)
                    &&& r.events@.len() == 1 && r.events@[0] is Error
                    &&& r.close
                },
                TransferCommand::Deny(h) => {
                    &&& final(self).phase == InboundPhase::Failed(TransferError::Rejected)
                    &&& r.send@ == answer_bytes(false, h@)
                    &&& r.events@.len() == 0
                    &&& r.close
                },
            },
    {
        let mut step = Step::quiet();
        match cmd {
            TransferCommand::Accept(h) => {
                if h == self.meta.hash {
                    step.send = encode_answer(true, h.as_str());
                    self.phase = InboundPhase::Streaming;
                    self.done = 0;
                    self.unreported = 0;
                    self.written = Ghost(Seq::empty());
                } else {
                    step.send = encode_answer(false, h.as_str());
                    step.events.push(PeerEvent::Error(TransferError::PermissionDenied.describe()));
                    step.close = true;
                    self.phase = InboundPhase::Failed(TransferError::PermissionDenied);
                }
            },
            TransferCommand::Deny(h) => {
                step.send = encode_answer(false, h.as_str());
                step.close = true;
                self.phase = InboundPhase::Failed(TransferError::Rejected);
            },
        }
        self.log = Ghost(self.log@ + step.events@);
        proof {
            if self.phase == InboundPhase::Streaming {
                assert(self.log@ =~= old(self).log@);
            }
        }
        step
    }

    /// A chunk of the payload arrived. It is written unless it runs past the
    /// announced size, which breaks the transfer; a progress report follows
    /// whenever enough bytes have passed since the last.
    pub fn on_chunk(&mut self, data: &[u8]) -> (r: Step)
        requires
            old(self).wf(),
            old(self).phase == InboundPhase::Streaming,
        ensures
            final(self).wf(),
            final(self).meta == old(self).meta,
            final(self).log@ == old(self).log@ + r.events@,
            !r.verify,
            if data@.len() <= old(self).meta.size - old(self).done {
                &&& final(self).phase == InboundPhase::Streaming
                &&& r.write && !r.delete && !r.close
                &&& final(self).done == old(self).done + data@.len()
                &&& final(self).written@ == old(self).written@ + data@
                &&& r.events@.len() <= 1
                &&& r.events@.len() == 1 ==> r.events@[0] == PeerEvent::TransferProgress(
                    final(self).done, old(self).meta.size, Direction::Incoming)
            } else {
                &&& final(self).phase == InboundPhase::Failed(TransferError::Transport)
                &&& !r.write && r.delete && r.close
                &&& r.events@.len() == 1 && r.events@[0] is Error
            },
    {
        let mut step = Step::quiet();
        let n = data.len() as u64;
        if n > self.meta.size - self.done {
            step.events.push(PeerEvent::Error(TransferError::Transport.describe()));
            step.delete = true;
            step.close = true;
            self.phase = InboundPhase::Failed(TransferError::Transport);
            self.log = Ghost(self.log@ + step.events@);
            return step;
        }
        let ghost old_log = self.log@;
        let ghost old_done = self.done;
        self.done = self.done + n;
        self.unreported = self.unreported + n;
        self.written = Ghost(self.written@ + data@);
        step.write = true;
        if time_to_notify(self.unreported, self.meta.size) {
            step.events.push(PeerEvent::TransferProgress(self.done, self.meta.size, Direction::Incoming));
            self.unreported = 0;
            proof {
                lemma_progress_run_push(old_log, 1, Direction::Incoming, self.meta.size, old_done, self.done);
            }
        } else {
            proof {
                lemma_progress_run_widen(old_log, 1, old_log.len() as int, Direction::Incoming, self.meta.size, old_done, self.done);
            }
        }
        self.log = Ghost(self.log@ + step.events@);
        proof {
            assert(self.log@ =~= old_log + step.events@);
            if step.events@.len() == 1 {
                assert(self.log@ =~= old_log.push(PeerEvent::TransferProgress(self.done, self.meta.size, Direction::Incoming)));
            } else {
                assert(self.log@ =~= old_log);
            }
        }
        step
    }

    /// The sender closed the substream. With every announced byte in, a last
    /// progress report goes out and the file is to be checked; with bytes
    /// missing, the transfer is broken.
    pub fn on_end(&mut self) -> (r: Step)
        requires
            old(self).wf(),
            old(self).phase == InboundPhase::Streaming,
        ensures
            final(self).wf(),
            final(self).meta == old(self).meta,
            final(self).log@ == old(self).log@ + r.events@,
            !r.write,
            if old(self).done == old(self).meta.size {
                &&& final(self).phase == InboundPhase::Verifying
                &&& r.verify && !r.delete
                &&& r.events@ == seq![PeerEvent::TransferProgress(old(self).meta.size, old(self).meta.size, Direction::Incoming)]
            } else {
                &&& final(self).phase == InboundPhase::Failed(TransferError::Transport)
                &&& !r.verify && r.delete && r.close
                &&& r.events@.len() == 1 && r.events@[0] is Error
            },
    {
        let mut step = Step::quiet();
        if self.done < self.meta.size {
            step.events.push(PeerEvent::Error(TransferError::Transport.describe()));
            step.delete = true;
            step.close = true;
            self.phase = InboundPhase::Failed(TransferError::Transport);
            self.log = Ghost(self.log@ + step.events@);
            return step;
        }
        let ghost old_log = self.log@;
        step.events.push(PeerEvent::TransferProgress(self.done, self.meta.size, Direction::Incoming));
        step.verify = true;
        self.unreported = 0;
        self.phase = InboundPhase::Verifying;
        self.log = Ghost(self.log@ + step.events@);
        proof {
            lemma_progress_run_push(old_log, 1, Direction::Incoming, self.meta.size, self.done, self.done);
            assert(self.log@ =~= old_log.push(PeerEvent::TransferProgress(self.done, self.meta.size, Direction::Incoming)));
        }
        step
    }

    /// The stored file, read back from `path`. It is correct when it hashes to
    /// the announced value; otherwise it is to be removed.
    pub fn on_file_read(&mut self, contents: &Vec<u8>, path: String) -> (r: Step)
        requires
            old(self).wf(),
            old(self).phase == InboundPhase::Verifying,
        ensures
            final(self).wf(),
            final(self).meta == old(self).meta,
            final(self).phase == InboundPhase::Done,
            final(self).checked@ == contents@,
            final(self).log@ == old(self).log@ + r.events@,
            !r.write && !r.verify && r.close,
            if sha1_hex(contents@) == old(self).meta.hash@ {
                &&& r.events@ == seq![PeerEvent::FileCorrect(old(self).meta.name, Payload::new_spec(old(self).meta.transfer_type, path))]
                &&& !r.delete
            } else {
                &&& r.events@ == seq![PeerEvent::FileIncorrect]
                &&& r.delete
            },
    {
        let mut step = Step::quiet();
        step.close = true;
        if payload_matches(contents, &self.meta.hash) {
            let payload = Payload::new(self.meta.transfer_type, path);
            step.events.push(PeerEvent::FileCorrect(self.meta.name.clone(), payload));
        } else {
            step.events.push(PeerEvent::FileIncorrect);
            step.delete = true;
        }
        let ghost old_log = self.log@;
        self.checked = Ghost(contents@);
        self.phase = InboundPhase::Done;
        self.log = Ghost(self.log@ + step.events@);
        proof {
            assert(self.log@.drop_last() =~= old_log);
            assert(self.log@[self.log@.len() - 2] == old_log.last());
            assert forall|i: int| 1 <= i < self.log@.len() - 1 implies self.log@[i] == old_log[i] by {}
        }
        step
    }
}

/// What a finished inbound substream hands to the behaviour.
pub enum ProtocolEvent {
    /// A payload was received; its transfer says how it went.
    Received(TransferPayload),
    /// Our payload went out.
    Sent,
}

impl TransferPayload {
    /// Whether bytes read back from the stored file are the announced payload.
    pub fn check_file(&self, contents: &Vec<u8>) -> (r: Result<(), TransferError>)
        ensures
            r is Ok <==> sha1_hex(contents@) == self.meta.hash@,
            r matches Err(e) ==> e == TransferError::Corrupted,
    {
        if payload_matches(contents, &self.meta.hash) {
            Ok(())
        } else {
            Err(TransferError::Corrupted)
        }
    }
}

/// The progress reports of a transfer never go back, never pass the total,
/// and the last before the outcome reports the whole payload.
pub proof fn lemma_inbound_progress(t: TransferPayload)
    requires
        t.wf(),
        t.phase != InboundPhase::AwaitCommand,
        !(t.phase is Failed),
    ensures
        forall|i: int, j: int|
            0 < i <= j < t.log@.len() && is_progress(t.log@[i], Direction::Incoming) && is_progress(
                t.log@[j],
                Direction::Incoming,
            ) ==> progress_done(t.log@[i]) <= progress_done(t.log@[j]) && progress_done(t.log@[j])
                <= progress_total(t.log@[j]) && progress_total(t.log@[j]) == t.meta.size,
        t.phase == InboundPhase::Done ==> progress_done(t.log@[t.log@.len() - 2]) == t.meta.size
            && is_progress(t.log@[t.log@.len() - 2], Direction::Incoming),
{
    if t.phase == InboundPhase::Done {
        assert forall|i: int, j: int|
            0 < i <= j < t.log@.len() && is_progress(t.log@[i], Direction::Incoming) && is_progress(
                t.log@[j],
                Direction::Incoming,
            ) implies progress_done(t.log@[i]) <= progress_done(t.log@[j]) && progress_done(t.log@[j])
                <= progress_total(t.log@[j]) && progress_total(t.log@[j]) == t.meta.size by {
            assert(j < t.log@.len() - 1);
        }
        assert(is_progress(t.log@[t.log@.len() - 2], Direction::Incoming));
    }
}

/// A completed inbound transfer emitted `FileIncoming`, then progress
/// reports, then `FileCorrect` or `FileIncorrect`.
pub proof fn lemma_inbound_event_order(t: TransferPayload)
    requires
        t.wf(),
        t.phase == InboundPhase::Done,
    ensures
        inbound_order(t.log@),
{
}

} // verus!
