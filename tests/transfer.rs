use dragit::codec::{decode_answer, decode_metadata, Metadata};
use dragit::inbound::{InboundPhase, TransferPayload, Step};
use dragit::outbound::{OutboundPhase, TransferOut};
use dragit::peer::{Direction, Payload, PeerEvent, TransferCommand, TransferError, TransferType};

const HI_SHA1: &str = "55ca6286e3e4f4fba5d0448333fa99fc5a404a73";

/// Runs a sender and a receiver against each other up to the receiver's
/// announcement, returning both and the events each side emitted.
fn announce(name: &str, kind: TransferType, bytes: &[u8]) -> (TransferOut, TransferPayload, Vec<PeerEvent>, Vec<PeerEvent>) {
    let mut out = TransferOut::new(name.to_string(), kind, bytes.to_vec());
    let step = out.start();
    let a_events = step.events;
    let (meta, used) = decode_metadata(&step.send).expect("metadata reads back");
    assert_eq!(used, step.send.len());
    let (inb, step) = TransferPayload::new(meta);
    (out, inb, a_events, step.events)
}

fn is_progress(e: &PeerEvent, done: u64, total: u64, dir: Direction) -> bool {
    matches!(e, PeerEvent::TransferProgress(d, t, x) if *d == done && *t == total && *x == dir)
}

/// Streams the payload from `out` into `inb`, in chunks of `chunk`, letting
/// `tamper` change each chunk on the way; returns the bytes the receiver wrote.
fn stream(out: &mut TransferOut, inb: &mut TransferPayload, chunk: usize, a: &mut Vec<PeerEvent>, b: &mut Vec<PeerEvent>, tamper: &dyn Fn(&mut Vec<u8>)) -> Vec<u8> {
    let mut written = Vec::new();
    loop {
        let Step { events, send, close, .. } = out.next_chunk(chunk);
        a.extend(events);
        if close {
            break;
        }
        let mut data = send;
        tamper(&mut data);
        let step = inb.on_chunk(&data);
        if step.write {
            written.extend_from_slice(&data);
        }
        b.extend(step.events);
    }
    let step = inb.on_end();
    b.extend(step.events);
    assert!(step.verify);
    written
}

#[test]
fn small_file_is_accepted_and_arrives_whole() {
    let (mut out, mut inb, mut a, mut b) = announce("hello.txt", TransferType::File, b"hi\n");
    assert!(matches!(&b[0], PeerEvent::FileIncoming(n, h, 3, TransferType::File) if n == "hello.txt" && h == HI_SHA1));
    let step = inb.on_command(TransferCommand::Accept(HI_SHA1.to_string()));
    assert!(step.events.is_empty());
    let (accepted, echo, _) = decode_answer(&step.send).expect("answer reads back");
    assert!(accepted);
    assert_eq!(echo, HI_SHA1);
    let step = out.on_answer(accepted, &echo);
    assert!(step.events.is_empty());
    assert_eq!(out.phase, OutboundPhase::Streaming);
    let written = stream(&mut out, &mut inb, 4096, &mut a, &mut b, &|_| {});
    assert_eq!(written, b"hi\n".to_vec());
    let step = inb.on_file_read(&written, "/downloads/1_hello.txt".to_string());
    b.extend(step.events);
    assert!(!step.delete);
    assert_eq!(a.len(), 3);
    assert!(matches!(a[0], PeerEvent::WaitingForAnswer));
    assert!(is_progress(&a[1], 3, 3, Direction::Outgoing));
    assert!(matches!(a[2], PeerEvent::TransferCompleted));
    assert_eq!(b.len(), 3);
    assert!(is_progress(&b[1], 3, 3, Direction::Incoming));
    match &b[2] {
        PeerEvent::FileCorrect(name, Payload::File(path)) => {
            assert_eq!(name, "hello.txt");
            assert_eq!(path, "/downloads/1_hello.txt");
        }
        other => panic!("unexpected {:?}", other),
    }
    assert_eq!(inb.phase, InboundPhase::Done);
    assert_eq!(out.phase, OutboundPhase::Completed);
}

#[test]
fn denied_file_is_reported_rejected() {
    let (mut out, mut inb, mut a, b) = announce("hello.txt", TransferType::File, b"hi\n");
    let step = inb.on_command(TransferCommand::Deny(HI_SHA1.to_string()));
    assert!(step.events.is_empty());
    assert!(step.close && !step.write);
    assert_eq!(inb.phase, InboundPhase::Failed(TransferError::Rejected));
    let (accepted, echo, _) = decode_answer(&step.send).unwrap();
    assert!(!accepted);
    let step = out.on_answer(accepted, &echo);
    a.extend(step.events);
    assert_eq!(a.len(), 2);
    assert!(matches!(a[1], PeerEvent::TransferRejected));
    assert_eq!(b.len(), 1);
    assert!(matches!(b[0], PeerEvent::FileIncoming(..)));
    assert_eq!(out.phase, OutboundPhase::Rejected);
}

#[test]
fn corrupted_stream_is_reported_incorrect() {
    let (mut out, mut inb, mut a, mut b) = announce("hello.txt", TransferType::File, b"hi\n");
    let step = inb.on_command(TransferCommand::Accept(HI_SHA1.to_string()));
    let (accepted, echo, _) = decode_answer(&step.send).unwrap();
    out.on_answer(accepted, &echo);
    let written = stream(&mut out, &mut inb, 4096, &mut a, &mut b, &|d: &mut Vec<u8>| d[0] ^= 1);
    assert_eq!(written, b"ii\n".to_vec());
    let step = inb.on_file_read(&written, "/downloads/1_hello.txt".to_string());
    assert!(step.delete);
    b.extend(step.events);
    assert!(matches!(b[0], PeerEvent::FileIncoming(..)));
    assert!(matches!(b[1], PeerEvent::TransferProgress(..)));
    assert!(matches!(b.last(), Some(PeerEvent::FileIncorrect)));
}

#[test]
fn directory_arrives_as_archive() {
    let archive: Vec<u8> = (0..200u32).map(|i| (i * 7 % 251) as u8).collect();
    let (mut out, mut inb, mut a, mut b) = announce("d.zip", TransferType::Directory, &archive);
    let hash = out.meta.hash.clone();
    let step = inb.on_command(TransferCommand::Accept(hash.clone()));
    let (accepted, echo, _) = decode_answer(&step.send).unwrap();
    out.on_answer(accepted, &echo);
    let written = stream(&mut out, &mut inb, 64, &mut a, &mut b, &|_| {});
    assert_eq!(dragit::util::hash_contents(&written), hash);
    let step = inb.on_file_read(&written, "/downloads/1_d.zip".to_string());
    assert!(matches!(&step.events[0], PeerEvent::FileCorrect(_, Payload::Archive(p)) if p == "/downloads/1_d.zip"));
}

#[test]
fn accept_of_another_hash_is_refused_on_both_sides() {
    let (mut out, mut inb, mut a, _) = announce("hello.txt", TransferType::File, b"hi\n");
    let other = "0000000000000000000000000000000000000000".to_string();
    let step = inb.on_command(TransferCommand::Accept(other.clone()));
    assert!(matches!(&step.events[..], [PeerEvent::Error(m)] if m == "permission denied"));
    assert_eq!(inb.phase, InboundPhase::Failed(TransferError::PermissionDenied));
    let (accepted, echo, _) = decode_answer(&step.send).unwrap();
    assert!(!accepted);
    assert_eq!(echo, other);
    let step = out.on_answer(accepted, &echo);
    a.extend(step.events);
    assert!(matches!(a[1], PeerEvent::TransferRejected));
}

#[test]
fn accept_echoing_another_hash_breaks_the_sender() {
    let (mut out, _, _, _) = announce("hello.txt", TransferType::File, b"hi\n");
    let step = out.on_answer(true, &"ffff".to_string());
    assert!(matches!(&step.events[..], [PeerEvent::Error(_)]));
    assert_eq!(out.phase, OutboundPhase::Failed(TransferError::Transport));
}

#[test]
fn payload_round_trips_in_any_chunking() {
    let bytes: Vec<u8> = (0..5000u32).map(|i| (i % 256) as u8).collect();
    for chunk in [1usize, 7, 1000, 4096, 10000] {
        let (mut out, mut inb, mut a, mut b) = announce("blob.bin", TransferType::File, &bytes);
        let step = inb.on_command(TransferCommand::Accept(out.meta.hash.clone()));
        let (accepted, echo, _) = decode_answer(&step.send).unwrap();
        out.on_answer(accepted, &echo);
        let written = stream(&mut out, &mut inb, chunk, &mut a, &mut b, &|_| {});
        assert_eq!(written, bytes);
        let step = inb.on_file_read(&written, "/x".to_string());
        assert!(matches!(step.events[0], PeerEvent::FileCorrect(..)));
    }
}

#[test]
fn progress_never_goes_back_and_ends_at_total() {
    let total: usize = 3 * 1024 * 1024 + 5;
    let bytes = vec![42u8; total];
    let (mut out, mut inb, mut a, mut b) = announce("big.bin", TransferType::File, &bytes);
    let step = inb.on_command(TransferCommand::Accept(out.meta.hash.clone()));
    let (accepted, echo, _) = decode_answer(&step.send).unwrap();
    out.on_answer(accepted, &echo);
    stream(&mut out, &mut inb, 65536, &mut a, &mut b, &|_| {});
    for (events, dir) in [(&a, Direction::Outgoing), (&b, Direction::Incoming)] {
        let done: Vec<u64> = events
            .iter()
            .filter_map(|e| match e {
                PeerEvent::TransferProgress(d, t, x) if *x == dir => {
                    assert_eq!(*t, total as u64);
                    Some(*d)
                }
                _ => None,
            })
            .collect();
        assert!(done.len() > 2);
        assert!(done.windows(2).all(|w| w[0] <= w[1]));
        assert_eq!(*done.last().unwrap(), total as u64);
        assert!(done.len() <= 200);
    }
}

#[test]
fn events_follow_the_protocol_order() {
    let bytes = vec![1u8; 700_000];
    let (mut out, mut inb, mut a, mut b) = announce("o.bin", TransferType::File, &bytes);
    let step = inb.on_command(TransferCommand::Accept(out.meta.hash.clone()));
    let (accepted, echo, _) = decode_answer(&step.send).unwrap();
    out.on_answer(accepted, &echo);
    let written = stream(&mut out, &mut inb, 4096, &mut a, &mut b, &|_| {});
    b.extend(inb.on_file_read(&written, "/x".to_string()).events);
    assert!(matches!(b.first(), Some(PeerEvent::FileIncoming(..))));
    assert!(b[1..b.len() - 1].iter().all(|e| matches!(e, PeerEvent::TransferProgress(_, _, Direction::Incoming))));
    assert!(matches!(b.last(), Some(PeerEvent::FileCorrect(..))));
    assert!(matches!(a.first(), Some(PeerEvent::WaitingForAnswer)));
    assert!(a[1..a.len() - 1].iter().all(|e| matches!(e, PeerEvent::TransferProgress(_, _, Direction::Outgoing))));
    assert!(matches!(a.last(), Some(PeerEvent::TransferCompleted)));
}

#[test]
fn chunk_past_the_announced_size_breaks_the_transfer() {
    let meta = Metadata { name: "a".to_string(), hash: HI_SHA1.to_string(), size: 3, transfer_type: TransferType::File };
    let (mut inb, _) = TransferPayload::new(meta);
    inb.on_command(TransferCommand::Accept(HI_SHA1.to_string()));
    let step = inb.on_chunk(b"hi\n!");
    assert!(!step.write && step.delete && step.close);
    assert_eq!(inb.phase, InboundPhase::Failed(TransferError::Transport));
}

#[test]
fn stream_that_ends_early_breaks_the_transfer() {
    let meta = Metadata { name: "a".to_string(), hash: HI_SHA1.to_string(), size: 3, transfer_type: TransferType::File };
    let (mut inb, _) = TransferPayload::new(meta);
    inb.on_command(TransferCommand::Accept(HI_SHA1.to_string()));
    assert!(inb.on_chunk(b"hi").write);
    let step = inb.on_end();
    assert!(step.delete && !step.verify);
    assert!(matches!(&step.events[..], [PeerEvent::Error(m)] if m == "transport"));
}

#[test]
fn empty_payload_completes() {
    let (mut out, mut inb, mut a, mut b) = announce("empty", TransferType::File, b"");
    let step = inb.on_command(TransferCommand::Accept(out.meta.hash.clone()));
    let (accepted, echo, _) = decode_answer(&step.send).unwrap();
    out.on_answer(accepted, &echo);
    let written = stream(&mut out, &mut inb, 16, &mut a, &mut b, &|_| {});
    assert!(written.is_empty());
    assert!(is_progress(&a[1], 0, 0, Direction::Outgoing));
    let step = inb.on_file_read(&written, "/x".to_string());
    assert!(matches!(step.events[0], PeerEvent::FileCorrect(..)));
}

#[test]
fn check_file_compares_the_stored_bytes_with_the_announced_hash() {
    let meta = Metadata { name: "a".to_string(), hash: HI_SHA1.to_string(), size: 3, transfer_type: TransferType::File };
    let (inb, _) = TransferPayload::new(meta);
    assert_eq!(inb.check_file(&b"hi\n".to_vec()), Ok(()));
    assert_eq!(inb.check_file(&b"hi!".to_vec()), Err(TransferError::Corrupted));
}
