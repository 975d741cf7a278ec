use dragit::behaviour::{TransferAction, TransferBehaviour};
use dragit::discovery::{ConnectedPoint, DiscoveryAction, DiscoveryBehaviour};
use dragit::peer::{
    Discovery, FileToSend, InnerMessage, OperatingSystem, Payload, PeerEvent, PeerId,
    TransferCommand, TransferError, TransferType,
};
use dragit::progress::time_to_notify;
use dragit::router::CommandRouter;
use dragit::uri::clean_filename;
use dragit::util::{get_target_path, hash_contents, payload_matches, target_path};

fn id(b: u8) -> PeerId {
    PeerId::new(vec![b, b, b])
}

fn file(path: &str, peer: &PeerId) -> FileToSend {
    FileToSend::new(path, peer, TransferType::File).unwrap()
}

#[test]
fn file_to_send_takes_the_last_component() {
    let f = file("/tmp/hello.txt", &id(1));
    assert_eq!(f.name, "hello.txt");
    assert_eq!(f.path, "/tmp/hello.txt");
    assert!(f.peer.same(&id(1)));
    assert_eq!(FileToSend::new("/tmp/d/", &id(1), TransferType::Directory).unwrap_err(), TransferError::PathInvalid);
}

#[test]
fn queued_payloads_wait_for_a_connected_peer() {
    let mut t = TransferBehaviour::new();
    t.push_file(file("/a", &id(1)));
    assert!(t.poll(0).is_none());
    t.inject_connected(&id(1));
    match t.poll(0) {
        Some(TransferAction::Send(f)) => assert_eq!(f.path, "/a"),
        _ => panic!("expected a send"),
    }
    assert!(t.poll(0).is_none());
}

#[test]
fn one_transfer_per_peer_in_queue_order() {
    let mut t = TransferBehaviour::new();
    t.inject_connected(&id(1));
    t.inject_connected(&id(2));
    t.push_file(file("/first", &id(1)));
    t.push_file(file("/second", &id(1)));
    t.push_file(file("/other", &id(2)));
    let mut sent = Vec::new();
    while let Some(TransferAction::Send(f)) = t.poll(0) {
        sent.push(f.path);
    }
    assert_eq!(sent, vec!["/first".to_string(), "/other".to_string()]);
    t.transfer_finished(&id(1));
    match t.poll(0) {
        Some(TransferAction::Send(f)) => assert_eq!(f.path, "/second"),
        _ => panic!("expected a send"),
    }
}

#[test]
fn known_peer_is_dialled_with_backoff() {
    let mut t = TransferBehaviour::new();
    t.add_peer(&id(7));
    t.push_file(file("/a", &id(7)));
    let mut dials = Vec::new();
    for now in (0..=1000u64).step_by(10) {
        if let Some(TransferAction::Dial(p)) = t.poll(now) {
            assert!(p.same(&id(7)));
            dials.push(now);
        }
    }
    assert_eq!(dials[0], 0);
    assert!(dials[1] <= 200);
    assert!(dials[2] <= 500);
    assert!(dials.windows(2).all(|w| w[1] - w[0] <= 5000));
    t.inject_connected(&id(7));
    assert!(matches!(t.poll(1000), Some(TransferAction::Send(_))));
}

#[test]
fn dial_wait_is_capped() {
    let mut t = TransferBehaviour::new();
    t.add_peer(&id(3));
    t.push_file(file("/a", &id(3)));
    let mut last = 0u64;
    let mut gaps = Vec::new();
    for now in (0..=60_000u64).step_by(50) {
        if let Some(TransferAction::Dial(_)) = t.poll(now) {
            gaps.push(now - last);
            last = now;
        }
    }
    assert_eq!(*gaps.last().unwrap(), 5000);
    assert!(gaps.iter().all(|g| *g <= 5000));
}

#[test]
fn unknown_peer_is_not_dialled() {
    let mut t = TransferBehaviour::new();
    t.push_file(file("/a", &id(9)));
    assert!(t.poll(0).is_none());
    t.add_peer(&id(9));
    t.inject_disconnected(&id(9));
    assert!(t.poll(0).is_none());
}

#[test]
fn command_goes_to_the_transfer_waiting_on_its_hash() {
    let mut r = CommandRouter::new();
    assert!(r.wait_for("h1".to_string(), 0).is_none());
    assert!(r.on_command(TransferCommand::Deny("h2".to_string()), 5).is_none());
    assert_eq!(r.on_command(TransferCommand::Accept("h1".to_string()), 6), Some(TransferCommand::Accept("h1".to_string())));
    assert_eq!(r.wait_for("h2".to_string(), 10_000), Some(TransferCommand::Deny("h2".to_string())));
}

#[test]
fn unclaimed_command_expires() {
    let mut r = CommandRouter::new();
    assert!(r.on_command(TransferCommand::Accept("h".to_string()), 1000).is_none());
    assert!(r.wait_for("h".to_string(), 31_001).is_none());
    assert!(r.parked.is_empty());
    let mut r = CommandRouter::new();
    r.on_command(TransferCommand::Accept("h".to_string()), 1000);
    assert_eq!(r.wait_for("h".to_string(), 31_000), Some(TransferCommand::Accept("h".to_string())));
}

#[test]
fn discovery_table_follows_mdns_and_exchange() {
    let mut d = DiscoveryBehaviour::new("me".to_string(), OperatingSystem::Linux);
    d.add_peer(id(1), "/ip4/10.0.0.2/tcp/4000".to_string(), "one".to_string());
    d.add_peer(id(1), "/ip4/10.0.0.9/tcp/1".to_string(), "dup".to_string());
    assert_eq!(d.peers.len(), 1);
    assert_eq!(d.peers[0].os, OperatingSystem::Unknown);
    assert!(matches!(d.poll(), Some(DiscoveryAction::DialPeer(p)) if p.same(&id(1))));
    assert!(d.poll().is_none());
    d.inject_connection_established(&id(1), 5, ConnectedPoint::Dialer("/ip4/10.0.0.2/tcp/4001".to_string()));
    assert_eq!(d.peers[0].address, "/ip4/10.0.0.2/tcp/4001");
    match d.poll() {
        Some(DiscoveryAction::NotifyHandler(p, c, rec)) => {
            assert!(p.same(&id(1)));
            assert_eq!(c, 5);
            assert_eq!(rec.hostname, "me");
            assert_eq!(rec.os, OperatingSystem::Linux);
        }
        _ => panic!("expected our record"),
    }
    d.inject_connection_established(&id(1), 6, ConnectedPoint::Listener("/ip4/10.0.0.2/tcp/5".to_string()));
    assert_eq!(d.peers[0].address, "/ip4/10.0.0.2/tcp/5");
    assert!(d.poll().is_none());
    d.inject_event(id(1), InnerMessage::from_discovery(Discovery { hostname: "box".to_string(), os: OperatingSystem::Windows }));
    d.inject_event(id(1), InnerMessage::Sent);
    assert!(matches!(d.poll(), Some(DiscoveryAction::GenerateEvent(_, h, OperatingSystem::Windows)) if h == "box"));
    match d.update_peer(&id(1), "box".to_string(), OperatingSystem::Windows) {
        PeerEvent::PeersUpdated(v) => {
            assert_eq!(v.len(), 1);
            assert_eq!(v[0].hostname, "box");
            assert_eq!(v[0].address, "/ip4/10.0.0.2/tcp/5");
        }
        _ => panic!("expected the peer list"),
    }
    match d.remove_peer(&id(1)) {
        PeerEvent::PeersUpdated(v) => assert!(v.is_empty()),
        _ => panic!("expected the peer list"),
    }
}

#[test]
fn hashing_and_checking() {
    assert_eq!(hash_contents(&b"hi\n".to_vec()), "55ca6286e3e4f4fba5d0448333fa99fc5a404a73");
    assert_eq!(hash_contents(&Vec::new()), "da39a3ee5e6b4b0d3255bfef95601890afd80709");
    assert!(payload_matches(&b"hi\n".to_vec(), &"55ca6286e3e4f4fba5d0448333fa99fc5a404a73".to_string()));
    assert!(!payload_matches(&b"hi".to_vec(), &"55ca6286e3e4f4fba5d0448333fa99fc5a404a73".to_string()));
}

#[test]
fn received_files_are_stored_under_a_timestamped_name() {
    assert_eq!(target_path("/home/u/Downloads", 1700000000, "hello.txt"), "/home/u/Downloads/1700000000_hello.txt");
    assert_eq!(target_path("/tmp/", 0, "a"), "/tmp/0_a");
    let p = get_target_path("hello.txt", Some(&"/srv/in".to_string())).unwrap();
    assert!(p.starts_with("/srv/in/"));
    assert!(p.ends_with("_hello.txt"));
}

#[test]
fn progress_is_reported_about_a_hundred_times() {
    assert!(!time_to_notify(262143, 1000));
    assert!(time_to_notify(262144, 1000));
    let total = 1u64 << 34;
    assert!(!time_to_notify(total / 128 - 1, total));
    assert!(time_to_notify(total / 128, total));
}

#[test]
fn dropped_uris_become_paths() {
    assert_eq!(clean_filename("file:///tmp/my%20file.txt\r\n"), Some("/tmp/my file.txt".to_string()));
    assert_eq!(clean_filename("  /plain/path "), Some("/plain/path".to_string()));
    assert_eq!(clean_filename("%41%zz%4"), Some("A%zz%4".to_string()));
    assert_eq!(clean_filename("/x%ff"), None);
}

#[test]
fn error_kinds_describe_themselves() {
    assert_eq!(TransferError::Corrupted.describe(), "corrupted");
    assert_eq!(TransferError::PermissionDenied.describe(), "permission denied");
    assert_eq!(Payload::new(TransferType::Directory, "/z".to_string()), Payload::Archive("/z".to_string()));
    assert_eq!(Payload::File("/f".to_string()).path(), "/f");
}
