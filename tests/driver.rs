use dragit::behaviour::TransferAction;
use dragit::discovery::{ConnectedPoint, DiscoveryAction};
use dragit::driver::{CoreAction, MyBehaviour, NetworkEvent, PeerListCoalescer};
use dragit::peer::{FileToSend, OperatingSystem, PeerEvent, PeerId, TransferCommand, TransferType};

fn id(b: u8) -> PeerId {
    PeerId::new(vec![b; 4])
}

#[test]
fn core_pairs_a_dropped_file_with_a_discovered_peer() {
    let mut core = MyBehaviour::new("me".to_string(), OperatingSystem::Linux);
    assert!(core.handle(NetworkEvent::Discovered(id(1), "/ip4/10.0.0.5/tcp/1".to_string(), "p1".to_string())).is_none());
    core.push_file(FileToSend::new("/tmp/a.txt", &id(1), TransferType::File).unwrap());
    assert!(matches!(core.poll(0), Some(CoreAction::Discovery(DiscoveryAction::DialPeer(p))) if p.same(&id(1))));
    assert!(matches!(core.poll(0), Some(CoreAction::Transfer(TransferAction::Dial(p))) if p.same(&id(1))));
    core.handle(NetworkEvent::ConnectionEstablished(id(1), 3, ConnectedPoint::Dialer("/ip4/10.0.0.5/tcp/2".to_string())));
    assert!(matches!(core.poll(10), Some(CoreAction::Discovery(DiscoveryAction::NotifyHandler(_, 3, _)))));
    assert!(matches!(core.poll(10), Some(CoreAction::Transfer(TransferAction::Send(f))) if f.name == "a.txt"));
    assert!(core.poll(10).is_none());
    core.handle(NetworkEvent::TransferEnded(id(1)));
    match core.handle(NetworkEvent::PeerDescribed(id(1), "box".to_string(), OperatingSystem::Macos)) {
        Some(PeerEvent::PeersUpdated(v)) => {
            assert_eq!(v.len(), 1);
            assert_eq!(v[0].hostname, "box");
            assert_eq!(v[0].os, OperatingSystem::Macos);
            assert_eq!(v[0].address, "/ip4/10.0.0.5/tcp/2");
        }
        _ => panic!("expected the peer list"),
    }
    match core.handle(NetworkEvent::Expired(id(1))) {
        Some(PeerEvent::PeersUpdated(v)) => assert!(v.is_empty()),
        _ => panic!("expected the peer list"),
    }
    assert!(core.on_command(TransferCommand::Deny("x".to_string()), 0).is_none());
}

#[test]
fn peer_list_updates_of_a_burst_are_merged() {
    let mut c = PeerListCoalescer::new();
    assert!(c.flush(0).is_none());
    c.offer(Vec::new(), 100);
    let mut core = MyBehaviour::new("me".to_string(), OperatingSystem::Linux);
    core.handle(NetworkEvent::Discovered(id(2), "a".to_string(), "p2".to_string()));
    c.offer(core.discovery.peers_event(), 120);
    assert!(c.flush(149).is_none());
    match c.flush(150) {
        Some(PeerEvent::PeersUpdated(v)) => assert_eq!(v.len(), 1),
        _ => panic!("expected one merged update"),
    }
    assert!(c.flush(500).is_none());
}
