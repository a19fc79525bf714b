use iox_core::catalog_cache::CatalogConfig;
use iox_core::catalog_cache::Error;
use iox_core::catalog_cache::Peer;
use iox_core::panic_logging::PanicType;

fn peer(url: &str, host: &str) -> Peer {
    Peer {
        url: url.to_string(),
        host: Some(host.to_string()),
    }
}

#[test]
fn test_peers() {
    let config = CatalogConfig {
        hostname: None,
        peers: vec![
            peer("http://peer1:8080", "peer1"),
            peer("http://peer2:9090", "peer2"),
        ],
    };
    let peer1 = "http://peer1:8080".to_string();
    let peer2 = "http://peer2:9090".to_string();

    let peers = config.peers().unwrap();
    assert_eq!(peers, (peer1.clone(), peer2.clone()));

    let mut config = CatalogConfig {
        hostname: None,
        peers: vec![
            peer("http://peer1:8080", "peer1"),
            peer("http://peer2:9090", "peer2"),
            peer("http://peer3:9091", "peer3"),
        ],
    };
    let err = config.peers().unwrap_err();
    assert!(matches!(err, Error::InvalidPeers), "{err:?}");

    config.hostname = Some("peer3".to_string());
    let peers = config.peers().unwrap();
    assert_eq!(peers, (peer1.clone(), peer2.clone()));
}

#[test]
fn address_without_a_host_is_a_peer() {
    let config = CatalogConfig {
        hostname: Some("peer1".to_string()),
        peers: vec![
            peer("http://peer1:8080", "peer1"),
            Peer {
                url: "data:x".to_string(),
                host: None,
            },
            peer("http://peer2:9090", "peer2"),
        ],
    };
    assert_eq!(
        config.peers().unwrap(),
        ("data:x".to_string(), "http://peer2:9090".to_string())
    );

    let alone = CatalogConfig {
        hostname: Some("peer1".to_string()),
        peers: vec![peer("http://peer1:8080", "peer1")],
    };
    assert!(matches!(alone.peers(), Err(Error::InvalidPeers)));
}

#[test]
fn panics_are_told_apart_by_their_message() {
    assert_eq!(PanicType::classify(Some("offset")), PanicType::OffsetOverflow);
    assert_eq!(
        PanicType::classify(Some("offset overflow")),
        PanicType::OffsetOverflow
    );
    assert_eq!(PanicType::classify(Some("it's bananas")), PanicType::Unknown);
    assert_eq!(PanicType::classify(Some("offset ")), PanicType::Unknown);
    assert_eq!(PanicType::classify(None), PanicType::Unknown);
    assert_eq!(PanicType::Unknown.name(), "unknown");
    assert_eq!(PanicType::OffsetOverflow.name(), "offset_overflow");
    assert_eq!(PanicType::all(), [PanicType::Unknown, PanicType::OffsetOverflow]);
}
