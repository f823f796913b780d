use flovenet::time::Timestamp;
use flovenet::cli::{Cli, Commands};
use flovenet::crypto::CryptoError;
use flovenet::node::FlovenetNode;
use flovenet::resources::Platform;
use flovenet::scenarios::{
    all_passed, GossipPropagationScenario, P2pMeshScenario, SequentialMessagesScenario, TestCheck,
};
use flovenet::storage::{PinPolicy, StorageOpts};

#[test]
fn crypto_error_messages() {
    assert_eq!(CryptoError::Encryption.to_string(), "encryption failed");
    assert_eq!(CryptoError::Decryption.to_string(), "decryption failed");
    assert_eq!(CryptoError::SignatureVerification.to_string(), "signature verification failed");
    assert_eq!(CryptoError::KeyNotFound.to_string(), "key not found");
    assert_eq!(CryptoError::InvalidKey.to_string(), "invalid key");
    assert_eq!(CryptoError::UnsupportedAlgorithm("rsa".into()).to_string(), "unsupported algorithm: rsa");
}

#[test]
fn node_identity() {
    let n = FlovenetNode::with_uuid("1234", Platform::Android, "/data".into());
    assert_eq!(n.peer_id_str(), "flovenet-1234");
    assert_eq!(n.platform_str(), "android");
    let m = FlovenetNode::create(Platform::Linux, String::new());
    assert!(m.peer_id.starts_with("flovenet-"));
    assert_eq!(m.peer_id.len(), 45);
    assert_eq!(m.platform_str(), "linux");
    assert_ne!(m.peer_id, FlovenetNode::create(Platform::Linux, String::new()).peer_id);
}

#[test]
fn scenario_checks() {
    let mesh = P2pMeshScenario { node_count: 3 };
    assert_eq!(mesh.name(), "p2p_mesh");
    let c = mesh.nodes_check(3);
    assert!(c.passed);
    assert_eq!((c.expected.as_str(), c.actual.as_str()), ("3", "3"));
    assert!(!mesh.nodes_check(2).passed);
    let g = GossipPropagationScenario { topic: "t".into(), message: "m".into() };
    assert_eq!(g.name(), "gossip_propagation");
    assert_eq!(GossipPropagationScenario::delivery_check(false).actual, "not received");
    assert_eq!(GossipPropagationScenario::delivery_check(true).actual, "received");
    let s = SequentialMessagesScenario;
    assert_eq!(s.name(), "sequential_messages");
    assert_eq!(SequentialMessagesScenario::topic(), "test/seq");
    let mut received = Vec::new();
    SequentialMessagesScenario::record(&mut received, "msg2".into());
    SequentialMessagesScenario::record(&mut received, "msg2".into());
    SequentialMessagesScenario::record(&mut received, "msg1".into());
    assert_eq!(received, vec!["msg2", "msg1"]);
    let checks = SequentialMessagesScenario::message_checks(&SequentialMessagesScenario::messages(), &received);
    let names: Vec<&str> = checks.iter().map(|c| c.name.as_str()).collect();
    assert_eq!(names, vec!["received_msg1", "received_msg2", "received_msg3"]);
    assert_eq!(checks[2].actual, "missing");
    assert_eq!(checks[0].actual, "msg1");
    assert!(!all_passed(&checks));
    assert!(all_passed(&checks[..2].iter().map(|c| TestCheck::new(&c.name, c.passed, &c.expected, &c.actual)).collect()));
}

#[test]
fn plain_types() {
    let opts = StorageOpts { pin: true, ttl: Some(std::time::Duration::from_secs(3600)) };
    assert!(opts.pin);
    assert!(matches!(PinPolicy::Unpinned, PinPolicy::Unpinned));
    let cli = Cli { command: Commands::ApiGateway { port: 8080 } };
    assert!(matches!(cli.command, Commands::ApiGateway { port: 8080 }));
}

#[test]
fn fresh_peer_ids_hold_version_four_uuids() {
    let n = FlovenetNode::create(Platform::Linux, "/data".into());
    let u: Vec<char> = n.peer_id["flovenet-".len()..].chars().collect();
    assert_eq!(u.len(), 36);
    for (i, c) in u.iter().enumerate() {
        if [8, 13, 18, 23].contains(&i) {
            assert_eq!(*c, '-');
        } else {
            assert!(c.is_ascii_hexdigit() && !c.is_ascii_uppercase());
        }
    }
    assert_eq!(u[14], '4');
    assert!(['8', '9', 'a', 'b'].contains(&u[19]));
}

#[test]
fn timestamp_validity() {
    assert!(Timestamp { secs: 0, nanos: 999_999_999 }.is_valid());
    assert!(!Timestamp { secs: 0, nanos: 1_000_000_000 }.is_valid());
    assert!(!Timestamp { secs: i64::MAX, nanos: 0 }.is_valid());
    assert!(Timestamp { secs: 59, nanos: 1_500_000_000 }.is_valid());
    assert!(Timestamp { secs: -1, nanos: 1_000_000_000 }.is_valid());
    assert!(!Timestamp { secs: 58, nanos: 1_500_000_000 }.is_valid());
    assert!(!Timestamp { secs: 59, nanos: 2_000_000_000 }.is_valid());
}
