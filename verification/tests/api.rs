use serde_json::Value;
use web3::api::{h256_to_hex, Internal, Parity, H256};
use web3::text::to_decimal;
use web3::types::{Availability, Capability, ParityNodeKind};

#[test]
fn parity_methods() {
    let parity = Parity::new(());
    assert_eq!(parity.enode().method, "parity_enode");
    assert_eq!(parity.mode().method, "parity_mode");
    assert_eq!(parity.node_kind().method, "parity_nodeKind");
    assert_eq!(parity.node_name().method, "parity_nodeName");
    assert_eq!(parity.websocket_url().method, "parity_wsUrl");
    assert!(parity.enode().params.is_empty());
    assert_eq!(*Parity::new(3u8).transport(), 3);
}

#[test]
fn block_details_by_hash_sends_hex_hash() {
    let internal = Internal::new(());
    let mut bytes = [0u8; 32];
    bytes[0] = 0xab;
    bytes[31] = 0x01;
    let call = internal.block_details_by_hash(H256(bytes));
    assert_eq!(call.method, "internal_getBlockDetailsByHash");
    let hex = format!("0xab{}01", "0".repeat(60));
    assert_eq!(call.params, vec![Value::String(hex)]);
    assert_eq!(*Internal::new(7u8).transport(), 7);
}

#[test]
fn hash_text_is_66_chars() {
    let text = h256_to_hex(&H256([0xff; 32]));
    assert_eq!(text.len(), 66);
    assert_eq!(text, format!("0x{}", "ff".repeat(32)));
}

#[test]
fn node_kind_names() {
    let kind = ParityNodeKind::from_names(&"personal".to_string(), &"light".to_string()).unwrap();
    assert_eq!(kind, ParityNodeKind { availability: Availability::Personal, capability: Capability::Light });
    assert_eq!(Availability::Public.name(), "public");
    assert_eq!(Capability::Full.name(), "full");
    assert_eq!(Availability::from_name(&Availability::Personal.name()), Some(Availability::Personal));
    assert_eq!(Capability::from_name(&Capability::Light.name()), Some(Capability::Light));
    assert_eq!(Capability::from_name(&"Light".to_string()), None);
    assert!(ParityNodeKind::from_names(&"private".to_string(), &"full".to_string()).is_none());
}

#[test]
fn decimal_text() {
    assert_eq!(to_decimal(0), "0");
    assert_eq!(to_decimal(9), "9");
    assert_eq!(to_decimal(1234), "1234");
    assert_eq!(to_decimal(usize::MAX), usize::MAX.to_string());
}
