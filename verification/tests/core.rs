//! Tests of configuration, primitive values and utility functions.

use ogmios_client::chain_sync::Intersection;
use ogmios_client::connection::{
    create_connection_object, Connection, ConnectionConfig, DEFAULT_HOST, DEFAULT_MAX_PAYLOAD,
    DEFAULT_PORT,
};
use ogmios_client::primitives::{Point, Tip, Value};
use ogmios_client::prelude::Point as PreludePoint;
use ogmios_client::primitives::{AdaValue, AssetEntry, PolicyAssets};
use ogmios_client::transaction::TransactionOutput;
use ogmios_client::util::{
    hex_decode, hex_encode, lovelace_to_ada, parse_point, size_of_integer, size_of_value,
    utxo_size,
};

#[test]
fn test_intersection_creation() {
    let intersection = Intersection {
        point: Point::origin(),
        tip: Tip::Origin("origin".to_string()),
    };
    assert!(matches!(intersection.point, Point::Origin(_)));
}

#[test]
fn test_connection_config_default() {
    let config = ConnectionConfig::default();
    assert_eq!(config.host, DEFAULT_HOST);
    assert_eq!(config.port, DEFAULT_PORT);
    assert!(!config.tls);
    assert_eq!(config.max_payload, DEFAULT_MAX_PAYLOAD);
}

#[test]
fn test_connection_from_config() {
    let config = ConnectionConfig::new("localhost", 1338).with_tls();
    let connection = Connection::from_config(&config);

    assert_eq!(connection.address.http, "https://localhost:1338");
    assert_eq!(connection.address.websocket, "wss://localhost:1338");
}

#[test]
fn test_create_connection_object() {
    let connection = create_connection_object(None);
    assert_eq!(connection.address.http, "http://127.0.0.1:1337");
    assert_eq!(connection.address.websocket, "ws://127.0.0.1:1337");
}

#[test]
fn test_prelude_imports() {
    let origin = PreludePoint::origin();
    assert!(matches!(origin, PreludePoint::Origin(_)));
}

#[test]
fn test_point_creation() {
    let origin = Point::origin();
    assert!(matches!(origin, Point::Origin(_)));

    let point = Point::at(12345, "abcdef");
    assert!(matches!(point, Point::Point { .. }));
}

#[test]
fn test_value_creation() {
    let value = Value::ada_only(1_000_000);
    assert_eq!(value.lovelace(), 1_000_000);
}

#[test]
fn test_module_compiles() {
    // Basic compilation test
}

#[test]
fn mod_test_module_compiles() {
    // Basic compilation test
}

#[test]
fn test_lovelace_to_ada() {
    assert_eq!(lovelace_to_ada(1_000_000), "1.000000");
    assert_eq!(lovelace_to_ada(1_500_000), "1.500000");
    assert_eq!(lovelace_to_ada(500_000), "0.500000");
}

#[test]
fn test_lovelace_to_ada_edges() {
    assert_eq!(lovelace_to_ada(0), "0.000000");
    assert_eq!(lovelace_to_ada(1), "0.000001");
    assert_eq!(lovelace_to_ada(999_999), "0.999999");
    assert_eq!(lovelace_to_ada(12_000_007), "12.000007");
}

#[test]
fn test_size_of_integer() {
    assert_eq!(size_of_integer(0), 1);
    assert_eq!(size_of_integer(23), 1);
    assert_eq!(size_of_integer(24), 2);
    assert_eq!(size_of_integer(255), 2);
    assert_eq!(size_of_integer(256), 3);
}

#[test]
fn test_hex_encode_decode() {
    let bytes = vec![0xde, 0xad, 0xbe, 0xef];
    let encoded = hex_encode(&bytes);
    assert_eq!(encoded, "deadbeef");

    let decoded = hex_decode(&encoded).unwrap();
    assert_eq!(decoded, bytes);
}

#[test]
fn test_hex_decode_rejects_bad_digit() {
    assert_eq!(hex_decode("zz"), None);
    assert_eq!(hex_decode("DEADBEEF"), Some(vec![0xde, 0xad, 0xbe, 0xef]));
}

#[test]
fn test_parse_point() {
    let origin = "\"origin\"";
    assert_eq!(parse_point(origin), Some(Point::origin()));

    let point = "{\"slot\":12345,\"id\":\"abc123\"}";
    assert_eq!(parse_point(point), Some(Point::at(12345, "abc123")));
}

#[test]
fn test_size_of_value_with_assets() {
    // ada only: a small amount takes one byte
    let plain = Value::ada_only(10);
    assert_eq!(size_of_value(&plain), 1);

    // with assets: pair overhead + amount + policy map overhead
    // + (policy id bytes + per-policy map overhead + name bytes + quantity)
    let value = Value::WithAssets {
        ada: AdaValue { lovelace: 10 },
        assets: vec![PolicyAssets {
            policy: "aa".repeat(28),
            assets: vec![AssetEntry { name: "abcd".to_string(), quantity: 5 }],
        }],
    };
    // 1 (array of 2) + 1 (lovelace 10) + 1 (one policy) + 30 (28-byte id)
    // + 1 (one asset) + 3 (2-byte name) + 1 (quantity 5)
    assert_eq!(size_of_value(&value), 38);
}

#[test]
fn test_utxo_size_minimal() {
    let output = TransactionOutput {
        address: "addr_test1xyz".to_string(),
        value: Value::ada_only(10),
        datum_hash: None,
        datum: None,
        script: None,
    };
    // 160 overhead + 59 (57-byte address body + 2-byte length) + 1 (value)
    assert_eq!(utxo_size(&output), 220);
}
