use slow::junction_id::JunctionId;
use slow::package::{PackageType, SlowPackage};

fn sample_json() -> serde_json::Value {
    let mut map = serde_json::Map::new();
    map.insert("test".to_string(), serde_json::Value::from("value"));
    map.insert("number".to_string(), serde_json::Value::from(42));
    serde_json::Value::Object(map)
}

#[test]
fn test_package_new_json_payload() {
    let recipient = JunctionId::new("recipient");
    let sender = JunctionId::new("sender");
    let payload = sample_json();

    let package = SlowPackage::new_json_payload(recipient.clone(), sender.clone(), &payload);

    assert_eq!(package.package_type().unwrap(), PackageType::Json);
    assert_eq!(package.recipient_id(), &recipient);
    assert_eq!(package.sender_id(), &sender);
    assert_eq!(package.hop_count(), 0);
    assert_eq!(package.json_payload().unwrap(), payload);
}

#[test]
fn test_packae_new_bin_payload() {
    let recipient = JunctionId::new("recipient");
    let sender = JunctionId::new("sender");
    let binary_data = vec![1, 2, 3, 4, 5];

    let package = SlowPackage::new_bin_payload(recipient.clone(), sender.clone(), &binary_data);

    assert_eq!(package.package_type().unwrap(), PackageType::Bin);
    assert_eq!(package.recipient_id(), &recipient);
    assert_eq!(package.sender_id(), &sender);
    assert_eq!(package.hop_count(), 0);
    assert_eq!(package.payload, binary_data);

    // Test serialization/deserialization of binary payload package
    let serialized = package.pack(package.package_id());
    let deserialized =
        SlowPackage::unpack(&serialized).expect("Failed to deserialize binary package");

    // Verify the deserialized package matches the original
    assert_eq!(deserialized.package_type().unwrap(), PackageType::Bin);
    assert_eq!(deserialized.recipient_id(), &recipient);
    assert_eq!(deserialized.sender_id(), &sender);
    assert_eq!(deserialized.hop_count(), 0);
    assert_eq!(deserialized.payload, binary_data);
}

#[test]
fn test_package_ping_pong() {
    let recipient = JunctionId::new("recipient");
    let sender = JunctionId::new("sender");

    // Test ping package
    let ping = SlowPackage::new_ping(recipient.clone(), sender.clone());
    assert_eq!(ping.package_type().unwrap(), PackageType::Ping);
    assert_eq!(ping.recipient_id(), &recipient);
    assert_eq!(ping.sender_id(), &sender);
    assert_eq!(ping.hop_count(), 0);
    assert!(ping.payload.is_empty());

    // Test serialization/deserialization of ping package
    let serialized_ping = ping.pack(ping.package_id());
    let deserialized_ping =
        SlowPackage::unpack(&serialized_ping).expect("Failed to deserialize ping package");
    assert_eq!(deserialized_ping.package_type().unwrap(), PackageType::Ping);
    assert_eq!(deserialized_ping.recipient_id(), &recipient);
    assert_eq!(deserialized_ping.sender_id(), &sender);
    assert_eq!(deserialized_ping.hop_count(), 0);
    assert!(deserialized_ping.payload.is_empty());

    // Test pong package
    let pong = SlowPackage::new_pong(recipient.clone(), sender.clone());
    assert_eq!(pong.package_type().unwrap(), PackageType::Pong);
    assert_eq!(pong.recipient_id(), &recipient);
    assert_eq!(pong.sender_id(), &sender);
    assert_eq!(pong.hop_count(), 0);
    assert!(pong.payload.is_empty());

    // Test serialization/deserialization of pong package
    let serialized_pong = pong.pack(pong.package_id());
    let deserialized_pong =
        SlowPackage::unpack(&serialized_pong).expect("Failed to deserialize pong package");
    assert_eq!(deserialized_pong.package_type().unwrap(), PackageType::Pong);
    assert_eq!(deserialized_pong.recipient_id(), &recipient);
    assert_eq!(deserialized_pong.sender_id(), &sender);
    assert_eq!(deserialized_pong.hop_count(), 0);
    assert!(deserialized_pong.payload.is_empty());
}

#[test]
fn test_package_hello() {
    let sender = JunctionId::new("sender");
    let package_id = 12345;

    let hello = SlowPackage::new_hello(package_id, sender.clone());

    assert_eq!(hello.package_type().unwrap(), PackageType::Hello);
    assert_eq!(hello.sender_id(), &sender);
    assert_eq!(hello.package_id(), package_id);
    assert_eq!(hello.hop_count(), 0);
    assert!(hello.payload.is_empty());
}

#[test]
fn test_package_serialization_deserialization() {
    let recipient = JunctionId::new("recipient");
    let sender = JunctionId::new("sender");
    let mut map = serde_json::Map::new();
    map.insert("key".to_string(), serde_json::Value::from("value"));
    let payload = serde_json::Value::Object(map);

    let original = SlowPackage::new_json_payload(recipient.clone(), sender.clone(), &payload);

    // Serialize
    let serialized = original.pack(original.package_id());

    // Deserialize
    let deserialized = SlowPackage::unpack(&serialized).expect("Failed to deserialize package");

    // Verify
    assert_eq!(deserialized.package_type().unwrap(), PackageType::Json);
    assert_eq!(deserialized.recipient_id(), &recipient);
    assert_eq!(deserialized.sender_id(), &sender);
    assert_eq!(deserialized.hop_count(), 0);
    assert_eq!(deserialized.json_payload().unwrap(), payload);
}

#[test]
fn test_package_id() {
    let recipient = JunctionId::new("recipient");
    let sender = JunctionId::new("sender");
    let package = SlowPackage::new_ping(recipient, sender);

    assert_eq!(package.package_id(), 0);

    let mut package_with_id = package;
    package_with_id.set_package_id(42);

    assert_eq!(package_with_id.package_id(), 42);
}

#[test]
fn test_package_hops() {
    let recipient = JunctionId::new("recipient");
    let sender = JunctionId::new("sender");
    let mut package = SlowPackage::new_ping(recipient, sender);

    assert_eq!(package.hop_count(), 0);

    let new_hops = package.increment_hops();
    assert_eq!(new_hops, 1);
    assert_eq!(package.hop_count(), 1);

    package.increment_hops();
    assert_eq!(package.hop_count(), 2);
}

#[test]
fn test_package_invalid() {
    // Create an invalid serialized package (by corrupting the data)
    let recipient = JunctionId::new("recipient");
    let sender = JunctionId::new("sender");
    let original = SlowPackage::new_ping(recipient, sender);

    let mut serialized = original.pack(original.package_id());
    // Corrupt the data by truncating it
    serialized.truncate(serialized.len() - 5);

    // Attempt to deserialize
    let result = SlowPackage::unpack(&serialized);
    assert!(result.is_none(), "Should return None for invalid data");
}

#[test]
fn test_package_type_conversion() {
    // Test valid conversions
    assert_eq!(u8::from(PackageType::Hello), 0);
    assert_eq!(u8::from(PackageType::Ping), 1);
    assert_eq!(u8::from(PackageType::Pong), 2);
    assert_eq!(u8::from(PackageType::Json), 3);
    assert_eq!(u8::from(PackageType::Bin), 4);
    assert_eq!(u8::from(PackageType::Howdy), 5);

    assert_eq!(PackageType::try_from(0).unwrap(), PackageType::Hello);
    assert_eq!(PackageType::try_from(1).unwrap(), PackageType::Ping);
    assert_eq!(PackageType::try_from(2).unwrap(), PackageType::Pong);
    assert_eq!(PackageType::try_from(3).unwrap(), PackageType::Json);
    assert_eq!(PackageType::try_from(4).unwrap(), PackageType::Bin);
    assert_eq!(PackageType::try_from(5).unwrap(), PackageType::Howdy);

    // Test invalid conversion
    assert!(PackageType::try_from(6).is_err());
    assert!(PackageType::try_from(255).is_err());
}

#[test]
fn test_ping_wire_bytes() {
    let ping = SlowPackage::new_ping(JunctionId::new("R"), JunctionId::new("S"));
    let bytes = ping.pack(0x0A0B0C0D);
    assert_eq!(bytes.len(), 14);
    assert_eq!(
        bytes,
        vec![1, 1, 0, b'R', 1, 0, b'S', 0, 0x0D, 0x0C, 0x0B, 0x0A, 0, 0]
    );
    let back = SlowPackage::unpack(&bytes).expect("a packed ping is read back");
    assert_eq!(back.package_type().unwrap(), PackageType::Ping);
    assert_eq!(back.recipient_id(), &JunctionId::new("R"));
    assert_eq!(back.sender_id(), &JunctionId::new("S"));
    assert_eq!(back.hop_count(), 0);
    assert_eq!(back.package_id(), 0x0A0B0C0D);
    assert_eq!(back.header.payload_size, 0);
    assert!(back.payload.is_empty());
}

#[test]
fn test_every_truncation_is_rejected() {
    let mut package = SlowPackage::new_bin_payload(
        JunctionId::new("recipient"),
        JunctionId::new("sender"),
        &[9, 8, 7],
    );
    package.increment_hops();
    let bytes = package.pack(77);
    assert!(SlowPackage::unpack(&bytes).is_some());
    for k in 0..bytes.len() {
        assert!(SlowPackage::unpack(&bytes[..k]).is_none(), "cut at {}", k);
    }
    let mut longer = bytes.clone();
    longer.push(0);
    assert!(SlowPackage::unpack(&longer).is_none());
}

#[test]
fn test_unpack_rejects_unknown_type_and_bad_utf8() {
    let good = SlowPackage::new_ping(JunctionId::new("ab"), JunctionId::new("cd")).pack(1);
    let mut bad_type = good.clone();
    bad_type[0] = 6;
    assert!(SlowPackage::unpack(&bad_type).is_none());
    let mut bad_recipient = good.clone();
    bad_recipient[3] = 0xFF;
    assert!(SlowPackage::unpack(&bad_recipient).is_none());
    let mut bad_sender = good.clone();
    bad_sender[7] = 0xFF;
    assert!(SlowPackage::unpack(&bad_sender).is_none());
    let mut bad_size = good.clone();
    let n = bad_size.len();
    bad_size[n - 2] = 1;
    assert!(SlowPackage::unpack(&bad_size).is_none());
    assert!(SlowPackage::unpack(&[]).is_none());
}

#[test]
fn test_hello_and_howdy_recipients() {
    let hello = SlowPackage::new_hello(0, JunctionId::new("me"));
    assert_eq!(hello.recipient_id(), &JunctionId::new("none"));
    let howdy = SlowPackage::new_howdy(JunctionId::new("me"));
    assert_eq!(howdy.recipient_id(), &JunctionId::new("all"));
    assert_eq!(howdy.package_type().unwrap(), PackageType::Howdy);
    assert_eq!(howdy.package_id(), 0);
    let back = SlowPackage::unpack(&howdy.pack(3)).unwrap();
    assert_eq!(back.package_type().unwrap(), PackageType::Howdy);
    assert_eq!(back.package_id(), 3);
}

#[test]
fn test_json_text_payload() {
    let mut map = serde_json::Map::new();
    map.insert("key".to_string(), serde_json::Value::from("ping"));
    let value = serde_json::Value::Object(map);
    let package =
        SlowPackage::try_new_json_payload(JunctionId::new("4"), JunctionId::new("1"), &value)
            .expect("a JSON value has a text");
    assert_eq!(package.payload, b"{\"key\":\"ping\"}".to_vec());
    assert_eq!(package.header.payload_size as usize, package.payload.len());
    assert_eq!(package.json_payload(), Some(value));
    let not_json = SlowPackage::new_bin_payload(JunctionId::new("4"), JunctionId::new("1"), b"{");
    assert!(not_json.json_payload().is_none());
}

#[test]
fn test_oversize_payload_size_field() {
    let big = vec![7u8; 65536 + 3];
    let package = SlowPackage::new_bin_payload(JunctionId::new("a"), JunctionId::new("b"), &big);
    assert_eq!(package.header.payload_size, 3);
    assert!(SlowPackage::unpack(&package.pack(1)).is_none());
    let full = vec![7u8; 65535];
    let package = SlowPackage::new_bin_payload(JunctionId::new("a"), JunctionId::new("b"), &full);
    assert_eq!(package.header.payload_size, 65535);
    let back = SlowPackage::unpack(&package.pack(1)).unwrap();
    assert_eq!(back.payload, full);
}
