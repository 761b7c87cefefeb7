use serial_relay::{decode_payload, wire_from_parts, Envelope};

#[test]
fn envelope_holds_encoded_payload() {
    let e = Envelope::build("/dev/ttyUSB0", b"ok\n", 10_000);
    assert_eq!(e.port(), "/dev/ttyUSB0");
    assert_eq!(e.payload(), "b2sK");
    assert_eq!(e.duration_micros(), 10_000);
    assert_eq!(decode_payload(e.payload()), Some(b"ok\n".to_vec()));
}

#[test]
fn wire_text_is_compact_sorted_json() {
    let e = Envelope::build("COM1", b"ok\n", 10_000);
    let wire = e.to_wire();
    assert_eq!(
        String::from_utf8(wire).unwrap(),
        "{\"data\":\"b2sK\",\"duration_microseconds\":10000,\"port\":\"COM1\"}"
    );
}

#[test]
fn wire_text_escapes_port_name() {
    let e = Envelope::build("a\"b\\c", b"", 0);
    let wire = e.to_wire();
    assert_eq!(
        String::from_utf8(wire.clone()).unwrap(),
        "{\"data\":\"\",\"duration_microseconds\":0,\"port\":\"a\\\"b\\\\c\"}"
    );
    let v: serde_json::Value = serde_json::from_slice(&wire).unwrap();
    assert_eq!(v["port"], "a\"b\\c");
    assert_eq!(v["data"], "");
    assert_eq!(v["duration_microseconds"], 0);
}

#[test]
fn wire_from_parts_lays_out_fields() {
    let w = wire_from_parts(b"\"p\"", "Zg==", 18_446_744_073_709_551_615);
    assert_eq!(
        String::from_utf8(w).unwrap(),
        "{\"data\":\"Zg==\",\"duration_microseconds\":18446744073709551615,\"port\":\"p\"}"
    );
}
