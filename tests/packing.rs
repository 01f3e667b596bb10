use unison_core::pack::{pack, unpack};

#[test]
fn pack_is_bincode_then_base64() {
    let defs = vec![("ab".to_string(), vec![1u8, 2])];
    let text = pack(&defs, "h").unwrap();
    assert_eq!(text, "AQAAAAAAAAACAAAAAAAAAGFiAgAAAAAAAAABAgEAAAAAAAAAaA==");
}

#[test]
fn unpack_reverses_pack() {
    let defs = vec![("x1".to_string(), vec![9u8]), ("y2".to_string(), vec![])];
    let text = pack(&defs, "main").unwrap();
    let (back, hash) = unpack(&text).unwrap();
    assert_eq!(back, defs);
    assert_eq!(hash, "main");
    assert!(unpack("not base64!").is_none());
    assert!(unpack("AAAA").is_none());
}
