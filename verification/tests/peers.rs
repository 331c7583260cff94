use core_p2p::disk::{blob_store_dir_from, core_p2p_wasm_version};
use core_p2p::peers::{collect_chars, find_text, peer_endpoint_key, PeerRegistry};

const KEY_HEX: &str = "ae58ff8833241ac82d6ff7611046ed67b5072d142c588d0063e942d9a75502b6";

fn key_bytes() -> [u8; 32] {
    let v = hex::decode(KEY_HEX).unwrap();
    let mut a = [0u8; 32];
    a.copy_from_slice(&v);
    a
}

#[test]
fn registry_lookup_and_removal() {
    let mut reg: PeerRegistry<u32> = PeerRegistry::new();
    assert_eq!(reg.get_peer("n1").err(), Some("unknown peer: n1".to_string()));
    reg.register("n1".to_string(), "addr-1".to_string(), 11);
    let entry = reg.get_peer("n1").unwrap();
    assert_eq!(entry.handle, 11);
    assert_eq!(reg.peer_endpoint("n1"), Ok("addr-1".to_string()));
    reg.remove("n1");
    assert_eq!(reg.peer_endpoint("n1"), Err("unknown peer: n1".to_string()));
}

#[test]
fn key_is_read_from_printed_address() {
    let addr = format!("EndpointAddr {{ id: PublicKey({KEY_HEX}), addrs: {{}} }}");
    assert_eq!(peer_endpoint_key(&addr, "not-a-key"), Ok(key_bytes()));
}

#[test]
fn key_falls_back_to_the_id() {
    assert_eq!(peer_endpoint_key("no key here", KEY_HEX), Ok(key_bytes()));
    // marker without closing bracket
    assert_eq!(peer_endpoint_key("PublicKey(abc", KEY_HEX), Ok(key_bytes()));
}

#[test]
fn bad_key_in_address_is_an_error() {
    assert!(peer_endpoint_key("PublicKey(zz)", KEY_HEX).is_err());
}

#[test]
fn resolve_registered_and_unregistered() {
    let mut reg: PeerRegistry<()> = PeerRegistry::new();
    reg.register(
        "local".to_string(),
        format!("EndpointAddr {{ id: PublicKey({KEY_HEX}) }}"),
        (),
    );
    assert_eq!(reg.resolve_remote_addr("local"), Ok(key_bytes()));
    assert_eq!(reg.resolve_remote_addr(KEY_HEX), Ok(key_bytes()));
    let err = reg.resolve_remote_addr("garbage").unwrap_err();
    assert!(err.starts_with("invalid remote node id: "), "{err}");
    assert!(err.len() > "invalid remote node id: ".len());
}

#[test]
fn text_search() {
    let hay = collect_chars("xx PublicKey(ab) PublicKey(cd)");
    assert_eq!(hay.len(), 30);
    let needle = collect_chars("PublicKey(");
    assert_eq!(find_text(&hay, &needle, 0), Some(3));
    assert_eq!(find_text(&hay, &needle, 4), Some(17));
    assert_eq!(find_text(&hay, &needle, 18), None);
    assert_eq!(find_text(&hay, &collect_chars(""), 5), Some(5));
    assert_eq!(collect_chars("héllo"), vec!['h', 'é', 'l', 'l', 'o']);
}

#[test]
fn store_dir_and_version() {
    assert_eq!(blob_store_dir_from(None), "/var/lib/sport-p2p/blobs");
    assert_eq!(blob_store_dir_from(Some("/tmp/b".to_string())), "/tmp/b");
    assert_eq!(core_p2p_wasm_version(), "0.2.0-wasm");
}
