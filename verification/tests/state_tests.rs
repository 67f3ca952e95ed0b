use mykvm_core::packet::PairedController;
use mykvm_core::state::{
    input_authorized, pairing_code_from, pairing_code_from_bytes, random_pairing_code, OriginCache, ReceiverLayout,
    INPUT_ORIGIN_CACHE_TTL_MS,
};

fn desktop_controller() -> PairedController {
    PairedController {
        id: "peer-desktop".into(),
        name: "Desktop".into(),
        host: "desktop".into(),
        ip: "192.168.1.10".into(),
        transport_public_key: "key-1".into(),
        protocol_version: 1,
        cluster_id: "cluster-1".into(),
        paired_at_ms: 0,
    }
}

fn paired() -> ReceiverLayout {
    let mut layout = ReceiverLayout::new_unpaired();
    layout.cluster_id = "cluster-1".into();
    layout.pair_secret = "secret-1".into();
    layout.paired_controllers.push(desktop_controller());
    layout
}

#[test]
fn unpaired_client_advertises_nothing_and_cannot_receive() {
    let layout = ReceiverLayout::new_unpaired();
    assert!(layout.pairing_required());
    assert_eq!(layout.advertised_cluster_id(), "");
    assert!(!layout.input_ready());
}

#[test]
fn paired_layout_becomes_an_input_target() {
    let mut layout = ReceiverLayout::new_unpaired();
    layout.cluster_id = "cluster-1".into();
    layout.pair_secret = "secret-1".into();
    layout.paired_controllers.push(desktop_controller());

    assert!(!layout.pairing_required());
    assert_eq!(layout.advertised_cluster_id(), "cluster-1");
    assert!(layout.input_ready());
}

#[test]
fn authorization_requires_matching_cluster_secret_and_a_known_origin() {
    let mut layout = ReceiverLayout::new_unpaired();
    layout.cluster_id = "cluster-1".into();
    layout.pair_secret = "secret-1".into();
    layout.paired_controllers.push(desktop_controller());

    assert!(input_authorized(&layout, "cluster-1", "secret-1", "key-1", ""));
    assert!(input_authorized(&layout, "cluster-1", "secret-1", "", "peer-desktop"));
    // Wrong secret, wrong cluster, unknown origin.
    assert!(!input_authorized(&layout, "cluster-1", "nope", "key-1", ""));
    assert!(!input_authorized(&layout, "other", "secret-1", "key-1", ""));
    assert!(!input_authorized(&layout, "cluster-1", "secret-1", "key-2", "peer-other"));
}

#[test]
fn origin_cache_is_fresh_only_within_ttl() {
    let mut cache = OriginCache::default();
    let now: u64 = 5_000_000;
    let addr = "192.168.1.10:47834";
    assert!(!cache.is_fresh(addr, now));
    cache.remember(addr, now);
    assert!(cache.is_fresh(addr, now));
    // A different source address is not covered by the cached authorization.
    assert!(!cache.is_fresh("192.168.1.11:47834", now));
}

#[test]
fn origin_cache_expires_after_the_time_to_live() {
    let mut cache = OriginCache::default();
    let now: u64 = 5_000_000;
    cache.remember("192.168.1.10:47834", now);
    assert!(cache.is_fresh("192.168.1.10:47834", now + INPUT_ORIGIN_CACHE_TTL_MS - 1));
    assert!(!cache.is_fresh("192.168.1.10:47834", now + INPUT_ORIGIN_CACHE_TTL_MS));
    // A clock that went back still counts as fresh.
    assert!(cache.is_fresh("192.168.1.10:47834", now - 10));
}

#[test]
fn remembering_again_renews_the_authorization() {
    let mut cache = OriginCache::default();
    cache.remember("192.168.1.10:47834", 1_000);
    cache.remember("192.168.1.11:47834", 20_000);
    cache.remember("192.168.1.10:47834", 25_000);
    // The first source was renewed at 25_000; the second expires at 50_000.
    assert!(cache.is_fresh("192.168.1.10:47834", 54_999));
    assert!(!cache.is_fresh("192.168.1.11:47834", 50_000));
    assert!(cache.is_fresh("192.168.1.11:47834", 49_999));
}

#[test]
fn authorization_ignores_blank_origins_and_blank_credentials() {
    let layout = paired();
    // A blank key or id never matches, even against a blank stored value.
    assert!(!input_authorized(&layout, "cluster-1", "secret-1", "  ", ""));
    let mut blank_secret = paired();
    blank_secret.pair_secret = "   ".into();
    assert!(!input_authorized(&blank_secret, "cluster-1", "   ", "key-1", ""));
    assert!(!input_authorized(&ReceiverLayout::new_unpaired(), "", "", "key-1", "peer-desktop"));
}

#[test]
fn is_paired_needs_a_controller_and_a_cluster() {
    let mut layout = paired();
    assert!(layout.is_paired());
    layout.cluster_id = " ".into();
    assert!(!layout.is_paired());
    assert!(!layout.input_ready());
    assert!(!ReceiverLayout::new_unpaired().is_paired());
}

#[test]
fn a_server_layout_never_needs_pairing() {
    let mut layout = ReceiverLayout::new_unpaired();
    layout.machine_role = "server".into();
    layout.cluster_id = "cluster-9".into();
    assert!(!layout.pairing_required());
    assert_eq!(layout.advertised_cluster_id(), "cluster-9");
    assert!(layout.input_ready());
}

#[test]
fn pairing_codes_are_six_zero_padded_digits() {
    assert_eq!(pairing_code_from(0), "000000");
    assert_eq!(pairing_code_from(42), "000042");
    assert_eq!(pairing_code_from(1_234_567), "234567");
    assert_eq!(pairing_code_from(u32::MAX), "967295");
    let code = random_pairing_code();
    assert_eq!(code.chars().count(), 6);
    assert!(code.chars().all(|c| c.is_ascii_digit()));
}

#[test]
fn default_layout_is_unpaired() {
    let layout = ReceiverLayout::default();
    assert_eq!(layout.machine_role, "client");
    assert!(layout.pairing_required());
    assert!(layout.paired_controllers.is_empty());
}

#[test]
fn pairing_codes_read_the_bytes_little_endian() {
    // 0x000F4240 is one million: its code is all zeros.
    assert_eq!(pairing_code_from_bytes([0x40, 0x42, 0x0F, 0x00]), "000000");
    assert_eq!(pairing_code_from_bytes([0x41, 0x42, 0x0F, 0x00]), "000001");
    assert_eq!(pairing_code_from_bytes([0x01, 0, 0, 0]), "000001");
    assert_eq!(pairing_code_from_bytes([0, 0, 0, 0x01]), "777216");
    assert_eq!(pairing_code_from_bytes([0xFF, 0xFF, 0xFF, 0xFF]), "967295");
}
