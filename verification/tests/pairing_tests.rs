use mykvm_core::packet::{LanPeer, LanPeerScreen, PairedController};
use mykvm_core::pairing::{
    begin_pairing_challenge, begin_pairing_challenge_at, can_refresh_controller_identity,
    complete_pairing_from_confirm, complete_pairing_from_confirm_at, identity_matches_peer,
    PairingChallenge, PAIRING_CODE_TTL_MS, PAIRING_MAX_ATTEMPTS,
};
use mykvm_core::state::{input_authorized, ReceiverLayout};
use std::time::Instant;

fn peer(id: &str, role: &str, key: &str) -> LanPeer {
    LanPeer {
        id: id.into(),
        name: "Desktop".into(),
        platform: "windows".into(),
        machine_role: role.into(),
        cluster_id: String::new(),
        pairing_required: false,
        host: "desktop".into(),
        ip: "192.168.1.10".into(),
        transport_port: 47833,
        quic_port: 47834,
        transport_public_key: key.into(),
        protocol_version: 1,
        screen_count: 1,
        input_ready: true,
        upgrading: false,
        screens: Vec::<LanPeerScreen>::new(),
        app_version: "0.1.0".into(),
        last_seen_ms: 0,
    }
}

fn unpaired_layout() -> ReceiverLayout {
    ReceiverLayout::new_unpaired()
}

fn stored(id: &str, name: &str, host: &str, key: &str) -> PairedController {
    PairedController {
        id: id.into(),
        name: name.into(),
        host: host.into(),
        ip: "192.168.1.10".into(),
        transport_public_key: key.into(),
        protocol_version: 1,
        cluster_id: "cluster-1".into(),
        paired_at_ms: 0,
    }
}

#[test]
fn challenge_is_issued_only_for_a_server_requester() {
    let mut challenge: Option<PairingChallenge> = None;
    let layout = unpaired_layout();

    assert!(begin_pairing_challenge(&mut challenge, &layout, &peer("p1", "client", "k1"), "1.2.3.4".into()).is_none());
    assert!(begin_pairing_challenge(&mut challenge, &layout, &peer("p1", "server", "k1"), "1.2.3.4".into()).is_some());
}

/// Re-asking with the same identity keeps the code the user is looking at,
/// so a retried request does not invalidate the code already on screen.
#[test]
fn repeated_request_from_same_peer_keeps_the_code() {
    let mut challenge: Option<PairingChallenge> = None;
    let layout = unpaired_layout();

    let first = begin_pairing_challenge(&mut challenge, &layout, &peer("p1", "server", "k1"), "1.2.3.4".into()).unwrap();
    let second = begin_pairing_challenge(&mut challenge, &layout, &peer("p1", "server", "k1"), "1.2.3.4".into()).unwrap();
    assert_eq!(first.code, second.code);
}

/// Re-pairing has to stay possible: once the stored controller record is
/// stale the desktop's pair button is the user's only way back, and it can
/// only work if the receiver still mints a challenge while paired.
#[test]
fn paired_client_still_accepts_a_repair_request() {
    let mut challenge: Option<PairingChallenge> = None;
    let mut layout = unpaired_layout();
    layout.cluster_id = "cluster-before-repair".into();
    layout.pair_secret = "secret-before-repair".into();
    layout.paired_controllers.push(PairedController {
        id: "peer-desktop".into(),
        name: "Desktop".into(),
        host: "desktop".into(),
        ip: "192.168.1.10".into(),
        transport_public_key: "stale-key".into(),
        protocol_version: 1,
        cluster_id: "cluster-before-repair".into(),
        paired_at_ms: 0,
    });
    assert!(!layout.pairing_required());

    let requester = peer("peer-desktop", "server", "rotated-key");
    let issued = begin_pairing_challenge(&mut challenge, &layout, &requester, "192.168.1.10".into());
    assert!(issued.is_some(), "a paired client must still accept a repair request");
    assert_eq!(issued.unwrap().requester_id, "peer-desktop");
}

#[test]
fn confirm_adopts_cluster_credentials_and_whitelists_controller() {
    let mut challenge: Option<PairingChallenge> = None;
    let mut layout = unpaired_layout();
    let requester = peer("peer-desktop", "server", "pubkey-1");

    let issued = begin_pairing_challenge(&mut challenge, &layout, &requester, "192.168.1.10".into()).unwrap();

    let done = complete_pairing_from_confirm(
        &mut layout,
        &mut challenge,
        &requester,
        Some(issued.code.clone()),
        Some("cluster-xyz".into()),
        Some("secret-xyz".into()),
    )
    .expect("pairing should succeed");

    assert_eq!(done.cluster_id, "cluster-xyz");
    assert_eq!(done.pair_secret, "secret-xyz");
    assert_eq!(done.paired_controllers.len(), 1);
    assert_eq!(done.paired_controllers[0].id, "peer-desktop");
    assert!(!done.pairing_required());
    // The challenge is single-use.
    assert!(challenge.is_none());
}

#[test]
fn wrong_code_is_rejected_and_burns_an_attempt() {
    let mut challenge: Option<PairingChallenge> = None;
    let mut layout = unpaired_layout();
    let requester = peer("peer-desktop", "server", "pubkey-1");
    begin_pairing_challenge(&mut challenge, &layout, &requester, "192.168.1.10".into()).unwrap();

    let err = complete_pairing_from_confirm(
        &mut layout,
        &mut challenge,
        &requester,
        Some("000000".into()),
        Some("cluster-xyz".into()),
        Some("secret-xyz".into()),
    )
    .unwrap_err();
    assert!(err.contains("incorrect"));
    assert_eq!(challenge.as_ref().unwrap().attempts, 1);
    assert!(layout.paired_controllers.is_empty());
}

#[test]
fn a_live_code_for_someone_else_blocks_a_new_request() {
    let mut challenge: Option<PairingChallenge> = None;
    let layout = unpaired_layout();
    let now: u64 = 1_000_000;
    let first = begin_pairing_challenge_at(&mut challenge, &layout, &peer("p1", "server", "k1"), "1.2.3.4".into(), 0, Instant::now(), now, "111111".into())
        .unwrap();
    assert_eq!(first.code, "111111");
    assert_eq!(first.expires_at_ms, now + PAIRING_CODE_TTL_MS);
    assert!(begin_pairing_challenge_at(&mut challenge, &layout, &peer("p2", "server", "k2"), "1.2.3.5".into(), 1, Instant::now(), now + 1, "222222".into())
        .is_none());
    assert_eq!(challenge.as_ref().unwrap().requester_id, "p1");
    // Once the code expired a new requester gets a fresh one.
    let next = begin_pairing_challenge_at(&mut challenge, &layout, &peer("p2", "server", "k2"), "1.2.3.5".into(), PAIRING_CODE_TTL_MS, Instant::now(), now + PAIRING_CODE_TTL_MS, "222222".into())
        .unwrap();
    assert_eq!(next.requester_id, "p2");
    assert_eq!(next.code, "222222");
}

#[test]
fn a_repeat_after_a_wrong_guess_mints_a_new_code_and_refreshes_details() {
    let mut challenge: Option<PairingChallenge> = None;
    let mut layout = unpaired_layout();
    let requester = peer("peer-desktop", "server", "pubkey-1");
    let now: u64 = 2_000_000;
    let first_issue = Instant::now();
    begin_pairing_challenge_at(&mut challenge, &layout, &requester, "192.168.1.10".into(), 0, first_issue, now, "123456".into()).unwrap();
    let err = complete_pairing_from_confirm_at(&mut layout, &mut challenge, &requester, Some("654321".into()), Some("c".into()), Some("s".into()), 1, now + 1)
        .unwrap_err();
    assert_eq!(err, "incorrect pairing code");
    let mut moved = peer("peer-desktop", "server", "pubkey-2");
    moved.host = "desktop-2".into();
    let reissue = Instant::now();
    let again = begin_pairing_challenge_at(&mut challenge, &layout, &moved, "192.168.1.11".into(), 10, reissue, now + 10, "777777".into())
        .unwrap();
    assert_eq!(again.code, "777777");
    assert_eq!(again.attempts, 0);
    assert_eq!(again.issued_at, reissue);
    assert_eq!(again.expires_at_ms, now + 10 + PAIRING_CODE_TTL_MS);
    assert_eq!(again.requester_ip, "192.168.1.11");
    assert_eq!(again.requester_host, "desktop-2");
    assert_eq!(again.requester_public_key, "pubkey-2");
}

#[test]
fn confirm_errors_come_in_order() {
    let requester = peer("peer-desktop", "server", "pubkey-1");
    let now: u64 = 3_000_000;
    let mut layout = unpaired_layout();
    let mut challenge: Option<PairingChallenge> = None;

    let missing = complete_pairing_from_confirm_at(&mut layout, &mut challenge, &requester, Some(" ".into()), Some("c".into()), Some("s".into()), 0, now);
    assert_eq!(missing.unwrap_err(), "pairing confirm is missing the code or cluster info");
    let none = complete_pairing_from_confirm_at(&mut layout, &mut challenge, &requester, Some("123456".into()), Some("c".into()), None, 0, now);
    assert_eq!(none.unwrap_err(), "pairing confirm is missing the code or cluster info");
    let pending = complete_pairing_from_confirm_at(&mut layout, &mut challenge, &requester, Some("123456".into()), Some("c".into()), Some("s".into()), 0, now);
    assert_eq!(pending.unwrap_err(), "no pairing challenge is pending");

    begin_pairing_challenge_at(&mut challenge, &layout, &requester, "192.168.1.10".into(), 0, Instant::now(), now, "123456".into()).unwrap();
    let other = peer("peer-other", "server", "pubkey-1");
    let wrong_peer = complete_pairing_from_confirm_at(&mut layout, &mut challenge, &other, Some("123456".into()), Some("c".into()), Some("s".into()), 0, now);
    assert_eq!(wrong_peer.unwrap_err(), "pairing confirm came from a different requester");
    let rekeyed = peer("peer-desktop", "server", "pubkey-9");
    let wrong_key = complete_pairing_from_confirm_at(&mut layout, &mut challenge, &rekeyed, Some("123456".into()), Some("c".into()), Some("s".into()), 0, now);
    assert_eq!(wrong_key.unwrap_err(), "pairing confirm came from a different requester");
    assert!(challenge.is_some());

    let expired = complete_pairing_from_confirm_at(&mut layout, &mut challenge, &requester, Some("123456".into()), Some("c".into()), Some("s".into()), PAIRING_CODE_TTL_MS, now + PAIRING_CODE_TTL_MS);
    assert_eq!(expired.unwrap_err(), "the pairing code expired");
    assert!(challenge.is_none());

    let mut server = unpaired_layout();
    server.machine_role = "server".into();
    let mut challenge2: Option<PairingChallenge> = None;
    begin_pairing_challenge_at(&mut challenge2, &layout, &requester, "192.168.1.10".into(), 0, Instant::now(), now, "123456".into()).unwrap();
    let refused = complete_pairing_from_confirm_at(&mut server, &mut challenge2, &requester, Some(" 123456 ".into()), Some("c".into()), Some("s".into()), 0, now);
    assert_eq!(refused.unwrap_err(), "only a client can accept a server pairing");
    assert!(challenge2.is_none());
    assert!(server.paired_controllers.is_empty());
}

#[test]
fn five_wrong_codes_discard_the_challenge() {
    let requester = peer("peer-desktop", "server", "pubkey-1");
    let now: u64 = 4_000_000;
    let mut layout = unpaired_layout();
    let mut challenge: Option<PairingChallenge> = None;
    begin_pairing_challenge_at(&mut challenge, &layout, &requester, "192.168.1.10".into(), 0, Instant::now(), now, "123456".into()).unwrap();
    for attempt in 1..=PAIRING_MAX_ATTEMPTS {
        let err = complete_pairing_from_confirm_at(&mut layout, &mut challenge, &requester, Some("000000".into()), Some("c".into()), Some("s".into()), 0, now)
            .unwrap_err();
        assert_eq!(err, "incorrect pairing code");
        if attempt < PAIRING_MAX_ATTEMPTS {
            assert_eq!(challenge.as_ref().unwrap().attempts, attempt);
        }
    }
    assert!(challenge.is_none());
    let late = complete_pairing_from_confirm_at(&mut layout, &mut challenge, &requester, Some("123456".into()), Some("c".into()), Some("s".into()), 0, now);
    assert_eq!(late.unwrap_err(), "no pairing challenge is pending");
}

#[test]
fn a_paired_controller_is_authorized_with_trimmed_credentials() {
    let requester = peer("peer-desktop", "server", "pubkey-1");
    let now: u64 = 5_000_000;
    let mut layout = unpaired_layout();
    let mut challenge: Option<PairingChallenge> = None;
    begin_pairing_challenge_at(&mut challenge, &layout, &requester, "192.168.1.10".into(), 0, Instant::now(), now, "123456".into()).unwrap();
    let done = complete_pairing_from_confirm_at(&mut layout, &mut challenge, &requester, Some(" 123456\n".into()), Some(" cluster-xyz ".into()), Some("\tsecret-xyz".into()), 5, now + 5)
        .unwrap();
    assert_eq!(done.cluster_id, "cluster-xyz");
    assert_eq!(done.pair_secret, "secret-xyz");
    assert_eq!(done.paired_controllers[0].cluster_id, "cluster-xyz");
    assert_eq!(done.paired_controllers[0].paired_at_ms, now + 5);
    assert_eq!(done.paired_controllers[0].transport_public_key, "pubkey-1");
    assert_eq!(layout.cluster_id, "cluster-xyz");
    assert!(input_authorized(&layout, "cluster-xyz", "secret-xyz", "pubkey-1", ""));
    assert!(input_authorized(&layout, "cluster-xyz", "secret-xyz", "", "peer-desktop"));
}

#[test]
fn identity_and_refresh_rules() {
    let record = stored("peer-desktop", "Desktop", "desktop/desktop.lan", "old-key");
    assert!(identity_matches_peer(&record, &peer("peer-desktop", "server", "new-key")));
    assert!(identity_matches_peer(&record, &peer("peer-new", "server", "old-key")));
    assert!(!identity_matches_peer(&record, &peer("  ", "server", " ")));

    let mut by_name = peer("peer-x", "server", "k-x");
    by_name.name = "  DESKTOP ".into();
    by_name.host = "elsewhere".into();
    assert!(can_refresh_controller_identity(&record, &by_name));

    let mut by_host = peer("peer-x", "server", "k-x");
    by_host.name = "Other".into();
    by_host.host = " Desktop.LAN ".into();
    assert!(can_refresh_controller_identity(&record, &by_host));

    let mut listed_other_way = peer("peer-x", "server", "k-x");
    listed_other_way.name = "Other".into();
    listed_other_way.host = "laptop/desktop".into();
    let plain = stored("peer-desktop", "Desktop", "desktop", "old-key");
    let mut renamed = plain.clone();
    renamed.name = "Renamed".into();
    assert!(can_refresh_controller_identity(&renamed, &listed_other_way));

    let mut ip_only = peer("peer-x", "server", "k-x");
    ip_only.name = "Other".into();
    ip_only.host = "other-host".into();
    assert!(!can_refresh_controller_identity(&plain, &ip_only));

    let mut blank_host = peer("peer-x", "server", "k-x");
    blank_host.name = "Other".into();
    blank_host.host = "   ".into();
    assert!(!can_refresh_controller_identity(&plain, &blank_host));
}

#[test]
fn challenge_expiry_is_inclusive() {
    let mut challenge: Option<PairingChallenge> = None;
    let layout = unpaired_layout();
    let issued = begin_pairing_challenge_at(&mut challenge, &layout, &peer("p1", "server", "k1"), "1.2.3.4".into(), 0, Instant::now(), 100, "424242".into())
        .unwrap();
    assert!(!issued.is_expired_after(PAIRING_CODE_TTL_MS - 1));
    assert!(issued.is_expired_after(PAIRING_CODE_TTL_MS));
    assert!(!issued.is_expired());
    let late = begin_pairing_challenge_at(&mut challenge, &layout, &peer("p1", "server", "k1"), "1.2.3.4".into(), PAIRING_CODE_TTL_MS, Instant::now(), u64::MAX - 5, "000001".into());
    // Near the end of the wall clock the displayed expiry saturates.
    assert!(late.is_some());
    assert_eq!(late.unwrap().expires_at_ms, u64::MAX);
}

#[test]
fn expiry_follows_the_monotonic_clock_not_the_wall_clock() {
    let requester = peer("peer-desktop", "server", "pubkey-1");
    let now: u64 = 6_000_000;
    // The wall clock jumped far ahead, but the code is only a second old: it still pairs.
    let mut layout = unpaired_layout();
    let mut challenge: Option<PairingChallenge> = None;
    begin_pairing_challenge_at(&mut challenge, &layout, &requester, "192.168.1.10".into(), 0, Instant::now(), now, "123456".into()).unwrap();
    let done = complete_pairing_from_confirm_at(&mut layout, &mut challenge, &requester, Some("123456".into()), Some("c".into()), Some("s".into()), 1_000, now + 10 * PAIRING_CODE_TTL_MS)
        .unwrap();
    assert_eq!(done.paired_controllers[0].paired_at_ms, now + 10 * PAIRING_CODE_TTL_MS);
    // The wall clock went back, but the code is a full lifetime old: it is gone.
    let mut layout = unpaired_layout();
    let mut challenge: Option<PairingChallenge> = None;
    begin_pairing_challenge_at(&mut challenge, &layout, &requester, "192.168.1.10".into(), 0, Instant::now(), now, "123456".into()).unwrap();
    let expired = complete_pairing_from_confirm_at(&mut layout, &mut challenge, &requester, Some("123456".into()), Some("c".into()), Some("s".into()), PAIRING_CODE_TTL_MS, now - 1_000);
    assert_eq!(expired.unwrap_err(), "the pairing code expired");
    assert!(challenge.is_none());
}

#[test]
fn the_code_on_screen_pairs_the_desktop_that_asked() {
    let mut challenge: Option<PairingChallenge> = None;
    let mut layout = unpaired_layout();
    let requester = peer("peer-desktop", "server", "pubkey-1");
    let issued = begin_pairing_challenge(&mut challenge, &layout, &requester, "192.168.1.10".into()).unwrap();
    assert_eq!(issued.code.len(), 6);
    assert!(issued.code.chars().all(|c| c.is_ascii_digit()));
    assert!(!issued.is_expired());
    let done = complete_pairing_from_confirm(
        &mut layout,
        &mut challenge,
        &requester,
        Some(issued.code.clone()),
        Some("cluster-9".into()),
        Some("secret-9".into()),
    )
    .unwrap();
    assert!(done.is_paired());
    assert!(input_authorized(&done, "cluster-9", "secret-9", "pubkey-1", ""));
}
