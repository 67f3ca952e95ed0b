use mykvm_core::discovery::{
    accept_discovery_packet, adopt_controller, bind_candidate_ports, broadcast_targets,
    discovery_packet, discovery_target_ports, expire_pairing_code_at, handle_discovery_packet_at,
    local_ipv4_addresses, local_peer, local_peer_at, local_peer_id, peer_from_discovery_packet,
    peer_from_discovery_packet_at, screen_to_peer_screen, should_reply_to_discovery,
    subnet_broadcast_addresses, usable_discovery_ipv4, ControllerEndpoint, InterfaceV4,
    ReceiverConfig, DISCOVERY_PORT_SPAN,
};
use mykvm_core::events::ReceiverEvent;
use mykvm_core::packet::{
    DiscoveryPairingFields, LanPeer, PairedController, Screen, DISCOVERY_PROTOCOL,
    PROTOCOL_VERSION, UNIT_SCALE_THOUSANDTHS,
};
use mykvm_core::pairing::{begin_pairing_challenge_at, PairingChallenge};
use mykvm_core::state::{input_authorized, ReceiverLayout};
use std::time::Instant;

fn test_config() -> ReceiverConfig {
    ReceiverConfig {
        device_name: "Pixel 8".into(),
        stable_id: "android-abcd1234".into(),
        app_version: "0.1.0".into(),
        screen_id: "android-screen-1".into(),
        screen: Screen {
            id: "android-screen-1".into(),
            device_id: "android-abcd1234".into(),
            name: "Pixel 8".into(),
            x: 0,
            y: 0,
            width: 1080,
            height: 2400,
            scale_thousandths: UNIT_SCALE_THOUSANDTHS,
            is_primary: true,
        },
        discovery_port: 47833,
        quic_port: 47834,
        transport_public_key: "key".into(),
        protocol_version: PROTOCOL_VERSION,
    }
}

fn paired_layout() -> ReceiverLayout {
    let mut layout = ReceiverLayout::new_unpaired();
    layout.cluster_id = "cluster-1".into();
    layout.pair_secret = "secret-1".into();
    layout.paired_controllers.push(PairedController {
        id: "peer-desktop-192-168-1-7".into(),
        name: "Desktop".into(),
        host: "desktop".into(),
        ip: "192.168.1.7".into(),
        transport_public_key: "old-key".into(),
        protocol_version: 1,
        cluster_id: "cluster-1".into(),
        paired_at_ms: 0,
    });
    layout
}

fn desktop_peer(id: &str, ip: &str, key: &str) -> LanPeer {
    LanPeer {
        id: id.into(),
        name: "Desktop".into(),
        platform: "windows".into(),
        machine_role: "server".into(),
        cluster_id: "cluster-1".into(),
        pairing_required: false,
        host: "desktop".into(),
        ip: ip.into(),
        transport_port: 47833,
        quic_port: 47834,
        transport_public_key: key.into(),
        protocol_version: PROTOCOL_VERSION,
        screen_count: 0,
        input_ready: true,
        upgrading: false,
        screens: vec![],
        app_version: "0.1.0".into(),
        last_seen_ms: 0,
    }
}

fn ipv4(a: u32, b: u32, c: u32, d: u32) -> u32 {
    (a << 24) | (b << 16) | (c << 8) | d
}

#[test]
fn resizing_the_shared_screen_is_visible_to_the_next_announce() {
    let mut config = test_config();
    assert_eq!(config.screen().width, 1080);

    config.set_screen_size(2944, 1840);
    assert_eq!(config.screen().width, 2944);
    assert_eq!(config.screen().height, 1840);
    assert_eq!(config.to_peer_screen().width, 2944);

    // Garbage sizes must not be advertised.
    config.set_screen_size(0, -3);
    assert_eq!(config.screen().width, 2944);
}

/// A rotated certificate or a moved IP must not leave input locked out.
#[test]
fn a_rotated_controller_identity_is_adopted_in_place() {
    let mut layout = paired_layout();
    let mut endpoint: Option<ControllerEndpoint> = None;
    let mut online: Vec<String> = Vec::new();

    let events = adopt_controller(
        &mut layout,
        &desktop_peer("peer-desktop-192-168-1-9", "192.168.1.9", "new-key"),
        &mut endpoint,
        &mut online,
    );

    assert_eq!(layout.paired_controllers.len(), 1, "must not add a second controller");
    let controller = &layout.paired_controllers[0];
    assert_eq!(controller.transport_public_key, "new-key");
    assert_eq!(controller.ip, "192.168.1.9");
    assert_eq!(controller.id, "peer-desktop-192-168-1-9");

    // ...and the address the diagnostics upload dials is now current.
    let endpoint = endpoint.clone().expect("endpoint published");
    assert_eq!(endpoint.ip, "192.168.1.9");
    assert_eq!(endpoint.transport_public_key, "new-key");
    assert_eq!(online, vec!["peer-desktop-192-168-1-9".to_string()]);

    // Presence first, then the refreshed record to persist.
    assert_eq!(events.len(), 2);
    assert!(matches!(&events[0], ReceiverEvent::PeerPresence { peer_ids } if peer_ids == &online));
    match &events[1] {
        ReceiverEvent::Paired { controller_id, controller_name, layout: persisted } => {
            assert_eq!(controller_id, "peer-desktop-192-168-1-9");
            assert_eq!(controller_name, "Desktop");
            assert_eq!(persisted.paired_controllers[0].transport_public_key, "new-key");
        }
        other => panic!("unexpected event {other:?}"),
    }
}

/// Two instances on one PC share an IP: only an identity or hostname match
/// may rewrite the record.
#[test]
fn a_second_instance_on_the_same_pc_cannot_take_over_the_record() {
    let mut layout = paired_layout();
    let mut endpoint: Option<ControllerEndpoint> = None;
    let mut online: Vec<String> = Vec::new();

    // Same PC, same IP, different name/host/id/key.
    let mut impostor = desktop_peer("peer-live-controller", "192.168.1.7", "live-key");
    impostor.name = "Live Test Controller".into();
    impostor.host = "live-controller-host".into();

    adopt_controller(&mut layout, &impostor, &mut endpoint, &mut online);

    let controller = &layout.paired_controllers[0];
    assert_eq!(controller.transport_public_key, "old-key");
    assert_eq!(controller.id, "peer-desktop-192-168-1-7");
    assert_eq!(controller.name, "Desktop");
    assert!(online.is_empty(), "the impostor must not look like our controller");
}

/// A stranger must not be able to overwrite the record or become the upload
/// target just by being on the same LAN.
#[test]
fn an_unrelated_desktop_is_left_alone() {
    let mut layout = paired_layout();
    let mut endpoint: Option<ControllerEndpoint> = None;
    let mut online: Vec<String> = Vec::new();

    let mut stranger = desktop_peer("peer-other-10-0-0-5", "10.0.0.5", "other-key");
    stranger.name = "Other PC".into();
    stranger.host = "other-pc".into();
    // Not our cluster, no matching identity: nothing to adopt.
    stranger.cluster_id = "cluster-other".into();

    adopt_controller(&mut layout, &stranger, &mut endpoint, &mut online);

    assert_eq!(layout.paired_controllers[0].transport_public_key, "old-key");
    assert_eq!(layout.paired_controllers[0].ip, "192.168.1.7");
    assert!(endpoint.is_none(), "no endpoint for a stranger");
    assert!(online.is_empty());
}

#[test]
fn peer_id_is_stable_and_ip_independent() {
    // The desktop keys saved devices off this id, so it must not move when
    // the phone switches between Wi-Fi and USB tethering.
    assert_eq!(local_peer_id("android-abcd1234"), "peer-android-abcd1234");
    assert_eq!(
        local_peer_id("Android-ABCD1234"),
        local_peer_id("android-abcd1234")
    );
}

#[test]
fn discovery_port_span_covers_neighbouring_ports() {
    let ports = discovery_target_ports(47833);
    assert_eq!(ports.len(), DISCOVERY_PORT_SPAN as usize);
    assert_eq!(ports[0], 47833);
    assert!(ports.contains(&47834));
}

#[test]
fn broadcast_targets_include_global_and_subnet_addresses() {
    let targets = broadcast_targets(47833, &vec![ipv4(192, 168, 42, 129)], &Vec::new());
    assert!(targets.contains(&"255.255.255.255:47833".to_string()));
    // The netmask-derived subnet broadcast may be empty, in which case the
    // /24 fallback must still be present.
    assert!(targets.iter().any(|target| target.ends_with(".255:47833")));
}

#[test]
fn unpaired_receiver_answers_only_servers() {
    let layout = ReceiverLayout::new_unpaired();
    let mut server = local_peer(&test_config(), &layout, "192.168.42.129");
    server.id = "peer-desktop".into();
    server.machine_role = "server".into();
    server.pairing_required = false;
    server.cluster_id = "cluster-1".into();

    let mut other_client = server.clone();
    other_client.machine_role = "client".into();

    assert!(should_reply_to_discovery(&layout, &server));
    assert!(!should_reply_to_discovery(&layout, &other_client));
}

/// The discovery reply is not the security boundary: any peer that knows the
/// shared cluster id is answered. What gates input is `paired_controllers`,
/// checked in `input_authorized`.
#[test]
fn paired_receiver_answers_its_cluster_but_only_injects_for_its_controller() {
    let mut layout = ReceiverLayout::new_unpaired();
    layout.cluster_id = "cluster-1".into();
    layout.pair_secret = "secret-1".into();
    layout.paired_controllers.push(PairedController {
        id: "peer-desktop".into(),
        name: "Desktop".into(),
        host: "desktop".into(),
        ip: "192.168.42.1".into(),
        transport_public_key: "key-1".into(),
        protocol_version: 1,
        cluster_id: "cluster-1".into(),
        paired_at_ms: 0,
    });

    let mut controller = local_peer(&test_config(), &layout, "192.168.42.129");
    controller.id = "peer-desktop".into();
    controller.machine_role = "server".into();
    controller.pairing_required = false;
    controller.cluster_id = "cluster-1".into();

    // Same cluster, but not the controller we paired with.
    let mut cluster_mate = controller.clone();
    cluster_mate.id = "peer-other".into();
    cluster_mate.transport_public_key = "key-2".into();

    // A device from a different cluster is invisible to us entirely.
    let mut stranger = controller.clone();
    stranger.id = "peer-stranger".into();
    stranger.cluster_id = "cluster-2".into();

    assert!(should_reply_to_discovery(&layout, &controller));
    assert!(should_reply_to_discovery(&layout, &cluster_mate));
    assert!(!should_reply_to_discovery(&layout, &stranger));

    // ...but the cluster mate still cannot inject.
    assert!(input_authorized(&layout, "cluster-1", "secret-1", "key-1", ""));
    assert!(!input_authorized(&layout, "cluster-1", "secret-1", "key-2", "peer-other"));
}

/// The announce packet as handed to the wire encoder (the encoding itself is
/// done by the app layer).
#[test]
fn an_announce_describes_an_unpaired_android_client() {
    let layout = ReceiverLayout::new_unpaired();
    let peer = local_peer(&test_config(), &layout, "192.168.42.129");
    let packet = discovery_packet("announce", &peer, DiscoveryPairingFields::default());
    let decoded = accept_discovery_packet(packet).expect("decodes");

    assert_eq!(decoded.kind, "announce");
    assert_eq!(decoded.peer.platform, "android");
    assert_eq!(decoded.peer.machine_role, "client");
    assert!(decoded.peer.pairing_required);
    assert!(!decoded.peer.input_ready);
    assert_eq!(decoded.peer.screens.len(), 1);
    assert_eq!(decoded.peer.screens[0].width, 1080);
    assert_eq!(decoded.peer.screens[0].scale_thousandths as f64 / 1000.0, 1.0);
}

#[test]
fn a_packet_from_ourselves_is_ignored() {
    let layout = ReceiverLayout::new_unpaired();
    let peer = local_peer(&test_config(), &layout, "192.168.42.129");
    let packet = discovery_packet("announce", &peer, DiscoveryPairingFields::default());
    let decoded = accept_discovery_packet(packet).unwrap();
    let mine = local_peer_id("android-abcd1234");

    assert!(peer_from_discovery_packet(decoded, "192.168.42.129".into(), &mine).is_none());
}

#[test]
fn peer_ids_are_normalised() {
    assert_eq!(local_peer_id("  "), "peer-android");
    assert_eq!(local_peer_id("--Ab_C--"), "peer-ab-c");
    assert_eq!(local_peer_id(" Pixel 8 Pro "), "peer-pixel-8-pro");
    assert_eq!(local_peer_id("Ünïcode"), "peer-n-code");
}

#[test]
fn the_source_address_replaces_the_advertised_one() {
    let mut desktop = desktop_peer("peer-desktop", "10.9.9.9", "key-1");
    desktop.quic_port = 0;
    desktop.protocol_version = 0;
    let packet = discovery_packet("announce", &desktop, DiscoveryPairingFields::default());
    let incoming = peer_from_discovery_packet_at(packet, "192.168.1.7".into(), "peer-me", 777).unwrap();
    assert_eq!(incoming.kind, "announce");
    assert_eq!(incoming.peer.ip, "192.168.1.7");
    assert_eq!(incoming.peer.quic_port, 47833);
    assert_eq!(incoming.peer.protocol_version, PROTOCOL_VERSION);
    assert_eq!(incoming.peer.last_seen_ms, 777);
    assert!(incoming.peer.input_ready);

    let mut keyless = desktop_peer("peer-desktop", "10.9.9.9", "  ");
    keyless.protocol_version = PROTOCOL_VERSION;
    let packet = discovery_packet("announce", &keyless, DiscoveryPairingFields::default());
    let incoming = peer_from_discovery_packet_at(packet, "192.168.1.7".into(), "peer-me", 1).unwrap();
    assert!(!incoming.peer.input_ready);

    let mut newer = desktop_peer("peer-desktop", "10.9.9.9", "key-1");
    newer.protocol_version = PROTOCOL_VERSION + 1;
    let packet = discovery_packet("announce", &newer, DiscoveryPairingFields::default());
    let incoming = peer_from_discovery_packet_at(packet, "192.168.1.7".into(), "peer-me", 1).unwrap();
    assert!(!incoming.peer.input_ready);
}

#[test]
fn foreign_protocols_are_not_accepted() {
    let peer = desktop_peer("peer-desktop", "10.0.0.1", "key-1");
    let mut packet = discovery_packet("announce", &peer, DiscoveryPairingFields::default());
    assert_eq!(packet.protocol, DISCOVERY_PROTOCOL);
    packet.protocol = "mykvm.discovery.v0".into();
    assert!(accept_discovery_packet(packet).is_none());
}

#[test]
fn port_lists_stay_in_the_unprivileged_range() {
    assert_eq!(discovery_target_ports(80), (1024..1032).collect::<Vec<u16>>());
    assert_eq!(discovery_target_ports(65533), vec![65533, 65534, 65535]);
    let candidates = bind_candidate_ports(47833);
    assert_eq!(candidates.len(), 64);
    assert_eq!(candidates[0], 47833);
    assert_eq!(candidates[63], 47833 + 63);
    let high = bind_candidate_ports(65530);
    assert_eq!(&high[..6], &[65530, 65531, 65532, 65533, 65534, 65535]);
    assert!(high[6..].iter().all(|port| *port == 65535));
    assert_eq!(bind_candidate_ports(0)[0], 1024);
}

#[test]
fn usable_addresses_and_subnet_broadcasts() {
    assert!(usable_discovery_ipv4(ipv4(192, 168, 1, 2)));
    assert!(!usable_discovery_ipv4(ipv4(127, 0, 0, 1)));
    assert!(!usable_discovery_ipv4(0));
    assert!(!usable_discovery_ipv4(ipv4(224, 0, 0, 251)));
    assert!(!usable_discovery_ipv4(0xFFFF_FFFF));
    assert!(!usable_discovery_ipv4(ipv4(169, 254, 3, 4)));

    let interfaces = vec![
        InterfaceV4 { ip: ipv4(192, 168, 42, 129), netmask: ipv4(255, 255, 255, 0), is_loopback: false },
        InterfaceV4 { ip: ipv4(10, 1, 2, 3), netmask: ipv4(255, 255, 0, 0), is_loopback: false },
        InterfaceV4 { ip: ipv4(127, 0, 0, 1), netmask: ipv4(255, 0, 0, 0), is_loopback: true },
        InterfaceV4 { ip: ipv4(172, 16, 0, 9), netmask: 0, is_loopback: false },
        InterfaceV4 { ip: ipv4(192, 168, 42, 130), netmask: ipv4(255, 255, 255, 0), is_loopback: false },
    ];
    assert_eq!(
        subnet_broadcast_addresses(&interfaces),
        vec![ipv4(10, 1, 255, 255), ipv4(192, 168, 42, 255)]
    );
    assert_eq!(
        local_ipv4_addresses(&interfaces, None),
        vec![ipv4(10, 1, 2, 3), ipv4(172, 16, 0, 9), ipv4(192, 168, 42, 129), ipv4(192, 168, 42, 130)]
    );
    // The default-route address leads.
    assert_eq!(
        local_ipv4_addresses(&interfaces, Some(ipv4(192, 168, 42, 130))),
        vec![ipv4(192, 168, 42, 130), ipv4(10, 1, 2, 3), ipv4(172, 16, 0, 9), ipv4(192, 168, 42, 129)]
    );
    assert_eq!(local_ipv4_addresses(&interfaces, Some(ipv4(127, 0, 0, 1)))[0], ipv4(10, 1, 2, 3));
}

#[test]
fn subnet_broadcasts_replace_the_slash_24_guess() {
    let local = vec![ipv4(192, 168, 42, 129)];
    let subnets = vec![ipv4(10, 1, 255, 255)];
    let targets = broadcast_targets(47833, &local, &subnets);
    assert_eq!(targets.len(), 2 * DISCOVERY_PORT_SPAN as usize);
    for port in 47833..47833 + DISCOVERY_PORT_SPAN {
        assert!(targets.contains(&format!("255.255.255.255:{port}")));
        assert!(targets.contains(&format!("10.1.255.255:{port}")));
    }
    assert!(!targets.contains(&"192.168.42.255:47833".to_string()));
    // Sorted as strings, each once.
    let mut sorted = targets.clone();
    sorted.sort();
    sorted.dedup();
    assert_eq!(targets, sorted);
    assert_eq!(targets[0], "10.1.255.255:47833");
    // Duplicates collapse.
    let twice = broadcast_targets(47833, &vec![ipv4(192, 168, 42, 1), ipv4(192, 168, 42, 2)], &Vec::new());
    assert_eq!(twice.len(), 2 * DISCOVERY_PORT_SPAN as usize);
    assert_eq!(twice[0], "192.168.42.255:47833");
    assert_eq!(twice[DISCOVERY_PORT_SPAN as usize], "255.255.255.255:47833");
}

#[test]
fn the_local_peer_describes_this_device() {
    let mut layout = paired_layout();
    let config = test_config();
    let peer = local_peer_at(&config, &layout, "192.168.42.129", 99);
    assert_eq!(peer.id, "peer-android-abcd1234");
    assert_eq!(peer.host, "android-abcd1234");
    assert_eq!(peer.platform, "android");
    assert_eq!(peer.machine_role, "client");
    assert_eq!(peer.cluster_id, "cluster-1");
    assert!(!peer.pairing_required);
    assert!(peer.input_ready);
    assert_eq!(peer.ip, "192.168.42.129");
    assert_eq!(peer.transport_port, 47833);
    assert_eq!(peer.quic_port, 47834);
    assert_eq!(peer.screen_count, 1);
    assert_eq!(peer.last_seen_ms, 99);
    assert_eq!(peer.screens[0].scale_thousandths, UNIT_SCALE_THOUSANDTHS);
    layout.paired_controllers.clear();
    let unpaired = local_peer_at(&config, &layout, "0.0.0.0", 1);
    assert_eq!(unpaired.cluster_id, "");
    assert!(unpaired.pairing_required);
    let screen = screen_to_peer_screen(&config.screen);
    assert_eq!(screen.id, "android-screen-1");
    assert_eq!(screen.height, 2400);
}

#[test]
fn an_expired_code_is_cleared_once() {
    let layout = ReceiverLayout::new_unpaired();
    let mut challenge: Option<PairingChallenge> = None;
    assert!(expire_pairing_code_at(&mut challenge, 0).is_none());
    begin_pairing_challenge_at(&mut challenge, &layout, &desktop_peer("peer-desktop", "1.2.3.4", "k"), "1.2.3.4".into(), 0, Instant::now(), 1_000, "123456".into())
        .unwrap();
    assert!(expire_pairing_code_at(&mut challenge, 59_999).is_none());
    assert!(challenge.is_some());
    assert!(matches!(expire_pairing_code_at(&mut challenge, 60_000), Some(ReceiverEvent::PairingCleared)));
    assert!(challenge.is_none());
    assert!(expire_pairing_code_at(&mut challenge, 60_001).is_none());
}

#[test]
fn a_pair_request_is_answered_with_a_challenge() {
    let config = test_config();
    let mut layout = ReceiverLayout::new_unpaired();
    let mut challenge: Option<PairingChallenge> = None;
    let mut endpoint: Option<ControllerEndpoint> = None;
    let mut online: Vec<String> = Vec::new();
    let desktop = desktop_peer("peer-desktop", "10.0.0.1", "key-1");
    let packet = discovery_packet("pair-request", &desktop, DiscoveryPairingFields::default());

    let step = handle_discovery_packet_at(
        &config, &mut layout, &mut challenge, &mut endpoint, &mut online, packet,
        "192.168.42.1", "192.168.42.129", 0, Instant::now(), 10_000, "654321".into(),
    );
    let reply = step.reply.expect("a pair-challenge is sent back");
    assert_eq!(reply.kind, "pair-challenge");
    assert_eq!(reply.peer.id, "peer-android-abcd1234");
    assert_eq!(reply.peer.last_seen_ms, 10_000);
    assert!(reply.pairing_code.is_none());
    assert_eq!(step.events.len(), 1);
    match &step.events[0] {
        ReceiverEvent::PairingRequested { code, requester_name, requester_ip, expires_at_ms } => {
            assert_eq!(code, "654321");
            assert_eq!(requester_name, "Desktop");
            assert_eq!(requester_ip, "192.168.42.1");
            assert_eq!(*expires_at_ms, 70_000);
        }
        other => panic!("unexpected event {other:?}"),
    }
    assert_eq!(challenge.as_ref().unwrap().code, "654321");
    // An unpaired receiver has nowhere to dial yet.
    assert!(endpoint.is_none());
}

#[test]
fn probes_are_answered_and_plaintext_confirms_are_not() {
    let config = test_config();
    let mut layout = ReceiverLayout::new_unpaired();
    let mut challenge: Option<PairingChallenge> = None;
    let mut endpoint: Option<ControllerEndpoint> = None;
    let mut online: Vec<String> = Vec::new();
    let desktop = desktop_peer("peer-desktop", "10.0.0.1", "key-1");

    let probe = discovery_packet("probe", &desktop, DiscoveryPairingFields::default());
    let step = handle_discovery_packet_at(
        &config, &mut layout, &mut challenge, &mut endpoint, &mut online, probe,
        "192.168.42.1", "192.168.42.129", 0, Instant::now(), 5, "111111".into(),
    );
    let reply = step.reply.expect("reply");
    assert_eq!(reply.kind, "reply");
    assert_eq!(reply.protocol, DISCOVERY_PROTOCOL);
    assert_eq!(reply.peer.machine_role, "client");
    assert_eq!(reply.peer.platform, "android");
    assert!(reply.peer.pairing_required);
    assert!(!reply.peer.input_ready);
    assert_eq!(reply.peer.screens.len(), 1);
    assert_eq!(reply.peer.screens[0].width, 1080);
    assert_eq!(reply.peer.quic_port, 47834);
    assert_eq!(reply.peer.transport_public_key, "key");
    assert!(step.events.is_empty());

    let mut client = desktop_peer("peer-tablet", "10.0.0.2", "key-2");
    client.machine_role = "client".into();
    let probe = discovery_packet("probe", &client, DiscoveryPairingFields::default());
    let step = handle_discovery_packet_at(
        &config, &mut layout, &mut challenge, &mut endpoint, &mut online, probe,
        "192.168.42.2", "192.168.42.129", 0, Instant::now(), 5, "111111".into(),
    );
    assert!(step.reply.is_none());

    let mut fields = DiscoveryPairingFields::default();
    fields.code = Some("111111".into());
    fields.cluster_id = Some("cluster-x".into());
    fields.secret = Some("secret-x".into());
    let confirm = discovery_packet("pair-confirm", &desktop, fields);
    let step = handle_discovery_packet_at(
        &config, &mut layout, &mut challenge, &mut endpoint, &mut online, confirm,
        "192.168.42.1", "192.168.42.129", 0, Instant::now(), 5, "111111".into(),
    );
    assert!(step.reply.is_none());
    assert!(step.events.is_empty());
    assert!(challenge.is_none());
    assert!(layout.pairing_required());
    assert_eq!(layout.cluster_id, "");

    // Our own announce looping back is ignored.
    let own = local_peer(&config, &layout, "192.168.42.129");
    let echo = discovery_packet("announce", &own, DiscoveryPairingFields::default());
    let step = handle_discovery_packet_at(
        &config, &mut layout, &mut challenge, &mut endpoint, &mut online, echo,
        "192.168.42.129", "192.168.42.129", 0, Instant::now(), 5, "111111".into(),
    );
    assert!(step.reply.is_none());
    assert!(step.events.is_empty());
}

#[test]
fn a_cluster_mate_becomes_the_dial_address_without_touching_the_record() {
    let mut layout = paired_layout();
    let mut endpoint: Option<ControllerEndpoint> = None;
    let mut online: Vec<String> = Vec::new();
    let mut mate = desktop_peer("peer-mate", "192.168.1.50", "mate-key");
    mate.name = "Mate".into();
    mate.host = "mate-host".into();
    let events = adopt_controller(&mut layout, &mate, &mut endpoint, &mut online);
    assert!(events.is_empty());
    assert_eq!(endpoint.as_ref().unwrap().ip, "192.168.1.50");
    assert_eq!(layout.paired_controllers[0].transport_public_key, "old-key");

    // Hearing the real controller twice reports presence once, and an
    // unchanged record is not reported again.
    let desktop = desktop_peer("peer-desktop-192-168-1-7", "192.168.1.7", "old-key");
    let first = adopt_controller(&mut layout, &desktop, &mut endpoint, &mut online);
    assert_eq!(first.len(), 1);
    assert!(matches!(&first[0], ReceiverEvent::PeerPresence { .. }));
    let second = adopt_controller(&mut layout, &desktop, &mut endpoint, &mut online);
    assert!(second.is_empty());
    assert_eq!(online, vec!["peer-desktop-192-168-1-7".to_string()]);

    // A client, or a server without a port, is never adopted.
    let mut client = desktop_peer("peer-desktop-192-168-1-7", "192.168.1.7", "other");
    client.machine_role = "client".into();
    assert!(adopt_controller(&mut layout, &client, &mut endpoint, &mut online).is_empty());
    let mut portless = desktop_peer("peer-desktop-192-168-1-7", "192.168.1.7", "other");
    portless.quic_port = 0;
    assert!(adopt_controller(&mut layout, &portless, &mut endpoint, &mut online).is_empty());
    assert_eq!(layout.paired_controllers[0].transport_public_key, "old-key");
}

#[test]
fn a_resize_reaches_the_next_announce() {
    let mut config = test_config();
    let layout = ReceiverLayout::new_unpaired();
    config.set_screen_size(1840, 2944);
    let peer = local_peer_at(&config, &layout, "192.168.42.129", 1);
    assert_eq!((peer.screens[0].width, peer.screens[0].height), (1840, 2944));
    config.set_screen_size(-1, 100);
    let again = local_peer_at(&config, &layout, "192.168.42.129", 1);
    assert_eq!((again.screens[0].width, again.screens[0].height), (1840, 2944));
}

#[test]
fn a_rotated_key_is_authorized_again_once_the_desktop_is_heard() {
    let mut layout = paired_layout();
    let mut endpoint: Option<ControllerEndpoint> = None;
    let mut online: Vec<String> = Vec::new();
    assert!(!input_authorized(&layout, "cluster-1", "secret-1", "new-key", ""));
    let desktop = desktop_peer("peer-desktop-192-168-1-7", "192.168.1.9", " new-key ");
    adopt_controller(&mut layout, &desktop, &mut endpoint, &mut online);
    assert!(input_authorized(&layout, "cluster-1", "secret-1", "new-key", ""));
    assert!(!input_authorized(&layout, "cluster-1", "secret-1", "old-key", ""));
    assert_eq!(layout.paired_controllers[0].ip, "192.168.1.9");
}
