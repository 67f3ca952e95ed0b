//! Discovery and the pairing responder for the receiver: what it announces,
//! whom it answers, how it reads the peers it hears from, and how it keeps
//! the stored controller record in step with the desktop on the wire.
//!
//! Sockets, timers and threads are the app layer's; every decision they act
//! on is made here.

use vstd::prelude::*;

use crate::events::{event_views, texts, ReceiverEvent, ReceiverEventView};
use crate::packet::{
    DiscoveryPacket, DiscoveryPacketView, DiscoveryPairingFields, IncomingDiscovery,
    IncomingDiscoveryView, LanPeer, LanPeerScreen, LanPeerScreenView, LanPeerView, PairedControllerView, Screen,
    ScreenView, DISCOVERY_PROTOCOL, PROTOCOL_VERSION,
};
use crate::pairing::{
    begin_pairing_challenge_at, challenge_age, can_refresh, can_refresh_controller_identity, challenge_view,
    identity_matches, identity_matches_peer, PairingChallenge,
};
use crate::state::{
    authorizes, controller_is_origin, monotonic_now, now_ms, random_pairing_code, ReceiverLayout,
    ReceiverLayoutView,
};
use crate::text::{
    decimal_text, lemma_text_less_order, lemma_trimmed_not_blank, push_decimal, text_less, text_lt,
    ascii_alnum, ascii_lower, blank, chars_of, in_class, is_ascii_alnum, is_blank, lower_char,
    lower_seq, owned, push_char, strip, strip_bounds, text_eq, trim, trimmed, CharClass,
};

verus! {

/// Ports scanned upward from the base.
pub const DISCOVERY_PORT_SPAN: u16 = 8;

pub const TRANSPORT_PORT_MIN: u16 = 1024;

/// Candidate ports tried when binding the discovery socket.
pub const BIND_ATTEMPTS: u16 = 64;

/// Announces go out this often (ms).
pub const ANNOUNCE_INTERVAL_MS: u64 = 3_000;

/// The interface list, and so the broadcast targets, is re-read this often
/// (ms): cheap enough to stay current, off the per-packet path.
pub const INTERFACE_REFRESH_MS: u64 = 30_000;

/// A periodic task last run at `last_ms` (never, if `None`) is due again at
/// `now_ms`: at least `interval_ms` have passed. A clock that went back
/// counts as no time passed.
pub open spec fn interval_due(last_ms: Option<u64>, now_ms: u64, interval_ms: u64) -> bool {
    match last_ms {
        None => true,
        Some(last) => now_ms >= last && now_ms - last >= interval_ms,
    }
}

pub fn interval_elapsed(last_ms: Option<u64>, now_ms: u64, interval_ms: u64) -> (res: bool)
    ensures
        res == interval_due(last_ms, now_ms, interval_ms),
{
    match last_ms {
        None => true,
        Some(last) => now_ms >= last && now_ms - last >= interval_ms,
    }
}

// ---------------------------------------------------------------------------
// Configuration
// ---------------------------------------------------------------------------

/// What this device advertises. A value, not a shared handle: a clone is a
/// full copy whose screen no longer follows the original's resizes, so the
/// app layer keeps one configuration behind a lock and resizes that one.
#[derive(Debug)]
pub struct ReceiverConfig {
    /// Human readable name shown on the desktop ("Pixel 8").
    pub device_name: String,
    /// Stable identity for this device. Must not contain the IP: the desktop
    /// keys its saved devices off this id.
    pub stable_id: String,
    pub app_version: String,
    pub screen_id: String,
    /// The screen currently advertised.
    pub screen: Screen,
    pub discovery_port: u16,
    pub quic_port: u16,
    pub transport_public_key: String,
    pub protocol_version: u16,
}

pub struct ReceiverConfigView {
    pub device_name: Seq<char>,
    pub stable_id: Seq<char>,
    pub app_version: Seq<char>,
    pub screen_id: Seq<char>,
    pub screen: ScreenView,
    pub discovery_port: u16,
    pub quic_port: u16,
    pub transport_public_key: Seq<char>,
    pub protocol_version: u16,
}

impl View for ReceiverConfig {
    type V = ReceiverConfigView;

    open spec fn view(&self) -> ReceiverConfigView {
        ReceiverConfigView {
            device_name: self.device_name@,
            stable_id: self.stable_id@,
            app_version: self.app_version@,
            screen_id: self.screen_id@,
            screen: self.screen@,
            discovery_port: self.discovery_port,
            quic_port: self.quic_port,
            transport_public_key: self.transport_public_key@,
            protocol_version: self.protocol_version,
        }
    }
}

impl Clone for ReceiverConfig {
    fn clone(&self) -> (res: Self)
        ensures
            res@ == self@,
    {
        ReceiverConfig {
            device_name: self.device_name.clone(),
            stable_id: self.stable_id.clone(),
            app_version: self.app_version.clone(),
            screen_id: self.screen_id.clone(),
            screen: self.screen.clone(),
            discovery_port: self.discovery_port,
            quic_port: self.quic_port,
            transport_public_key: self.transport_public_key.clone(),
            protocol_version: self.protocol_version,
        }
    }
}

/// How a screen is advertised to peers.
pub open spec fn peer_screen_of(s: ScreenView) -> LanPeerScreenView {
    LanPeerScreenView {
        id: s.id,
        name: s.name,
        x: s.x,
        y: s.y,
        width: s.width,
        height: s.height,
        scale_thousandths: s.scale_thousandths,
        is_primary: s.is_primary,
    }
}

/// The configuration after a resize request: sizes that are not positive
/// are ignored.
pub open spec fn resized(c: ReceiverConfigView, width: i32, height: i32) -> ReceiverConfigView {
    if width <= 0 || height <= 0 {
        c
    } else {
        ReceiverConfigView { screen: ScreenView { width, height, ..c.screen }, ..c }
    }
}

impl ReceiverConfig {
    /// The screen currently advertised.
    pub fn screen(&self) -> (res: Screen)
        ensures
            res@ == self.screen@,
    {
        self.screen.clone()
    }

    /// Re-advertises a new size in place (rotation, window resize), so the
    /// transport never has to restart for it.
    pub fn set_screen_size(&mut self, width: i32, height: i32)
        ensures
            final(self)@ == resized(old(self)@, width, height),
    {
        if width <= 0 || height <= 0 {
            return;
        }
        if self.screen.width == width && self.screen.height == height {
            return;
        }
        self.screen.width = width;
        self.screen.height = height;
    }

    pub fn to_peer_screen(&self) -> (res: LanPeerScreen)
        ensures
            res@ == peer_screen_of(self.screen@),
    {
        screen_to_peer_screen(&self.screen)
    }
}

/// A screen size that is not positive is never advertised.
pub proof fn lemma_resize_keeps_positive_size(c: ReceiverConfigView, width: i32, height: i32)
    requires
        c.screen.width > 0,
        c.screen.height > 0,
    ensures
        resized(c, width, height).screen.width > 0,
        resized(c, width, height).screen.height > 0,
{
}

/// A resize is what the next announce advertises: the new size when it is
/// positive, the old one otherwise, with nothing else about the device
/// changed.
pub proof fn lemma_resize_reaches_the_announce(
    c: ReceiverConfigView,
    width: i32,
    height: i32,
    layout: ReceiverLayoutView,
    local_ip: Seq<char>,
    now: u64,
)
    ensures
        ({
            let before = local_peer_view(c, layout, local_ip, now);
            let after = local_peer_view(resized(c, width, height), layout, local_ip, now);
            &&& width > 0 && height > 0 ==> after.screens[0].width == width
                && after.screens[0].height == height
            &&& !(width > 0 && height > 0) ==> after == before
            &&& after.id == before.id && after.quic_port == before.quic_port
                && after.transport_public_key == before.transport_public_key
        }),
{
}

pub fn screen_to_peer_screen(screen: &Screen) -> (res: LanPeerScreen)
    ensures
        res@ == peer_screen_of(screen@),
{
    LanPeerScreen {
        id: screen.id.clone(),
        name: screen.name.clone(),
        x: screen.x,
        y: screen.y,
        width: screen.width,
        height: screen.height,
        scale_thousandths: screen.scale_thousandths,
        is_primary: screen.is_primary,
    }
}

// ---------------------------------------------------------------------------
// Peer identity
// ---------------------------------------------------------------------------

/// ASCII letters and digits kept (lowercased); everything else becomes `-`.
pub open spec fn id_char(c: char) -> char {
    if is_ascii_alnum(c) {
        ascii_lower(c)
    } else {
        '-'
    }
}

/// The stable id, trimmed, normalized character by character, with leading
/// and trailing dashes removed.
pub open spec fn normalized_id(stable_id: Seq<char>) -> Seq<char> {
    strip(trimmed(stable_id).map_values(|c: char| id_char(c)), CharClass::Dash)
}

/// The peer id derived from a stable id: `peer-<normalized>`, or
/// `peer-android` when nothing is left.
pub open spec fn peer_id_for(stable_id: Seq<char>) -> Seq<char> {
    let n = normalized_id(stable_id);
    if n.len() == 0 {
        "peer-android"@
    } else {
        "peer-"@ + n
    }
}

/// The id the desktop knows this device by. It depends on the stable id
/// only, never on the address.
pub fn local_peer_id(stable_id: &str) -> (res: String)
    ensures
        res@ == peer_id_for(stable_id@),
{
    let t = trim(stable_id);
    let tv = chars_of(t.as_str());
    let mut mapped: Vec<char> = Vec::new();
    let mut i: usize = 0;
    while i < tv.len()
        invariant
            i <= tv.len(),
            tv@ == trimmed(stable_id@),
            mapped@ == tv@.take(i as int).map_values(|c: char| id_char(c)),
        decreases tv.len() - i,
    {
        let c = tv[i];
        let m = if ascii_alnum(c) {
            lower_char(c)
        } else {
            '-'
        };
        mapped.push(m);
        assert(tv@.take(i + 1).map_values(|c: char| id_char(c)) =~= tv@.take(i as int).map_values(
            |c: char| id_char(c),
        ).push(id_char(tv@[i as int])));
        i += 1;
    }
    assert(tv@.take(tv.len() as int) =~= tv@);
    let (lo, hi) = strip_bounds(&mapped, CharClass::Dash);
    if lo == hi {
        return owned("peer-android");
    }
    let mut out = owned("peer-");
    let ghost prefix = out@;
    let mut k = lo;
    while k < hi
        invariant
            lo <= k <= hi <= mapped.len(),
            prefix == "peer-"@,
            out@ == prefix + mapped@.subrange(lo as int, k as int),
        decreases hi - k,
    {
        push_char(&mut out, mapped[k]);
        assert(prefix + mapped@.subrange(lo as int, k + 1) =~= (prefix + mapped@.subrange(
            lo as int,
            k as int,
        )).push(mapped@[k as int]));
        k += 1;
    }
    out
}

proof fn lemma_strip_front_map(s: Seq<char>, f: spec_fn(char) -> char, class: CharClass)
    requires
        forall|c: char| in_class(class, #[trigger] f(c)) == in_class(class, c),
    ensures
        crate::text::strip_front(s.map_values(f), class) == crate::text::strip_front(s, class).map_values(f),
    decreases s.len(),
{
    if s.len() > 0 && in_class(class, s[0]) {
        assert(s.map_values(f).drop_first() =~= s.drop_first().map_values(f));
        lemma_strip_front_map(s.drop_first(), f, class);
    }
}

proof fn lemma_strip_back_map(s: Seq<char>, f: spec_fn(char) -> char, class: CharClass)
    requires
        forall|c: char| in_class(class, #[trigger] f(c)) == in_class(class, c),
    ensures
        crate::text::strip_back(s.map_values(f), class) == crate::text::strip_back(s, class).map_values(
            f,
        ),
    decreases s.len(),
{
    if s.len() > 0 && in_class(class, s.last()) {
        assert(s.map_values(f).drop_last() =~= s.drop_last().map_values(f));
        lemma_strip_back_map(s.drop_last(), f, class);
    }
}

/// Changing the ASCII case of a stable id does not change the peer id.
pub proof fn lemma_peer_id_ignores_ascii_case(stable_id: Seq<char>)
    ensures
        peer_id_for(lower_seq(stable_id)) == peer_id_for(stable_id),
{
    let f = |c: char| ascii_lower(c);
    assert forall|c: char| in_class(CharClass::WhiteSpace, #[trigger] f(c)) == in_class(
        CharClass::WhiteSpace,
        c,
    ) by {}
    lemma_strip_front_map(stable_id, f, CharClass::WhiteSpace);
    lemma_strip_back_map(
        crate::text::strip_front(stable_id, CharClass::WhiteSpace),
        f,
        CharClass::WhiteSpace,
    );
    assert(lower_seq(stable_id) == stable_id.map_values(f));
    let t = trimmed(stable_id);
    assert(trimmed(lower_seq(stable_id)) == t.map_values(f));
    assert(t.map_values(f).map_values(|c: char| id_char(c)) =~= t.map_values(|c: char| id_char(c)));
}

// ---------------------------------------------------------------------------
// Discovery packets
// ---------------------------------------------------------------------------

/// The peer with its last-seen time set.
pub open spec fn seen_at(p: LanPeerView, now: u64) -> LanPeerView {
    LanPeerView { last_seen_ms: now, ..p }
}

/// The discovery packet of kind `kind` that carries `peer` and the pairing
/// fields, stamped at `now`.
pub open spec fn discovery_packet_view(
    kind: Seq<char>,
    peer: LanPeerView,
    pairing: crate::packet::DiscoveryPairingFieldsView,
    now: u64,
) -> DiscoveryPacketView {
    DiscoveryPacketView {
        protocol: DISCOVERY_PROTOCOL@,
        kind,
        peer: seen_at(peer, now),
        pairing_code: pairing.code,
        pair_cluster_id: pairing.cluster_id,
        pair_secret: pairing.secret,
        pairing_error: pairing.error,
    }
}

/// The discovery packet to send, stamped at `now`.
pub fn discovery_packet_at(
    kind: &str,
    local_peer: &LanPeer,
    pairing: DiscoveryPairingFields,
    now: u64,
) -> (res: DiscoveryPacket)
    ensures
        res@ == discovery_packet_view(kind@, local_peer@, pairing@, now),
{
    let mut peer = local_peer.clone();
    peer.last_seen_ms = now;
    DiscoveryPacket {
        protocol: owned(DISCOVERY_PROTOCOL),
        kind: owned(kind),
        peer,
        pairing_code: pairing.code,
        pair_cluster_id: pairing.cluster_id,
        pair_secret: pairing.secret,
        pairing_error: pairing.error,
    }
}

/// The discovery packet to send, stamped with the current time.
pub fn discovery_packet(kind: &str, local_peer: &LanPeer, pairing: DiscoveryPairingFields) -> (res:
    DiscoveryPacket)
    ensures
        exists|now: u64| res@ == #[trigger] discovery_packet_view(kind@, local_peer@, pairing@, now),
{
    discovery_packet_at(kind, local_peer, pairing, now_ms())
}

/// A decoded datagram is a discovery packet only if it names the discovery
/// protocol.
pub fn accept_discovery_packet(packet: DiscoveryPacket) -> (res: Option<DiscoveryPacket>)
    ensures
        packet@.protocol == DISCOVERY_PROTOCOL@ ==> res is Some && res->0@ == packet@,
        packet@.protocol != DISCOVERY_PROTOCOL@ ==> res is None,
{
    if text_eq(packet.protocol.as_str(), DISCOVERY_PROTOCOL) {
        Some(packet)
    } else {
        None
    }
}

/// How a peer heard on the wire is recorded: its address is the datagram's
/// source (never what it advertises), missing ports and versions get their
/// defaults, and it is not input-ready without a key or on another version.
pub open spec fn received_peer(p: LanPeerView, source_ip: Seq<char>, now: u64) -> LanPeerView {
    let quic_port = if p.quic_port == 0 {
        p.transport_port
    } else {
        p.quic_port
    };
    let protocol_version = if p.protocol_version == 0 {
        PROTOCOL_VERSION
    } else {
        p.protocol_version
    };
    let input_ready = if is_blank(p.transport_public_key) || protocol_version != PROTOCOL_VERSION {
        false
    } else {
        p.input_ready
    };
    LanPeerView { ip: source_ip, quic_port, protocol_version, input_ready, last_seen_ms: now, ..p }
}

/// What a discovery packet from `source_ip` says, or nothing if it is our own.
pub open spec fn incoming_view(
    packet: DiscoveryPacketView,
    source_ip: Seq<char>,
    local_peer_id: Seq<char>,
    now: u64,
) -> Option<IncomingDiscoveryView> {
    if packet.peer.id == local_peer_id {
        None
    } else {
        Some(
            IncomingDiscoveryView {
                kind: packet.kind,
                peer: received_peer(packet.peer, source_ip, now),
                pairing_code: packet.pairing_code,
                pair_cluster_id: packet.pair_cluster_id,
                pair_secret: packet.pair_secret,
            },
        )
    }
}

pub open spec fn incoming_opt_view(o: Option<IncomingDiscovery>) -> Option<IncomingDiscoveryView> {
    match o {
        Some(i) => Some(i@),
        None => None,
    }
}

/// Reads a discovery packet heard from `source_ip` at time `now`.
pub fn peer_from_discovery_packet_at(
    packet: DiscoveryPacket,
    source_ip: String,
    local_peer_id: &str,
    now: u64,
) -> (res: Option<IncomingDiscovery>)
    ensures
        incoming_opt_view(res) == incoming_view(packet@, source_ip@, local_peer_id@, now),
{
    if text_eq(packet.peer.id.as_str(), local_peer_id) {
        return None;
    }
    let mut peer = packet.peer;
    peer.ip = source_ip;
    if peer.quic_port == 0 {
        peer.quic_port = peer.transport_port;
    }
    if peer.protocol_version == 0 {
        peer.protocol_version = PROTOCOL_VERSION;
    }
    if blank(peer.transport_public_key.as_str()) || peer.protocol_version != PROTOCOL_VERSION {
        peer.input_ready = false;
    }
    peer.last_seen_ms = now;
    Some(
        IncomingDiscovery {
            kind: packet.kind,
            peer,
            pairing_code: packet.pairing_code,
            pair_cluster_id: packet.pair_cluster_id,
            pair_secret: packet.pair_secret,
        },
    )
}

/// Reads a discovery packet heard from `source_ip` now.
pub fn peer_from_discovery_packet(packet: DiscoveryPacket, source_ip: String, local_peer_id: &str) -> (res:
    Option<IncomingDiscovery>)
    ensures
        exists|now: u64|
            incoming_opt_view(res) == #[trigger] incoming_view(
                packet@,
                source_ip@,
                local_peer_id@,
                now,
            ),
{
    peer_from_discovery_packet_at(packet, source_ip, local_peer_id, now_ms())
}

/// A packet from this device itself is never taken for another peer.
pub proof fn lemma_own_packet_ignored(
    packet: DiscoveryPacketView,
    source_ip: Seq<char>,
    stable_id: Seq<char>,
    now: u64,
)
    requires
        packet.peer.id == peer_id_for(stable_id),
    ensures
        incoming_view(packet, source_ip, peer_id_for(stable_id), now) is None,
{
}

// ---------------------------------------------------------------------------
// Whom to answer
// ---------------------------------------------------------------------------

/// A peer that wants pairing is visible only to servers; any other peer is
/// visible when it is in our (non-blank) cluster.
pub open spec fn visible_to_layout(layout: ReceiverLayoutView, peer: LanPeerView) -> bool {
    if peer.pairing_required {
        layout.machine_role == "server"@
    } else {
        trimmed(layout.cluster_id).len() > 0 && peer.cluster_id == trimmed(layout.cluster_id)
    }
}

fn peer_visible_to_layout(layout: &ReceiverLayout, peer: &LanPeer) -> (res: bool)
    ensures
        res == visible_to_layout(layout@, peer@),
{
    if peer.pairing_required {
        return text_eq(layout.machine_role.as_str(), "server");
    }
    let cluster_id = trim(layout.cluster_id.as_str());
    chars_of(cluster_id.as_str()).len() != 0 && text_eq(
        peer.cluster_id.as_str(),
        cluster_id.as_str(),
    )
}

/// The peer is one of the stored controllers, by id or key.
pub open spec fn paired_with(layout: ReceiverLayoutView, peer: LanPeerView) -> bool {
    exists|i: int|
        0 <= i < layout.paired_controllers.len() && identity_matches(
            #[trigger] layout.paired_controllers[i],
            peer,
        )
}

pub fn is_paired_controller(layout: &ReceiverLayout, peer: &LanPeer) -> (res: bool)
    ensures
        res == paired_with(layout@, peer@),
{
    let n = layout.paired_controllers.len();
    let mut i: usize = 0;
    while i < n
        invariant
            i <= n == layout.paired_controllers@.len(),
            forall|j: int|
                0 <= j < i ==> !identity_matches(#[trigger] layout@.paired_controllers[j], peer@),
        decreases n - i,
    {
        if identity_matches_peer(&layout.paired_controllers[i], peer) {
            assert(layout@.paired_controllers[i as int] == layout.paired_controllers@[i as int]@);
            return true;
        }
        i += 1;
    }
    false
}

/// Answer visible peers; a paired receiver also answers its controller, an
/// unpaired one any server.
pub open spec fn replies_to(layout: ReceiverLayoutView, peer: LanPeerView) -> bool {
    if visible_to_layout(layout, peer) {
        true
    } else if !layout.pairing_required() {
        paired_with(layout, peer)
    } else {
        peer.machine_role == "server"@
    }
}

/// An unpaired receiver answers exactly the servers: the desktop that may
/// pair with it, never another client.
pub proof fn lemma_unpaired_replies_only_to_servers(peer: LanPeerView)
    ensures
        replies_to(ReceiverLayoutView::unpaired(), peer) <==> peer.machine_role == "server"@,
{
    reveal_strlit("client");
    reveal_strlit("server");
    assert("client"@[0] != "server"@[0]);
    let l = ReceiverLayoutView::unpaired();
    assert(l.pairing_required());
    assert(trimmed(l.cluster_id) =~= Seq::<char>::empty());
    assert(!visible_to_layout(l, peer));
}

pub fn should_reply_to_discovery(layout: &ReceiverLayout, peer: &LanPeer) -> (res: bool)
    ensures
        res == replies_to(layout@, peer@),
{
    if peer_visible_to_layout(layout, peer) {
        return true;
    }
    if !layout.pairing_required() {
        return is_paired_controller(layout, peer);
    }
    text_eq(peer.machine_role.as_str(), "server")
}


// ---------------------------------------------------------------------------
// Network helpers (addresses as big-endian u32, as `u32::from(Ipv4Addr)`)
// ---------------------------------------------------------------------------

/// One IPv4 interface address as the operating system reports it.
#[derive(Debug, Clone, Copy, PartialEq, Eq, Structural)]
pub struct InterfaceV4 {
    pub ip: u32,
    pub netmask: u32,
    pub is_loopback: bool,
}

/// Not loopback (127/8), unspecified, multicast (224/4), broadcast or
/// link-local (169.254/16).
pub open spec fn usable_ipv4(address: u32) -> bool {
    let a = address / 0x100_0000;
    let b = (address / 0x1_0000) % 0x100;
    &&& a != 127
    &&& address != 0
    &&& !(224 <= a <= 239)
    &&& address != 0xffff_ffff
    &&& !(a == 169 && b == 254)
}

/// An address worth announcing on or answering from.
pub fn usable_discovery_ipv4(address: u32) -> (res: bool)
    ensures
        res == usable_ipv4(address),
{
    let a = address / 0x100_0000;
    let b = (address / 0x1_0000) % 0x100;
    a != 127 && address != 0 && !(224 <= a && a <= 239) && address != 0xffff_ffff && !(a == 169 && b
        == 254)
}

/// The first port scanned: the base, but never a privileged port.
pub open spec fn scan_start(base: u16) -> int {
    if base < TRANSPORT_PORT_MIN {
        TRANSPORT_PORT_MIN as int
    } else {
        base as int
    }
}

/// `DISCOVERY_PORT_SPAN` consecutive ports from `scan_start(base)`, cut at 65535.
pub open spec fn target_ports(base: u16) -> Seq<u16> {
    let start = scan_start(base);
    let count = if 65536 - start < DISCOVERY_PORT_SPAN {
        65536 - start
    } else {
        DISCOVERY_PORT_SPAN as int
    };
    Seq::new(count as nat, |i: int| (start + i) as u16)
}

/// The ports the desktop may be listening on for discovery.
pub fn discovery_target_ports(base: u16) -> (res: Vec<u16>)
    ensures
        res@ == target_ports(base),
{
    let start = if base < TRANSPORT_PORT_MIN {
        TRANSPORT_PORT_MIN
    } else {
        base
    };
    let mut ports: Vec<u16> = Vec::new();
    let mut offset: u16 = 0;
    while offset < DISCOVERY_PORT_SPAN && (start as u32) + (offset as u32) <= 65535
        invariant
            offset <= DISCOVERY_PORT_SPAN,
            start as int == scan_start(base),
            start as int + offset <= 65536,
            ports@ == Seq::new(offset as nat, |i: int| (start + i) as u16),
        decreases DISCOVERY_PORT_SPAN - offset,
    {
        let port = start + offset;
        ports.push(port);
        assert(ports@ =~= Seq::new((offset + 1) as nat, |i: int| (start + i) as u16));
        offset += 1;
    }
    assert(ports@ =~= target_ports(base));
    ports
}

/// The ports tried, in order, when binding the discovery socket:
/// `BIND_ATTEMPTS` ports upward from the preferred one (never below 1024),
/// saturating at 65535.
pub open spec fn bind_candidates(preferred: u16) -> Seq<u16> {
    let start = scan_start(preferred);
    Seq::new(
        BIND_ATTEMPTS as nat,
        |i: int|
            if start + i > 65535 {
                65535u16
            } else {
                (start + i) as u16
            },
    )
}

pub fn bind_candidate_ports(preferred: u16) -> (res: Vec<u16>)
    ensures
        res@ == bind_candidates(preferred),
{
    let start = if preferred < TRANSPORT_PORT_MIN {
        TRANSPORT_PORT_MIN
    } else {
        preferred
    };
    let mut ports: Vec<u16> = Vec::new();
    let mut offset: u16 = 0;
    while offset < BIND_ATTEMPTS
        invariant
            offset <= BIND_ATTEMPTS,
            start as int == scan_start(preferred),
            ports@ == bind_candidates(preferred).take(offset as int),
        decreases BIND_ATTEMPTS - offset,
    {
        ports.push(start.saturating_add(offset));
        assert(ports@ =~= bind_candidates(preferred).take(offset + 1));
        offset += 1;
    }
    assert(bind_candidates(preferred).take(BIND_ATTEMPTS as int) =~= bind_candidates(preferred));
    ports
}

/// Strictly increasing (so sorted and free of duplicates).
pub open spec fn strictly_increasing(s: Seq<u32>) -> bool {
    forall|i: int, j: int| 0 <= i < j < s.len() ==> s[i] < s[j]
}

/// Adds `x` to a strictly increasing list, keeping it so.
fn insert_sorted(v: &mut Vec<u32>, x: u32)
    requires
        strictly_increasing(old(v)@),
    ensures
        strictly_increasing(final(v)@),
        forall|y: u32| final(v)@.contains(y) <==> (old(v)@.contains(y) || y == x),
{
    let mut i: usize = 0;
    while i < v.len() && v[i] < x
        invariant
            i <= v.len(),
            v@ == old(v)@,
            strictly_increasing(v@),
            forall|k: int| 0 <= k < i ==> v@[k] < x,
        decreases v.len() - i,
    {
        i += 1;
    }
    if i < v.len() && v[i] == x {
        return;
    }
    let ghost before = v@;
    v.insert(i, x);
    proof {
        before.insert_ensures(i as int, x);
    }
    assert forall|y: u32| v@.contains(y) <==> (before.contains(y) || y == x) by {
        if v@.contains(y) {
            let k = choose|k: int| 0 <= k < v@.len() && v@[k] == y;
            if k < i {
                assert(before[k] == y);
            } else if k > i {
                assert(before[k - 1] == y);
            }
        }
        if before.contains(y) {
            let k = choose|k: int| 0 <= k < before.len() && before[k] == y;
            if k < i {
                assert(v@[k] == y);
            } else {
                assert(v@[k + 1] == y);
            }
        }
        if y == x {
            assert(v@[i as int] == x);
        }
    }
}

/// The subnet broadcast address an interface contributes, if any: the
/// interface is not loopback, its address is usable, it has a netmask, and the
/// resulting broadcast address is usable too.
pub open spec fn broadcast_of(iface: InterfaceV4) -> Option<u32> {
    let b = iface.ip | !iface.netmask;
    if !iface.is_loopback && usable_ipv4(iface.ip) && iface.netmask != 0 && usable_ipv4(b) {
        Some(b)
    } else {
        None
    }
}

/// The real broadcast address of each interface (computed from the netmask,
/// not assumed to be `.255`), sorted, without duplicates.
pub fn subnet_broadcast_addresses(interfaces: &Vec<InterfaceV4>) -> (res: Vec<u32>)
    ensures
        strictly_increasing(res@),
        forall|y: u32|
            res@.contains(y) <==> exists|i: int|
                0 <= i < interfaces@.len() && broadcast_of(#[trigger] interfaces@[i]) == Some(y),
{
    let mut out: Vec<u32> = Vec::new();
    let mut i: usize = 0;
    while i < interfaces.len()
        invariant
            i <= interfaces.len(),
            strictly_increasing(out@),
            forall|y: u32|
                out@.contains(y) <==> exists|k: int|
                    0 <= k < i && broadcast_of(#[trigger] interfaces@[k]) == Some(y),
        decreases interfaces.len() - i,
    {
        let iface = interfaces[i];
        if !iface.is_loopback && usable_discovery_ipv4(iface.ip) && iface.netmask != 0 {
            let b = iface.ip | !iface.netmask;
            if usable_discovery_ipv4(b) {
                insert_sorted(&mut out, b);
            }
        }
        assert forall|y: u32|
            out@.contains(y) <==> exists|k: int|
                0 <= k < i + 1 && broadcast_of(#[trigger] interfaces@[k]) == Some(y) by {
            if exists|k: int| 0 <= k < i + 1 && broadcast_of(#[trigger] interfaces@[k]) == Some(y) {
                let k = choose|k: int|
                    0 <= k < i + 1 && broadcast_of(#[trigger] interfaces@[k]) == Some(y);
                if k < i {
                }
            }
        }
        i += 1;
    }
    out
}

/// The interface address counts as a local address.
pub open spec fn local_candidate(iface: InterfaceV4) -> bool {
    !iface.is_loopback && usable_ipv4(iface.ip)
}

/// Every usable non-loopback address, with the default-route address (the
/// one the desktop will see as our source) first when it is usable; the
/// others sorted, without duplicates.
pub open spec fn local_addresses_ok(res: Seq<u32>, interfaces: Seq<InterfaceV4>, default_ip: Option<u32>) -> bool {
    if default_ip is Some && usable_ipv4(default_ip->0) {
        let d = default_ip->0;
        &&& res.len() > 0
        &&& res[0] == d
        &&& strictly_increasing(res.skip(1))
        &&& forall|y: u32|
            res.skip(1).contains(y) <==> (y != d && exists|i: int|
                0 <= i < interfaces.len() && local_candidate(#[trigger] interfaces[i])
                    && interfaces[i].ip == y)
    } else {
        &&& strictly_increasing(res)
        &&& forall|y: u32|
            res.contains(y) <==> exists|i: int|
                0 <= i < interfaces.len() && local_candidate(#[trigger] interfaces[i])
                    && interfaces[i].ip == y
    }
}

/// The local addresses to announce from, given the interface list and the
/// address of the default route.
pub fn local_ipv4_addresses(interfaces: &Vec<InterfaceV4>, default_ip: Option<u32>) -> (res: Vec<
    u32,
>)
    ensures
        local_addresses_ok(res@, interfaces@, default_ip),
{
    let lead: Option<u32> = match default_ip {
        Some(d) => if usable_discovery_ipv4(d) {
            Some(d)
        } else {
            None
        },
        None => None,
    };
    let mut rest: Vec<u32> = Vec::new();
    let mut i: usize = 0;
    while i < interfaces.len()
        invariant
            i <= interfaces.len(),
            strictly_increasing(rest@),
            lead == (if default_ip is Some && usable_ipv4(default_ip->0) {
                default_ip
            } else {
                None
            }),
            forall|y: u32|
                rest@.contains(y) <==> ((lead is None || y != lead->0) && exists|k: int|
                    0 <= k < i && local_candidate(#[trigger] interfaces@[k]) && interfaces@[k].ip
                        == y),
        decreases interfaces.len() - i,
    {
        let iface = interfaces[i];
        let skip = match lead {
            Some(d) => iface.ip == d,
            None => false,
        };
        if !iface.is_loopback && usable_discovery_ipv4(iface.ip) && !skip {
            insert_sorted(&mut rest, iface.ip);
        }
        assert forall|y: u32|
            rest@.contains(y) <==> ((lead is None || y != lead->0) && exists|k: int|
                0 <= k < i + 1 && local_candidate(#[trigger] interfaces@[k]) && interfaces@[k].ip
                    == y) by {
            if exists|k: int|
                0 <= k < i + 1 && local_candidate(#[trigger] interfaces@[k]) && interfaces@[k].ip
                    == y {
                let k = choose|k: int|
                    0 <= k < i + 1 && local_candidate(#[trigger] interfaces@[k])
                        && interfaces@[k].ip == y;
                if k < i {
                }
            }
        }
        i += 1;
    }
    match lead {
        Some(d) => {
            let ghost r = rest@;
            rest.insert(0, d);
            assert(rest@.skip(1) =~= r);
            rest
        },
        None => rest,
    }
}

/// Every (address, port) the announce goes to: global broadcast on every
/// target port, each subnet broadcast on every target port, and, only when
/// no subnet broadcast is known, the `/24` broadcast of each local address.
pub open spec fn is_broadcast_target(
    t: (u32, u16),
    base_port: u16,
    local_ips: Seq<u32>,
    subnet_broadcasts: Seq<u32>,
) -> bool {
    &&& target_ports(base_port).contains(t.1)
    &&& {
        ||| t.0 == 0xffff_ffff
        ||| subnet_broadcasts.contains(t.0)
        ||| subnet_broadcasts.len() == 0 && exists|i: int|
            0 <= i < local_ips.len() && t.0 == ((#[trigger] local_ips[i] & 0xffff_ff00) | 0xff)
    }
}

pub open spec fn no_duplicates<A>(s: Seq<A>) -> bool {
    forall|i: int, j: int| 0 <= i < j < s.len() ==> s[i] != s[j]
}

fn holds_pair(v: &Vec<(u32, u16)>, t: (u32, u16)) -> (res: bool)
    ensures
        res == v@.contains(t),
{
    let mut i: usize = 0;
    while i < v.len()
        invariant
            i <= v.len(),
            forall|k: int| 0 <= k < i ==> v@[k] != t,
        decreases v.len() - i,
    {
        let e = v[i];
        if e.0 == t.0 && e.1 == t.1 {
            assert(v@[i as int] == t);
            return true;
        }
        i += 1;
    }
    false
}

fn push_new(v: &mut Vec<(u32, u16)>, t: (u32, u16))
    requires
        no_duplicates(old(v)@),
    ensures
        no_duplicates(final(v)@),
        forall|y: (u32, u16)| final(v)@.contains(y) <==> (old(v)@.contains(y) || y == t),
{
    if holds_pair(v, t) {
        return;
    }
    let ghost before = v@;
    v.push(t);
    assert forall|y: (u32, u16)| v@.contains(y) <==> (before.contains(y) || y == t) by {
        if v@.contains(y) {
            let k = choose|k: int| 0 <= k < v@.len() && v@[k] == y;
            if k < before.len() {
                assert(before[k] == y);
            }
        }
        if before.contains(y) {
            let k = choose|k: int| 0 <= k < before.len() && before[k] == y;
            assert(v@[k] == y);
        }
        if y == t {
            assert(v@[before.len() as int] == t);
        }
    }
}

/// The announce targets as (address, port) pairs, each once.
fn broadcast_pairs(base_port: u16, local_ips: &Vec<u32>, subnet_broadcasts: &Vec<u32>) -> (res:
    Vec<(u32, u16)>)
    ensures
        no_duplicates(res@),
        forall|t: (u32, u16)|
            res@.contains(t) <==> is_broadcast_target(t, base_port, local_ips@, subnet_broadcasts@),
{
    let ports = discovery_target_ports(base_port);
    let mut out: Vec<(u32, u16)> = Vec::new();
    let mut pi: usize = 0;
    while pi < ports.len()
        invariant
            pi <= ports.len(),
            ports@ == target_ports(base_port),
            no_duplicates(out@),
            forall|t: (u32, u16)|
                #[trigger] out@.contains(t) <==> (is_broadcast_target(
                    t,
                    base_port,
                    local_ips@,
                    subnet_broadcasts@,
                ) && exists|k: int| 0 <= k < pi && #[trigger] ports@[k] == t.1),
        decreases ports.len() - pi,
    {
        let port = ports[pi];
        let ghost before = out@;
        push_new(&mut out, (0xffff_ffff, port));
        let mut bi: usize = 0;
        while bi < subnet_broadcasts.len()
            invariant
                bi <= subnet_broadcasts.len(),
                no_duplicates(out@),
                forall|t: (u32, u16)|
                    #[trigger] out@.contains(t) <==> (before.contains(t) || t == (0xffff_ffffu32, port) || (t.1
                        == port && exists|k: int| 0 <= k < bi && #[trigger] subnet_broadcasts@[k] == t.0)),
            decreases subnet_broadcasts.len() - bi,
        {
            let ghost prev = out@;
            push_new(&mut out, (subnet_broadcasts[bi], port));
            assert forall|t: (u32, u16)|
                #[trigger] out@.contains(t) <==> (before.contains(t) || t == (0xffff_ffffu32, port) || (t.1
                    == port && exists|k: int| 0 <= k < bi + 1 && #[trigger] subnet_broadcasts@[k] == t.0)) by {
                let pair = (subnet_broadcasts@[bi as int], port);
                assert(out@.contains(t) <==> (prev.contains(t) || t == pair));
                assert(prev.contains(t) <==> (before.contains(t) || t == (0xffff_ffffu32, port) || (t.1
                    == port && exists|k: int| 0 <= k < bi && #[trigger] subnet_broadcasts@[k] == t.0)));
                if t.0 == pair.0 && t.1 == pair.1 {
                    assert(t == pair);
                }
                if t.0 == 0xffff_ffffu32 && t.1 == port {
                    assert(t == (0xffff_ffffu32, port));
                }
                if exists|k: int| 0 <= k < bi + 1 && #[trigger] subnet_broadcasts@[k] == t.0 {
                    let k = choose|k: int| 0 <= k < bi + 1 && #[trigger] subnet_broadcasts@[k] == t.0;
                    if k < bi {
                    }
                }
            }
            bi += 1;
        }
        let ghost mid = out@;
        if subnet_broadcasts.len() == 0 {
            let mut li: usize = 0;
            while li < local_ips.len()
                invariant
                    li <= local_ips.len(),
                    no_duplicates(out@),
                    forall|t: (u32, u16)|
                        #[trigger] out@.contains(t) <==> (mid.contains(t) || (t.1 == port && exists|k: int|
                            0 <= k < li && t.0 == ((#[trigger] local_ips@[k] & 0xffff_ff00)
                                | 0xff))),
                decreases local_ips.len() - li,
            {
                let ip = local_ips[li];
                push_new(&mut out, ((ip & 0xffff_ff00) | 0xff, port));
                assert forall|t: (u32, u16)|
                    #[trigger] out@.contains(t) <==> (mid.contains(t) || (t.1 == port && exists|k: int|
                        0 <= k < li + 1 && t.0 == ((#[trigger] local_ips@[k] & 0xffff_ff00)
                            | 0xff))) by {
                    let pair = ((local_ips@[li as int] & 0xffff_ff00) | 0xff, port);
                    if t.0 == pair.0 && t.1 == pair.1 {
                        assert(t == pair);
                    }
                    if t.1 == port && exists|k: int|
                        0 <= k < li + 1 && t.0 == ((#[trigger] local_ips@[k] & 0xffff_ff00)
                            | 0xff) {
                        let k = choose|k: int|
                            0 <= k < li + 1 && t.0 == ((#[trigger] local_ips@[k] & 0xffff_ff00)
                                | 0xff);
                        if k < li {
                        }
                    }
                }
                li += 1;
            }
        }
        assert forall|t: (u32, u16)|
            #[trigger] out@.contains(t) <==> (is_broadcast_target(t, base_port, local_ips@, subnet_broadcasts@)
                && exists|k: int| 0 <= k < pi + 1 && #[trigger] ports@[k] == t.1) by {
            if t.0 == 0xffff_ffffu32 && t.1 == port {
                assert(t == (0xffff_ffffu32, port));
            }
            if exists|k: int| 0 <= k < pi + 1 && #[trigger] ports@[k] == t.1 {
                let k = choose|k: int| 0 <= k < pi + 1 && #[trigger] ports@[k] == t.1;
                if k < pi {
                }
                assert(ports@.contains(t.1));
            }
            if subnet_broadcasts@.contains(t.0) {
                let k = choose|k: int| 0 <= k < subnet_broadcasts@.len() && subnet_broadcasts@[k] == t.0;
                assert(subnet_broadcasts@[k] == t.0);
            }
            if t.1 == port {
                assert(ports@[pi as int] == t.1);
            }
        }
        pi += 1;
    }
    assert forall|t: (u32, u16)|
        #[trigger] out@.contains(t) <==> is_broadcast_target(t, base_port, local_ips@, subnet_broadcasts@) by {
        if ports@.contains(t.1) {
            let k = choose|k: int| 0 <= k < ports@.len() && ports@[k] == t.1;
            assert(ports@[k] == t.1);
        }
    }
    out
}


/// An IPv4 address as `Ipv4Addr` displays it: four decimal octets.
pub open spec fn ipv4_text(a: u32) -> Seq<char> {
    decimal_text((a / 0x100_0000) as nat) + seq!['.'] + decimal_text(((a / 0x1_0000) % 0x100) as nat)
        + seq!['.'] + decimal_text(((a / 0x100) % 0x100) as nat) + seq!['.'] + decimal_text(
        (a % 0x100) as nat,
    )
}

/// An announce target as the socket takes it: `address:port`.
pub open spec fn target_text(t: (u32, u16)) -> Seq<char> {
    ipv4_text(t.0) + seq![':'] + decimal_text(t.1 as nat)
}

fn format_target(t: (u32, u16)) -> (res: String)
    ensures
        res@ == target_text(t),
{
    let mut s = String::new();
    push_decimal(&mut s, t.0 / 0x100_0000);
    push_char(&mut s, '.');
    push_decimal(&mut s, (t.0 / 0x1_0000) % 0x100);
    push_char(&mut s, '.');
    push_decimal(&mut s, (t.0 / 0x100) % 0x100);
    push_char(&mut s, '.');
    push_decimal(&mut s, t.0 % 0x100);
    push_char(&mut s, ':');
    push_decimal(&mut s, t.1 as u32);
    assert(s@ =~= target_text(t));
    s
}

/// The texts are in strictly increasing `str` order (so each occurs once).
pub open spec fn sorted_texts(s: Seq<Seq<char>>) -> bool {
    forall|i: int, j: int| 0 <= i < j < s.len() ==> text_less(#[trigger] s[i], #[trigger] s[j])
}

/// Puts `t` into its place in the sorted `v`, unless it is there already.
fn insert_text(v: &mut Vec<String>, t: String)
    requires
        sorted_texts(texts(old(v)@)),
    ensures
        sorted_texts(texts(final(v)@)),
        forall|y: Seq<char>| #[trigger] texts(final(v)@).contains(y) <==> (texts(old(v)@).contains(y) || y == t@),
{
    let ghost before = texts(v@);
    let mut i: usize = 0;
    while i < v.len() && text_lt(v[i].as_str(), t.as_str())
        invariant
            i <= v.len(),
            texts(v@) == before,
            forall|k: int| 0 <= k < i ==> text_less(#[trigger] before[k], t@),
        decreases v.len() - i,
    {
        i += 1;
    }
    if i < v.len() && text_eq(v[i].as_str(), t.as_str()) {
        assert(before[i as int] == t@);
        return;
    }
    proof {
        if i < v.len() {
            lemma_text_less_order(before[i as int], t@, t@);
        }
    }
    let ghost ts = t@;
    v.insert(i, t);
    let ghost after = texts(v@);
    assert(after =~= before.insert(i as int, ts));
    assert forall|a: int, b: int| 0 <= a < b < after.len() implies text_less(
        #[trigger] after[a],
        #[trigger] after[b],
    ) by {
        if b < i {
            assert(after[a] == before[a] && after[b] == before[b]);
        } else if a < i && b == i {
            assert(after[a] == before[a]);
        } else if a < i {
            assert(after[a] == before[a] && after[b] == before[b - 1]);
            lemma_text_less_order(before[a], ts, before[i as int]);
            if b - 1 > i {
                lemma_text_less_order(before[a], before[i as int], before[b - 1]);
            }
        } else if a == i {
            assert(after[b] == before[b - 1]);
            if b - 1 > i {
                lemma_text_less_order(ts, before[i as int], before[b - 1]);
            }
        } else {
            assert(after[a] == before[a - 1] && after[b] == before[b - 1]);
        }
    }
    assert forall|y: Seq<char>| #[trigger] after.contains(y) <==> (before.contains(y) || y == ts) by {
        if after.contains(y) {
            let k = choose|k: int| 0 <= k < after.len() && after[k] == y;
            if k < i {
                assert(before[k] == y);
            } else if k > i {
                assert(before[k - 1] == y);
            }
        }
        if before.contains(y) {
            let k = choose|k: int| 0 <= k < before.len() && before[k] == y;
            if k < i {
                assert(after[k] == y);
            } else {
                assert(after[k + 1] == y);
            }
        }
        if y == ts {
            assert(after[i as int] == y);
        }
    }
}

/// Every announce target as an `address:port` text: the global broadcast on
/// each target port, each subnet broadcast on each port and, only when no
/// subnet broadcast is known, the `/24` broadcast of each local address; in
/// `str` order, each once.
pub fn broadcast_targets(base_port: u16, local_ips: &Vec<u32>, subnet_broadcasts: &Vec<u32>) -> (res:
    Vec<String>)
    ensures
        sorted_texts(texts(res@)),
        forall|y: Seq<char>|
            #[trigger] texts(res@).contains(y) <==> exists|t: (u32, u16)|
                is_broadcast_target(t, base_port, local_ips@, subnet_broadcasts@) && #[trigger] target_text(t)
                    == y,
{
    let pairs = broadcast_pairs(base_port, local_ips, subnet_broadcasts);
    let mut out: Vec<String> = Vec::new();
    assert(texts(out@) =~= Seq::<Seq<char>>::empty());
    let mut k: usize = 0;
    while k < pairs.len()
        invariant
            k <= pairs.len(),
            sorted_texts(texts(out@)),
            forall|y: Seq<char>|
                #[trigger] texts(out@).contains(y) <==> exists|j: int|
                    0 <= j < k && #[trigger] target_text(pairs@[j]) == y,
        decreases pairs.len() - k,
    {
        let text = format_target(pairs[k]);
        let ghost prev = texts(out@);
        insert_text(&mut out, text);
        assert forall|y: Seq<char>|
            #[trigger] texts(out@).contains(y) <==> exists|j: int|
                0 <= j < k + 1 && #[trigger] target_text(pairs@[j]) == y by {
            if exists|j: int| 0 <= j < k + 1 && #[trigger] target_text(pairs@[j]) == y {
                let j = choose|j: int| 0 <= j < k + 1 && #[trigger] target_text(pairs@[j]) == y;
                if j < k {
                    assert(prev.contains(y));
                }
            }
            if prev.contains(y) {
                let j = choose|j: int| 0 <= j < k && #[trigger] target_text(pairs@[j]) == y;
            }
        }
        k += 1;
    }
    assert forall|y: Seq<char>|
        #[trigger] texts(out@).contains(y) <==> exists|t: (u32, u16)|
            is_broadcast_target(t, base_port, local_ips@, subnet_broadcasts@) && #[trigger] target_text(t)
                == y by {
        if texts(out@).contains(y) {
            let j = choose|j: int| 0 <= j < pairs@.len() && #[trigger] target_text(pairs@[j]) == y;
            assert(pairs@.contains(pairs@[j]));
        }
        if exists|t: (u32, u16)|
            is_broadcast_target(t, base_port, local_ips@, subnet_broadcasts@) && #[trigger] target_text(t) == y {
            let t = choose|t: (u32, u16)|
                is_broadcast_target(t, base_port, local_ips@, subnet_broadcasts@) && #[trigger] target_text(t) == y;
            assert(pairs@.contains(t));
            let j = choose|j: int| 0 <= j < pairs@.len() && pairs@[j] == t;
            assert(target_text(pairs@[j]) == y);
        }
    }
    out
}

// ---------------------------------------------------------------------------
// What this device announces
// ---------------------------------------------------------------------------

/// The peer record this device advertises, stamped at `now`.
pub open spec fn local_peer_view(
    config: ReceiverConfigView,
    layout: ReceiverLayoutView,
    local_ip: Seq<char>,
    now: u64,
) -> LanPeerView {
    LanPeerView {
        id: peer_id_for(config.stable_id),
        name: config.device_name,
        platform: "android"@,
        machine_role: "client"@,
        cluster_id: layout.advertised_cluster_id(),
        pairing_required: layout.pairing_required(),
        host: config.stable_id,
        ip: local_ip,
        transport_port: config.discovery_port,
        quic_port: config.quic_port,
        transport_public_key: config.transport_public_key,
        protocol_version: config.protocol_version,
        screen_count: 1,
        input_ready: layout.input_ready(),
        upgrading: false,
        screens: seq![peer_screen_of(config.screen)],
        app_version: config.app_version,
        last_seen_ms: now,
    }
}

/// This device announces itself under its configured name, with the stable
/// id as its host label and the derived peer id: all three stay the same
/// whatever the layout, address or time of the announce, so the desktop can
/// show the device and re-match it after its address changes. The address
/// is the local one, the ports and key are the configured ones, and exactly
/// one screen is listed, at the configured size. An unpaired client asks to
/// be paired and advertises no cluster; a paired device takes input and
/// advertises its cluster.
pub proof fn lemma_announce_names_this_device(
    config: ReceiverConfigView,
    layout: ReceiverLayoutView,
    other_layout: ReceiverLayoutView,
    local_ip: Seq<char>,
    other_ip: Seq<char>,
    now: u64,
    later: u64,
)
    ensures
        ({
            let p = local_peer_view(config, layout, local_ip, now);
            let q = local_peer_view(config, other_layout, other_ip, later);
            &&& p.name == config.device_name
            &&& p.host == config.stable_id
            &&& p.id == peer_id_for(config.stable_id)
            &&& (p.id, p.name, p.host) == (q.id, q.name, q.host)
            &&& p.ip == local_ip
            &&& p.platform == "android"@
            &&& p.machine_role == "client"@
            &&& p.quic_port == config.quic_port
            &&& p.transport_port == config.discovery_port
            &&& p.transport_public_key == config.transport_public_key
            &&& p.screens.len() == 1
            &&& p.screens[0].width == config.screen.width
            &&& p.screens[0].height == config.screen.height
            &&& p.last_seen_ms == now
            &&& layout.machine_role == "client"@ && layout.paired_controllers.len() == 0 ==> p.pairing_required
                && !p.input_ready && p.cluster_id.len() == 0
            &&& layout.is_paired() ==> !p.pairing_required && p.input_ready && p.cluster_id
                == layout.cluster_id
        }),
{
}

/// The peer record this device advertises at time `now`: always a client on
/// Android with one screen, asking to be paired until it has a controller.
pub fn local_peer_at(config: &ReceiverConfig, layout: &ReceiverLayout, local_ip: &str, now: u64) -> (res:
    LanPeer)
    ensures
        res@ == local_peer_view(config@, layout@, local_ip@, now),
{
    let mut screens: Vec<LanPeerScreen> = Vec::new();
    screens.push(config.to_peer_screen());
    let res = LanPeer {
        id: local_peer_id(config.stable_id.as_str()),
        name: config.device_name.clone(),
        platform: owned("android"),
        machine_role: owned("client"),
        cluster_id: layout.advertised_cluster_id(),
        pairing_required: layout.pairing_required(),
        host: config.stable_id.clone(),
        ip: owned(local_ip),
        transport_port: config.discovery_port,
        quic_port: config.quic_port,
        transport_public_key: config.transport_public_key.clone(),
        protocol_version: config.protocol_version,
        screen_count: 1,
        input_ready: layout.input_ready(),
        upgrading: false,
        screens,
        app_version: config.app_version.clone(),
        last_seen_ms: now,
    };
    assert(res@.screens =~= seq![peer_screen_of(config@.screen)]);
    res
}

/// The peer record this device advertises now.
pub fn local_peer(config: &ReceiverConfig, layout: &ReceiverLayout, local_ip: &str) -> (res: LanPeer)
    ensures
        exists|now: u64| res@ == #[trigger] local_peer_view(config@, layout@, local_ip@, now),
{
    local_peer_at(config, layout, local_ip, now_ms())
}

/// The pending challenge after the announce tick, it being `age_ms` old on
/// the monotonic clock, and whether it was cleared: a code that can no
/// longer be used is dropped.
pub open spec fn expire_outcome(
    pending: Option<crate::pairing::PairingChallengeView>,
    age_ms: u64,
) -> (Option<crate::pairing::PairingChallengeView>, bool) {
    if pending is Some && crate::pairing::expired_after(age_ms) {
        (None, true)
    } else {
        (pending, false)
    }
}

/// Clears a pending pairing code, `age_ms` old on the monotonic clock, once
/// it can no longer be used, returning the event that tells the screen to
/// drop it.
pub fn expire_pairing_code_at(challenge: &mut Option<PairingChallenge>, age_ms: u64) -> (res: Option<
    ReceiverEvent,
>)
    ensures
        (challenge_view(*final(challenge)), res is Some) == expire_outcome(
            challenge_view(*old(challenge)),
            age_ms,
        ),
        res is Some ==> res->0@ == ReceiverEventView::PairingCleared,
{
    let expired = match challenge {
        Some(pending) => pending.is_expired_after(age_ms),
        None => false,
    };
    if expired {
        *challenge = None;
        Some(ReceiverEvent::PairingCleared)
    } else {
        None
    }
}

/// Clears a pending pairing code that has expired by now.
pub fn expire_pairing_code(challenge: &mut Option<PairingChallenge>) -> (res: Option<ReceiverEvent>)
    ensures
        exists|age_ms: u64|
            (challenge_view(*final(challenge)), res is Some) == #[trigger] expire_outcome(
                challenge_view(*old(challenge)),
                age_ms,
            ),
        res is Some ==> res->0@ == ReceiverEventView::PairingCleared,
{
    let age_ms = challenge_age(challenge);
    expire_pairing_code_at(challenge, age_ms)
}

// ---------------------------------------------------------------------------
// Keeping the stored controller in step with the wire
// ---------------------------------------------------------------------------

/// The address to dial to push something to the desktop.
#[derive(Debug)]
pub struct ControllerEndpoint {
    pub ip: String,
    pub quic_port: u16,
    pub transport_public_key: String,
    pub protocol_version: u16,
}

pub struct ControllerEndpointView {
    pub ip: Seq<char>,
    pub quic_port: u16,
    pub transport_public_key: Seq<char>,
    pub protocol_version: u16,
}

impl View for ControllerEndpoint {
    type V = ControllerEndpointView;

    open spec fn view(&self) -> ControllerEndpointView {
        ControllerEndpointView {
            ip: self.ip@,
            quic_port: self.quic_port,
            transport_public_key: self.transport_public_key@,
            protocol_version: self.protocol_version,
        }
    }
}

impl Clone for ControllerEndpoint {
    fn clone(&self) -> (res: Self)
        ensures
            res@ == self@,
    {
        ControllerEndpoint {
            ip: self.ip.clone(),
            quic_port: self.quic_port,
            transport_public_key: self.transport_public_key.clone(),
            protocol_version: self.protocol_version,
        }
    }
}

pub open spec fn endpoint_view(e: Option<ControllerEndpoint>) -> Option<ControllerEndpointView> {
    match e {
        Some(e) => Some(e@),
        None => None,
    }
}

/// Where `peer` can be reached.
pub open spec fn endpoint_of(peer: LanPeerView) -> ControllerEndpointView {
    ControllerEndpointView {
        ip: peer.ip,
        quic_port: peer.quic_port,
        transport_public_key: peer.transport_public_key,
        protocol_version: peer.protocol_version,
    }
}

/// The index of the first stored controller `peer` may refresh, or -1.
pub open spec fn first_refreshable(cs: Seq<PairedControllerView>, peer: LanPeerView) -> int
    decreases cs.len(),
{
    if cs.len() == 0 {
        -1
    } else if can_refresh(cs[0], peer) {
        0
    } else {
        let r = first_refreshable(cs.drop_first(), peer);
        if r < 0 {
            -1
        } else {
            r + 1
        }
    }
}

proof fn lemma_first_refreshable(cs: Seq<PairedControllerView>, peer: LanPeerView)
    ensures
        ({
            let r = first_refreshable(cs, peer);
            ||| r == -1 && forall|j: int| 0 <= j < cs.len() ==> !can_refresh(#[trigger] cs[j], peer)
            ||| 0 <= r < cs.len() && can_refresh(cs[r], peer) && forall|j: int|
                0 <= j < r ==> !can_refresh(#[trigger] cs[j], peer)
        }),
    decreases cs.len(),
{
    if cs.len() > 0 && !can_refresh(cs[0], peer) {
        lemma_first_refreshable(cs.drop_first(), peer);
        let r = first_refreshable(cs.drop_first(), peer);
        assert forall|j: int| 0 < j < cs.len() implies #[trigger] cs[j] == cs.drop_first()[j - 1] by {}
        if r < 0 {
            assert forall|j: int| 0 <= j < cs.len() implies !can_refresh(#[trigger] cs[j], peer) by {
                if j > 0 {
                    assert(cs[j] == cs.drop_first()[j - 1]);
                }
            }
        } else {
            assert forall|j: int| 0 <= j < r + 1 implies !can_refresh(#[trigger] cs[j], peer) by {
                if j > 0 {
                    assert(cs[j] == cs.drop_first()[j - 1]);
                }
            }
        }
    }
}

/// A stored text after a refresh from `value`: the trimmed value when it is
/// not empty, otherwise unchanged.
pub open spec fn refreshed_text(slot: Seq<char>, value: Seq<char>) -> Seq<char> {
    if trimmed(value).len() > 0 {
        trimmed(value)
    } else {
        slot
    }
}

pub open spec fn text_changes(slot: Seq<char>, value: Seq<char>) -> bool {
    trimmed(value).len() > 0 && slot != trimmed(value)
}

/// The stored record refreshed from the peer on the wire: name, host,
/// address, id and key follow the peer (blank values never overwrite), and so
/// does a non-zero protocol version. The cluster and pairing time stay.
pub open spec fn refreshed_controller(c: PairedControllerView, peer: LanPeerView) -> PairedControllerView {
    PairedControllerView {
        name: refreshed_text(c.name, peer.name),
        host: refreshed_text(c.host, peer.host),
        ip: refreshed_text(c.ip, peer.ip),
        id: refreshed_text(c.id, peer.id),
        transport_public_key: refreshed_text(c.transport_public_key, peer.transport_public_key),
        protocol_version: if peer.protocol_version != 0 {
            peer.protocol_version
        } else {
            c.protocol_version
        },
        ..c
    }
}

pub open spec fn refresh_changes(c: PairedControllerView, peer: LanPeerView) -> bool {
    ||| text_changes(c.name, peer.name)
    ||| text_changes(c.host, peer.host)
    ||| text_changes(c.ip, peer.ip)
    ||| text_changes(c.id, peer.id)
    ||| text_changes(c.transport_public_key, peer.transport_public_key)
    ||| peer.protocol_version != 0 && c.protocol_version != peer.protocol_version
}

/// Only a reachable server heard by a client can be our controller.
pub open spec fn adopt_applies(layout: ReceiverLayoutView, peer: LanPeerView) -> bool {
    &&& peer.machine_role == "server"@
    &&& !is_blank(peer.ip)
    &&& peer.quic_port != 0
    &&& layout.machine_role == "client"@
}

/// The peer is in our (non-blank) cluster.
pub open spec fn cluster_matches(layout: ReceiverLayoutView, peer: LanPeerView) -> bool {
    !is_blank(layout.cluster_id) && peer.cluster_id == layout.cluster_id
}

/// Everything `adopt_controller` leaves behind.
pub struct AdoptOutcome {
    pub layout: ReceiverLayoutView,
    pub endpoint: Option<ControllerEndpointView>,
    pub online: Seq<Seq<char>>,
    pub events: Seq<ReceiverEventView>,
}

/// What hearing `peer` does to the stored controller, the dial address, the
/// presence list and the event stream.
///
/// The dial address follows any refreshable peer or cluster mate that has a
/// key. The first refreshable record is refreshed in place (never a second
/// one added); its id joins the presence list (reported when it is new) and a
/// changed record is reported for persisting.
pub open spec fn adopt_outcome(
    layout: ReceiverLayoutView,
    peer: LanPeerView,
    endpoint: Option<ControllerEndpointView>,
    online: Seq<Seq<char>>,
) -> AdoptOutcome {
    if !adopt_applies(layout, peer) {
        AdoptOutcome { layout, endpoint, online, events: Seq::empty() }
    } else {
        let idx = first_refreshable(layout.paired_controllers, peer);
        let new_endpoint = if (idx >= 0 || cluster_matches(layout, peer)) && !is_blank(
            peer.transport_public_key,
        ) {
            Some(endpoint_of(peer))
        } else {
            endpoint
        };
        if idx < 0 {
            AdoptOutcome { layout, endpoint: new_endpoint, online, events: Seq::empty() }
        } else {
            let c = layout.paired_controllers[idx];
            let r = refreshed_controller(c, peer);
            let new_layout = ReceiverLayoutView {
                paired_controllers: layout.paired_controllers.update(idx, r),
                ..layout
            };
            let was_online = online.contains(r.id);
            let new_online = if was_online {
                online
            } else {
                online.push(r.id)
            };
            let presence: Seq<ReceiverEventView> = if was_online {
                Seq::empty()
            } else {
                seq![ReceiverEventView::PeerPresence { peer_ids: new_online }]
            };
            let name = if is_blank(r.name) {
                r.id
            } else {
                r.name
            };
            let paired: Seq<ReceiverEventView> = if refresh_changes(c, peer) {
                seq![
                    ReceiverEventView::Paired {
                        controller_id: r.id,
                        controller_name: name,
                        layout: new_layout,
                    },
                ]
            } else {
                Seq::empty()
            };
            AdoptOutcome {
                layout: new_layout,
                endpoint: new_endpoint,
                online: new_online,
                events: presence + paired,
            }
        }
    }
}

/// Hearing a peer never adds or drops a controller record, and never touches
/// the role, the cluster id or the pair secret.
pub proof fn lemma_adopt_keeps_credentials(
    layout: ReceiverLayoutView,
    peer: LanPeerView,
    endpoint: Option<ControllerEndpointView>,
    online: Seq<Seq<char>>,
)
    ensures
        ({
            let o = adopt_outcome(layout, peer, endpoint, online);
            &&& o.layout.paired_controllers.len() == layout.paired_controllers.len()
            &&& o.layout.machine_role == layout.machine_role
            &&& o.layout.cluster_id == layout.cluster_id
            &&& o.layout.pair_secret == layout.pair_secret
        }),
{
    lemma_first_refreshable(layout.paired_controllers, peer);
}

/// A peer that may refresh no stored record (an address-only match, say)
/// rewrites nothing, is not reported present, and raises no event; unless it
/// is also a cluster mate, it does not become the dial address either.
pub proof fn lemma_adopt_needs_identity(
    layout: ReceiverLayoutView,
    peer: LanPeerView,
    endpoint: Option<ControllerEndpointView>,
    online: Seq<Seq<char>>,
)
    requires
        forall|j: int|
            0 <= j < layout.paired_controllers.len() ==> !can_refresh(
                #[trigger] layout.paired_controllers[j],
                peer,
            ),
    ensures
        ({
            let o = adopt_outcome(layout, peer, endpoint, online);
            &&& o.layout == layout
            &&& o.online == online
            &&& o.events.len() == 0
            &&& !cluster_matches(layout, peer) ==> o.endpoint == endpoint
        }),
{
    lemma_first_refreshable(layout.paired_controllers, peer);
}

/// A desktop that rotated its key or moved is not locked out: once a client
/// holding the cluster credentials hears it, and it may refresh a stored
/// record, input carrying its (trimmed) new key is authorized.
pub proof fn lemma_refresh_keeps_input_authorized(
    layout: ReceiverLayoutView,
    peer: LanPeerView,
    endpoint: Option<ControllerEndpointView>,
    online: Seq<Seq<char>>,
)
    requires
        adopt_applies(layout, peer),
        !is_blank(layout.cluster_id),
        !is_blank(layout.pair_secret),
        !is_blank(peer.transport_public_key),
        exists|j: int|
            0 <= j < layout.paired_controllers.len() && can_refresh(
                #[trigger] layout.paired_controllers[j],
                peer,
            ),
    ensures
        authorizes(
            adopt_outcome(layout, peer, endpoint, online).layout,
            layout.cluster_id,
            layout.pair_secret,
            trimmed(peer.transport_public_key),
            Seq::empty(),
        ),
{
    lemma_first_refreshable(layout.paired_controllers, peer);
    lemma_trimmed_not_blank(peer.transport_public_key);
    let idx = first_refreshable(layout.paired_controllers, peer);
    let after = adopt_outcome(layout, peer, endpoint, online).layout;
    assert(0 <= idx < layout.paired_controllers.len());
    assert(after.paired_controllers[idx].transport_public_key == trimmed(peer.transport_public_key));
    assert(controller_is_origin(
        after.paired_controllers[idx],
        trimmed(peer.transport_public_key),
        Seq::empty(),
    ));
}

/// Overwrites `slot` with the trimmed `value` when that is not empty and
/// differs; says whether it changed.
fn refresh_text(slot: &mut String, value: &str) -> (changed: bool)
    ensures
        final(slot)@ == refreshed_text(old(slot)@, value@),
        changed == text_changes(old(slot)@, value@),
{
    let v = trim(value);
    if chars_of(v.as_str()).len() != 0 && !text_eq(slot.as_str(), v.as_str()) {
        *slot = v;
        true
    } else {
        false
    }
}

fn contains_text(v: &Vec<String>, t: &String) -> (res: bool)
    ensures
        res == texts(v@).contains(t@),
{
    let mut i: usize = 0;
    while i < v.len()
        invariant
            i <= v.len(),
            forall|k: int| 0 <= k < i ==> texts(v@)[k] != t@,
        decreases v.len() - i,
    {
        if text_eq(v[i].as_str(), t.as_str()) {
            assert(texts(v@)[i as int] == t@);
            return true;
        }
        i += 1;
    }
    false
}

fn clone_texts(v: &Vec<String>) -> (res: Vec<String>)
    ensures
        texts(res@) == texts(v@),
{
    let res = v.clone();
    assert(texts(res@) =~= texts(v@));
    res
}

/// Keeps the stored controller record, and the address to dial the desktop,
/// in step with a peer heard on the wire.
///
/// A rotated certificate or a moved address must not lock input out, so the
/// first record the peer may refresh (by identity, name or host, never by
/// address alone) is rewritten in place.
pub fn adopt_controller(
    layout: &mut ReceiverLayout,
    peer: &LanPeer,
    endpoint: &mut Option<ControllerEndpoint>,
    online: &mut Vec<String>,
) -> (events: Vec<ReceiverEvent>)
    ensures
        adopt_outcome(old(layout)@, peer@, endpoint_view(*old(endpoint)), texts(old(online)@))
            == (AdoptOutcome {
            layout: final(layout)@,
            endpoint: endpoint_view(*final(endpoint)),
            online: texts(final(online)@),
            events: event_views(events@),
        }),
{
    let mut events: Vec<ReceiverEvent> = Vec::new();
    assert(event_views(events@) =~= Seq::<ReceiverEventView>::empty());
    if !text_eq(peer.machine_role.as_str(), "server") {
        return events;
    }
    if blank(peer.ip.as_str()) || peer.quic_port == 0 {
        return events;
    }
    if !text_eq(layout.machine_role.as_str(), "client") {
        return events;
    }
    let ghost cs = layout@.paired_controllers;
    let n = layout.paired_controllers.len();
    let mut i: usize = 0;
    let mut found = false;
    while i < n
        invariant_except_break
            !found,
        invariant
            i <= n == layout.paired_controllers@.len(),
            cs == layout@.paired_controllers,
            forall|j: int| 0 <= j < i ==> !can_refresh(#[trigger] cs[j], peer@),
        ensures
            found ==> i < n && can_refresh(cs[i as int], peer@),
            !found ==> i == n,
        decreases n - i,
    {
        if can_refresh_controller_identity(&layout.paired_controllers[i], peer) {
            assert(cs[i as int] == layout.paired_controllers@[i as int]@);
            found = true;
            break;
        }
        i += 1;
    }
    proof {
        lemma_first_refreshable(cs, peer@);
        if found {
            assert(cs[i as int] == layout.paired_controllers@[i as int]@);
            assert(first_refreshable(cs, peer@) == i);
        } else {
            assert(first_refreshable(cs, peer@) == -1);
        }
    }
    let cluster_matches = !blank(layout.cluster_id.as_str()) && text_eq(
        peer.cluster_id.as_str(),
        layout.cluster_id.as_str(),
    );
    if (found || cluster_matches) && !blank(peer.transport_public_key.as_str()) {
        *endpoint = Some(
            ControllerEndpoint {
                ip: peer.ip.clone(),
                quic_port: peer.quic_port,
                transport_public_key: peer.transport_public_key.clone(),
                protocol_version: peer.protocol_version,
            },
        );
    }
    if !found {
        return events;
    }
    let mut record = layout.paired_controllers[i].clone();
    let mut changed = false;
    changed = refresh_text(&mut record.name, peer.name.as_str()) || changed;
    let c2 = refresh_text(&mut record.host, peer.host.as_str());
    let c3 = refresh_text(&mut record.ip, peer.ip.as_str());
    let c4 = refresh_text(&mut record.id, peer.id.as_str());
    let c5 = refresh_text(&mut record.transport_public_key, peer.transport_public_key.as_str());
    changed = changed || c2 || c3 || c4 || c5;
    if peer.protocol_version != 0 && record.protocol_version != peer.protocol_version {
        record.protocol_version = peer.protocol_version;
        changed = true;
    }
    let controller_id = record.id.clone();
    let controller_name = if blank(record.name.as_str()) {
        controller_id.clone()
    } else {
        record.name.clone()
    };
    let ghost r = record@;
    layout.paired_controllers.set(i, record);
    assert(layout@.paired_controllers =~= cs.update(i as int, r));
    let snapshot = layout.clone();
    if !contains_text(online, &controller_id) {
        online.push(controller_id.clone());
        assert(texts(online@) =~= texts(old(online)@).push(controller_id@));
        events.push(ReceiverEvent::PeerPresence { peer_ids: clone_texts(online) });
    }
    if changed {
        events.push(
            ReceiverEvent::Paired { controller_id, controller_name, layout: snapshot },
        );
    }
    proof {
        let out = adopt_outcome(old(layout)@, peer@, endpoint_view(*old(endpoint)), texts(old(online)@));
        assert(event_views(events@) =~= out.events);
    }
    events
}


// ---------------------------------------------------------------------------
// One datagram of the discovery loop
// ---------------------------------------------------------------------------

/// What the discovery loop does with one decoded packet: the datagram to send
/// back to its source (if any) and the events to surface.
pub struct DiscoveryStep {
    pub reply: Option<DiscoveryPacket>,
    pub events: Vec<ReceiverEvent>,
}

pub open spec fn packet_opt_view(p: Option<DiscoveryPacket>) -> Option<DiscoveryPacketView> {
    match p {
        Some(p) => Some(p@),
        None => None,
    }
}

/// Everything one discovery packet leaves behind.
pub struct DiscoveryOutcome {
    pub layout: ReceiverLayoutView,
    pub challenge: Option<crate::pairing::PairingChallengeView>,
    pub endpoint: Option<ControllerEndpointView>,
    pub online: Seq<Seq<char>>,
    pub reply: Option<DiscoveryPacketView>,
    pub events: Seq<ReceiverEventView>,
}

pub open spec fn no_pairing_fields() -> crate::packet::DiscoveryPairingFieldsView {
    crate::packet::DiscoveryPairingFieldsView { code: None, cluster_id: None, secret: None, error: None }
}

/// What a decoded discovery packet from `source_ip` does at wall-clock time
/// `now`, the pending challenge being `age_ms` old on the monotonic clock,
/// `issued_at` the monotonic reading and `fresh_code` the code a new
/// challenge would carry.
///
/// Our own packets are ignored. Any other peer first goes through
/// `adopt_outcome`. A `pair-request` may mint a challenge (answered with a
/// `pair-challenge` and shown on screen); an `announce` or `probe` is
/// answered with a `reply` when `replies_to` says so; a plaintext
/// `pair-confirm`, and every other kind, gets no answer. The decisions use the
/// layout as it was before the packet.
pub open spec fn discovery_outcome(
    config: ReceiverConfigView,
    layout: ReceiverLayoutView,
    challenge: Option<crate::pairing::PairingChallengeView>,
    endpoint: Option<ControllerEndpointView>,
    online: Seq<Seq<char>>,
    packet: DiscoveryPacketView,
    source_ip: Seq<char>,
    local_ip: Seq<char>,
    age_ms: u64,
    issued_at: std::time::Instant,
    now: u64,
    fresh_code: Seq<char>,
) -> DiscoveryOutcome {
    match incoming_view(packet, source_ip, peer_id_for(config.stable_id), now) {
        None => DiscoveryOutcome {
            layout,
            challenge,
            endpoint,
            online,
            reply: None,
            events: Seq::empty(),
        },
        Some(inc) => {
            let a = adopt_outcome(layout, inc.peer, endpoint, online);
            let reply_peer = local_peer_view(config, layout, local_ip, now);
            if inc.kind == "pair-request"@ {
                let (next, issued) = crate::pairing::begin_outcome(
                    challenge,
                    layout,
                    inc.peer,
                    source_ip,
                    age_ms,
                    issued_at,
                    now,
                    fresh_code,
                );
                match issued {
                    Some(c) => DiscoveryOutcome {
                        layout: a.layout,
                        challenge: next,
                        endpoint: a.endpoint,
                        online: a.online,
                        reply: Some(
                            discovery_packet_view(
                                "pair-challenge"@,
                                reply_peer,
                                no_pairing_fields(),
                                now,
                            ),
                        ),
                        events: a.events.push(
                            ReceiverEventView::PairingRequested {
                                code: c.code,
                                requester_name: c.requester_name,
                                requester_ip: c.requester_ip,
                                expires_at_ms: c.expires_at_ms,
                            },
                        ),
                    },
                    None => DiscoveryOutcome {
                        layout: a.layout,
                        challenge: next,
                        endpoint: a.endpoint,
                        online: a.online,
                        reply: None,
                        events: a.events,
                    },
                }
            } else if (inc.kind == "announce"@ || inc.kind == "probe"@) && replies_to(
                layout,
                inc.peer,
            ) {
                DiscoveryOutcome {
                    layout: a.layout,
                    challenge,
                    endpoint: a.endpoint,
                    online: a.online,
                    reply: Some(discovery_packet_view("reply"@, reply_peer, no_pairing_fields(), now)),
                    events: a.events,
                }
            } else {
                DiscoveryOutcome {
                    layout: a.layout,
                    challenge,
                    endpoint: a.endpoint,
                    online: a.online,
                    reply: None,
                    events: a.events,
                }
            }
        },
    }
}

/// A packet carrying this device's own peer id (its announce looping back)
/// changes nothing and is not answered.
pub proof fn lemma_own_discovery_packet_is_ignored(
    config: ReceiverConfigView,
    layout: ReceiverLayoutView,
    challenge: Option<crate::pairing::PairingChallengeView>,
    endpoint: Option<ControllerEndpointView>,
    online: Seq<Seq<char>>,
    packet: DiscoveryPacketView,
    source_ip: Seq<char>,
    local_ip: Seq<char>,
    age_ms: u64,
    issued_at: std::time::Instant,
    now: u64,
    fresh_code: Seq<char>,
)
    requires
        packet.peer.id == peer_id_for(config.stable_id),
    ensures
        discovery_outcome(
            config,
            layout,
            challenge,
            endpoint,
            online,
            packet,
            source_ip,
            local_ip,
            age_ms,
            issued_at,
            now,
            fresh_code,
        ) == (DiscoveryOutcome {
            layout,
            challenge,
            endpoint,
            online,
            reply: None,
            events: Seq::empty(),
        }),
{
}

/// Discovery never pairs: whatever arrives there (a plaintext `pair-confirm`
/// included), the cluster id, the pair secret and the number of controllers
/// stay as they were. Only the encrypted stream can change them.
pub proof fn lemma_discovery_never_pairs(
    config: ReceiverConfigView,
    layout: ReceiverLayoutView,
    challenge: Option<crate::pairing::PairingChallengeView>,
    endpoint: Option<ControllerEndpointView>,
    online: Seq<Seq<char>>,
    packet: DiscoveryPacketView,
    source_ip: Seq<char>,
    local_ip: Seq<char>,
    age_ms: u64,
    issued_at: std::time::Instant,
    now: u64,
    fresh_code: Seq<char>,
)
    ensures
        ({
            let o = discovery_outcome(
                config,
                layout,
                challenge,
                endpoint,
                online,
                packet,
                source_ip,
                local_ip,
                age_ms,
                issued_at,
                now,
                fresh_code,
            );
            &&& o.layout.cluster_id == layout.cluster_id
            &&& o.layout.pair_secret == layout.pair_secret
            &&& o.layout.machine_role == layout.machine_role
            &&& o.layout.paired_controllers.len() == layout.paired_controllers.len()
            &&& packet.kind == "pair-confirm"@ ==> o.challenge == challenge && o.reply is None
        }),
{
    reveal_strlit("pair-confirm");
    reveal_strlit("pair-request");
    reveal_strlit("announce");
    reveal_strlit("probe");
    assert("pair-confirm"@[5] != "pair-request"@[5]);
    assert("pair-confirm"@.len() != "probe"@.len());
    assert("pair-confirm"@[0] != "announce"@[0]);
    match incoming_view(packet, source_ip, peer_id_for(config.stable_id), now) {
        Some(inc) => {
            lemma_adopt_keeps_credentials(layout, inc.peer, endpoint, online);
        },
        None => {},
    }
}

/// A fresh receiver answers a desktop's probe: the reply describes a client
/// on Android with exactly one screen, at the configured size, that asks to
/// be paired, is not yet an input target, and names the port and key the
/// desktop will dial.
pub proof fn lemma_unpaired_receiver_answers_a_probe(
    config: ReceiverConfigView,
    challenge: Option<crate::pairing::PairingChallengeView>,
    endpoint: Option<ControllerEndpointView>,
    online: Seq<Seq<char>>,
    packet: DiscoveryPacketView,
    source_ip: Seq<char>,
    local_ip: Seq<char>,
    age_ms: u64,
    issued_at: std::time::Instant,
    now: u64,
    fresh_code: Seq<char>,
)
    requires
        packet.kind == "probe"@,
        packet.peer.machine_role == "server"@,
        packet.peer.id != peer_id_for(config.stable_id),
    ensures
        ({
            let o = discovery_outcome(
                config,
                ReceiverLayoutView::unpaired(),
                challenge,
                endpoint,
                online,
                packet,
                source_ip,
                local_ip,
                age_ms,
                issued_at,
                now,
                fresh_code,
            );
            &&& o.reply is Some
            &&& o.reply->0.protocol == DISCOVERY_PROTOCOL@
            &&& o.reply->0.kind == "reply"@
            &&& o.reply->0.peer.machine_role == "client"@
            &&& o.reply->0.peer.platform == "android"@
            &&& o.reply->0.peer.pairing_required
            &&& !o.reply->0.peer.input_ready
            &&& o.reply->0.peer.screens.len() == 1
            &&& o.reply->0.peer.screens[0].width == config.screen.width
            &&& o.reply->0.peer.screens[0].height == config.screen.height
            &&& o.reply->0.peer.quic_port == config.quic_port
            &&& o.reply->0.peer.transport_public_key == config.transport_public_key
            &&& o.challenge == challenge
            &&& o.layout == ReceiverLayoutView::unpaired()
        }),
{
    reveal_strlit("probe");
    reveal_strlit("pair-request");
    assert("probe"@.len() != "pair-request"@.len());
    let inc = incoming_view(packet, source_ip, peer_id_for(config.stable_id), now)->0;
    lemma_unpaired_replies_only_to_servers(inc.peer);
    lemma_adopt_keeps_credentials(ReceiverLayoutView::unpaired(), inc.peer, endpoint, online);
    let a = adopt_outcome(ReceiverLayoutView::unpaired(), inc.peer, endpoint, online);
    assert(a.layout == ReceiverLayoutView::unpaired()) by {
        assert(a.layout.paired_controllers =~= Seq::<PairedControllerView>::empty());
    }
}

/// A desktop's `announce` is handled exactly like its `probe`, on any layout:
/// the two packets leave the same state, events and reply behind. When the
/// packet is not our own and `replies_to` accepts the sender, that reply is a
/// `reply` of our protocol that describes this device: its peer id, its
/// configured name, a client, stamped now.
pub proof fn lemma_announce_is_answered_like_a_probe(
    config: ReceiverConfigView,
    layout: ReceiverLayoutView,
    challenge: Option<crate::pairing::PairingChallengeView>,
    endpoint: Option<ControllerEndpointView>,
    online: Seq<Seq<char>>,
    packet: DiscoveryPacketView,
    source_ip: Seq<char>,
    local_ip: Seq<char>,
    age_ms: u64,
    issued_at: std::time::Instant,
    now: u64,
    fresh_code: Seq<char>,
)
    requires
        packet.kind == "announce"@,
    ensures
        discovery_outcome(
            config,
            layout,
            challenge,
            endpoint,
            online,
            packet,
            source_ip,
            local_ip,
            age_ms,
            issued_at,
            now,
            fresh_code,
        ) == discovery_outcome(
            config,
            layout,
            challenge,
            endpoint,
            online,
            DiscoveryPacketView { kind: "probe"@, ..packet },
            source_ip,
            local_ip,
            age_ms,
            issued_at,
            now,
            fresh_code,
        ),
        packet.peer.id != peer_id_for(config.stable_id) && replies_to(
            layout,
            received_peer(packet.peer, source_ip, now),
        ) ==> ({
            let o = discovery_outcome(
                config,
                layout,
                challenge,
                endpoint,
                online,
                packet,
                source_ip,
                local_ip,
                age_ms,
                issued_at,
                now,
                fresh_code,
            );
            &&& o.reply is Some
            &&& o.reply->0.protocol == DISCOVERY_PROTOCOL@
            &&& o.reply->0.kind == "reply"@
            &&& o.reply->0.peer.id == peer_id_for(config.stable_id)
            &&& o.reply->0.peer.name == config.device_name
            &&& o.reply->0.peer.machine_role == "client"@
            &&& o.reply->0.peer.last_seen_ms == now
        }),
{
    reveal_strlit("probe");
    reveal_strlit("announce");
    reveal_strlit("pair-request");
    assert("probe"@.len() != "pair-request"@.len());
    assert("announce"@.len() != "pair-request"@.len());
}

/// A server's `pair-request` to a client with no code pending is answered
/// with a `pair-challenge` describing this device, and the new code is put
/// on screen: the event names the requester and the address it was heard
/// from, and carries the fresh code and its display expiry. The challenge
/// now pending is for that requester, with that code.
pub proof fn lemma_pair_request_shows_a_code(
    config: ReceiverConfigView,
    layout: ReceiverLayoutView,
    endpoint: Option<ControllerEndpointView>,
    online: Seq<Seq<char>>,
    packet: DiscoveryPacketView,
    source_ip: Seq<char>,
    local_ip: Seq<char>,
    age_ms: u64,
    issued_at: std::time::Instant,
    now: u64,
    fresh_code: Seq<char>,
)
    requires
        packet.kind == "pair-request"@,
        packet.peer.id != peer_id_for(config.stable_id),
        packet.peer.machine_role == "server"@,
        layout.machine_role == "client"@,
    ensures
        ({
            let o = discovery_outcome(
                config,
                layout,
                None,
                endpoint,
                online,
                packet,
                source_ip,
                local_ip,
                age_ms,
                issued_at,
                now,
                fresh_code,
            );
            &&& o.reply is Some
            &&& o.reply->0.kind == "pair-challenge"@
            &&& o.reply->0.peer.id == peer_id_for(config.stable_id)
            &&& o.reply->0.pairing_code is None
            &&& o.events.len() > 0
            &&& o.events.last() == ReceiverEventView::PairingRequested {
                code: fresh_code,
                requester_name: packet.peer.name,
                requester_ip: source_ip,
                expires_at_ms: crate::pairing::expiry_for(now),
            }
            &&& o.challenge is Some
            &&& o.challenge->0.code == fresh_code
            &&& o.challenge->0.requester_id == packet.peer.id
            &&& o.challenge->0.attempts == 0
        }),
{
}

/// Handles one decoded discovery packet heard from `source_ip`, the pending
/// challenge being `age_ms` old on the monotonic clock (read at `issued_at`),
/// at wall-clock time `now`,
/// minting `fresh_code` if a new pairing code is needed.
pub fn handle_discovery_packet_at(
    config: &ReceiverConfig,
    layout: &mut ReceiverLayout,
    challenge: &mut Option<PairingChallenge>,
    endpoint: &mut Option<ControllerEndpoint>,
    online: &mut Vec<String>,
    packet: DiscoveryPacket,
    source_ip: &str,
    local_ip: &str,
    age_ms: u64,
    issued_at: std::time::Instant,
    now: u64,
    fresh_code: String,
) -> (res: DiscoveryStep)
    ensures
        discovery_outcome(
            config@,
            old(layout)@,
            challenge_view(*old(challenge)),
            endpoint_view(*old(endpoint)),
            texts(old(online)@),
            packet@,
            source_ip@,
            local_ip@,
            age_ms,
            issued_at,
            now,
            fresh_code@,
        ) == (DiscoveryOutcome {
            layout: final(layout)@,
            challenge: challenge_view(*final(challenge)),
            endpoint: endpoint_view(*final(endpoint)),
            online: texts(final(online)@),
            reply: packet_opt_view(res.reply),
            events: event_views(res.events@),
        }),
{
    let own_id = local_peer_id(config.stable_id.as_str());
    let incoming = match peer_from_discovery_packet_at(packet, owned(source_ip), own_id.as_str(), now) {
        Some(incoming) => incoming,
        None => {
            let events: Vec<ReceiverEvent> = Vec::new();
            assert(event_views(events@) =~= Seq::<ReceiverEventView>::empty());
            return DiscoveryStep { reply: None, events };
        },
    };
    let current = layout.clone();
    let reply_peer = local_peer_at(config, &current, local_ip, now);
    let mut events = adopt_controller(layout, &incoming.peer, endpoint, online);
    let mut reply: Option<DiscoveryPacket> = None;
    if text_eq(incoming.kind.as_str(), "pair-request") {
        let issued = begin_pairing_challenge_at(
            challenge,
            &current,
            &incoming.peer,
            owned(source_ip),
            age_ms,
            issued_at,
            now,
            fresh_code,
        );
        match issued {
            Some(issued) => {
                reply = Some(
                    discovery_packet_at(
                        "pair-challenge",
                        &reply_peer,
                        DiscoveryPairingFields::default(),
                        now,
                    ),
                );
                let ghost before = event_views(events@);
                events.push(
                    ReceiverEvent::PairingRequested {
                        code: issued.code,
                        requester_name: issued.requester_name,
                        requester_ip: issued.requester_ip,
                        expires_at_ms: issued.expires_at_ms,
                    },
                );
                assert(event_views(events@) =~= before.push(event_views(events@).last()));
            },
            None => {},
        }
    } else if (text_eq(incoming.kind.as_str(), "announce") || text_eq(
        incoming.kind.as_str(),
        "probe",
    )) && should_reply_to_discovery(&current, &incoming.peer) {
        reply = Some(
            discovery_packet_at("reply", &reply_peer, DiscoveryPairingFields::default(), now),
        );
    }
    DiscoveryStep { reply, events }
}

/// Only a `pair-request` uses the code a new challenge would show: for any
/// other packet the outcome is the same whatever that code is.
pub proof fn lemma_only_pair_requests_use_the_code(
    config: ReceiverConfigView,
    layout: ReceiverLayoutView,
    challenge: Option<crate::pairing::PairingChallengeView>,
    endpoint: Option<ControllerEndpointView>,
    online: Seq<Seq<char>>,
    packet: DiscoveryPacketView,
    source_ip: Seq<char>,
    local_ip: Seq<char>,
    age_ms: u64,
    issued_at: std::time::Instant,
    now: u64,
    code: Seq<char>,
    other_code: Seq<char>,
)
    requires
        packet.kind != "pair-request"@,
    ensures
        discovery_outcome(config, layout, challenge, endpoint, online, packet, source_ip, local_ip, age_ms, issued_at, now, code)
            == discovery_outcome(
            config,
            layout,
            challenge,
            endpoint,
            online,
            packet,
            source_ip,
            local_ip,
            age_ms,
            issued_at,
            now,
            other_code,
        ),
{
}

/// Handles one decoded discovery packet heard from `source_ip` now; a new
/// challenge shows a freshly drawn six digit code.
pub fn handle_discovery_packet(
    config: &ReceiverConfig,
    layout: &mut ReceiverLayout,
    challenge: &mut Option<PairingChallenge>,
    endpoint: &mut Option<ControllerEndpoint>,
    online: &mut Vec<String>,
    packet: DiscoveryPacket,
    source_ip: &str,
    local_ip: &str,
) -> (res: DiscoveryStep)
    ensures
        exists|age_ms: u64, issued_at: std::time::Instant, now: u64, code: Seq<char>|
            code.len() == 6 && crate::state::all_digits(code) && #[trigger] discovery_outcome(
                config@,
                old(layout)@,
                challenge_view(*old(challenge)),
                endpoint_view(*old(endpoint)),
                texts(old(online)@),
                packet@,
                source_ip@,
                local_ip@,
                age_ms,
                issued_at,
                now,
                code,
            ) == (DiscoveryOutcome {
                layout: final(layout)@,
                challenge: challenge_view(*final(challenge)),
                endpoint: endpoint_view(*final(endpoint)),
                online: texts(final(online)@),
                reply: packet_opt_view(res.reply),
                events: event_views(res.events@),
            }),
{
    let issued_at = monotonic_now();
    let age_ms = challenge_age(challenge);
    let now = now_ms();
    let ghost packet_view = packet@;
    let ghost old_layout = layout@;
    let ghost old_challenge = challenge_view(*challenge);
    let ghost old_endpoint = endpoint_view(*endpoint);
    let ghost old_online = texts(online@);
    // Only a pair-request can mint a code; nothing else needs the random source.
    let minting = text_eq(packet.kind.as_str(), "pair-request");
    let code = if minting {
        random_pairing_code()
    } else {
        String::new()
    };
    let ghost drawn = code@;
    let res = handle_discovery_packet_at(
        config,
        layout,
        challenge,
        endpoint,
        online,
        packet,
        source_ip,
        local_ip,
        age_ms,
        issued_at,
        now,
        code,
    );
    proof {
        let witness = if minting {
            drawn
        } else {
            crate::state::decimal_digits(0, 6)
        };
        crate::state::lemma_decimal_digits_len(0, 6);
        crate::state::lemma_decimal_digits_are_digits(0, 6);
        if !minting {
            lemma_only_pair_requests_use_the_code(
                config@,
                old_layout,
                old_challenge,
                old_endpoint,
                old_online,
                packet_view,
                source_ip@,
                local_ip@,
                age_ms,
                issued_at,
                now,
                drawn,
                witness,
            );
        }
        assert(witness.len() == 6 && crate::state::all_digits(witness) && discovery_outcome(
            config@,
            old_layout,
            old_challenge,
            old_endpoint,
            old_online,
            packet_view,
            source_ip@,
            local_ip@,
            age_ms,
            issued_at,
            now,
            witness,
        ) == (DiscoveryOutcome {
            layout: layout@,
            challenge: challenge_view(*challenge),
            endpoint: endpoint_view(*endpoint),
            online: texts(online@),
            reply: packet_opt_view(res.reply),
            events: event_views(res.events@),
        }));
    }
    res
}

} // verus!
