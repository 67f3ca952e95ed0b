//! The receiver's input and stream planes: which datagrams become input
//! events, how the encrypted `pair-confirm` and clipboard streams are
//! answered, and what the start-up and diagnostics paths hand to the
//! transport. Decoding and the transport itself are the app layer's.

use vstd::prelude::*;

use crate::discovery::{
    local_peer_id, peer_id_for, ControllerEndpoint, ControllerEndpointView, ReceiverConfig,
    ReceiverConfigView,
};
use crate::events::{ReceiverEvent, ReceiverEventView};
use crate::packet::{
    ClipboardPacket, DiagnosticsPacket, DiscoveryPacket, DiscoveryPacketView, InputEvent, InputEventView, InputPacket,
    LanPeerView, Screen, ScreenView, CLIPBOARD_PROTOCOL, DIAGNOSTICS_PROTOCOL, DISCOVERY_PROTOCOL,
    INPUT_PROTOCOL, PROTOCOL_VERSION, UNIT_SCALE_THOUSANDTHS,
};
use crate::pairing::{
    challenge_view, complete_pairing_from_confirm_at, confirm_outcome, PairingChallenge,
};
use crate::state::{
    authorizes, fresh_in, input_authorized, kept_entries, now_ms, OriginCache, ReceiverLayout,
    ReceiverLayoutView,
};
use crate::text::{blank, is_blank, owned, text_eq, trimmed};

verus! {

// ---------------------------------------------------------------------------
// Start-up
// ---------------------------------------------------------------------------

/// What the app hands over to start a receiver.
#[derive(Debug)]
pub struct ReceiverStartup {
    pub device_name: String,
    pub stable_id: String,
    pub app_version: String,
    pub screen_id: String,
    pub screen_width: i32,
    pub screen_height: i32,
    pub discovery_port: u16,
    pub quic_port: u16,
    /// App-private directory used to persist the TLS identity and layout.
    pub identity_dir: String,
    pub initial_layout: ReceiverLayout,
}

/// The screen id used when the app names none.
pub const DEFAULT_SCREEN_ID: &'static str = "android-screen-1";

pub const DEFAULT_SCREEN_WIDTH: i64 = 1080;

pub const DEFAULT_SCREEN_HEIGHT: i64 = 2400;

/// The start-up fields read from the app's configuration, each present or
/// not. Numbers arrive as 64-bit values and are narrowed the way `as` does.
pub struct StartupFields {
    pub device_name: Option<String>,
    pub stable_id: Option<String>,
    pub identity_dir: Option<String>,
    pub app_version: Option<String>,
    pub screen_id: Option<String>,
    pub screen_width: Option<i64>,
    pub screen_height: Option<i64>,
    pub discovery_port: Option<i64>,
    pub quic_port: Option<i64>,
    pub layout: Option<ReceiverLayout>,
}

pub open spec fn or_default(o: Option<i64>, d: i64) -> i64 {
    match o {
        Some(v) => v,
        None => d,
    }
}

/// Builds the start-up request from the app's configuration: the device name,
/// stable id and identity directory are required (in that order); everything
/// else has a default (the package version, `DEFAULT_SCREEN_ID`, a 1080x2400
/// screen, the discovery port and the port after it, an unpaired layout).
pub fn receiver_startup(fields: StartupFields, package_version: &str) -> (res: Result<
    ReceiverStartup,
    String,
>)
    ensures
        fields.device_name is None ==> res is Err && res->Err_0@ == "deviceName is required"@,
        fields.device_name is Some && fields.stable_id is None ==> res is Err && res->Err_0@
            == "stableId is required"@,
        fields.device_name is Some && fields.stable_id is Some && fields.identity_dir is None
            ==> res is Err && res->Err_0@ == "identityDir is required"@,
        fields.device_name is Some && fields.stable_id is Some && fields.identity_dir is Some
            ==> res is Ok && {
            let s = res->Ok_0;
            &&& s.device_name@ == fields.device_name->0@
            &&& s.stable_id@ == fields.stable_id->0@
            &&& s.identity_dir@ == fields.identity_dir->0@
            &&& s.app_version@ == (match fields.app_version {
                Some(v) => v@,
                None => package_version@,
            })
            &&& s.screen_id@ == (match fields.screen_id {
                Some(v) => v@,
                None => DEFAULT_SCREEN_ID@,
            })
            &&& s.screen_width == or_default(fields.screen_width, DEFAULT_SCREEN_WIDTH) as i32
            &&& s.screen_height == or_default(fields.screen_height, DEFAULT_SCREEN_HEIGHT) as i32
            &&& s.discovery_port == or_default(
                fields.discovery_port,
                crate::packet::DISCOVERY_PORT as i64,
            ) as u16
            &&& s.quic_port == or_default(fields.quic_port, (crate::packet::DISCOVERY_PORT as i64
                + 1) as i64) as u16
            &&& s.initial_layout@ == (match fields.layout {
                Some(l) => l@,
                None => ReceiverLayoutView::unpaired(),
            })
        },
{
    let device_name = match fields.device_name {
        Some(v) => v,
        None => {
            return Err(owned("deviceName is required"));
        },
    };
    let stable_id = match fields.stable_id {
        Some(v) => v,
        None => {
            return Err(owned("stableId is required"));
        },
    };
    let identity_dir = match fields.identity_dir {
        Some(v) => v,
        None => {
            return Err(owned("identityDir is required"));
        },
    };
    let app_version = match fields.app_version {
        Some(v) => v,
        None => owned(package_version),
    };
    let screen_id = match fields.screen_id {
        Some(v) => v,
        None => owned(DEFAULT_SCREEN_ID),
    };
    let width: i64 = match fields.screen_width {
        Some(v) => v,
        None => DEFAULT_SCREEN_WIDTH,
    };
    let height: i64 = match fields.screen_height {
        Some(v) => v,
        None => DEFAULT_SCREEN_HEIGHT,
    };
    let discovery_port: i64 = match fields.discovery_port {
        Some(v) => v,
        None => crate::packet::DISCOVERY_PORT as i64,
    };
    let quic_port: i64 = match fields.quic_port {
        Some(v) => v,
        None => crate::packet::DISCOVERY_PORT as i64 + 1,
    };
    let initial_layout = match fields.layout {
        Some(l) => l,
        None => ReceiverLayout::new_unpaired(),
    };
    Ok(
        ReceiverStartup {
            device_name,
            stable_id,
            app_version,
            screen_id,
            screen_width: width as i32,
            screen_height: height as i32,
            discovery_port: discovery_port as u16,
            quic_port: quic_port as u16,
            identity_dir,
            initial_layout,
        },
    )
}

/// The configuration a started receiver advertises: the screen at the
/// origin with scale 1 (so the desktop sends device pixels), and the port
/// and key the transport actually bound rather than the ones asked for.
pub open spec fn startup_config_view(
    startup: ReceiverStartup,
    bound_quic_port: u16,
    transport_public_key: Seq<char>,
) -> ReceiverConfigView {
    ReceiverConfigView {
        device_name: startup.device_name@,
        stable_id: startup.stable_id@,
        app_version: startup.app_version@,
        screen_id: startup.screen_id@,
        screen: ScreenView {
            id: startup.screen_id@,
            device_id: startup.stable_id@,
            name: startup.device_name@,
            x: 0,
            y: 0,
            width: startup.screen_width,
            height: startup.screen_height,
            scale_thousandths: UNIT_SCALE_THOUSANDTHS,
            is_primary: true,
        },
        discovery_port: startup.discovery_port,
        quic_port: bound_quic_port,
        transport_public_key,
        protocol_version: PROTOCOL_VERSION,
    }
}

pub fn startup_config(startup: &ReceiverStartup, bound_quic_port: u16, transport_public_key: &str) -> (res:
    ReceiverConfig)
    ensures
        res@ == startup_config_view(*startup, bound_quic_port, transport_public_key@),
{
    ReceiverConfig {
        device_name: startup.device_name.clone(),
        stable_id: startup.stable_id.clone(),
        app_version: startup.app_version.clone(),
        screen_id: startup.screen_id.clone(),
        screen: Screen {
            id: startup.screen_id.clone(),
            device_id: startup.stable_id.clone(),
            name: startup.device_name.clone(),
            x: 0,
            y: 0,
            width: startup.screen_width,
            height: startup.screen_height,
            scale_thousandths: UNIT_SCALE_THOUSANDTHS,
            is_primary: true,
        },
        discovery_port: startup.discovery_port,
        quic_port: bound_quic_port,
        transport_public_key: owned(transport_public_key),
        protocol_version: PROTOCOL_VERSION,
    }
}

// ---------------------------------------------------------------------------
// Input datagrams
// ---------------------------------------------------------------------------

/// What an input datagram from `source` does at `now`, given what it decoded
/// to: the origin cache afterwards and the input event delivered, if any.
///
/// Undecodable datagrams and other protocols are dropped. A packet carrying
/// the pair secret is delivered only if `authorizes` holds, and then vouches
/// for its source; a packet without it is delivered only while its source is
/// still vouched for.
pub open spec fn input_outcome(
    layout: ReceiverLayoutView,
    cache: Seq<(Seq<char>, u64)>,
    packet: Option<InputPacket>,
    source: Seq<char>,
    now: u64,
) -> (Seq<(Seq<char>, u64)>, Option<InputEventView>) {
    match packet {
        None => (cache, None),
        Some(p) => if p.protocol@ != INPUT_PROTOCOL@ {
            (cache, None)
        } else if !is_blank(p.pair_secret@) {
            if authorizes(
                layout,
                p.cluster_id@,
                p.pair_secret@,
                p.origin_transport_public_key@,
                p.origin_device_id@,
            ) {
                (kept_entries(cache, source, now).push((source, now)), Some(p.event@))
            } else {
                (cache, None)
            }
        } else if fresh_in(cache, source, now) {
            (cache, Some(p.event@))
        } else {
            (cache, None)
        },
    }
}

pub open spec fn input_event_opt_view(e: Option<ReceiverEvent>) -> Option<InputEventView> {
    match e {
        Some(ReceiverEvent::Input(ev)) => Some(ev@),
        _ => None,
    }
}

/// Handles one input datagram from `source` (its textual address) at `now`.
/// `packet` is what the datagram decoded to, or `None` if it did not decode.
pub fn handle_input_datagram_at(
    layout: &ReceiverLayout,
    cache: &mut OriginCache,
    packet: Option<InputPacket>,
    source: &str,
    now: u64,
) -> (res: Option<ReceiverEvent>)
    ensures
        (final(cache)@, input_event_opt_view(res)) == input_outcome(
            layout@,
            old(cache)@,
            packet,
            source@,
            now,
        ),
        res is Some ==> res->0 is Input,
{
    let packet = match packet {
        Some(p) => p,
        None => {
            return None;
        },
    };
    if !text_eq(packet.protocol.as_str(), INPUT_PROTOCOL) {
        return None;
    }
    let carries_credentials = !blank(packet.pair_secret.as_str());
    if carries_credentials {
        if !input_authorized(
            layout,
            packet.cluster_id.as_str(),
            packet.pair_secret.as_str(),
            packet.origin_transport_public_key.as_str(),
            packet.origin_device_id.as_str(),
        ) {
            return None;
        }
        cache.remember(source, now);
    } else if !cache.is_fresh(source, now) {
        return None;
    }
    Some(ReceiverEvent::Input(packet.event))
}

/// Handles one input datagram from `source` now.
pub fn handle_input_datagram(
    layout: &ReceiverLayout,
    cache: &mut OriginCache,
    packet: Option<InputPacket>,
    source: &str,
) -> (res: Option<ReceiverEvent>)
    ensures
        exists|now: u64|
            (final(cache)@, input_event_opt_view(res)) == #[trigger] input_outcome(
                layout@,
                old(cache)@,
                packet,
                source@,
                now,
            ),
        res is Some ==> res->0 is Input,
{
    handle_input_datagram_at(layout, cache, packet, source, now_ms())
}

/// A packet without the secret is never delivered from a source that has not
/// recently proved it, and a packet with a wrong secret is never delivered.
pub proof fn lemma_input_needs_proof(
    layout: ReceiverLayoutView,
    cache: Seq<(Seq<char>, u64)>,
    p: InputPacket,
    source: Seq<char>,
    now: u64,
)
    ensures
        is_blank(p.pair_secret@) && !fresh_in(cache, source, now) ==> input_outcome(
            layout,
            cache,
            Some(p),
            source,
            now,
        ).1 is None,
        !is_blank(p.pair_secret@) && p.pair_secret@ != layout.pair_secret ==> input_outcome(
            layout,
            cache,
            Some(p),
            source,
            now,
        ).1 is None,
{
}

/// The steady-state fast path: once a credentialled packet from a source is
/// delivered, that source's packets without the secret are delivered too for
/// the whole time to live.
pub proof fn lemma_authorized_source_stays_trusted(
    layout: ReceiverLayoutView,
    cache: Seq<(Seq<char>, u64)>,
    first: InputPacket,
    lean: InputPacket,
    source: Seq<char>,
    now: u64,
    later: u64,
)
    requires
        !is_blank(first.pair_secret@),
        input_outcome(layout, cache, Some(first), source, now).1 is Some,
        lean.protocol@ == INPUT_PROTOCOL@,
        is_blank(lean.pair_secret@),
        now <= later < now + crate::state::INPUT_ORIGIN_CACHE_TTL_MS,
    ensures
        input_outcome(
            layout,
            input_outcome(layout, cache, Some(first), source, now).0,
            Some(lean),
            source,
            later,
        ).1 == Some(lean.event@),
{
    crate::state::lemma_remember_then_fresh(cache, source, now, later, source);
}

// ---------------------------------------------------------------------------
// Streams: pair-confirm and clipboard
// ---------------------------------------------------------------------------

/// How the peer in a `pair-confirm` is read: missing ports and versions get
/// their defaults.
pub open spec fn confirming_peer(p: LanPeerView, now: u64) -> LanPeerView {
    LanPeerView {
        quic_port: if p.quic_port == 0 {
            p.transport_port
        } else {
            p.quic_port
        },
        protocol_version: if p.protocol_version == 0 {
            PROTOCOL_VERSION
        } else {
            p.protocol_version
        },
        last_seen_ms: now,
        ..p
    }
}

pub open spec fn opt_or_empty(o: Option<Seq<char>>) -> Seq<char> {
    match o {
        Some(s) => s,
        None => Seq::empty(),
    }
}

/// The event a `pair-confirm` from `peer` reports: the paired controller
/// with the new layout on success, the error text otherwise.
pub open spec fn confirm_event(
    peer: LanPeerView,
    result: Result<ReceiverLayoutView, Seq<char>>,
) -> ReceiverEventView {
    match result {
        Ok(l) => ReceiverEventView::Paired { controller_id: peer.id, controller_name: peer.name, layout: l },
        Err(reason) => ReceiverEventView::PairingFailed { reason },
    }
}

/// What a `pair-confirm` stream does. Any other kind is refused (`false`)
/// and changes nothing. A `pair-confirm` is acked whatever comes of it: the
/// confirm is judged by `confirm_outcome` for the peer it carries (missing
/// ports and versions filled in), with the code, cluster id and secret it
/// carries (absent ones read as empty), the pending challenge being `age_ms`
/// old on the monotonic clock, at wall-clock time `now`; the layout and the
/// pending challenge become what that says, and its result is reported.
pub open spec fn pairing_stream_holds(
    old_layout: ReceiverLayoutView,
    new_layout: ReceiverLayoutView,
    old_challenge: Option<crate::pairing::PairingChallengeView>,
    new_challenge: Option<crate::pairing::PairingChallengeView>,
    packet: DiscoveryPacketView,
    age_ms: u64,
    now: u64,
    res: (bool, Option<ReceiverEventView>),
) -> bool {
    if packet.kind != "pair-confirm"@ {
        res.0 == false && res.1 is None && new_layout == old_layout && new_challenge == old_challenge
    } else {
        let peer = confirming_peer(packet.peer, now);
        let o = confirm_outcome(
            old_layout,
            old_challenge,
            peer,
            opt_or_empty(packet.pairing_code),
            opt_or_empty(packet.pair_cluster_id),
            opt_or_empty(packet.pair_secret),
            age_ms,
            now,
        );
        &&& res.0 == true
        &&& new_layout == o.layout
        &&& new_challenge == o.challenge
        &&& res.1 == Some(confirm_event(peer, o.result))
    }
}

/// Handles an encrypted stream that decoded as a discovery packet of our
/// protocol. Only `pair-confirm` is taken (anything else is refused with
/// `false`); its outcome, success or not, is reported and the stream acked.
pub fn handle_pairing_stream_at(
    layout: &mut ReceiverLayout,
    challenge: &mut Option<PairingChallenge>,
    packet: DiscoveryPacket,
    age_ms: u64,
    now: u64,
) -> (res: (bool, Option<ReceiverEvent>))
    ensures
        pairing_stream_holds(
            old(layout)@,
            final(layout)@,
            challenge_view(*old(challenge)),
            challenge_view(*final(challenge)),
            packet@,
            age_ms,
            now,
            (res.0, event_opt_view(res.1)),
        ),
{
    if !text_eq(packet.kind.as_str(), "pair-confirm") {
        return (false, None);
    }
    let mut peer = packet.peer;
    if peer.quic_port == 0 {
        peer.quic_port = peer.transport_port;
    }
    if peer.protocol_version == 0 {
        peer.protocol_version = PROTOCOL_VERSION;
    }
    peer.last_seen_ms = now;
    match complete_pairing_from_confirm_at(
        layout,
        challenge,
        &peer,
        packet.pairing_code,
        packet.pair_cluster_id,
        packet.pair_secret,
        age_ms,
        now,
    ) {
        Ok(updated) => (
            true,
            Some(
                ReceiverEvent::Paired {
                    controller_id: peer.id.clone(),
                    controller_name: peer.name.clone(),
                    layout: updated,
                },
            ),
        ),
        Err(error) => (true, Some(ReceiverEvent::PairingFailed { reason: error })),
    }
}

pub open spec fn event_opt_view(e: Option<ReceiverEvent>) -> Option<ReceiverEventView> {
    match e {
        Some(e) => Some(e@),
        None => None,
    }
}

/// What a clipboard stream does: whether it is acked, and the event surfaced.
pub open spec fn clipboard_outcome(layout: ReceiverLayoutView, packet: Option<ClipboardPacket>) -> (
    bool,
    Option<ReceiverEventView>,
) {
    match packet {
        None => (false, None),
        Some(p) => if p.protocol@ != CLIPBOARD_PROTOCOL@ {
            (false, None)
        } else if authorizes(
            layout,
            p.cluster_id@,
            p.pair_secret@,
            p.origin_transport_public_key@,
            p.origin_id@,
        ) && p.text@.len() > 0 {
            (true, Some(ReceiverEventView::ClipboardText(p.text@)))
        } else {
            (true, None)
        },
    }
}

/// Clipboard text is delivered exactly as the controller sent it, leading
/// indentation and trailing newlines included; the only event a clipboard
/// stream can raise is that text. An authorized packet of our protocol with
/// text in it is always delivered, and nothing else is; every packet of our
/// protocol is acked.
pub proof fn lemma_clipboard_text_is_delivered_verbatim(layout: ReceiverLayoutView, p: ClipboardPacket)
    ensures
        ({
            let (ack, event) = clipboard_outcome(layout, Some(p));
            &&& event matches Some(e) ==> e == ReceiverEventView::ClipboardText(p.text@)
            &&& event is Some ==> ack
            &&& p.protocol@ == CLIPBOARD_PROTOCOL@ ==> ack
            &&& (p.protocol@ == CLIPBOARD_PROTOCOL@ && p.text@.len() > 0 && authorizes(
                layout,
                p.cluster_id@,
                p.pair_secret@,
                p.origin_transport_public_key@,
                p.origin_id@,
            )) ==> event == Some(ReceiverEventView::ClipboardText(p.text@))
            &&& event is Some ==> p.protocol@ == CLIPBOARD_PROTOCOL@ && p.text@.len() > 0 && authorizes(
                layout,
                p.cluster_id@,
                p.pair_secret@,
                p.origin_transport_public_key@,
                p.origin_id@,
            )
        }),
{
}

/// Handles an encrypted stream that decoded as a clipboard packet. Clipboard
/// text from an authorized controller is delivered; everything of our
/// protocol is acked, rejected or not (images are not handled yet).
pub fn handle_clipboard_stream(layout: &ReceiverLayout, packet: Option<ClipboardPacket>) -> (res: (
    bool,
    Option<ReceiverEvent>,
))
    ensures
        (res.0, event_opt_view(res.1)) == clipboard_outcome(layout@, packet),
{
    let packet = match packet {
        Some(p) => p,
        None => {
            return (false, None);
        },
    };
    if !text_eq(packet.protocol.as_str(), CLIPBOARD_PROTOCOL) {
        return (false, None);
    }
    if !input_authorized(
        layout,
        packet.cluster_id.as_str(),
        packet.pair_secret.as_str(),
        packet.origin_transport_public_key.as_str(),
        packet.origin_id.as_str(),
    ) {
        return (true, None);
    }
    if crate::text::chars_of(packet.text.as_str()).len() != 0 {
        return (true, Some(ReceiverEvent::ClipboardText(packet.text)));
    }
    (true, None)
}

/// What an encrypted stream does, given what its payload decoded to as a
/// discovery packet and as a clipboard packet: one of our discovery protocol
/// goes to the pairing handler (`pairing_stream_holds`), any other payload to
/// the clipboard handler, which changes neither layout nor challenge.
pub open spec fn stream_holds(
    old_layout: ReceiverLayoutView,
    new_layout: ReceiverLayoutView,
    old_challenge: Option<crate::pairing::PairingChallengeView>,
    new_challenge: Option<crate::pairing::PairingChallengeView>,
    as_discovery: Option<DiscoveryPacketView>,
    as_clipboard: Option<ClipboardPacket>,
    age_ms: u64,
    now: u64,
    res: (bool, Option<ReceiverEventView>),
) -> bool {
    if as_discovery is Some && as_discovery->0.protocol == DISCOVERY_PROTOCOL@ {
        pairing_stream_holds(
            old_layout,
            new_layout,
            old_challenge,
            new_challenge,
            as_discovery->0,
            age_ms,
            now,
            res,
        )
    } else {
        &&& new_layout == old_layout
        &&& new_challenge == old_challenge
        &&& res == clipboard_outcome(old_layout, as_clipboard)
    }
}

/// Entry point for every encrypted stream the desktop opens, the pending
/// challenge being `age_ms` old on the monotonic clock, at wall-clock time
/// `now`. The boolean acks the stream.
pub fn handle_stream_packet_at(
    layout: &mut ReceiverLayout,
    challenge: &mut Option<PairingChallenge>,
    as_discovery: Option<DiscoveryPacket>,
    as_clipboard: Option<ClipboardPacket>,
    age_ms: u64,
    now: u64,
) -> (res: (bool, Option<ReceiverEvent>))
    ensures
        stream_holds(
            old(layout)@,
            final(layout)@,
            challenge_view(*old(challenge)),
            challenge_view(*final(challenge)),
            crate::discovery::packet_opt_view(as_discovery),
            as_clipboard,
            age_ms,
            now,
            (res.0, event_opt_view(res.1)),
        ),
{
    match as_discovery {
        Some(packet) => {
            if text_eq(packet.protocol.as_str(), DISCOVERY_PROTOCOL) {
                return handle_pairing_stream_at(layout, challenge, packet, age_ms, now);
            }
        },
        None => {},
    }
    handle_clipboard_stream(layout, as_clipboard)
}

/// Entry point for every encrypted stream the desktop opens, now.
pub fn handle_stream_packet(
    layout: &mut ReceiverLayout,
    challenge: &mut Option<PairingChallenge>,
    as_discovery: Option<DiscoveryPacket>,
    as_clipboard: Option<ClipboardPacket>,
) -> (res: (bool, Option<ReceiverEvent>))
    ensures
        exists|age_ms: u64, now: u64|
            #[trigger] stream_holds(
                old(layout)@,
                final(layout)@,
                challenge_view(*old(challenge)),
                challenge_view(*final(challenge)),
                crate::discovery::packet_opt_view(as_discovery),
                as_clipboard,
                age_ms,
                now,
                (res.0, event_opt_view(res.1)),
            ),
{
    let age_ms = crate::pairing::challenge_age(challenge);
    let now = now_ms();
    handle_stream_packet_at(layout, challenge, as_discovery, as_clipboard, age_ms, now)
}

// ---------------------------------------------------------------------------
// Diagnostics upload
// ---------------------------------------------------------------------------

/// Decides the diagnostics upload: the desktop must have been seen and this
/// device must be paired; then the packet carries our peer id, key and
/// pairing credentials, with the file name and text as given, to that
/// desktop.
pub fn diagnostics_upload(
    endpoint: &Option<ControllerEndpoint>,
    layout: &ReceiverLayout,
    config: &ReceiverConfig,
    file_name: &str,
    text: &str,
) -> (res: Result<(ControllerEndpoint, DiagnosticsPacket), String>)
    ensures
        endpoint is None ==> res is Err && res->Err_0@ == "还没有看到已配对的电脑，请先让电脑连接一次"@,
        endpoint is Some && !layout@.is_paired() ==> res is Err && res->Err_0@
            == "尚未配对，无法发送日志"@,
        endpoint is Some && layout@.is_paired() ==> res is Ok && {
            let (e, p) = res->Ok_0;
            &&& e@ == endpoint->0@
            &&& p.protocol@ == DIAGNOSTICS_PROTOCOL@
            &&& p.origin_id@ == peer_id_for(config.stable_id@)
            &&& p.origin_transport_public_key@ == config.transport_public_key@
            &&& p.cluster_id@ == layout.cluster_id@
            &&& p.pair_secret@ == layout.pair_secret@
            &&& p.file_name@ == file_name@
            &&& p.text@ == text@
        },
{
    let target = match endpoint {
        Some(e) => e.clone(),
        None => {
            return Err(owned("还没有看到已配对的电脑，请先让电脑连接一次"));
        },
    };
    if !layout.is_paired() {
        return Err(owned("尚未配对，无法发送日志"));
    }
    let packet = DiagnosticsPacket {
        protocol: owned(DIAGNOSTICS_PROTOCOL),
        origin_id: local_peer_id(config.stable_id.as_str()),
        origin_transport_public_key: config.transport_public_key.clone(),
        cluster_id: layout.cluster_id.clone(),
        pair_secret: layout.pair_secret.clone(),
        file_name: owned(file_name),
        text: owned(text),
    };
    Ok((target, packet))
}

} // verus!
