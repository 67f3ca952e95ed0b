//! Wire-level data shared with the MyKVM desktop app.
//!
//! Each record mirrors the desktop's definition field for field; the
//! MessagePack framing itself lives outside the library. Text fields are
//! viewed as character sequences so that contracts compare contents.

use vstd::prelude::*;

verus! {

pub const DISCOVERY_PROTOCOL: &'static str = "mykvm.discovery.v1";

pub const INPUT_PROTOCOL: &'static str = "mykvm.input.v1";

pub const CLIPBOARD_PROTOCOL: &'static str = "mykvm.clipboard.v1";

pub const DIAGNOSTICS_PROTOCOL: &'static str = "mykvm.diagnostics.v1";

pub const DISCOVERY_PORT: u16 = 47833;

/// Version of the input/transport plane.
pub const PROTOCOL_VERSION: u16 = 1;

/// A screen scale of 1.0, counted in thousandths.
pub const UNIT_SCALE_THOUSANDTHS: u32 = 1000;

/// The transport port a peer is assumed to use when it does not say.
pub fn default_transport_port() -> (res: u16)
    ensures
        res == DISCOVERY_PORT,
{
    DISCOVERY_PORT
}

/// The protocol version a peer is assumed to speak when it does not say.
pub fn default_protocol_version() -> (res: u16)
    ensures
        res == PROTOCOL_VERSION,
{
    PROTOCOL_VERSION
}

// ---------------------------------------------------------------------------
// Input plane
// ---------------------------------------------------------------------------

#[derive(Debug, Clone, Copy, PartialEq, Eq, Structural)]
pub enum MouseButton {
    Left,
    Right,
    Middle,
    Back,
    Forward,
}

#[derive(Debug, PartialEq)]
pub enum InputEvent {
    MouseMove { screen_id: String, x: i32, y: i32 },
    MouseButton { button: MouseButton, down: bool },
    Scroll { delta_x: i32, delta_y: i32 },
    Key { key_code: u16, down: bool },
}

pub enum InputEventView {
    MouseMove { screen_id: Seq<char>, x: i32, y: i32 },
    MouseButton { button: MouseButton, down: bool },
    Scroll { delta_x: i32, delta_y: i32 },
    Key { key_code: u16, down: bool },
}

impl View for InputEvent {
    type V = InputEventView;

    open spec fn view(&self) -> InputEventView {
        match self {
            InputEvent::MouseMove { screen_id, x, y } => InputEventView::MouseMove {
                screen_id: screen_id@,
                x: *x,
                y: *y,
            },
            InputEvent::MouseButton { button, down } => InputEventView::MouseButton {
                button: *button,
                down: *down,
            },
            InputEvent::Scroll { delta_x, delta_y } => InputEventView::Scroll {
                delta_x: *delta_x,
                delta_y: *delta_y,
            },
            InputEvent::Key { key_code, down } => InputEventView::Key {
                key_code: *key_code,
                down: *down,
            },
        }
    }
}

impl Clone for InputEvent {
    fn clone(&self) -> (res: Self)
        ensures
            res@ == self@,
    {
        match self {
            InputEvent::MouseMove { screen_id, x, y } => InputEvent::MouseMove {
                screen_id: screen_id.clone(),
                x: *x,
                y: *y,
            },
            InputEvent::MouseButton { button, down } => InputEvent::MouseButton {
                button: *button,
                down: *down,
            },
            InputEvent::Scroll { delta_x, delta_y } => InputEvent::Scroll {
                delta_x: *delta_x,
                delta_y: *delta_y,
            },
            InputEvent::Key { key_code, down } => InputEvent::Key {
                key_code: *key_code,
                down: *down,
            },
        }
    }
}

#[derive(Debug)]
pub struct InputPacket {
    pub protocol: String,
    pub target_device_id: String,
    pub origin_device_id: String,
    pub origin_port: u16,
    pub origin_transport_public_key: String,
    pub origin_protocol_version: u16,
    pub cluster_id: String,
    pub pair_secret: String,
    pub event: InputEvent,
}

// ---------------------------------------------------------------------------
// Clipboard plane
// ---------------------------------------------------------------------------

/// RGBA, base64, row-major.
#[derive(Debug, Clone)]
pub struct ClipboardImage {
    pub width: u32,
    pub height: u32,
    pub rgba_base64: String,
}

#[derive(Debug, Clone)]
pub struct ClipboardFormat {
    pub kind: String,
    pub text: String,
    pub image: Option<ClipboardImage>,
}

#[derive(Debug, Clone)]
pub struct ClipboardPacket {
    pub protocol: String,
    pub origin_id: String,
    pub origin_transport_public_key: String,
    pub target_id: String,
    pub cluster_id: String,
    pub pair_secret: String,
    pub signature: String,
    pub formats: Vec<ClipboardFormat>,
    pub text: String,
    pub image: Option<ClipboardImage>,
    pub sequence: u64,
}

/// The diagnostics upload pushed to the paired desktop.
#[derive(Debug, Clone)]
pub struct DiagnosticsPacket {
    pub protocol: String,
    pub origin_id: String,
    pub origin_transport_public_key: String,
    pub cluster_id: String,
    pub pair_secret: String,
    pub file_name: String,
    pub text: String,
}

// ---------------------------------------------------------------------------
// Discovery plane
// ---------------------------------------------------------------------------

/// One screen as advertised in discovery. The scale is kept in thousandths.
#[derive(Debug)]
pub struct LanPeerScreen {
    pub id: String,
    pub name: String,
    pub x: i32,
    pub y: i32,
    pub width: i32,
    pub height: i32,
    pub scale_thousandths: u32,
    pub is_primary: bool,
}

pub struct LanPeerScreenView {
    pub id: Seq<char>,
    pub name: Seq<char>,
    pub x: i32,
    pub y: i32,
    pub width: i32,
    pub height: i32,
    pub scale_thousandths: u32,
    pub is_primary: bool,
}

impl View for LanPeerScreen {
    type V = LanPeerScreenView;

    open spec fn view(&self) -> LanPeerScreenView {
        LanPeerScreenView {
            id: self.id@,
            name: self.name@,
            x: self.x,
            y: self.y,
            width: self.width,
            height: self.height,
            scale_thousandths: self.scale_thousandths,
            is_primary: self.is_primary,
        }
    }
}

impl Clone for LanPeerScreen {
    fn clone(&self) -> (res: Self)
        ensures
            res@ == self@,
    {
        LanPeerScreen {
            id: self.id.clone(),
            name: self.name.clone(),
            x: self.x,
            y: self.y,
            width: self.width,
            height: self.height,
            scale_thousandths: self.scale_thousandths,
            is_primary: self.is_primary,
        }
    }
}

#[derive(Debug)]
pub struct LanPeer {
    pub id: String,
    pub name: String,
    pub platform: String,
    pub machine_role: String,
    pub cluster_id: String,
    pub pairing_required: bool,
    pub host: String,
    pub ip: String,
    pub transport_port: u16,
    pub quic_port: u16,
    pub transport_public_key: String,
    pub protocol_version: u16,
    pub screen_count: usize,
    pub input_ready: bool,
    pub upgrading: bool,
    pub screens: Vec<LanPeerScreen>,
    pub app_version: String,
    pub last_seen_ms: u64,
}

pub struct LanPeerView {
    pub id: Seq<char>,
    pub name: Seq<char>,
    pub platform: Seq<char>,
    pub machine_role: Seq<char>,
    pub cluster_id: Seq<char>,
    pub pairing_required: bool,
    pub host: Seq<char>,
    pub ip: Seq<char>,
    pub transport_port: u16,
    pub quic_port: u16,
    pub transport_public_key: Seq<char>,
    pub protocol_version: u16,
    pub screen_count: usize,
    pub input_ready: bool,
    pub upgrading: bool,
    pub screens: Seq<LanPeerScreenView>,
    pub app_version: Seq<char>,
    pub last_seen_ms: u64,
}

impl View for LanPeer {
    type V = LanPeerView;

    open spec fn view(&self) -> LanPeerView {
        LanPeerView {
            id: self.id@,
            name: self.name@,
            platform: self.platform@,
            machine_role: self.machine_role@,
            cluster_id: self.cluster_id@,
            pairing_required: self.pairing_required,
            host: self.host@,
            ip: self.ip@,
            transport_port: self.transport_port,
            quic_port: self.quic_port,
            transport_public_key: self.transport_public_key@,
            protocol_version: self.protocol_version,
            screen_count: self.screen_count,
            input_ready: self.input_ready,
            upgrading: self.upgrading,
            screens: self.screens@.map_values(|s: LanPeerScreen| s@),
            app_version: self.app_version@,
            last_seen_ms: self.last_seen_ms,
        }
    }
}

impl Clone for LanPeer {
    fn clone(&self) -> (res: Self)
        ensures
            res@ == self@,
    {
        let screens = self.screens.clone();
        assert(screens@.map_values(|s: LanPeerScreen| s@) =~= self.screens@.map_values(
            |s: LanPeerScreen| s@,
        ));
        LanPeer {
            id: self.id.clone(),
            name: self.name.clone(),
            platform: self.platform.clone(),
            machine_role: self.machine_role.clone(),
            cluster_id: self.cluster_id.clone(),
            pairing_required: self.pairing_required,
            host: self.host.clone(),
            ip: self.ip.clone(),
            transport_port: self.transport_port,
            quic_port: self.quic_port,
            transport_public_key: self.transport_public_key.clone(),
            protocol_version: self.protocol_version,
            screen_count: self.screen_count,
            input_ready: self.input_ready,
            upgrading: self.upgrading,
            screens,
            app_version: self.app_version.clone(),
            last_seen_ms: self.last_seen_ms,
        }
    }
}

#[derive(Debug)]
pub struct DiscoveryPacket {
    pub protocol: String,
    pub kind: String,
    pub peer: LanPeer,
    pub pairing_code: Option<String>,
    pub pair_cluster_id: Option<String>,
    pub pair_secret: Option<String>,
    pub pairing_error: Option<String>,
}

pub open spec fn opt_text(o: Option<String>) -> Option<Seq<char>> {
    match o {
        Some(s) => Some(s@),
        None => None,
    }
}

pub struct DiscoveryPacketView {
    pub protocol: Seq<char>,
    pub kind: Seq<char>,
    pub peer: LanPeerView,
    pub pairing_code: Option<Seq<char>>,
    pub pair_cluster_id: Option<Seq<char>>,
    pub pair_secret: Option<Seq<char>>,
    pub pairing_error: Option<Seq<char>>,
}

impl View for DiscoveryPacket {
    type V = DiscoveryPacketView;

    open spec fn view(&self) -> DiscoveryPacketView {
        DiscoveryPacketView {
            protocol: self.protocol@,
            kind: self.kind@,
            peer: self.peer@,
            pairing_code: opt_text(self.pairing_code),
            pair_cluster_id: opt_text(self.pair_cluster_id),
            pair_secret: opt_text(self.pair_secret),
            pairing_error: opt_text(self.pairing_error),
        }
    }
}

#[derive(Debug)]
pub struct DiscoveryPairingFields {
    pub code: Option<String>,
    pub cluster_id: Option<String>,
    pub secret: Option<String>,
    pub error: Option<String>,
}

/// A discovery packet from another peer, with the peer's address taken from
/// the datagram. The pairing fields are carried but never acted on: pairing
/// credentials only arrive on the encrypted stream.
#[derive(Debug)]
pub struct IncomingDiscovery {
    pub kind: String,
    pub peer: LanPeer,
    pub pairing_code: Option<String>,
    pub pair_cluster_id: Option<String>,
    pub pair_secret: Option<String>,
}

pub struct IncomingDiscoveryView {
    pub kind: Seq<char>,
    pub peer: LanPeerView,
    pub pairing_code: Option<Seq<char>>,
    pub pair_cluster_id: Option<Seq<char>>,
    pub pair_secret: Option<Seq<char>>,
}

impl View for IncomingDiscovery {
    type V = IncomingDiscoveryView;

    open spec fn view(&self) -> IncomingDiscoveryView {
        IncomingDiscoveryView {
            kind: self.kind@,
            peer: self.peer@,
            pairing_code: opt_text(self.pairing_code),
            pair_cluster_id: opt_text(self.pair_cluster_id),
            pair_secret: opt_text(self.pair_secret),
        }
    }
}

impl Default for DiscoveryPairingFields {
    fn default() -> (res: Self)
        ensures
            res@ == (DiscoveryPairingFieldsView {
                code: None,
                cluster_id: None,
                secret: None,
                error: None,
            }),
    {
        DiscoveryPairingFields { code: None, cluster_id: None, secret: None, error: None }
    }
}

pub struct DiscoveryPairingFieldsView {
    pub code: Option<Seq<char>>,
    pub cluster_id: Option<Seq<char>>,
    pub secret: Option<Seq<char>>,
    pub error: Option<Seq<char>>,
}

impl View for DiscoveryPairingFields {
    type V = DiscoveryPairingFieldsView;

    open spec fn view(&self) -> DiscoveryPairingFieldsView {
        DiscoveryPairingFieldsView {
            code: opt_text(self.code),
            cluster_id: opt_text(self.cluster_id),
            secret: opt_text(self.secret),
            error: opt_text(self.error),
        }
    }
}

// ---------------------------------------------------------------------------
// Persisted receiver state
// ---------------------------------------------------------------------------

/// A desktop this receiver accepts input from.
#[derive(Debug)]
pub struct PairedController {
    pub id: String,
    pub name: String,
    pub host: String,
    pub ip: String,
    pub transport_public_key: String,
    pub protocol_version: u16,
    pub cluster_id: String,
    pub paired_at_ms: u64,
}

pub struct PairedControllerView {
    pub id: Seq<char>,
    pub name: Seq<char>,
    pub host: Seq<char>,
    pub ip: Seq<char>,
    pub transport_public_key: Seq<char>,
    pub protocol_version: u16,
    pub cluster_id: Seq<char>,
    pub paired_at_ms: u64,
}

impl View for PairedController {
    type V = PairedControllerView;

    open spec fn view(&self) -> PairedControllerView {
        PairedControllerView {
            id: self.id@,
            name: self.name@,
            host: self.host@,
            ip: self.ip@,
            transport_public_key: self.transport_public_key@,
            protocol_version: self.protocol_version,
            cluster_id: self.cluster_id@,
            paired_at_ms: self.paired_at_ms,
        }
    }
}

impl Clone for PairedController {
    fn clone(&self) -> (res: Self)
        ensures
            res@ == self@,
    {
        PairedController {
            id: self.id.clone(),
            name: self.name.clone(),
            host: self.host.clone(),
            ip: self.ip.clone(),
            transport_public_key: self.transport_public_key.clone(),
            protocol_version: self.protocol_version,
            cluster_id: self.cluster_id.clone(),
            paired_at_ms: self.paired_at_ms,
        }
    }
}

/// The receiver's own screen, reported in discovery announces. The scale is
/// kept in thousandths.
#[derive(Debug)]
pub struct Screen {
    pub id: String,
    pub device_id: String,
    pub name: String,
    pub x: i32,
    pub y: i32,
    pub width: i32,
    pub height: i32,
    pub scale_thousandths: u32,
    pub is_primary: bool,
}

pub struct ScreenView {
    pub id: Seq<char>,
    pub device_id: Seq<char>,
    pub name: Seq<char>,
    pub x: i32,
    pub y: i32,
    pub width: i32,
    pub height: i32,
    pub scale_thousandths: u32,
    pub is_primary: bool,
}

impl View for Screen {
    type V = ScreenView;

    open spec fn view(&self) -> ScreenView {
        ScreenView {
            id: self.id@,
            device_id: self.device_id@,
            name: self.name@,
            x: self.x,
            y: self.y,
            width: self.width,
            height: self.height,
            scale_thousandths: self.scale_thousandths,
            is_primary: self.is_primary,
        }
    }
}

impl Clone for Screen {
    fn clone(&self) -> (res: Self)
        ensures
            res@ == self@,
    {
        Screen {
            id: self.id.clone(),
            device_id: self.device_id.clone(),
            name: self.name.clone(),
            x: self.x,
            y: self.y,
            width: self.width,
            height: self.height,
            scale_thousandths: self.scale_thousandths,
            is_primary: self.is_primary,
        }
    }
}

} // verus!
