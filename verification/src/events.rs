//! The single event stream the app layer consumes.

use vstd::prelude::*;

use crate::packet::{InputEvent, InputEventView};
use crate::state::{ReceiverLayout, ReceiverLayoutView};

verus! {

#[derive(Debug)]
pub enum ReceiverEvent {
    /// A decoded input event that passed authorization.
    Input(InputEvent),
    /// Clipboard text copied on the desktop.
    ClipboardText(String),
    /// A desktop asked to pair; show `code` to the user.
    PairingRequested {
        code: String,
        requester_name: String,
        requester_ip: String,
        expires_at_ms: u64,
    },
    /// The pending pairing code expired or was superseded.
    PairingCleared,
    /// Pairing succeeded (or the stored record was refreshed); persist `layout`.
    Paired { controller_id: String, controller_name: String, layout: ReceiverLayout },
    PairingFailed { reason: String },
    /// Online controllers, so the UI can show "desktop connected".
    PeerPresence { peer_ids: Vec<String> },
}

pub enum ReceiverEventView {
    Input(InputEventView),
    ClipboardText(Seq<char>),
    PairingRequested {
        code: Seq<char>,
        requester_name: Seq<char>,
        requester_ip: Seq<char>,
        expires_at_ms: u64,
    },
    PairingCleared,
    Paired { controller_id: Seq<char>, controller_name: Seq<char>, layout: ReceiverLayoutView },
    PairingFailed { reason: Seq<char> },
    PeerPresence { peer_ids: Seq<Seq<char>> },
}

/// The texts held by a list of strings.
pub open spec fn texts(v: Seq<String>) -> Seq<Seq<char>> {
    v.map_values(|s: String| s@)
}

impl View for ReceiverEvent {
    type V = ReceiverEventView;

    open spec fn view(&self) -> ReceiverEventView {
        match self {
            ReceiverEvent::Input(e) => ReceiverEventView::Input(e@),
            ReceiverEvent::ClipboardText(t) => ReceiverEventView::ClipboardText(t@),
            ReceiverEvent::PairingRequested { code, requester_name, requester_ip, expires_at_ms } =>
                ReceiverEventView::PairingRequested {
                code: code@,
                requester_name: requester_name@,
                requester_ip: requester_ip@,
                expires_at_ms: *expires_at_ms,
            },
            ReceiverEvent::PairingCleared => ReceiverEventView::PairingCleared,
            ReceiverEvent::Paired { controller_id, controller_name, layout } =>
                ReceiverEventView::Paired {
                controller_id: controller_id@,
                controller_name: controller_name@,
                layout: layout@,
            },
            ReceiverEvent::PairingFailed { reason } => ReceiverEventView::PairingFailed {
                reason: reason@,
            },
            ReceiverEvent::PeerPresence { peer_ids } => ReceiverEventView::PeerPresence {
                peer_ids: texts(peer_ids@),
            },
        }
    }
}

/// The views of a list of events.
pub open spec fn event_views(v: Seq<ReceiverEvent>) -> Seq<ReceiverEventView> {
    v.map_values(|e: ReceiverEvent| e@)
}

} // verus!
