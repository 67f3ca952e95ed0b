//! The X11 side of input sharing: translating between X keysyms and the
//! Windows virtual-key codes of the wire format, reading the server's
//! keyboard mapping, and planning the XTEST requests that inject input
//! (with the pressed-state bookkeeping that lets a teardown release every
//! held key and button). The X connection itself is the app layer's.

use vstd::prelude::*;

use crate::packet::MouseButton;

pub mod ks;

verus! {

/// What the environment probe found, so callers can explain failures well.
#[derive(Debug, Clone, Copy, PartialEq, Eq, Structural)]
pub struct X11Probe {
    /// XTEST extension present (needed to inject synthetic input).
    pub xtest_available: bool,
    /// A Wayland session variable is visible alongside DISPLAY (XWayland).
    pub xwayland_hint: bool,
}

// ----------------------------------------------------------------------
// Keysym <-> Windows VK translation
// ----------------------------------------------------------------------

/// The VK of a keysym outside the letter, digit, keypad-digit and function
/// key ranges: navigation and editing keys, modifiers (left/right kept
/// apart), keypad operators and navigation, and the US punctuation pairs
/// (both members of a pair share the VK of their key).
pub open spec fn named_keysym_vk(sym: u32) -> Option<u16> {
    match sym {
        0xff08u32 => Some(0x08u16),
        0xff09u32 => Some(0x09u16),
        0xfe20u32 => Some(0x09u16),
        0xff0du32 => Some(0x0Du16),
        0xff1bu32 => Some(0x1Bu16),
        0xff63u32 => Some(0x2Du16),
        0xffffu32 => Some(0x2Eu16),
        0xff50u32 => Some(0x24u16),
        0xff57u32 => Some(0x23u16),
        0xff55u32 => Some(0x21u16),
        0xff56u32 => Some(0x22u16),
        0xff51u32 => Some(0x25u16),
        0xff52u32 => Some(0x26u16),
        0xff53u32 => Some(0x27u16),
        0xff54u32 => Some(0x28u16),
        0xff61u32 => Some(0x2Cu16),
        0xff15u32 => Some(0x2Cu16),
        0xff13u32 => Some(0x13u16),
        0xff14u32 => Some(0x91u16),
        0xff7fu32 => Some(0x90u16),
        0xffe5u32 => Some(0x14u16),
        0xff67u32 => Some(0x5Du16),
        0xffe1u32 => Some(0xA0u16),
        0xffe2u32 => Some(0xA1u16),
        0xffe3u32 => Some(0xA2u16),
        0xffe4u32 => Some(0xA3u16),
        0xffe9u32 => Some(0xA4u16),
        0xffeau32 => Some(0xA5u16),
        0xffebu32 => Some(0x5Bu16),
        0xffe7u32 => Some(0x5Bu16),
        0xffecu32 => Some(0x5Cu16),
        0xffe8u32 => Some(0x5Cu16),
        0x21u32 => Some(0x31u16),
        0x40u32 => Some(0x32u16),
        0x23u32 => Some(0x33u16),
        0x24u32 => Some(0x34u16),
        0x25u32 => Some(0x35u16),
        0x5Eu32 => Some(0x36u16),
        0x26u32 => Some(0x37u16),
        0x2Au32 => Some(0x38u16),
        0x28u32 => Some(0x39u16),
        0x29u32 => Some(0x30u16),
        0x3Bu32 => Some(0xBAu16),
        0x3Au32 => Some(0xBAu16),
        0x2Bu32 => Some(0xBBu16),
        0x3Du32 => Some(0xBBu16),
        0x2Cu32 => Some(0xBCu16),
        0x3Cu32 => Some(0xBCu16),
        0x2Du32 => Some(0xBDu16),
        0x5Fu32 => Some(0xBDu16),
        0x2Eu32 => Some(0xBEu16),
        0x3Eu32 => Some(0xBEu16),
        0x2Fu32 => Some(0xBFu16),
        0x3Fu32 => Some(0xBFu16),
        0x60u32 => Some(0xC0u16),
        0x7Eu32 => Some(0xC0u16),
        0x5Bu32 => Some(0xDBu16),
        0x7Bu32 => Some(0xDBu16),
        0x5Cu32 => Some(0xDCu16),
        0x7Cu32 => Some(0xDCu16),
        0x5Du32 => Some(0xDDu16),
        0x7Du32 => Some(0xDDu16),
        0x27u32 => Some(0xDEu16),
        0x22u32 => Some(0xDEu16),
        0xffaeu32 => Some(0x6Eu16),
        0xffafu32 => Some(0x6Fu16),
        0xffaau32 => Some(0x6Au16),
        0xffadu32 => Some(0x6Du16),
        0xffabu32 => Some(0x6Bu16),
        0xff8du32 => Some(0x0Du16),
        0xff95u32 => Some(0x24u16),
        0xff97u32 => Some(0x26u16),
        0xff9au32 => Some(0x21u16),
        0xff96u32 => Some(0x25u16),
        0xff9du32 => Some(0x0Cu16),
        0xff98u32 => Some(0x27u16),
        0xff9cu32 => Some(0x23u16),
        0xff99u32 => Some(0x28u16),
        0xff9bu32 => Some(0x22u16),
        0xff9eu32 => Some(0x2Du16),
        0xff9fu32 => Some(0x2Eu16),
        _ => None,
    }
}

/// The Windows VK of the physical key that produces `sym`: letters of either
/// case share their key's VK, digits and space map to themselves, keypad
/// digits to VK_NUMPAD0..9, F1..F24 to VK_F1..F24, the rest by
/// `named_keysym_vk`. `None` for keys with no VK counterpart.
pub open spec fn vk_of_keysym(sym: u32) -> Option<u16> {
    if 0x41 <= sym <= 0x5A {
        Some(sym as u16)
    } else if 0x61 <= sym <= 0x7A {
        Some((sym - 0x20) as u16)
    } else if 0x30 <= sym <= 0x39 || sym == 0x20 {
        Some(sym as u16)
    } else if 0xFFB0 <= sym <= 0xFFB9 {
        Some((0x60 + (sym - 0xFFB0)) as u16)
    } else if 0xFFBE <= sym <= 0xFFD5 {
        Some((0x70 + (sym - 0xFFBE)) as u16)
    } else {
        named_keysym_vk(sym)
    }
}

fn named_vk(sym: u32) -> (res: Option<u16>)
    ensures
        res == named_keysym_vk(sym),
{
    match sym {
        0xff08u32 => Some(0x08u16),
        0xff09u32 => Some(0x09u16),
        0xfe20u32 => Some(0x09u16),
        0xff0du32 => Some(0x0Du16),
        0xff1bu32 => Some(0x1Bu16),
        0xff63u32 => Some(0x2Du16),
        0xffffu32 => Some(0x2Eu16),
        0xff50u32 => Some(0x24u16),
        0xff57u32 => Some(0x23u16),
        0xff55u32 => Some(0x21u16),
        0xff56u32 => Some(0x22u16),
        0xff51u32 => Some(0x25u16),
        0xff52u32 => Some(0x26u16),
        0xff53u32 => Some(0x27u16),
        0xff54u32 => Some(0x28u16),
        0xff61u32 => Some(0x2Cu16),
        0xff15u32 => Some(0x2Cu16),
        0xff13u32 => Some(0x13u16),
        0xff14u32 => Some(0x91u16),
        0xff7fu32 => Some(0x90u16),
        0xffe5u32 => Some(0x14u16),
        0xff67u32 => Some(0x5Du16),
        0xffe1u32 => Some(0xA0u16),
        0xffe2u32 => Some(0xA1u16),
        0xffe3u32 => Some(0xA2u16),
        0xffe4u32 => Some(0xA3u16),
        0xffe9u32 => Some(0xA4u16),
        0xffeau32 => Some(0xA5u16),
        0xffebu32 => Some(0x5Bu16),
        0xffe7u32 => Some(0x5Bu16),
        0xffecu32 => Some(0x5Cu16),
        0xffe8u32 => Some(0x5Cu16),
        0x21u32 => Some(0x31u16),
        0x40u32 => Some(0x32u16),
        0x23u32 => Some(0x33u16),
        0x24u32 => Some(0x34u16),
        0x25u32 => Some(0x35u16),
        0x5Eu32 => Some(0x36u16),
        0x26u32 => Some(0x37u16),
        0x2Au32 => Some(0x38u16),
        0x28u32 => Some(0x39u16),
        0x29u32 => Some(0x30u16),
        0x3Bu32 => Some(0xBAu16),
        0x3Au32 => Some(0xBAu16),
        0x2Bu32 => Some(0xBBu16),
        0x3Du32 => Some(0xBBu16),
        0x2Cu32 => Some(0xBCu16),
        0x3Cu32 => Some(0xBCu16),
        0x2Du32 => Some(0xBDu16),
        0x5Fu32 => Some(0xBDu16),
        0x2Eu32 => Some(0xBEu16),
        0x3Eu32 => Some(0xBEu16),
        0x2Fu32 => Some(0xBFu16),
        0x3Fu32 => Some(0xBFu16),
        0x60u32 => Some(0xC0u16),
        0x7Eu32 => Some(0xC0u16),
        0x5Bu32 => Some(0xDBu16),
        0x7Bu32 => Some(0xDBu16),
        0x5Cu32 => Some(0xDCu16),
        0x7Cu32 => Some(0xDCu16),
        0x5Du32 => Some(0xDDu16),
        0x7Du32 => Some(0xDDu16),
        0x27u32 => Some(0xDEu16),
        0x22u32 => Some(0xDEu16),
        0xffaeu32 => Some(0x6Eu16),
        0xffafu32 => Some(0x6Fu16),
        0xffaau32 => Some(0x6Au16),
        0xffadu32 => Some(0x6Du16),
        0xffabu32 => Some(0x6Bu16),
        0xff8du32 => Some(0x0Du16),
        0xff95u32 => Some(0x24u16),
        0xff97u32 => Some(0x26u16),
        0xff9au32 => Some(0x21u16),
        0xff96u32 => Some(0x25u16),
        0xff9du32 => Some(0x0Cu16),
        0xff98u32 => Some(0x27u16),
        0xff9cu32 => Some(0x23u16),
        0xff99u32 => Some(0x28u16),
        0xff9bu32 => Some(0x22u16),
        0xff9eu32 => Some(0x2Du16),
        0xff9fu32 => Some(0x2Eu16),
        _ => None,
    }
}

/// Maps an X11 keysym to the Windows VK code of the physical key; `None` for
/// keys with no VK counterpart (media keys, dead keys, AltGr-only symbols).
pub fn keysym_to_windows_vk(sym: u32) -> (res: Option<u16>)
    ensures
        res == vk_of_keysym(sym),
{
    if 0x41 <= sym && sym <= 0x5A {
        Some(sym as u16)
    } else if 0x61 <= sym && sym <= 0x7A {
        Some((sym - 0x20) as u16)
    } else if (0x30 <= sym && sym <= 0x39) || sym == 0x20 {
        Some(sym as u16)
    } else if 0xFFB0 <= sym && sym <= 0xFFB9 {
        Some((0x60 + (sym - 0xFFB0)) as u16)
    } else if 0xFFBE <= sym && sym <= 0xFFD5 {
        Some((0x70 + (sym - 0xFFBE)) as u16)
    } else {
        named_vk(sym)
    }
}

/// The base keysym of a VK outside the digit, letter, keypad-digit and
/// function key ranges. Generic modifier VKs fall back to the left keysym.
pub open spec fn named_vk_keysym(vk: u16) -> Option<u32> {
    match vk {
        0x08u16 => Some(0xff08u32),
        0x09u16 => Some(0xff09u32),
        0x0Du16 => Some(0xff0du32),
        0x1Bu16 => Some(0xff1bu32),
        0x14u16 => Some(0xffe5u32),
        0x21u16 => Some(0xff55u32),
        0x22u16 => Some(0xff56u32),
        0x23u16 => Some(0xff57u32),
        0x24u16 => Some(0xff50u32),
        0x25u16 => Some(0xff51u32),
        0x26u16 => Some(0xff52u32),
        0x27u16 => Some(0xff53u32),
        0x28u16 => Some(0xff54u32),
        0x2Cu16 => Some(0xff61u32),
        0x2Du16 => Some(0xff63u32),
        0x2Eu16 => Some(0xffffu32),
        0x5Bu16 => Some(0xffebu32),
        0x5Cu16 => Some(0xffecu32),
        0x5Du16 => Some(0xff67u32),
        0x13u16 => Some(0xff13u32),
        0x90u16 => Some(0xff7fu32),
        0x91u16 => Some(0xff14u32),
        0xA0u16 => Some(0xffe1u32),
        0xA1u16 => Some(0xffe2u32),
        0xA2u16 => Some(0xffe3u32),
        0xA3u16 => Some(0xffe4u32),
        0xA4u16 => Some(0xffe9u32),
        0xA5u16 => Some(0xffeau32),
        0x10u16 => Some(0xffe1u32),
        0x11u16 => Some(0xffe3u32),
        0x12u16 => Some(0xffe9u32),
        0xBAu16 => Some(0x3Bu32),
        0xBBu16 => Some(0x3Du32),
        0xBCu16 => Some(0x2Cu32),
        0xBDu16 => Some(0x2Du32),
        0xBEu16 => Some(0x2Eu32),
        0xBFu16 => Some(0x2Fu32),
        0xC0u16 => Some(0x60u32),
        0xDBu16 => Some(0x5Bu32),
        0xDCu16 => Some(0x5Cu32),
        0xDDu16 => Some(0x5Du32),
        0xDEu16 => Some(0x27u32),
        0x6Eu16 => Some(0xffaeu32),
        0x6Fu16 => Some(0xffafu32),
        0x6Au16 => Some(0xffaau32),
        0x6Bu16 => Some(0xffabu32),
        0x6Du16 => Some(0xffadu32),
        _ => None,
    }
}

/// The base (unshifted, US reference) keysym pressed to produce a VK:
/// digits and space map to themselves, letters to their lowercase keysym
/// (Shift travels as its own key), VK_NUMPAD0..9 and VK_F1..F24 to the
/// keypad digit and function keysyms, the rest by `named_vk_keysym`.
pub open spec fn keysym_of_vk(vk: u16) -> Option<u32> {
    if 0x30 <= vk <= 0x39 || vk == 0x20 {
        Some(vk as u32)
    } else if 0x41 <= vk <= 0x5A {
        Some((vk + 0x20) as u32)
    } else if 0x60 <= vk <= 0x69 {
        Some((0xFFB0 + (vk - 0x60)) as u32)
    } else if 0x70 <= vk <= 0x87 {
        Some((0xFFBE + (vk - 0x70)) as u32)
    } else {
        named_vk_keysym(vk)
    }
}

fn named_keysym(vk: u16) -> (res: Option<u32>)
    ensures
        res == named_vk_keysym(vk),
{
    match vk {
        0x08u16 => Some(0xff08u32),
        0x09u16 => Some(0xff09u32),
        0x0Du16 => Some(0xff0du32),
        0x1Bu16 => Some(0xff1bu32),
        0x14u16 => Some(0xffe5u32),
        0x21u16 => Some(0xff55u32),
        0x22u16 => Some(0xff56u32),
        0x23u16 => Some(0xff57u32),
        0x24u16 => Some(0xff50u32),
        0x25u16 => Some(0xff51u32),
        0x26u16 => Some(0xff52u32),
        0x27u16 => Some(0xff53u32),
        0x28u16 => Some(0xff54u32),
        0x2Cu16 => Some(0xff61u32),
        0x2Du16 => Some(0xff63u32),
        0x2Eu16 => Some(0xffffu32),
        0x5Bu16 => Some(0xffebu32),
        0x5Cu16 => Some(0xffecu32),
        0x5Du16 => Some(0xff67u32),
        0x13u16 => Some(0xff13u32),
        0x90u16 => Some(0xff7fu32),
        0x91u16 => Some(0xff14u32),
        0xA0u16 => Some(0xffe1u32),
        0xA1u16 => Some(0xffe2u32),
        0xA2u16 => Some(0xffe3u32),
        0xA3u16 => Some(0xffe4u32),
        0xA4u16 => Some(0xffe9u32),
        0xA5u16 => Some(0xffeau32),
        0x10u16 => Some(0xffe1u32),
        0x11u16 => Some(0xffe3u32),
        0x12u16 => Some(0xffe9u32),
        0xBAu16 => Some(0x3Bu32),
        0xBBu16 => Some(0x3Du32),
        0xBCu16 => Some(0x2Cu32),
        0xBDu16 => Some(0x2Du32),
        0xBEu16 => Some(0x2Eu32),
        0xBFu16 => Some(0x2Fu32),
        0xC0u16 => Some(0x60u32),
        0xDBu16 => Some(0x5Bu32),
        0xDCu16 => Some(0x5Cu32),
        0xDDu16 => Some(0x5Du32),
        0xDEu16 => Some(0x27u32),
        0x6Eu16 => Some(0xffaeu32),
        0x6Fu16 => Some(0xffafu32),
        0x6Au16 => Some(0xffaau32),
        0x6Bu16 => Some(0xffabu32),
        0x6Du16 => Some(0xffadu32),
        _ => None,
    }
}

/// Base keysym for a VK code; `None` for VKs with no X11 equivalent.
pub fn windows_vk_to_keysym(vk: u16) -> (res: Option<u32>)
    ensures
        res == keysym_of_vk(vk),
{
    if (0x30 <= vk && vk <= 0x39) || vk == 0x20 {
        Some(vk as u32)
    } else if 0x41 <= vk && vk <= 0x5A {
        Some((vk + 0x20) as u32)
    } else if 0x60 <= vk && vk <= 0x69 {
        Some((0xFFB0 + (vk - 0x60)) as u32)
    } else if 0x70 <= vk && vk <= 0x87 {
        Some((0xFFBE + (vk - 0x70)) as u32)
    } else {
        named_keysym(vk)
    }
}

/// The VK a key is captured as after being injected: itself, except that the
/// generic Shift/Control/Alt VKs come back as their left-hand VKs.
pub open spec fn canonical_vk(vk: u16) -> u16 {
    if vk == 0x10 {
        0xA0
    } else if vk == 0x11 {
        0xA2
    } else if vk == 0x12 {
        0xA4
    } else {
        vk
    }
}

/// Injecting a VK and capturing the key pressed gives the VK back (the
/// generic modifiers as their left-hand variants).
pub proof fn lemma_vk_round_trip(vk: u16)
    ensures
        keysym_of_vk(vk) matches Some(sym) ==> vk_of_keysym(sym) == Some(canonical_vk(vk)),
{
}

/// The navigation and editing keys: Home, the arrows, Page Up/Down, End
/// (0xff50..=0xff57), Insert and Delete, BackSpace, Tab, Return and Escape.
pub open spec fn is_navigation_keysym(sym: u32) -> bool {
    ||| 0xff50 <= sym <= 0xff57
    ||| sym == 0xff63
    ||| sym == 0xffff
    ||| sym == 0xff08
    ||| sym == 0xff09
    ||| sym == 0xff0d
    ||| sym == 0xff1b
}

/// Navigation and editing keys survive the trip from the capturing desktop
/// to the injector: each is captured as a VK, and injecting that VK presses
/// the same key again. The arrows land on VK_LEFT..VK_DOWN (0x25..=0x28).
pub proof fn lemma_navigation_keys_round_trip(sym: u32)
    requires
        is_navigation_keysym(sym),
    ensures
        vk_of_keysym(sym) is Some,
        keysym_of_vk(vk_of_keysym(sym)->0) == Some(sym),
        0xff51 <= sym <= 0xff54 ==> vk_of_keysym(sym) == Some((0x25 + (sym - 0xff51)) as u16),
{
}

/// The rest of the reference keyboard makes the same round trip: lowercase
/// letters, digits and space, keypad digits, F1..F24, and the modifier and
/// lock keys (left and right kept apart).
pub proof fn lemma_reference_keys_round_trip(sym: u32)
    requires
        0x61 <= sym <= 0x7a || 0x30 <= sym <= 0x39 || sym == 0x20 || 0xffb0 <= sym <= 0xffb9 || 0xffbe
            <= sym <= 0xffd5 || 0xffe1 <= sym <= 0xffe5 || 0xffe9 <= sym <= 0xffec,
    ensures
        vk_of_keysym(sym) is Some,
        keysym_of_vk(vk_of_keysym(sym)->0) == Some(sym),
{
}

/// Both cases of a letter are captured as the same VK.
pub proof fn lemma_letter_case_shares_vk(upper: u32)
    requires
        0x41 <= upper <= 0x5A,
    ensures
        vk_of_keysym(upper) == vk_of_keysym((upper + 0x20) as u32),
        vk_of_keysym(upper) == Some(upper as u16),
{
}


// ----------------------------------------------------------------------
// The server's keyboard mapping
// ----------------------------------------------------------------------

/// The US punctuation keys as (shifted, unshifted) keysym pairs, digits row
/// included.
pub open spec fn us_punctuation_pairs() -> Seq<(u32, u32)> {
    seq![
        (0x21u32, 0x31u32),
        (0x40, 0x32),
        (0x23, 0x33),
        (0x24, 0x34),
        (0x25, 0x35),
        (0x5E, 0x36),
        (0x26, 0x37),
        (0x2A, 0x38),
        (0x28, 0x39),
        (0x29, 0x30),
        (0x3A, 0x3B),
        (0x2B, 0x3D),
        (0x3C, 0x2C),
        (0x5F, 0x2D),
        (0x3E, 0x2E),
        (0x3F, 0x2F),
        (0x7E, 0x60),
        (0x7B, 0x5B),
        (0x7C, 0x5C),
        (0x7D, 0x5D),
        (0x22, 0x27),
    ]
}

/// Both members of a US punctuation key land on one VK (Shift never changes
/// the key identity), and injecting that VK presses the unshifted member.
pub proof fn lemma_shifted_punctuation_shares_vk(shifted: u32, base: u32)
    requires
        us_punctuation_pairs().contains((shifted, base)),
    ensures
        vk_of_keysym(shifted) is Some,
        vk_of_keysym(shifted) == vk_of_keysym(base),
        keysym_of_vk(vk_of_keysym(base)->0) == Some(base),
{
    let pairs = us_punctuation_pairs();
    let i = choose|i: int| 0 <= i < pairs.len() && pairs[i] == (shifted, base);
    assert(pairs.len() == 21);
    assert(0 <= i < 21);
}

/// How long a fetched keyboard mapping is reused before the server is asked
/// again, so a layout switch never leaves the translation stale for long.
pub const KEYMAP_TTL_MS: u64 = 1000;

/// Milliseconds from `earlier` to `now`, zero when the clock went back.
pub open spec fn since(earlier: u64, now: u64) -> int {
    if now >= earlier {
        now - earlier
    } else {
        0
    }
}

/// A mapping fetched at `fetched_at_ms` may still be used at `now_ms`.
pub fn keymap_is_fresh(fetched_at_ms: u64, now_ms: u64) -> (res: bool)
    ensures
        res == (since(fetched_at_ms, now_ms) < KEYMAP_TTL_MS),
{
    now_ms < fetched_at_ms || now_ms - fetched_at_ms < KEYMAP_TTL_MS
}

/// The least time between two warnings that the injector is unavailable (a
/// lost X connection would otherwise warn once per injected event).
pub const INJECTOR_WARN_INTERVAL_MS: u64 = 10_000;

/// Whether to warn again at `now_ms`, the last warning (if any) having been
/// at `last_warn_ms`.
pub fn injector_warning_due(last_warn_ms: Option<u64>, now_ms: u64) -> (res: bool)
    ensures
        res == match last_warn_ms {
            None => true,
            Some(last) => since(last, now_ms) >= INJECTOR_WARN_INTERVAL_MS,
        },
{
    match last_warn_ms {
        None => true,
        Some(last) => now_ms >= last && now_ms - last >= INJECTOR_WARN_INTERVAL_MS,
    }
}

/// A keyboard mapping as GetKeyboardMapping reports it: row
/// `keycode - min_keycode` of `per` keysyms per keycode, flattened. Group 0
/// occupies the first two positions of a row (level 0 plain, level 1 Shift).
#[derive(Debug)]
pub struct Keymap {
    min_keycode: u8,
    per: usize,
    syms: Vec<u32>,
}

pub struct KeymapView {
    pub min_keycode: u8,
    pub per: nat,
    pub syms: Seq<u32>,
}

impl View for Keymap {
    type V = KeymapView;

    closed spec fn view(&self) -> KeymapView {
        KeymapView { min_keycode: self.min_keycode, per: self.per as nat, syms: self.syms@ }
    }
}

impl Keymap {
    #[verifier::type_invariant]
    closed spec fn keymap_wf(self) -> bool {
        1 <= self.per <= 255
    }
}

impl KeymapView {
    /// The number of whole rows.
    pub open spec fn rows(self) -> int {
        self.syms.len() as int / self.per as int
    }

    /// The keysyms of row `r`.
    pub open spec fn row(self, r: int) -> Seq<u32> {
        self.syms.subrange(r * self.per, (r + 1) * self.per)
    }

    /// The row of `keycode`, if the mapping has one.
    pub open spec fn row_of(self, keycode: u8) -> Option<Seq<u32>> {
        if keycode < self.min_keycode {
            None
        } else {
            let r = keycode - self.min_keycode;
            if (r + 1) * self.per <= self.syms.len() {
                Some(self.row(r))
            } else {
                None
            }
        }
    }
}

/// A Latin letter keysym (either case).
pub open spec fn is_letter_keysym(sym: u32) -> bool {
    0x41 <= sym <= 0x5A || 0x61 <= sym <= 0x7A
}

/// The first non-zero keysym of a row, or 0.
pub open spec fn first_nonzero(row: Seq<u32>) -> u32
    decreases row.len(),
{
    if row.len() == 0 {
        0
    } else if row[0] != 0 {
        row[0]
    } else {
        first_nonzero(row.drop_first())
    }
}

/// The keysym `keycode` produces under modifier `state` (bit 0 Shift, bit 1
/// Caps Lock, which shifts letters only): level 1 when shifted and the row
/// has one, else level 0; an empty level falls back to the first non-zero
/// keysym of the row. 0 when the mapping has no row for the keycode.
pub open spec fn keysym_for(km: KeymapView, keycode: u8, state: u16) -> u32 {
    match km.row_of(keycode) {
        None => 0,
        Some(row) => {
            let shifted = state & 1 != 0 || (state & 2 != 0 && is_letter_keysym(row[0]));
            let index = if shifted && row.len() > 1 {
                1int
            } else {
                0int
            };
            if row[index] != 0 {
                row[index]
            } else {
                first_nonzero(row)
            }
        },
    }
}

/// The first row (from `from` on) holding `keysym` at any level.
pub open spec fn first_row_with(km: KeymapView, keysym: u32, from: int) -> Option<int>
    decreases km.rows() - from,
{
    if from < 0 || from >= km.rows() {
        None
    } else if km.row(from).contains(keysym) {
        Some(from)
    } else {
        first_row_with(km, keysym, from + 1)
    }
}

/// The keycode producing `keysym` (the first row holding it, at any level,
/// like XKeysymToKeycode), or `None` when no row holds it or its keycode
/// would not fit in a byte.
pub open spec fn keycode_of(km: KeymapView, keysym: u32) -> Option<u8> {
    match first_row_with(km, keysym, 0) {
        None => None,
        Some(r) => if km.min_keycode + r <= 255 {
            Some((km.min_keycode + r) as u8)
        } else {
            None
        },
    }
}

proof fn lemma_row_bounds(per: nat, r: int, len: int)
    requires
        per >= 1,
        0 <= r,
        (r + 1) * per <= len,
    ensures
        0 <= r * per <= (r + 1) * per,
        (r + 1) * per == r * per + per,
{
    assert((r + 1) * per == r * per + per) by (nonlinear_arith);
    assert(0 <= r * per) by (nonlinear_arith)
        requires
            0 <= r,
            per >= 1,
    ;
}

proof fn lemma_rows_fit(per: nat, r: int, len: int)
    requires
        per >= 1,
        0 <= r < len / (per as int),
        len >= 0,
    ensures
        (r + 1) * per <= len,
{
    assert((r + 1) * per <= len) by (nonlinear_arith)
        requires
            per >= 1,
            0 <= r < len / (per as int),
            len >= 0,
    {
        assert(r + 1 <= len / (per as int));
        assert((len / (per as int)) * per <= len) by (nonlinear_arith)
            requires
                per >= 1,
                len >= 0,
        {
            vstd::arithmetic::div_mod::lemma_fundamental_div_mod(len, per as int);
        }
    }
}

impl Keymap {
    /// The mapping as the server reported it (`keysyms_per_keycode` of 0 is
    /// read as 1).
    pub fn new(min_keycode: u8, keysyms_per_keycode: u8, syms: Vec<u32>) -> (res: Self)
        ensures
            res@ == (KeymapView {
                min_keycode,
                per: if keysyms_per_keycode == 0 {
                    1
                } else {
                    keysyms_per_keycode as nat
                },
                syms: syms@,
            }),
    {
        let per: usize = if keysyms_per_keycode == 0 {
            1
        } else {
            keysyms_per_keycode as usize
        };
        Keymap { min_keycode, per, syms }
    }

    /// The number of whole rows.
    pub fn row_count(&self) -> (res: usize)
        ensures
            res == self@.rows(),
    {
        proof {
            use_type_invariant(self);
        }
        self.syms.len() / self.per
    }

    /// The keysym `keycode` produces under modifier mask `state`.
    pub fn effective_keysym(&self, keycode: u8, state: u16) -> (res: u32)
        ensures
            res == keysym_for(self@, keycode, state),
    {
        proof {
            use_type_invariant(self);
        }
        if keycode < self.min_keycode {
            return 0;
        }
        let r = (keycode - self.min_keycode) as usize;
        let per = self.per;
        assert((r + 1) * per <= 256 * 255) by (nonlinear_arith)
            requires
                r <= 255,
                per <= 255,
        ;
        let end = (r + 1) * per;
        if end > self.syms.len() {
            return 0;
        }
        proof {
            lemma_row_bounds(per as nat, r as int, self.syms@.len() as int);
        }
        let start = r * per;
        assert(start + per == end);
        let ghost row = self@.row(r as int);
        assert(row =~= self.syms@.subrange(start as int, start + per));
        assert(self@.row_of(keycode) == Some(row));
        let level0 = self.syms[start];
        let letter = (0x41 <= level0 && level0 <= 0x5A) || (0x61 <= level0 && level0 <= 0x7A);
        let shifted = state & 1 != 0 || (state & 2 != 0 && letter);
        let index: usize = if shifted && per > 1 {
            1
        } else {
            0
        };
        let sym = self.syms[start + index];
        assert(row[index as int] == sym);
        assert(row[0] == level0);
        if sym != 0 {
            return sym;
        }
        assert(keysym_for(self@, keycode, state) == first_nonzero(row));
        assert(row.skip(0) =~= row);
        let mut k: usize = 0;
        while k < per
            invariant
                k <= per,
                start + per <= self.syms.len(),
                row == self.syms@.subrange(start as int, start + per),
                keysym_for(self@, keycode, state) == first_nonzero(row.skip(k as int)),
            decreases per - k,
        {
            assert(row.skip(k as int)[0] == self.syms@[start + k]);
            if self.syms[start + k] != 0 {
                return self.syms[start + k];
            }
            assert(row.skip(k as int).drop_first() =~= row.skip(k + 1));
            k += 1;
        }
        assert(row.skip(per as int) =~= Seq::<u32>::empty());
        0
    }

    /// A keycode that produces `keysym` in this mapping. The mapping must
    /// not have more rows than a 16-bit keycode sum can count.
    pub fn keycode_for_keysym(&self, keysym: u32) -> (res: Option<u8>)
        requires
            self@.rows() <= 65280,
        ensures
            res == keycode_of(self@, keysym),
    {
        proof {
            use_type_invariant(self);
        }
        let per = self.per;
        let rows = self.syms.len() / per;
        let mut row: usize = 0;
        while row < rows
            invariant
                row <= rows,
                rows == self@.rows(),
                rows <= 65280,
                per == self@.per,
                1 <= per <= 255,
                first_row_with(self@, keysym, 0) == first_row_with(self@, keysym, row as int),
            decreases rows - row,
        {
            proof {
                lemma_rows_fit(per as nat, row as int, self.syms@.len() as int);
                lemma_row_bounds(per as nat, row as int, self.syms@.len() as int);
            }
            assert(row * per + per <= self.syms.len());
            let start = row * per;
            let ghost slice = self@.row(row as int);
            assert(slice =~= self.syms@.subrange(start as int, start + per));
            let mut k: usize = 0;
            let mut hit = false;
            while k < per
                invariant
                    k <= per,
                    start + per <= self.syms.len(),
                    slice == self.syms@.subrange(start as int, start + per),
                    hit == exists|j: int| 0 <= j < k && slice[j] == keysym,
                decreases per - k,
            {
                assert(slice[k as int] == self.syms@[start + k]);
                if self.syms[start + k] == keysym {
                    hit = true;
                }
                k += 1;
            }
            if hit {
                assert(slice.contains(keysym));
                assert(first_row_with(self@, keysym, row as int) == Some(row as int));
                let keycode: u16 = self.min_keycode as u16 + row as u16;
                if keycode <= 255 {
                    return Some(keycode as u8);
                } else {
                    return None;
                }
            }
            assert(!slice.contains(keysym));
            row += 1;
        }
        None
    }
}

/// The bit for `keycode` is set in a QueryKeymap bitmap.
pub open spec fn key_bit_set(keys: Seq<u8>, keycode: int) -> bool {
    0 <= keycode / 8 < keys.len() && keys[keycode / 8] & (1u8 << ((keycode % 8) as u8)) != 0
}

/// Keycodes of every key down in a QueryKeymap bitmap, restricted to the
/// server's keycode range, in increasing order.
pub fn pressed_keycodes(keys: &Vec<u8>, min_keycode: u8, max_keycode: u8) -> (res: Vec<u8>)
    ensures
        forall|i: int, j: int| 0 <= i < j < res@.len() ==> res@[i] < res@[j],
        forall|k: u8|
            res@.contains(k) <==> (min_keycode <= k <= max_keycode && key_bit_set(keys@, k as int)),
{
    let mut out: Vec<u8> = Vec::new();
    let mut byte_index: usize = 0;
    while byte_index < keys.len() && byte_index < 32
        invariant
            byte_index <= keys.len(),
            byte_index <= 32,
            forall|i: int, j: int| 0 <= i < j < out@.len() ==> out@[i] < out@[j],
            forall|i: int| 0 <= i < out@.len() ==> (out@[i] as int) < byte_index * 8,
            forall|k: u8|
                out@.contains(k) <==> ((k as int) < byte_index * 8 && min_keycode <= k <= max_keycode
                    && key_bit_set(keys@, k as int)),
        decreases keys.len() - byte_index,
    {
        let byte = keys[byte_index];
        let mut bit: u8 = 0;
        while bit < 8
            invariant
                byte_index < keys.len(),
                byte_index < 32,
                byte == keys@[byte_index as int],
                bit <= 8,
                forall|i: int, j: int| 0 <= i < j < out@.len() ==> out@[i] < out@[j],
                forall|i: int| 0 <= i < out@.len() ==> (out@[i] as int) < byte_index * 8 + bit,
                forall|k: u8|
                    out@.contains(k) <==> ((k as int) < byte_index * 8 + bit && min_keycode <= k
                        <= max_keycode && key_bit_set(keys@, k as int)),
            decreases 8 - bit,
        {
            let keycode: usize = byte_index * 8 + bit as usize;
            let ghost before = out@;
            if byte & (1u8 << bit) != 0 && min_keycode as usize <= keycode && keycode
                <= max_keycode as usize {
                let kc = keycode as u8;
                assert(kc as int == keycode);
                assert((kc as int) / 8 == byte_index && (kc as int) % 8 == bit);
                out.push(kc);
                assert forall|k: u8|
                    out@.contains(k) <==> ((k as int) < byte_index * 8 + bit + 1 && min_keycode
                        <= k <= max_keycode && key_bit_set(keys@, k as int)) by {
                    if out@.contains(k) {
                        let i = choose|i: int| 0 <= i < out@.len() && out@[i] == k;
                        if i < before.len() {
                            assert(before.contains(k));
                        }
                    }
                    if before.contains(k) {
                        let i = choose|i: int| 0 <= i < before.len() && before[i] == k;
                        assert(out@[i] == k);
                    }
                    if k == kc {
                        assert(out@[before.len() as int] == k);
                    }
                }
            } else {
                assert forall|k: u8|
                    out@.contains(k) <==> ((k as int) < byte_index * 8 + bit + 1 && min_keycode
                        <= k <= max_keycode && key_bit_set(keys@, k as int)) by {
                    if (k as int) == byte_index * 8 + bit {
                        assert((k as int) / 8 == byte_index && (k as int) % 8 == bit);
                    }
                }
            }
            bit += 1;
        }
        byte_index += 1;
    }
    assert forall|k: u8|
        out@.contains(k) <==> (min_keycode <= k <= max_keycode && key_bit_set(keys@, k as int)) by {
        if key_bit_set(keys@, k as int) {
            assert((k as int) < 256);
        }
    }
    out
}


// ----------------------------------------------------------------------
// Injection plans (the receive side)
// ----------------------------------------------------------------------

/// One XTEST request: an absolute pointer move in root coordinates, a
/// button press or release (buttons 4..7 are the wheel), or a key press or
/// release named by keysym (resolved to a keycode through the `Keymap`).
#[derive(Debug, Clone, Copy, PartialEq, Eq, Structural)]
pub enum XRequest {
    Motion { x: i16, y: i16 },
    Button { button: u8, down: bool },
    Key { keysym: u32, down: bool },
}

/// X coordinates are 16 bit: larger values are clamped.
pub open spec fn clamp16(v: i32) -> i16 {
    if v < -32768 {
        -32768i16
    } else if v > 32767 {
        32767i16
    } else {
        v as i16
    }
}

fn clamp_coordinate(v: i32) -> (res: i16)
    ensures
        res == clamp16(v),
{
    if v < -32768 {
        -32768
    } else if v > 32767 {
        32767
    } else {
        v as i16
    }
}

/// X11 button numbers: 1-3 left/middle/right, 8/9 back/forward.
pub open spec fn button_number(button: MouseButton) -> u8 {
    match button {
        MouseButton::Left => 1,
        MouseButton::Middle => 2,
        MouseButton::Right => 3,
        MouseButton::Back => 8,
        MouseButton::Forward => 9,
    }
}

pub fn x11_button(button: MouseButton) -> (res: u8)
    ensures
        res == button_number(button),
{
    match button {
        MouseButton::Left => 1,
        MouseButton::Middle => 2,
        MouseButton::Right => 3,
        MouseButton::Back => 8,
        MouseButton::Forward => 9,
    }
}

/// The keys and buttons injected and still held, so a teardown can release
/// them. Button `b` (1..9) is bit `b - 1` of the mask.
#[derive(Debug)]
pub struct InjectionState {
    pressed_keys: Vec<u16>,
    pressed_buttons: u16,
}

pub struct InjectionStateView {
    pub pressed_keys: Seq<u16>,
    pub pressed_buttons: u16,
}

impl View for InjectionState {
    type V = InjectionStateView;

    closed spec fn view(&self) -> InjectionStateView {
        InjectionStateView { pressed_keys: self.pressed_keys@, pressed_buttons: self.pressed_buttons }
    }
}

/// The mask bit of X button `b`.
pub open spec fn button_bit(b: u8) -> u16 {
    1u16 << ((b - 1) as u16)
}

/// `keys` without any occurrence of `vk`.
pub open spec fn without_key(keys: Seq<u16>, vk: u16) -> Seq<u16>
    decreases keys.len(),
{
    if keys.len() == 0 {
        keys
    } else if keys.last() == vk {
        without_key(keys.drop_last(), vk)
    } else {
        without_key(keys.drop_last(), vk).push(keys.last())
    }
}

/// The held keys after `vk` went down or up.
pub open spec fn tracked_keys(keys: Seq<u16>, vk: u16, down: bool) -> Seq<u16> {
    if down {
        if keys.contains(vk) {
            keys
        } else {
            keys.push(vk)
        }
    } else {
        without_key(keys, vk)
    }
}

/// The held buttons after `button` went down or up.
pub open spec fn tracked_buttons(mask: u16, button: u8, down: bool) -> u16 {
    if down {
        mask | button_bit(button)
    } else {
        mask & !button_bit(button)
    }
}

proof fn lemma_without_key(keys: Seq<u16>, vk: u16)
    ensures
        !without_key(keys, vk).contains(vk),
        forall|k: u16| k != vk && keys.contains(k) ==> #[trigger] without_key(keys, vk).contains(k),
    decreases keys.len(),
{
    if keys.len() > 0 {
        let rest = keys.drop_last();
        lemma_without_key(rest, vk);
        assert forall|k: u16| k != vk && keys.contains(k) implies #[trigger] without_key(
            keys,
            vk,
        ).contains(k) by {
            let i = choose|i: int| 0 <= i < keys.len() && keys[i] == k;
            if i < keys.len() - 1 {
                assert(rest[i] == k);
                assert(rest.contains(k));
                let w = without_key(rest, vk);
                assert(w.contains(k));
                let j = choose|j: int| 0 <= j < w.len() && w[j] == k;
                if keys.last() != vk {
                    assert(w.push(keys.last())[j] == k);
                }
            } else {
                assert(without_key(keys, vk) == without_key(rest, vk).push(k));
                assert(without_key(keys, vk)[without_key(rest, vk).len() as int] == k);
            }
        }
        if keys.last() != vk {
            let w = without_key(rest, vk).push(keys.last());
            if w.contains(vk) {
                let i = choose|i: int| 0 <= i < w.len() && w[i] == vk;
                assert(i < w.len() - 1);
                assert(without_key(rest, vk)[i] == vk);
            }
        }
    }
}

/// A pressed key is held; once released it is held no more, while every
/// other held key stays held: a release never leaves its key stuck.
pub proof fn lemma_key_tracking(keys: Seq<u16>, vk: u16, other: u16)
    ensures
        tracked_keys(keys, vk, true).contains(vk),
        !tracked_keys(tracked_keys(keys, vk, true), vk, false).contains(vk),
        other != vk && keys.contains(other) ==> tracked_keys(keys, vk, false).contains(other),
{
    let pressed = tracked_keys(keys, vk, true);
    if !keys.contains(vk) {
        assert(pressed[keys.len() as int] == vk);
    }
    lemma_without_key(pressed, vk);
    lemma_without_key(keys, vk);
}

/// A pressed button is held, a released one is not, and no other button's
/// state changes.
pub proof fn lemma_button_tracking(mask: u16, b: u8, other: u8)
    requires
        1 <= b <= 9,
        1 <= other <= 9,
        other != b,
    ensures
        tracked_buttons(mask, b, true) & button_bit(b) != 0,
        tracked_buttons(mask, b, false) & button_bit(b) == 0,
        tracked_buttons(mask, b, true) & button_bit(other) == mask & button_bit(other),
        tracked_buttons(mask, b, false) & button_bit(other) == mask & button_bit(other),
{
    let s: u16 = (b - 1) as u16;
    let t: u16 = (other - 1) as u16;
    assert((mask | (1u16 << s)) & (1u16 << s) != 0) by (bit_vector)
        requires
            s < 16,
    ;
    assert((mask & !(1u16 << s)) & (1u16 << s) == 0) by (bit_vector)
        requires
            s < 16,
    ;
    assert((mask | (1u16 << s)) & (1u16 << t) == mask & (1u16 << t)) by (bit_vector)
        requires
            s < 16,
            t < 16,
            s != t,
    ;
    assert((mask & !(1u16 << s)) & (1u16 << t) == mask & (1u16 << t)) by (bit_vector)
        requires
            s < 16,
            t < 16,
            s != t,
    ;
}

/// `n` wheel clicks on button `b`: press and release, `n` times.
pub open spec fn wheel_clicks(b: u8, n: nat) -> Seq<XRequest>
    decreases n,
{
    if n == 0 {
        Seq::empty()
    } else {
        wheel_clicks(b, (n - 1) as nat) + seq![
            XRequest::Button { button: b, down: true },
            XRequest::Button { button: b, down: false },
        ]
    }
}

/// The clicks for a scroll: up on 4 / down on 5 for `delta_y`, then right
/// on 7 / left on 6 for `delta_x`, one click per notch.
pub open spec fn scroll_requests(delta_x: i32, delta_y: i32) -> Seq<XRequest> {
    let vertical = if delta_y > 0 {
        wheel_clicks(4, delta_y as nat)
    } else if delta_y < 0 {
        wheel_clicks(5, (-delta_y) as nat)
    } else {
        Seq::empty()
    };
    let horizontal = if delta_x > 0 {
        wheel_clicks(7, delta_x as nat)
    } else if delta_x < 0 {
        wheel_clicks(6, (-delta_x) as nat)
    } else {
        Seq::empty()
    };
    vertical + horizontal
}

/// The releases of the held keys, most recently pressed first.
pub open spec fn key_releases(keys: Seq<u16>) -> Seq<XRequest>
    decreases keys.len(),
{
    if keys.len() == 0 {
        Seq::empty()
    } else {
        let rest = key_releases(keys.drop_last());
        match keysym_of_vk(keys.last()) {
            Some(sym) => seq![XRequest::Key { keysym: sym, down: false }] + rest,
            None => rest,
        }
    }
}

/// The releases of the held buttons from button `b` up to 9, in order.
pub open spec fn button_releases(mask: u16, b: u8) -> Seq<XRequest>
    decreases 10 - b,
{
    if b < 1 || b > 9 {
        Seq::empty()
    } else {
        let rest = button_releases(mask, (b + 1) as u8);
        if mask & button_bit(b) != 0 {
            seq![XRequest::Button { button: b, down: false }] + rest
        } else {
            rest
        }
    }
}

fn push_clicks(out: &mut Vec<XRequest>, b: u8, n: u32)
    ensures
        final(out)@ == old(out)@ + wheel_clicks(b, n as nat),
{
    let mut i: u32 = 0;
    while i < n
        invariant
            i <= n,
            out@ == old(out)@ + wheel_clicks(b, i as nat),
        decreases n - i,
    {
        out.push(XRequest::Button { button: b, down: true });
        out.push(XRequest::Button { button: b, down: false });
        assert(out@ =~= old(out)@ + wheel_clicks(b, (i + 1) as nat));
        i += 1;
    }
}

fn holds_key(keys: &Vec<u16>, vk: u16) -> (res: bool)
    ensures
        res == keys@.contains(vk),
{
    let mut i: usize = 0;
    while i < keys.len()
        invariant
            i <= keys.len(),
            forall|k: int| 0 <= k < i ==> keys@[k] != vk,
        decreases keys.len() - i,
    {
        if keys[i] == vk {
            assert(keys@[i as int] == vk);
            return true;
        }
        i += 1;
    }
    false
}

impl InjectionState {
    /// Nothing held.
    pub fn new() -> (res: Self)
        ensures
            res@.pressed_keys.len() == 0,
            res@.pressed_buttons == 0,
    {
        InjectionState { pressed_keys: Vec::new(), pressed_buttons: 0 }
    }

    fn track_key(&mut self, vk: u16, down: bool)
        ensures
            final(self)@ == (InjectionStateView {
                pressed_keys: tracked_keys(old(self)@.pressed_keys, vk, down),
                pressed_buttons: old(self)@.pressed_buttons,
            }),
    {
        if down {
            if !holds_key(&self.pressed_keys, vk) {
                self.pressed_keys.push(vk);
            }
        } else {
            let mut kept: Vec<u16> = Vec::new();
            let mut i: usize = 0;
            while i < self.pressed_keys.len()
                invariant
                    i <= self.pressed_keys.len(),
                    kept@ == without_key(self.pressed_keys@.take(i as int), vk),
                decreases self.pressed_keys.len() - i,
            {
                assert(self.pressed_keys@.take(i + 1).drop_last() =~= self.pressed_keys@.take(i as int));
                if self.pressed_keys[i] != vk {
                    kept.push(self.pressed_keys[i]);
                }
                i += 1;
            }
            assert(self.pressed_keys@.take(self.pressed_keys.len() as int) =~= self.pressed_keys@);
            self.pressed_keys = kept;
        }
    }

    fn track_button(&mut self, button: u8, down: bool)
        requires
            1 <= button <= 9,
        ensures
            final(self)@ == (InjectionStateView {
                pressed_keys: old(self)@.pressed_keys,
                pressed_buttons: tracked_buttons(old(self)@.pressed_buttons, button, down),
            }),
    {
        let bit: u16 = 1u16 << ((button - 1) as u16);
        if down {
            self.pressed_buttons = self.pressed_buttons | bit;
        } else {
            self.pressed_buttons = self.pressed_buttons & !bit;
        }
    }
}

/// Moves the pointer to root coordinates. X has no drag flavour of motion (a
/// held button keeps dragging on its own), so the drag hint is not used.
pub fn inject_mouse_move(x: i32, y: i32, drag_button: Option<MouseButton>) -> (res: Vec<XRequest>)
    ensures
        res@ == seq![XRequest::Motion { x: clamp16(x), y: clamp16(y) }],
{
    let mut out: Vec<XRequest> = Vec::new();
    out.push(XRequest::Motion { x: clamp_coordinate(x), y: clamp_coordinate(y) });
    out
}

/// Presses or releases a mouse button, moving there first when a non-zero
/// position is given, and records the button as held or not.
pub fn inject_mouse_button(state: &mut InjectionState, button: MouseButton, down: bool, x: i32, y: i32) -> (res:
    Vec<XRequest>)
    ensures
        res@ == (if x != 0 || y != 0 {
            seq![XRequest::Motion { x: clamp16(x), y: clamp16(y) }]
        } else {
            Seq::empty()
        }) + seq![XRequest::Button { button: button_number(button), down }],
        final(state)@ == (InjectionStateView {
            pressed_keys: old(state)@.pressed_keys,
            pressed_buttons: tracked_buttons(old(state)@.pressed_buttons, button_number(button), down),
        }),
{
    let b = x11_button(button);
    let mut out: Vec<XRequest> = Vec::new();
    if x != 0 || y != 0 {
        out.push(XRequest::Motion { x: clamp_coordinate(x), y: clamp_coordinate(y) });
    }
    out.push(XRequest::Button { button: b, down });
    state.track_button(b, down);
    proof {
        if x != 0 || y != 0 {
            assert(out@ =~= seq![XRequest::Motion { x: clamp16(x), y: clamp16(y) }] + seq![
                XRequest::Button { button: b, down },
            ]);
        } else {
            assert(out@ =~= Seq::<XRequest>::empty() + seq![XRequest::Button { button: b, down }]);
        }
    }
    out
}

/// Scrolls by wheel notches. X has no scroll event: each notch is a press
/// and release of a wheel button. The most negative `i32` has no notch count
/// and is not accepted.
pub fn inject_scroll(delta_x: i32, delta_y: i32) -> (res: Vec<XRequest>)
    requires
        delta_x != i32::MIN,
        delta_y != i32::MIN,
    ensures
        res@ == scroll_requests(delta_x, delta_y),
{
    let mut out: Vec<XRequest> = Vec::new();
    if delta_y > 0 {
        push_clicks(&mut out, 4, delta_y as u32);
    } else if delta_y < 0 {
        push_clicks(&mut out, 5, (-delta_y) as u32);
    }
    let ghost vertical = out@;
    if delta_x > 0 {
        push_clicks(&mut out, 7, delta_x as u32);
    } else if delta_x < 0 {
        push_clicks(&mut out, 6, (-delta_x) as u32);
    }
    proof {
        if delta_x == 0 {
            assert(out@ =~= vertical + Seq::<XRequest>::empty());
        }
        if delta_y == 0 {
            assert(vertical =~= Seq::<XRequest>::empty() + vertical);
        }
    }
    out
}

/// Presses or releases the key of a VK (by its base keysym) and records it
/// as held or not; a VK with no keysym is dropped untracked.
pub fn inject_key(state: &mut InjectionState, key_code: u16, down: bool) -> (res: Vec<XRequest>)
    ensures
        keysym_of_vk(key_code) is None ==> res@.len() == 0 && final(state)@ == old(state)@,
        keysym_of_vk(key_code) matches Some(sym) ==> res@ == seq![
            XRequest::Key { keysym: sym, down },
        ] && final(state)@ == (InjectionStateView {
            pressed_keys: tracked_keys(old(state)@.pressed_keys, key_code, down),
            pressed_buttons: old(state)@.pressed_buttons,
        }),
{
    let mut out: Vec<XRequest> = Vec::new();
    match windows_vk_to_keysym(key_code) {
        Some(keysym) => {
            out.push(XRequest::Key { keysym, down });
            state.track_key(key_code, down);
        },
        None => {},
    }
    out
}

/// Releases every key and button injected while still held, so a session
/// teardown never leaves one stuck: keys most recent first, then buttons
/// 1 to 9. Afterwards nothing is held.
pub fn release_all_injected(state: &mut InjectionState) -> (res: Vec<XRequest>)
    ensures
        res@ == key_releases(old(state)@.pressed_keys) + button_releases(
            old(state)@.pressed_buttons,
            1,
        ),
        final(state)@.pressed_keys.len() == 0,
        final(state)@.pressed_buttons == 0,
{
    let mut out: Vec<XRequest> = Vec::new();
    let keys = &state.pressed_keys;
    let mut i: usize = keys.len();
    assert(keys@.take(keys@.len() as int) =~= keys@);
    while i > 0
        invariant
            i <= keys.len(),
            key_releases(keys@) == out@ + key_releases(keys@.take(i as int)),
        decreases i,
    {
        let vk = keys[i - 1];
        let ghost before = out@;
        assert(keys@.take(i as int).drop_last() =~= keys@.take(i - 1));
        assert(keys@.take(i as int).last() == vk);
        match windows_vk_to_keysym(vk) {
            Some(keysym) => {
                out.push(XRequest::Key { keysym, down: false });
                assert(before + key_releases(keys@.take(i as int)) =~= out@ + key_releases(
                    keys@.take(i - 1),
                ));
            },
            None => {},
        }
        i -= 1;
    }
    assert(keys@.take(0) =~= Seq::<u16>::empty());
    assert(out@ + Seq::<XRequest>::empty() =~= out@);
    let mask = state.pressed_buttons;
    let ghost keys_part = out@;
    let mut b: u8 = 1;
    while b <= 9
        invariant
            1 <= b <= 10,
            button_releases(mask, 1) == out@.skip(keys_part.len() as int) + button_releases(mask, b),
            out@.take(keys_part.len() as int) == keys_part,
            out@.len() >= keys_part.len(),
        decreases 10 - b,
    {
        let ghost before = out@;
        if mask & (1u16 << ((b - 1) as u16)) != 0 {
            out.push(XRequest::Button { button: b, down: false });
            assert(out@.skip(keys_part.len() as int) =~= before.skip(keys_part.len() as int).push(
                XRequest::Button { button: b, down: false },
            ));
        }
        assert(out@.take(keys_part.len() as int) =~= keys_part);
        b += 1;
    }
    assert(out@ =~= keys_part + out@.skip(keys_part.len() as int));
    state.pressed_keys = Vec::new();
    state.pressed_buttons = 0;
    out
}

} // verus!
