//! The pairing handshake and the identity checks around it.
//!
//! Flow (all initiated by the desktop):
//!   1. desktop -> receiver : `pair-request`      (discovery)
//!   2. receiver -> desktop : `pair-challenge`    (discovery; this device shows a code)
//!   3. the user types the six digit code into the desktop
//!   4. desktop -> receiver : `pair-confirm`      (encrypted stream, carries the
//!                                                 cluster id and pair secret)

use vstd::prelude::*;

use crate::packet::{LanPeer, LanPeerView, PairedController, PairedControllerView};
use crate::state::{
    millis_since, monotonic_now, now_ms, random_pairing_code, ReceiverLayout, ReceiverLayoutView,
};
use crate::text::{
    blank, eq_ignore_case, is_blank, lemma_trimmed_not_blank, lower_seq, owned, text_eq, trim,
    trimmed, chars_of, lower_trimmed_range,
};

verus! {

/// How long a pairing code stays valid, in ms.
pub const PAIRING_CODE_TTL_MS: u64 = 60_000;

/// Wrong codes tolerated before the challenge is dropped.
pub const PAIRING_MAX_ATTEMPTS: u8 = 5;

/// The code currently shown on this device and who asked for it.
///
/// Expiry is judged on the monotonic clock, from `issued_at`; the wall-clock
/// `expires_at_ms` is what the screen shows.
#[derive(Debug)]
pub struct PairingChallenge {
    pub code: String,
    pub requester_id: String,
    pub requester_name: String,
    pub requester_ip: String,
    pub requester_host: String,
    pub requester_public_key: String,
    pub requester_protocol_version: u16,
    /// When the code was issued (or last re-issued), on the monotonic clock.
    pub issued_at: std::time::Instant,
    /// When the code stops being usable, in wall-clock ms since the Unix
    /// epoch, for display.
    pub expires_at_ms: u64,
    pub attempts: u8,
}

pub struct PairingChallengeView {
    pub code: Seq<char>,
    pub requester_id: Seq<char>,
    pub requester_name: Seq<char>,
    pub requester_ip: Seq<char>,
    pub requester_host: Seq<char>,
    pub requester_public_key: Seq<char>,
    pub requester_protocol_version: u16,
    pub issued_at: std::time::Instant,
    pub expires_at_ms: u64,
    pub attempts: u8,
}

impl View for PairingChallenge {
    type V = PairingChallengeView;

    open spec fn view(&self) -> PairingChallengeView {
        PairingChallengeView {
            code: self.code@,
            requester_id: self.requester_id@,
            requester_name: self.requester_name@,
            requester_ip: self.requester_ip@,
            requester_host: self.requester_host@,
            requester_public_key: self.requester_public_key@,
            requester_protocol_version: self.requester_protocol_version,
            issued_at: self.issued_at,
            expires_at_ms: self.expires_at_ms,
            attempts: self.attempts,
        }
    }
}

impl Clone for PairingChallenge {
    fn clone(&self) -> (res: Self)
        ensures
            res@ == self@,
    {
        PairingChallenge {
            code: self.code.clone(),
            requester_id: self.requester_id.clone(),
            requester_name: self.requester_name.clone(),
            requester_ip: self.requester_ip.clone(),
            requester_host: self.requester_host.clone(),
            requester_public_key: self.requester_public_key.clone(),
            requester_protocol_version: self.requester_protocol_version,
            issued_at: self.issued_at,
            expires_at_ms: self.expires_at_ms,
            attempts: self.attempts,
        }
    }
}

/// The view of an optional challenge.
pub open spec fn challenge_view(c: Option<PairingChallenge>) -> Option<PairingChallengeView> {
    match c {
        Some(c) => Some(c@),
        None => None,
    }
}

/// A code `age_ms` milliseconds old (on the monotonic clock) can no longer
/// be used.
pub open spec fn expired_after(age_ms: u64) -> bool {
    age_ms >= PAIRING_CODE_TTL_MS
}

/// The age of the pending challenge, if any, on the monotonic clock (0 when
/// none is pending).
pub fn challenge_age(challenge: &Option<PairingChallenge>) -> (res: u64)
    ensures
        challenge is None ==> res == 0,
{
    match challenge {
        Some(c) => millis_since(c.issued_at),
        None => 0,
    }
}

impl PairingChallenge {
    /// A code `age_ms` milliseconds old can no longer be used.
    pub fn is_expired_after(&self, age_ms: u64) -> (res: bool)
        ensures
            res == expired_after(age_ms),
    {
        age_ms >= PAIRING_CODE_TTL_MS
    }

    /// The code can no longer be used (judged on the monotonic clock).
    pub fn is_expired(&self) -> (res: bool)
        ensures
            exists|age_ms: u64| res == #[trigger] expired_after(age_ms),
    {
        let age_ms = millis_since(self.issued_at);
        let res = self.is_expired_after(age_ms);
        assert(res == expired_after(age_ms));
        res
    }
}

/// When a code issued at wall-clock time `wall_ms` expires.
pub open spec fn expiry_for(wall_ms: u64) -> u64 {
    if wall_ms + PAIRING_CODE_TTL_MS > u64::MAX {
        u64::MAX
    } else {
        (wall_ms + PAIRING_CODE_TTL_MS) as u64
    }
}

/// What `begin_pairing_challenge` does: the pending challenge afterwards, and
/// the challenge handed back (if any). `age_ms` is the pending challenge's
/// age on the monotonic clock, `now` that clock's reading and `wall_ms` the
/// wall clock's, both stamped on a code issued now.
///
/// Only a client answers, and only a server's request. A live code for the
/// same requester is kept (and only re-minted once a wrong guess was made),
/// with the requester's details refreshed; a live code for someone else
/// blocks the request; otherwise a new code is issued.
pub open spec fn begin_outcome(
    pending: Option<PairingChallengeView>,
    layout: ReceiverLayoutView,
    requester: LanPeerView,
    requester_ip: Seq<char>,
    age_ms: u64,
    now: std::time::Instant,
    wall_ms: u64,
    fresh_code: Seq<char>,
) -> (Option<PairingChallengeView>, Option<PairingChallengeView>) {
    if layout.machine_role != "client"@ || requester.machine_role != "server"@ {
        (pending, None)
    } else if pending is Some && !expired_after(age_ms) {
        let e = pending->0;
        if e.requester_id == requester.id {
            let renewed = e.attempts > 0;
            let next = PairingChallengeView {
                code: if renewed {
                    fresh_code
                } else {
                    e.code
                },
                requester_ip: requester_ip,
                requester_host: requester.host,
                requester_public_key: requester.transport_public_key,
                requester_protocol_version: requester.protocol_version,
                issued_at: if renewed {
                    now
                } else {
                    e.issued_at
                },
                expires_at_ms: if renewed {
                    expiry_for(wall_ms)
                } else {
                    e.expires_at_ms
                },
                attempts: 0,
                ..e
            };
            (Some(next), Some(next))
        } else {
            (pending, None)
        }
    } else {
        let next = PairingChallengeView {
            code: fresh_code,
            requester_id: requester.id,
            requester_name: requester.name,
            requester_ip: requester_ip,
            requester_host: requester.host,
            requester_public_key: requester.transport_public_key,
            requester_protocol_version: requester.protocol_version,
            issued_at: now,
            expires_at_ms: expiry_for(wall_ms),
            attempts: 0,
        };
        (Some(next), Some(next))
    }
}

/// Starts the handshake for a desktop that wants to pair (or re-pair) with us,
/// the pending challenge being `age_ms` old, at monotonic reading `now` and
/// wall-clock time `wall_ms`, minting `fresh_code` if a new code is needed.
///
/// A paired receiver still accepts a fresh request: the code shown on this
/// screen is the authorization, and refusing would make re-pairing impossible
/// once the stored controller record went stale.
pub fn begin_pairing_challenge_at(
    challenge: &mut Option<PairingChallenge>,
    layout: &ReceiverLayout,
    requester: &LanPeer,
    requester_ip: String,
    age_ms: u64,
    now: std::time::Instant,
    wall_ms: u64,
    fresh_code: String,
) -> (res: Option<PairingChallenge>)
    ensures
        (challenge_view(*final(challenge)), challenge_view(res)) == begin_outcome(
            challenge_view(*old(challenge)),
            layout@,
            requester@,
            requester_ip@,
            age_ms,
            now,
            wall_ms,
            fresh_code@,
        ),
{
    if !text_eq(layout.machine_role.as_str(), "client") {
        return None;
    }
    if !text_eq(requester.machine_role.as_str(), "server") {
        return None;
    }
    let expires_at_ms = wall_ms.saturating_add(PAIRING_CODE_TTL_MS);
    let pending = challenge.take();
    match pending {
        Some(existing) => {
            if !existing.is_expired_after(age_ms) {
                if text_eq(existing.requester_id.as_str(), requester.id.as_str()) {
                    let renewed = existing.attempts > 0;
                    let next = PairingChallenge {
                        code: if renewed {
                            fresh_code
                        } else {
                            existing.code
                        },
                        requester_id: existing.requester_id,
                        requester_name: existing.requester_name,
                        requester_ip,
                        requester_host: requester.host.clone(),
                        requester_public_key: requester.transport_public_key.clone(),
                        requester_protocol_version: requester.protocol_version,
                        issued_at: if renewed {
                            now
                        } else {
                            existing.issued_at
                        },
                        expires_at_ms: if renewed {
                            expires_at_ms
                        } else {
                            existing.expires_at_ms
                        },
                        attempts: 0,
                    };
                    let handed = next.clone();
                    *challenge = Some(next);
                    return Some(handed);
                }
                *challenge = Some(existing);
                return None;
            }
        },
        None => {},
    }
    let next = PairingChallenge {
        code: fresh_code,
        requester_id: requester.id.clone(),
        requester_name: requester.name.clone(),
        requester_ip,
        requester_host: requester.host.clone(),
        requester_public_key: requester.transport_public_key.clone(),
        requester_protocol_version: requester.protocol_version,
        issued_at: now,
        expires_at_ms,
        attempts: 0,
    };
    let handed = next.clone();
    *challenge = Some(next);
    Some(handed)
}

/// Starts the handshake now, with a freshly drawn six digit code.
pub fn begin_pairing_challenge(
    challenge: &mut Option<PairingChallenge>,
    layout: &ReceiverLayout,
    requester: &LanPeer,
    requester_ip: String,
) -> (res: Option<PairingChallenge>)
    ensures
        exists|age_ms: u64, now: std::time::Instant, wall_ms: u64, code: Seq<char>|
            code.len() == 6 && crate::state::all_digits(code) && (
            challenge_view(*final(challenge)),
            challenge_view(res),
        ) == #[trigger] begin_outcome(
                challenge_view(*old(challenge)),
                layout@,
                requester@,
                requester_ip@,
                age_ms,
                now,
                wall_ms,
                code,
            ),
{
    let now = monotonic_now();
    let age_ms = challenge_age(challenge);
    let wall_ms = now_ms();
    let code = random_pairing_code();
    let ghost drawn = code@;
    let res = begin_pairing_challenge_at(challenge, layout, requester, requester_ip, age_ms, now, wall_ms, code);
    assert(drawn.len() == 6 && crate::state::all_digits(drawn) && (
        challenge_view(*challenge),
        challenge_view(res),
    ) == begin_outcome(
        challenge_view(*old(challenge)),
        layout@,
        requester@,
        requester_ip@,
        age_ms,
        now,
        wall_ms,
        drawn,
    ));
    res
}

/// A repeated `pair-request` from the same requester while the code is still
/// live hands back the code already on screen: a retried request never
/// invalidates it.
pub proof fn lemma_repeat_request_keeps_code(
    pending: Option<PairingChallengeView>,
    layout: ReceiverLayoutView,
    requester: LanPeerView,
    requester_ip: Seq<char>,
    age_ms: u64,
    now: std::time::Instant,
    wall_ms: u64,
    fresh_code: Seq<char>,
    again: LanPeerView,
    again_ip: Seq<char>,
    later_age_ms: u64,
    later: std::time::Instant,
    later_wall_ms: u64,
    other_code: Seq<char>,
)
    requires
        begin_outcome(pending, layout, requester, requester_ip, age_ms, now, wall_ms, fresh_code).1 is Some,
        again.id == requester.id,
        again.machine_role == requester.machine_role,
        !expired_after(later_age_ms),
    ensures
        ({
            let first = begin_outcome(pending, layout, requester, requester_ip, age_ms, now, wall_ms, fresh_code);
            let second = begin_outcome(
                first.0,
                layout,
                again,
                again_ip,
                later_age_ms,
                later,
                later_wall_ms,
                other_code,
            );
            &&& second.1 is Some
            &&& second.1->0.code == first.1->0.code
            &&& second.1->0.issued_at == first.1->0.issued_at
            &&& second.1->0.expires_at_ms == first.1->0.expires_at_ms
        }),
{
}

/// A client asked by a server, with no live code pending for someone else,
/// always issues a challenge to that server, paired or not: re-pairing stays
/// possible once the stored controller record went stale.
pub proof fn lemma_client_answers_server_request(
    pending: Option<PairingChallengeView>,
    layout: ReceiverLayoutView,
    requester: LanPeerView,
    requester_ip: Seq<char>,
    age_ms: u64,
    now: std::time::Instant,
    wall_ms: u64,
    fresh_code: Seq<char>,
)
    requires
        layout.machine_role == "client"@,
        requester.machine_role == "server"@,
        pending is None || expired_after(age_ms) || pending->0.requester_id == requester.id,
    ensures
        ({
            let (next, issued) = begin_outcome(
                pending,
                layout,
                requester,
                requester_ip,
                age_ms,
                now,
                wall_ms,
                fresh_code,
            );
            &&& issued is Some
            &&& issued->0.requester_id == requester.id
            &&& issued->0.attempts == 0
            &&& next == issued
        }),
{
}

/// Only a client answers, and only a server's request; anything else leaves
/// the pending challenge alone.
pub proof fn lemma_only_server_requests_are_answered(
    pending: Option<PairingChallengeView>,
    layout: ReceiverLayoutView,
    requester: LanPeerView,
    requester_ip: Seq<char>,
    age_ms: u64,
    now: std::time::Instant,
    wall_ms: u64,
    fresh_code: Seq<char>,
)
    requires
        layout.machine_role != "client"@ || requester.machine_role != "server"@,
    ensures
        begin_outcome(pending, layout, requester, requester_ip, age_ms, now, wall_ms, fresh_code) == (
            pending,
            None::<PairingChallengeView>,
        ),
{
}

/// The text carried in an optional field, empty when absent.
pub open spec fn text_or_empty(o: Option<String>) -> Seq<char> {
    match o {
        Some(s) => s@,
        None => Seq::empty(),
    }
}

fn take_text(o: Option<String>) -> (res: String)
    ensures
        res@ == text_or_empty(o),
{
    match o {
        Some(s) => s,
        None => String::new(),
    }
}

/// The controller record written when `requester` completes pairing at `now`.
pub open spec fn paired_record(requester: LanPeerView, cluster_id: Seq<char>, now: u64) -> PairedControllerView {
    PairedControllerView {
        id: requester.id,
        name: requester.name,
        host: requester.host,
        ip: requester.ip,
        transport_public_key: requester.transport_public_key,
        protocol_version: requester.protocol_version,
        cluster_id: cluster_id,
        paired_at_ms: now,
    }
}

/// The layout after pairing with `requester`: the desktop's cluster
/// credentials, trimmed, and that desktop as the only controller.
pub open spec fn paired_layout(
    layout: ReceiverLayoutView,
    requester: LanPeerView,
    cluster_id: Seq<char>,
    pair_secret: Seq<char>,
    now: u64,
) -> ReceiverLayoutView {
    ReceiverLayoutView {
        cluster_id: trimmed(cluster_id),
        pair_secret: trimmed(pair_secret),
        paired_controllers: seq![paired_record(requester, trimmed(cluster_id), now)],
        ..layout
    }
}

/// The confirm came from the peer the pending challenge was issued to.
pub open spec fn same_requester(c: PairingChallengeView, requester: LanPeerView) -> bool {
    c.requester_id == requester.id && (is_blank(c.requester_public_key)
        || c.requester_public_key == requester.transport_public_key)
}

/// The challenge after one more wrong code.
pub open spec fn after_wrong_code(c: PairingChallengeView) -> Option<PairingChallengeView> {
    let attempts: u8 = if c.attempts == 255 {
        255
    } else {
        (c.attempts + 1) as u8
    };
    if attempts >= PAIRING_MAX_ATTEMPTS {
        None
    } else {
        Some(PairingChallengeView { attempts, ..c })
    }
}

/// Everything a `pair-confirm` leaves behind: the layout, the pending
/// challenge, and the result (the new layout, or the error text).
pub struct ConfirmOutcome {
    pub layout: ReceiverLayoutView,
    pub challenge: Option<PairingChallengeView>,
    pub result: Result<ReceiverLayoutView, Seq<char>>,
}

/// What a `pair-confirm` carrying `code`, `cluster_id` and `pair_secret` from
/// `requester` does, the pending challenge being `age_ms` old on the
/// monotonic clock, at wall-clock time `wall_ms`. The checks run in order:
/// all three fields present, a challenge pending, not expired, from the same
/// requester, the right code (a wrong one burns an attempt), and a client
/// layout.
pub open spec fn confirm_outcome(
    layout: ReceiverLayoutView,
    pending: Option<PairingChallengeView>,
    requester: LanPeerView,
    code: Seq<char>,
    cluster_id: Seq<char>,
    pair_secret: Seq<char>,
    age_ms: u64,
    wall_ms: u64,
) -> ConfirmOutcome {
    let c = pending->0;
    if is_blank(code) || is_blank(cluster_id) || is_blank(pair_secret) {
        ConfirmOutcome {
            layout,
            challenge: pending,
            result: Err("pairing confirm is missing the code or cluster info"@),
        }
    } else if pending is None {
        ConfirmOutcome { layout, challenge: pending, result: Err("no pairing challenge is pending"@) }
    } else if expired_after(age_ms) {
        ConfirmOutcome { layout, challenge: None, result: Err("the pairing code expired"@) }
    } else if !same_requester(c, requester) {
        ConfirmOutcome {
            layout,
            challenge: pending,
            result: Err("pairing confirm came from a different requester"@),
        }
    } else if c.code != trimmed(code) {
        ConfirmOutcome { layout, challenge: after_wrong_code(c), result: Err("incorrect pairing code"@) }
    } else if layout.machine_role != "client"@ {
        ConfirmOutcome {
            layout,
            challenge: None,
            result: Err("only a client can accept a server pairing"@),
        }
    } else {
        let next = paired_layout(layout, requester, cluster_id, pair_secret, wall_ms);
        ConfirmOutcome { layout: next, challenge: None, result: Ok(next) }
    }
}

/// The view of a confirm's result.
pub open spec fn confirm_result_view(r: Result<ReceiverLayout, String>) -> Result<ReceiverLayoutView, Seq<char>> {
    match r {
        Ok(l) => Ok(l@),
        Err(e) => Err(e@),
    }
}

/// Validates the code carried by `pair-confirm`, the pending challenge being
/// `age_ms` old on the monotonic clock, at wall-clock time `wall_ms` and, on
/// success, adopts the desktop's cluster id and pair secret and makes it the
/// only controller.
pub fn complete_pairing_from_confirm_at(
    layout: &mut ReceiverLayout,
    challenge: &mut Option<PairingChallenge>,
    requester: &LanPeer,
    code: Option<String>,
    cluster_id: Option<String>,
    pair_secret: Option<String>,
    age_ms: u64,
    wall_ms: u64,
) -> (res: Result<ReceiverLayout, String>)
    ensures
        confirm_outcome(
            old(layout)@,
            challenge_view(*old(challenge)),
            requester@,
            text_or_empty(code),
            text_or_empty(cluster_id),
            text_or_empty(pair_secret),
            age_ms,
            wall_ms,
        ) == (ConfirmOutcome {
            layout: final(layout)@,
            challenge: challenge_view(*final(challenge)),
            result: confirm_result_view(res),
        }),
{
    let code = take_text(code);
    let cluster_id = take_text(cluster_id);
    let pair_secret = take_text(pair_secret);
    if blank(code.as_str()) || blank(cluster_id.as_str()) || blank(pair_secret.as_str()) {
        return Err(owned("pairing confirm is missing the code or cluster info"));
    }
    let pending = challenge.take();
    let existing = match pending {
        Some(existing) => existing,
        None => {
            return Err(owned("no pairing challenge is pending"));
        },
    };
    if existing.is_expired_after(age_ms) {
        return Err(owned("the pairing code expired"));
    }
    if !text_eq(existing.requester_id.as_str(), requester.id.as_str()) || (!blank(
        existing.requester_public_key.as_str(),
    ) && !text_eq(
        existing.requester_public_key.as_str(),
        requester.transport_public_key.as_str(),
    )) {
        *challenge = Some(existing);
        return Err(owned("pairing confirm came from a different requester"));
    }
    let typed = trim(code.as_str());
    if !text_eq(existing.code.as_str(), typed.as_str()) {
        let attempts = existing.attempts.saturating_add(1);
        if attempts < PAIRING_MAX_ATTEMPTS {
            *challenge = Some(PairingChallenge { attempts, ..existing });
        }
        return Err(owned("incorrect pairing code"));
    }
    if !text_eq(layout.machine_role.as_str(), "client") {
        return Err(owned("only a client can accept a server pairing"));
    }
    let cid = trim(cluster_id.as_str());
    layout.cluster_id = cid;
    layout.pair_secret = trim(pair_secret.as_str());
    let record = PairedController {
        id: requester.id.clone(),
        name: requester.name.clone(),
        host: requester.host.clone(),
        ip: requester.ip.clone(),
        transport_public_key: requester.transport_public_key.clone(),
        protocol_version: requester.protocol_version,
        cluster_id: layout.cluster_id.clone(),
        paired_at_ms: wall_ms,
    };
    let mut controllers: Vec<PairedController> = Vec::new();
    controllers.push(record);
    layout.paired_controllers = controllers;
    assert(layout@.paired_controllers =~= seq![paired_record(requester@, trimmed(cluster_id@), wall_ms)]);
    Ok(layout.clone())
}

/// Validates a `pair-confirm` at the current time.
pub fn complete_pairing_from_confirm(
    layout: &mut ReceiverLayout,
    challenge: &mut Option<PairingChallenge>,
    requester: &LanPeer,
    code: Option<String>,
    cluster_id: Option<String>,
    pair_secret: Option<String>,
) -> (res: Result<ReceiverLayout, String>)
    ensures
        exists|age_ms: u64, wall_ms: u64|
            #[trigger] confirm_outcome(
                old(layout)@,
                challenge_view(*old(challenge)),
                requester@,
                text_or_empty(code),
                text_or_empty(cluster_id),
                text_or_empty(pair_secret),
                age_ms,
                wall_ms,
            ) == (ConfirmOutcome {
                layout: final(layout)@,
                challenge: challenge_view(*final(challenge)),
                result: confirm_result_view(res),
            }),
{
    let age_ms = challenge_age(challenge);
    let wall_ms = now_ms();
    complete_pairing_from_confirm_at(layout, challenge, requester, code, cluster_id, pair_secret, age_ms, wall_ms)
}

/// After a successful pairing, the paired desktop's own credentialled
/// packets are authorized: the cluster id and secret it sent, with its key
/// or its id as the origin.
pub proof fn lemma_pairing_authorizes_controller(
    layout: ReceiverLayoutView,
    requester: LanPeerView,
    cluster_id: Seq<char>,
    pair_secret: Seq<char>,
    now: u64,
)
    requires
        !is_blank(cluster_id),
        !is_blank(pair_secret),
        !is_blank(requester.transport_public_key) || !is_blank(requester.id),
    ensures
        crate::state::authorizes(
            paired_layout(layout, requester, cluster_id, pair_secret, now),
            trimmed(cluster_id),
            trimmed(pair_secret),
            requester.transport_public_key,
            requester.id,
        ),
        !paired_layout(layout, requester, cluster_id, pair_secret, now).pairing_required(),
{
    lemma_trimmed_not_blank(cluster_id);
    lemma_trimmed_not_blank(pair_secret);
    let l = paired_layout(layout, requester, cluster_id, pair_secret, now);
    assert(crate::state::controller_is_origin(
        l.paired_controllers[0],
        requester.transport_public_key,
        requester.id,
    ));
}

/// A wrong code burns exactly one attempt, and a challenge that survives it
/// has fewer than `PAIRING_MAX_ATTEMPTS` attempts: no code can be guessed at
/// more than that many times.
pub proof fn lemma_wrong_code_burns_an_attempt(c: PairingChallengeView)
    ensures
        after_wrong_code(c) matches Some(d) ==> d.attempts == c.attempts + 1 && d.attempts
            < PAIRING_MAX_ATTEMPTS && d.code == c.code,
        c.attempts + 1 >= PAIRING_MAX_ATTEMPTS ==> after_wrong_code(c) is None,
{
}

/// A confirm never changes the layout unless it succeeds, and a successful
/// one uses the challenge up.
pub proof fn lemma_confirm_is_all_or_nothing(
    layout: ReceiverLayoutView,
    pending: Option<PairingChallengeView>,
    requester: LanPeerView,
    code: Seq<char>,
    cluster_id: Seq<char>,
    pair_secret: Seq<char>,
    age_ms: u64,
    wall_ms: u64,
)
    ensures
        ({
            let o = confirm_outcome(layout, pending, requester, code, cluster_id, pair_secret, age_ms, wall_ms);
            &&& o.result is Err ==> o.layout == layout
            &&& o.result is Ok ==> o.challenge is None && o.result->Ok_0 == o.layout
        }),
{
}

/// A successful confirm leaves the requester as the one and only paired
/// controller, whatever controllers were stored before: its record carries
/// the requester's identity, the trimmed cluster id and the pairing time, the
/// layout takes the trimmed credentials, and from then on only the requester
/// (by its key or its id) is authorized to inject.
pub proof fn lemma_confirm_makes_the_requester_the_only_controller(
    layout: ReceiverLayoutView,
    pending: Option<PairingChallengeView>,
    requester: LanPeerView,
    code: Seq<char>,
    cluster_id: Seq<char>,
    pair_secret: Seq<char>,
    age_ms: u64,
    wall_ms: u64,
    origin_key: Seq<char>,
    origin_id: Seq<char>,
)
    requires
        confirm_outcome(layout, pending, requester, code, cluster_id, pair_secret, age_ms, wall_ms).result is Ok,
    ensures
        ({
            let l = confirm_outcome(
                layout,
                pending,
                requester,
                code,
                cluster_id,
                pair_secret,
                age_ms,
                wall_ms,
            ).result->Ok_0;
            &&& l.paired_controllers.len() == 1
            &&& l.paired_controllers[0].id == requester.id
            &&& l.paired_controllers[0].name == requester.name
            &&& l.paired_controllers[0].host == requester.host
            &&& l.paired_controllers[0].ip == requester.ip
            &&& l.paired_controllers[0].transport_public_key == requester.transport_public_key
            &&& l.paired_controllers[0].protocol_version == requester.protocol_version
            &&& l.paired_controllers[0].cluster_id == trimmed(cluster_id)
            &&& l.paired_controllers[0].paired_at_ms == wall_ms
            &&& l.cluster_id == trimmed(cluster_id)
            &&& l.pair_secret == trimmed(pair_secret)
            &&& l.machine_role == layout.machine_role
            &&& crate::state::authorizes(l, trimmed(cluster_id), trimmed(pair_secret), origin_key, origin_id)
                ==> (!is_blank(origin_key) && origin_key == requester.transport_public_key) || (!is_blank(
                origin_id,
            ) && origin_id == requester.id)
        }),
{
    let l = confirm_outcome(layout, pending, requester, code, cluster_id, pair_secret, age_ms, wall_ms).result->Ok_0;
    if crate::state::authorizes(l, trimmed(cluster_id), trimmed(pair_secret), origin_key, origin_id) {
        let i = choose|i: int|
            0 <= i < l.paired_controllers.len() && crate::state::controller_is_origin(
                #[trigger] l.paired_controllers[i],
                origin_key,
                origin_id,
            );
        assert(i == 0);
    }
}

/// A confirm succeeds only when every check passes: the code, cluster id
/// and secret are all given, a challenge is pending for this very requester
/// (same id, and same key when one was recorded), it has not expired, the
/// code matches it once trimmed, and this device is a client.
pub proof fn lemma_confirm_succeeds_only_with_the_right_code(
    layout: ReceiverLayoutView,
    pending: Option<PairingChallengeView>,
    requester: LanPeerView,
    code: Seq<char>,
    cluster_id: Seq<char>,
    pair_secret: Seq<char>,
    age_ms: u64,
    wall_ms: u64,
)
    ensures
        confirm_outcome(layout, pending, requester, code, cluster_id, pair_secret, age_ms, wall_ms).result is Ok
            <==> {
            &&& !is_blank(code) && !is_blank(cluster_id) && !is_blank(pair_secret)
            &&& pending is Some
            &&& age_ms < PAIRING_CODE_TTL_MS
            &&& pending->0.requester_id == requester.id
            &&& (is_blank(pending->0.requester_public_key) || pending->0.requester_public_key
                == requester.transport_public_key)
            &&& pending->0.code == trimmed(code)
            &&& layout.machine_role == "client"@
        },
{
}

/// The pairing handshake works end to end: when a client issues a six digit
/// code to a server, that server confirming with the code before it expires
/// (less than `PAIRING_CODE_TTL_MS` later on the monotonic clock) pairs the
/// device, and its credentialled input is then authorized.
pub proof fn lemma_shown_code_completes_pairing(
    pending: Option<PairingChallengeView>,
    layout: ReceiverLayoutView,
    requester: LanPeerView,
    requester_ip: Seq<char>,
    age_ms: u64,
    now: std::time::Instant,
    wall_ms: u64,
    fresh_code: Seq<char>,
    cluster_id: Seq<char>,
    pair_secret: Seq<char>,
    later_age_ms: u64,
    later_wall_ms: u64,
)
    requires
        begin_outcome(pending, layout, requester, requester_ip, age_ms, now, wall_ms, fresh_code).1 is Some,
        begin_outcome(pending, layout, requester, requester_ip, age_ms, now, wall_ms, fresh_code).1->0.code.len()
            == 6,
        crate::state::all_digits(
            begin_outcome(pending, layout, requester, requester_ip, age_ms, now, wall_ms, fresh_code).1->0.code,
        ),
        !expired_after(later_age_ms),
        !is_blank(cluster_id),
        !is_blank(pair_secret),
    ensures
        ({
            let (next, issued) = begin_outcome(
                pending,
                layout,
                requester,
                requester_ip,
                age_ms,
                now,
                wall_ms,
                fresh_code,
            );
            let o = confirm_outcome(
                layout,
                next,
                requester,
                issued->0.code,
                cluster_id,
                pair_secret,
                later_age_ms,
                later_wall_ms,
            );
            &&& o.result is Ok
            &&& o.layout == paired_layout(layout, requester, cluster_id, pair_secret, later_wall_ms)
            &&& o.challenge is None
            &&& (!is_blank(requester.transport_public_key) || !is_blank(requester.id))
                ==> crate::state::authorizes(
                o.layout,
                trimmed(cluster_id),
                trimmed(pair_secret),
                requester.transport_public_key,
                requester.id,
            )
        }),
{
    let (next, issued) = begin_outcome(pending, layout, requester, requester_ip, age_ms, now, wall_ms, fresh_code);
    let c = issued->0;
    assert('0' <= c.code[0] <= '9');
    assert('0' <= c.code[5] <= '9');
    assert(!is_blank(c.code)) by {
        assert(!crate::text::is_white_space(c.code[0]));
    }
    assert(trimmed(c.code) == c.code) by {
        assert(crate::text::strip_front(c.code, crate::text::CharClass::WhiteSpace) == c.code);
        assert(c.code.last() == c.code[5]);
    }
    if !is_blank(requester.transport_public_key) || !is_blank(requester.id) {
        lemma_pairing_authorizes_controller(layout, requester, cluster_id, pair_secret, later_wall_ms);
    }
}

// ---------------------------------------------------------------------------
// Identity checks
// ---------------------------------------------------------------------------

/// The stored controller has the peer's id or the peer's key (each only
/// counting when the peer's value is not blank).
pub open spec fn identity_matches(controller: PairedControllerView, peer: LanPeerView) -> bool {
    ||| !is_blank(peer.id) && controller.id == peer.id
    ||| !is_blank(peer.transport_public_key) && controller.transport_public_key
        == peer.transport_public_key
}

pub fn identity_matches_peer(controller: &PairedController, peer: &LanPeer) -> (res: bool)
    ensures
        res == identity_matches(controller@, peer@),
{
    (!blank(peer.id.as_str()) && text_eq(controller.id.as_str(), peer.id.as_str())) || (!blank(
        peer.transport_public_key.as_str(),
    ) && text_eq(controller.transport_public_key.as_str(), peer.transport_public_key.as_str()))
}

/// Both texts are non-blank and equal once trimmed, ignoring ASCII case.
pub open spec fn texts_match(left: Seq<char>, right: Seq<char>) -> bool {
    trimmed(left).len() > 0 && trimmed(right).len() > 0 && lower_seq(trimmed(left)) == lower_seq(
        trimmed(right),
    )
}

fn text_matches(left: &str, right: &str) -> (res: bool)
    ensures
        res == texts_match(left@, right@),
{
    let l = trim(left);
    let r = trim(right);
    chars_of(l.as_str()).len() != 0 && chars_of(r.as_str()).len() != 0 && eq_ignore_case(l.as_str(), r.as_str())
}

/// `s` cut at every `sep`, scanning from the front with the current piece `cur`.
pub open spec fn split_from(cur: Seq<char>, rest: Seq<char>, sep: char) -> Seq<Seq<char>>
    decreases rest.len(),
{
    if rest.len() == 0 {
        seq![cur]
    } else if rest[0] == sep {
        seq![cur] + split_from(Seq::empty(), rest.drop_first(), sep)
    } else {
        split_from(cur.push(rest[0]), rest.drop_first(), sep)
    }
}

/// `str::split(sep)`.
pub open spec fn split_on(s: Seq<char>, sep: char) -> Seq<Seq<char>> {
    split_from(Seq::empty(), s, sep)
}

/// The text, trimmed and ASCII-lowercased.
pub open spec fn folded(s: Seq<char>) -> Seq<char> {
    lower_seq(trimmed(s))
}

/// `host` (trimmed, ASCII case ignored) is non-empty and equals one of the
/// `/`-separated parts of `value` (each trimmed, ASCII case ignored).
pub open spec fn host_listed(value: Seq<char>, host: Seq<char>) -> bool {
    let parts = split_on(value, '/');
    folded(host).len() > 0 && exists|i: int| 0 <= i < parts.len() && folded(#[trigger] parts[i]) == folded(host)
}

fn same_host(value: &str, host: &str) -> (res: bool)
    ensures
        res == host_listed(value@, host@),
{
    let hv = chars_of(host);
    let h = lower_trimmed_range(&hv, 0, hv.len());
    assert(hv@.subrange(0, hv@.len() as int) =~= hv@);
    if h.len() == 0 {
        return false;
    }
    let v = chars_of(value);
    let ghost mut done: Seq<Seq<char>> = Seq::empty();
    let mut found = false;
    let mut start: usize = 0;
    let mut k: usize = 0;
    assert(v@.skip(0) =~= v@);
    assert(v@.subrange(0, 0) =~= Seq::<char>::empty());
    while k < v.len()
        invariant
            start <= k <= v.len(),
            v@ == value@,
            h@ == folded(host@),
            split_on(value@, '/') == done + split_from(v@.subrange(start as int, k as int), v@.skip(k as int), '/'),
            found == exists|i: int| 0 <= i < done.len() && folded(#[trigger] done[i]) == h@,
        decreases v.len() - k,
    {
        let ghost cur = v@.subrange(start as int, k as int);
        let ghost rest = v@.skip(k as int);
        assert(rest[0] == v@[k as int]);
        assert(rest.drop_first() =~= v@.skip(k + 1));
        if v[k] == '/' {
            let part = lower_trimmed_range(&v, start, k);
            let m = vec_eq(&part, &h);
            proof {
                assert(split_from(cur, rest, '/') == seq![cur] + split_from(Seq::empty(), v@.skip(k + 1), '/'));
                let nd = done.push(cur);
                assert(done + split_from(cur, rest, '/') =~= nd + split_from(Seq::empty(), v@.skip(k + 1), '/'));
                assert(nd[done.len() as int] == cur);
                if found {
                    let i = choose|i: int| 0 <= i < done.len() && folded(#[trigger] done[i]) == h@;
                    assert(nd[i] == done[i]);
                }
                if exists|i: int| 0 <= i < nd.len() && folded(#[trigger] nd[i]) == h@ {
                    let i = choose|i: int| 0 <= i < nd.len() && folded(#[trigger] nd[i]) == h@;
                    if i < done.len() {
                        assert(nd[i] == done[i]);
                    }
                }
                done = nd;
            }
            found = found || m;
            start = k + 1;
            assert(v@.subrange(start as int, (k + 1) as int) =~= Seq::<char>::empty());
        } else {
            assert(v@.subrange(start as int, (k + 1) as int) =~= cur.push(v@[k as int]));
        }
        k += 1;
    }
    let part = lower_trimmed_range(&v, start, k);
    let m = vec_eq(&part, &h);
    proof {
        let cur = v@.subrange(start as int, k as int);
        assert(v@.skip(k as int) =~= Seq::<char>::empty());
        let nd = done.push(cur);
        assert(done + seq![cur] =~= nd);
        assert(nd[done.len() as int] == cur);
        if found {
            let i = choose|i: int| 0 <= i < done.len() && folded(#[trigger] done[i]) == h@;
            assert(nd[i] == done[i]);
        }
        if exists|i: int| 0 <= i < nd.len() && folded(#[trigger] nd[i]) == h@ {
            let i = choose|i: int| 0 <= i < nd.len() && folded(#[trigger] nd[i]) == h@;
            if i < done.len() {
                assert(nd[i] == done[i]);
            }
        }
    }
    found || m
}

fn vec_eq(a: &Vec<char>, b: &Vec<char>) -> (res: bool)
    ensures
        res == (a@ == b@),
{
    if a.len() != b.len() {
        return false;
    }
    let mut i: usize = 0;
    while i < a.len()
        invariant
            i <= a.len() == b.len(),
            forall|k: int| 0 <= k < i ==> a@[k] == b@[k],
        decreases a.len() - i,
    {
        if a[i] != b[i] {
            return false;
        }
        i += 1;
    }
    assert(a@ =~= b@);
    true
}

/// A discovered peer is the stored controller (possibly with a rotated key or
/// a moved address): same identity, same name, or one host listed in the other.
pub open spec fn can_refresh(controller: PairedControllerView, peer: LanPeerView) -> bool {
    ||| identity_matches(controller, peer)
    ||| texts_match(controller.name, peer.name)
    ||| host_listed(controller.host, peer.host)
    ||| host_listed(peer.host, controller.host)
}

/// Whether a discovered peer may rewrite the stored controller record. An
/// address-only match is deliberately not enough: two instances on one PC
/// share an address.
pub fn can_refresh_controller_identity(controller: &PairedController, peer: &LanPeer) -> (res: bool)
    ensures
        res == can_refresh(controller@, peer@),
{
    identity_matches_peer(controller, peer) || text_matches(
        controller.name.as_str(),
        peer.name.as_str(),
    ) || same_host(controller.host.as_str(), peer.host.as_str()) || same_host(
        peer.host.as_str(),
        controller.host.as_str(),
    )
}

} // verus!
