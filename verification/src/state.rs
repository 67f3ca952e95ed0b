//! Receiver-side state that must stay wire-compatible with the desktop app:
//! the pairing half of the layout, input authorization, pairing codes and
//! the cache of recently authorized origins.

use vstd::prelude::*;

use crate::packet::{PairedController, PairedControllerView};
use crate::text::{blank, is_blank, owned, push_char, text_eq};

verus! {

/// Milliseconds since the Unix epoch (`SystemTime::now`), or 0 if the clock
/// is before the epoch. Nothing is stated of the value: it is the wall clock.
#[verifier::external_body]
pub fn now_ms() -> u64 {
    std::time::SystemTime::now().duration_since(std::time::UNIX_EPOCH).map(
        |duration| duration.as_millis() as u64,
    ).unwrap_or_default()
}

/// `std::time::Instant`: a reading of the monotonic clock, opaque here.
#[verifier::external_type_specification]
#[verifier::external_body]
pub struct ExInstant(std::time::Instant);

/// Reads the monotonic clock (`Instant::now`). Nothing is stated of the
/// reading: it is the clock.
#[verifier::external_body]
pub(crate) fn monotonic_now() -> std::time::Instant {
    std::time::Instant::now()
}

/// Whole milliseconds from `at` to now on the monotonic clock
/// (`Instant::elapsed`), saturating at `u64::MAX`. Nothing is stated of the
/// value: it is the clock.
#[verifier::external_body]
pub(crate) fn millis_since(at: std::time::Instant) -> u64 {
    u64::try_from(at.elapsed().as_millis()).unwrap_or(u64::MAX)
}

/// Four bytes from the operating system's secure random source
/// (`ring::rand::SystemRandom::fill`), or `None` when the source fails.
/// Nothing is stated of the bytes: they are random.
#[verifier::external_body]
fn secure_random_bytes() -> Option<[u8; 4]> {
    let rng = ring::rand::SystemRandom::new();
    let mut bytes = [0_u8; 4];
    match ring::rand::SecureRandom::fill(&rng, &mut bytes) {
        Ok(()) => Some(bytes),
        Err(_) => None,
    }
}

/// The ASCII digit for `d` (`d < 10`).
pub open spec fn digit_char(d: nat) -> char {
    ((d + 48) as u32) as char
}

/// The last `width` decimal digits of `n`, zero padded, most significant first.
pub open spec fn decimal_digits(n: nat, width: nat) -> Seq<char>
    decreases width,
{
    if width == 0 {
        Seq::empty()
    } else {
        decimal_digits(n / 10, (width - 1) as nat).push(digit_char(n % 10))
    }
}

/// How many codes a pairing code can be: one million.
pub const PAIRING_CODE_SPACE: u32 = 1_000_000;

/// The six digit code shown for the random value `value`: `value` modulo one
/// million, zero padded to six digits (`format!("{:06}", value % 1_000_000)`).
pub fn pairing_code_from(value: u32) -> (res: String)
    ensures
        res@ == decimal_digits((value % PAIRING_CODE_SPACE) as nat, 6),
{
    let n = value % PAIRING_CODE_SPACE;
    let mut digits: [u8; 6] = [0u8; 6];
    let mut rest = n;
    let mut k: usize = 6;
    assert(pow10(0) == 1);
    assert((n as nat) / 1 == n as nat);
    while k > 0
        invariant
            k <= 6,
            rest as nat == (n as nat) / pow10((6 - k) as nat),
            forall|j: int|
                k <= j < 6 ==> digits[j] as nat == ((n as nat) / pow10((5 - j) as nat)) % 10,
        decreases k,
    {
        proof {
            lemma_pow10_step((6 - k) as nat);
            vstd::arithmetic::div_mod::lemma_div_denominator(
                n as int,
                pow10((6 - k) as nat) as int,
                10,
            );
        }
        k -= 1;
        digits[k] = (rest % 10) as u8;
        rest = rest / 10;
    }
    let mut out = String::new();
    let mut i: usize = 0;
    while i < 6
        invariant
            i <= 6,
            forall|j: int| 0 <= j < 6 ==> digits[j] as nat == ((n as nat) / pow10((5 - j) as nat)) % 10,
            out@ == decimal_digits((n as nat) / pow10((6 - i) as nat), i as nat),
        decreases 6 - i,
    {
        proof {
            lemma_pow10_step((5 - i) as nat);
            vstd::arithmetic::div_mod::lemma_div_denominator(
                n as int,
                pow10((5 - i) as nat) as int,
                10,
            );
        }
        let d = digits[i];
        push_char(&mut out, ((d + 48) as u8) as char);
        i += 1;
    }
    assert(pow10(0) == 1);
    assert((n as nat) / 1 == n as nat);
    out
}

pub open spec fn pow10(k: nat) -> nat
    decreases k,
{
    if k == 0 {
        1
    } else {
        10 * pow10((k - 1) as nat)
    }
}

proof fn lemma_pow10_step(k: nat)
    ensures
        pow10(k + 1) == 10 * pow10(k),
        pow10(k) > 0,
    decreases k,
{
    if k > 0 {
        lemma_pow10_step((k - 1) as nat);
    }
}

/// Every character is an ASCII digit.
pub open spec fn all_digits(s: Seq<char>) -> bool {
    forall|i: int| 0 <= i < s.len() ==> '0' <= #[trigger] s[i] <= '9'
}

/// The number four bytes make read little-endian (`u32::from_le_bytes`).
pub open spec fn le_u32(b: Seq<u8>) -> nat {
    (b[0] as nat) + (b[1] as nat) * 0x100 + (b[2] as nat) * 0x1_0000 + (b[3] as nat) * 0x100_0000
}

/// The pairing code four random bytes give: read little-endian, modulo one
/// million, zero padded to six digits.
pub fn pairing_code_from_bytes(bytes: [u8; 4]) -> (res: String)
    ensures
        res@ == decimal_digits(le_u32(bytes@) % (PAIRING_CODE_SPACE as nat), 6),
{
    let value: u32 = (bytes[0] as u32) + (bytes[1] as u32) * 0x100 + (bytes[2] as u32) * 0x1_0000
        + (bytes[3] as u32) * 0x100_0000;
    assert(value as nat == le_u32(bytes@));
    pairing_code_from(value)
}

/// A fresh six digit pairing code: the code of four bytes from the secure
/// random source or, when that fails, of the low four bytes (little-endian)
/// of the clock in ms. Which bytes is left open; that the code is theirs,
/// and so six ASCII digits, is stated.
pub fn random_pairing_code() -> (res: String)
    ensures
        exists|b: Seq<u8>|
            b.len() == 4 && res@ == #[trigger] decimal_digits(
                le_u32(b) % (PAIRING_CODE_SPACE as nat),
                6,
            ),
        res@.len() == 6,
        all_digits(res@),
{
    let bytes: [u8; 4] = match secure_random_bytes() {
        Some(b) => b,
        None => {
            let t = now_ms();
            [(t % 0x100) as u8, ((t / 0x100) % 0x100) as u8, ((t / 0x1_0000) % 0x100) as u8, ((t
                / 0x100_0000) % 0x100) as u8]
        },
    };
    let code = pairing_code_from_bytes(bytes);
    proof {
        let n = le_u32(bytes@) % (PAIRING_CODE_SPACE as nat);
        lemma_decimal_digits_len(n, 6);
        lemma_decimal_digits_are_digits(n, 6);
    }
    code
}

pub proof fn lemma_decimal_digits_len(n: nat, width: nat)
    ensures
        decimal_digits(n, width).len() == width,
    decreases width,
{
    if width > 0 {
        lemma_decimal_digits_len(n / 10, (width - 1) as nat);
    }
}

pub proof fn lemma_decimal_digits_are_digits(n: nat, width: nat)
    ensures
        all_digits(decimal_digits(n, width)),
    decreases width,
{
    if width > 0 {
        lemma_decimal_digits_are_digits(n / 10, (width - 1) as nat);
        let s = decimal_digits(n, width);
        let t = decimal_digits(n / 10, (width - 1) as nat);
        assert forall|i: int| 0 <= i < s.len() implies '0' <= #[trigger] s[i] <= '9' by {
            if i < t.len() {
                assert(s[i] == t[i]);
            }
        }
    }
}


// ---------------------------------------------------------------------------
// The pairing half of the layout
// ---------------------------------------------------------------------------

/// The pairing-relevant half of the desktop's layout document: the fields
/// that decide whether an inbound input packet is authorised.
#[derive(Debug)]
pub struct ReceiverLayout {
    pub machine_role: String,
    pub cluster_id: String,
    pub pair_secret: String,
    pub paired_controllers: Vec<PairedController>,
}

pub struct ReceiverLayoutView {
    pub machine_role: Seq<char>,
    pub cluster_id: Seq<char>,
    pub pair_secret: Seq<char>,
    pub paired_controllers: Seq<PairedControllerView>,
}

impl View for ReceiverLayout {
    type V = ReceiverLayoutView;

    open spec fn view(&self) -> ReceiverLayoutView {
        ReceiverLayoutView {
            machine_role: self.machine_role@,
            cluster_id: self.cluster_id@,
            pair_secret: self.pair_secret@,
            paired_controllers: self.paired_controllers@.map_values(|c: PairedController| c@),
        }
    }
}

impl ReceiverLayoutView {
    /// A client with no controller has to be paired before it takes input.
    pub open spec fn pairing_required(self) -> bool {
        self.machine_role == "client"@ && self.paired_controllers.len() == 0
    }

    /// An unpaired client announces an empty cluster, so only servers talk to it.
    pub open spec fn advertised_cluster_id(self) -> Seq<char> {
        if self.pairing_required() {
            Seq::empty()
        } else {
            self.cluster_id
        }
    }

    /// The desktop may place a cursor on this screen.
    pub open spec fn input_ready(self) -> bool {
        !self.pairing_required() && !is_blank(self.cluster_id)
    }

    pub open spec fn is_paired(self) -> bool {
        self.paired_controllers.len() > 0 && !is_blank(self.cluster_id)
    }

    /// A fresh, unpaired client layout.
    pub open spec fn unpaired() -> ReceiverLayoutView {
        ReceiverLayoutView {
            machine_role: "client"@,
            cluster_id: Seq::empty(),
            pair_secret: Seq::empty(),
            paired_controllers: Seq::empty(),
        }
    }
}

/// The machine role a layout has when it does not say.
fn default_machine_role() -> (res: String)
    ensures
        res@ == "client"@,
{
    owned("client")
}

impl Clone for ReceiverLayout {
    fn clone(&self) -> (res: Self)
        ensures
            res@ == self@,
    {
        let controllers = self.paired_controllers.clone();
        assert(controllers@.map_values(|c: PairedController| c@) =~= self.paired_controllers@.map_values(
            |c: PairedController| c@,
        ));
        ReceiverLayout {
            machine_role: self.machine_role.clone(),
            cluster_id: self.cluster_id.clone(),
            pair_secret: self.pair_secret.clone(),
            paired_controllers: controllers,
        }
    }
}

impl Default for ReceiverLayout {
    fn default() -> (res: Self)
        ensures
            res@ == ReceiverLayoutView::unpaired(),
    {
        Self::new_unpaired()
    }
}

impl ReceiverLayout {
    pub fn new_unpaired() -> (res: Self)
        ensures
            res@ == ReceiverLayoutView::unpaired(),
    {
        let res = ReceiverLayout {
            machine_role: default_machine_role(),
            cluster_id: String::new(),
            pair_secret: String::new(),
            paired_controllers: Vec::new(),
        };
        assert(res@.paired_controllers =~= Seq::<PairedControllerView>::empty());
        res
    }

    pub fn pairing_required(&self) -> (res: bool)
        ensures
            res == self@.pairing_required(),
    {
        text_eq(self.machine_role.as_str(), "client") && self.paired_controllers.len() == 0
    }

    pub fn advertised_cluster_id(&self) -> (res: String)
        ensures
            res@ == self@.advertised_cluster_id(),
    {
        if self.pairing_required() {
            String::new()
        } else {
            self.cluster_id.clone()
        }
    }

    pub fn input_ready(&self) -> (res: bool)
        ensures
            res == self@.input_ready(),
    {
        !self.pairing_required() && !blank(self.cluster_id.as_str())
    }

    pub fn is_paired(&self) -> (res: bool)
        ensures
            res == self@.is_paired(),
    {
        self.paired_controllers.len() != 0 && !blank(self.cluster_id.as_str())
    }
}

// ---------------------------------------------------------------------------
// Input authorization
// ---------------------------------------------------------------------------

/// A stored controller is the origin named by a packet: its key or its id
/// matches a non-blank value the packet carries.
pub open spec fn controller_is_origin(
    controller: PairedControllerView,
    origin_key: Seq<char>,
    origin_id: Seq<char>,
) -> bool {
    ||| !is_blank(origin_key) && controller.transport_public_key == origin_key
    ||| !is_blank(origin_id) && controller.id == origin_id
}

/// Authority to inject: the layout holds real credentials, the packet
/// carries exactly those, and it comes from one of the paired controllers.
pub open spec fn authorizes(
    layout: ReceiverLayoutView,
    cluster_id: Seq<char>,
    pair_secret: Seq<char>,
    origin_key: Seq<char>,
    origin_id: Seq<char>,
) -> bool {
    &&& !is_blank(layout.cluster_id)
    &&& !is_blank(layout.pair_secret)
    &&& cluster_id == layout.cluster_id
    &&& pair_secret == layout.pair_secret
    &&& exists|i: int|
        0 <= i < layout.paired_controllers.len() && controller_is_origin(
            #[trigger] layout.paired_controllers[i],
            origin_key,
            origin_id,
        )
}

fn is_origin(controller: &PairedController, origin_key: &str, origin_id: &str) -> (res: bool)
    ensures
        res == controller_is_origin(controller@, origin_key@, origin_id@),
{
    (!blank(origin_key) && text_eq(controller.transport_public_key.as_str(), origin_key)) || (
    !blank(origin_id) && text_eq(controller.id.as_str(), origin_id))
}

/// Whether a packet with these credentials and this origin may inject.
pub fn input_authorized(
    layout: &ReceiverLayout,
    cluster_id: &str,
    pair_secret: &str,
    origin_transport_public_key: &str,
    origin_device_id: &str,
) -> (res: bool)
    ensures
        res == authorizes(
            layout@,
            cluster_id@,
            pair_secret@,
            origin_transport_public_key@,
            origin_device_id@,
        ),
{
    if blank(layout.cluster_id.as_str()) || blank(layout.pair_secret.as_str()) {
        return false;
    }
    if !text_eq(cluster_id, layout.cluster_id.as_str()) || !text_eq(
        pair_secret,
        layout.pair_secret.as_str(),
    ) {
        return false;
    }
    let n = layout.paired_controllers.len();
    let mut i: usize = 0;
    while i < n
        invariant
            i <= n == layout.paired_controllers@.len(),
            !is_blank(layout@.cluster_id),
            !is_blank(layout@.pair_secret),
            cluster_id@ == layout@.cluster_id,
            pair_secret@ == layout@.pair_secret,
            forall|j: int|
                0 <= j < i ==> !controller_is_origin(
                    #[trigger] layout@.paired_controllers[j],
                    origin_transport_public_key@,
                    origin_device_id@,
                ),
        decreases n - i,
    {
        if is_origin(&layout.paired_controllers[i], origin_transport_public_key, origin_device_id) {
            assert(layout@.paired_controllers[i as int] == layout.paired_controllers@[i as int]@);
            return true;
        }
        i += 1;
    }
    false
}

/// An unpaired layout authorizes nothing, whatever a packet carries.
pub proof fn lemma_unpaired_authorizes_nothing(
    cluster_id: Seq<char>,
    pair_secret: Seq<char>,
    origin_key: Seq<char>,
    origin_id: Seq<char>,
)
    ensures
        !authorizes(ReceiverLayoutView::unpaired(), cluster_id, pair_secret, origin_key, origin_id),
{
}

/// A layout that needs pairing advertises no cluster, and a layout that takes
/// input does not need pairing.
pub proof fn lemma_layout_flags(layout: ReceiverLayoutView)
    ensures
        layout.pairing_required() ==> layout.advertised_cluster_id().len() == 0,
        layout.input_ready() ==> !layout.pairing_required(),
        layout.pairing_required() ==> !layout.input_ready(),
{
}

/// Only a paired layout that takes input authorizes anything: whatever a
/// packet carries, an authorized one implies `is_paired` and `input_ready`.
pub proof fn lemma_authorization_needs_pairing(
    layout: ReceiverLayoutView,
    cluster_id: Seq<char>,
    pair_secret: Seq<char>,
    origin_key: Seq<char>,
    origin_id: Seq<char>,
)
    requires
        authorizes(layout, cluster_id, pair_secret, origin_key, origin_id),
    ensures
        layout.is_paired(),
        layout.input_ready(),
{
}

// ---------------------------------------------------------------------------
// Recently authorized origins
// ---------------------------------------------------------------------------

/// How long a credentialled packet vouches for its source address.
pub const INPUT_ORIGIN_CACHE_TTL_MS: u64 = 30_000;

/// Milliseconds from `at` to `now`, zero if `now` is earlier.
pub open spec fn elapsed(at: u64, now: u64) -> int {
    if now >= at {
        now - at
    } else {
        0
    }
}

/// An authorization recorded at `at` still holds at `now`.
pub open spec fn still_fresh(at: u64, now: u64) -> bool {
    elapsed(at, now) < INPUT_ORIGIN_CACHE_TTL_MS
}

/// The source addresses that recently proved the pairing secret, so the
/// steady-state credential-less datagrams can still be trusted. Each entry is
/// a source address and the time (in ms) it proved the secret.
#[derive(Debug)]
pub struct OriginCache {
    entries: Vec<(String, u64)>,
}

pub open spec fn entry_view(e: (String, u64)) -> (Seq<char>, u64) {
    (e.0@, e.1)
}

impl View for OriginCache {
    type V = Seq<(Seq<char>, u64)>;

    closed spec fn view(&self) -> Seq<(Seq<char>, u64)> {
        self.entries@.map_values(|e: (String, u64)| entry_view(e))
    }
}

/// The entries of `s` that are still fresh at `now` and are not for `source`.
pub open spec fn kept_entries(s: Seq<(Seq<char>, u64)>, source: Seq<char>, now: u64) -> Seq<(Seq<char>, u64)>
    decreases s.len(),
{
    if s.len() == 0 {
        s
    } else {
        let rest = kept_entries(s.drop_last(), source, now);
        if still_fresh(s.last().1, now) && s.last().0 != source {
            rest.push(s.last())
        } else {
            rest
        }
    }
}

/// `source` is vouched for at `now` by the entries `s`.
pub open spec fn fresh_in(s: Seq<(Seq<char>, u64)>, source: Seq<char>, now: u64) -> bool {
    exists|i: int| 0 <= i < s.len() && (#[trigger] s[i]).0 == source && still_fresh(s[i].1, now)
}

impl Default for OriginCache {
    fn default() -> (res: Self)
        ensures
            res@.len() == 0,
    {
        let res = OriginCache { entries: Vec::new() };
        assert(res@ =~= Seq::<(Seq<char>, u64)>::empty());
        res
    }
}

impl OriginCache {
    /// Records that `source` proved the secret at `now`, dropping entries
    /// that have gone stale by then.
    pub fn remember(&mut self, source: &str, now: u64)
        ensures
            final(self)@ == kept_entries(old(self)@, source@, now).push((source@, now)),
    {
        let ghost old_view = self@;
        let mut kept: Vec<(String, u64)> = Vec::new();
        let n = self.entries.len();
        let mut i: usize = 0;
        while i < n
            invariant
                i <= n == self.entries@.len(),
                old_view == self.entries@.map_values(|e: (String, u64)| entry_view(e)),
                kept@.map_values(|e: (String, u64)| entry_view(e)) == kept_entries(
                    old_view.take(i as int),
                    source@,
                    now,
                ),
            decreases n - i,
        {
            let at = self.entries[i].1;
            let ghost before = kept@;
            assert(old_view.take(i + 1).drop_last() =~= old_view.take(i as int));
            assert(old_view.take(i + 1).last() == entry_view(self.entries@[i as int]));
            if at < now && now - at >= INPUT_ORIGIN_CACHE_TTL_MS {
            } else if text_eq(self.entries[i].0.as_str(), source) {
            } else {
                kept.push((self.entries[i].0.clone(), at));
                assert(kept@.map_values(|e: (String, u64)| entry_view(e)) =~= before.map_values(
                    |e: (String, u64)| entry_view(e),
                ).push(entry_view(self.entries@[i as int])));
            }
            i += 1;
        }
        assert(old_view.take(n as int) =~= old_view);
        let ghost kept_view = kept@;
        kept.push((owned(source), now));
        assert(kept@.map_values(|e: (String, u64)| entry_view(e)) =~= kept_view.map_values(
            |e: (String, u64)| entry_view(e),
        ).push((source@, now)));
        self.entries = kept;
    }

    /// `source` proved the secret within the last `INPUT_ORIGIN_CACHE_TTL_MS`.
    pub fn is_fresh(&self, source: &str, now: u64) -> (res: bool)
        ensures
            res == fresh_in(self@, source@, now),
    {
        let n = self.entries.len();
        let mut i: usize = 0;
        while i < n
            invariant
                i <= n == self.entries@.len(),
                forall|j: int|
                    0 <= j < i ==> !((#[trigger] self@[j]).0 == source@ && still_fresh(
                        self@[j].1,
                        now,
                    )),
            decreases n - i,
        {
            let at = self.entries[i].1;
            assert(self@[i as int] == entry_view(self.entries@[i as int]));
            if text_eq(self.entries[i].0.as_str(), source) && !(at < now && now - at
                >= INPUT_ORIGIN_CACHE_TTL_MS) {
                return true;
            }
            i += 1;
        }
        false
    }
}

/// After `remember(source, now)`, `source` is fresh for the whole time to
/// live, and no other source became fresh that was not fresh before.
pub proof fn lemma_remember_then_fresh(
    cache: Seq<(Seq<char>, u64)>,
    source: Seq<char>,
    now: u64,
    later: u64,
    other: Seq<char>,
)
    ensures
        now <= later < now + INPUT_ORIGIN_CACHE_TTL_MS ==> fresh_in(
            kept_entries(cache, source, now).push((source, now)),
            source,
            later,
        ),
        other != source && fresh_in(kept_entries(cache, source, now).push((source, now)), other, later)
            ==> fresh_in(cache, other, later),
{
    let after = kept_entries(cache, source, now).push((source, now));
    if now <= later < now + INPUT_ORIGIN_CACHE_TTL_MS {
        assert(after[after.len() - 1] == (source, now));
    }
    if other != source && fresh_in(after, other, later) {
        let i = choose|i: int|
            0 <= i < after.len() && (#[trigger] after[i]).0 == other && still_fresh(after[i].1, later);
        lemma_kept_entries_from(cache, source, now, i);
    }
}

proof fn lemma_kept_entries_from(s: Seq<(Seq<char>, u64)>, source: Seq<char>, now: u64, i: int)
    requires
        0 <= i < kept_entries(s, source, now).len(),
    ensures
        exists|j: int| 0 <= j < s.len() && #[trigger] s[j] == kept_entries(s, source, now)[i],
    decreases s.len(),
{
    let rest = kept_entries(s.drop_last(), source, now);
    if i < rest.len() {
        lemma_kept_entries_from(s.drop_last(), source, now, i);
        let j = choose|j: int| 0 <= j < s.drop_last().len() && #[trigger] s.drop_last()[j] == rest[i];
        assert(s[j] == s.drop_last()[j]);
    } else {
        assert(s[s.len() - 1] == s.last());
    }
}

} // verus!
