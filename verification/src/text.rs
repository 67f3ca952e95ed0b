//! Character-level text handling shared by the protocol code: trimming,
//! ASCII case folding and building strings from characters.

use vstd::prelude::*;

verus! {

/// Unicode `White_Space`: the set that `char::is_whitespace` and `str::trim`
/// strip.
pub open spec fn is_white_space(c: char) -> bool {
    let u = c as u32;
    ||| 0x09 <= u <= 0x0d
    ||| u == 0x20
    ||| u == 0x85
    ||| u == 0xa0
    ||| u == 0x1680
    ||| 0x2000 <= u <= 0x200a
    ||| u == 0x2028
    ||| u == 0x2029
    ||| u == 0x202f
    ||| u == 0x205f
    ||| u == 0x3000
}

/// The two kinds of characters this crate strips from both ends of a text.
#[derive(Clone, Copy, PartialEq, Eq, Debug)]
pub enum CharClass {
    WhiteSpace,
    Dash,
}

pub open spec fn in_class(class: CharClass, c: char) -> bool {
    match class {
        CharClass::WhiteSpace => is_white_space(c),
        CharClass::Dash => c == '-',
    }
}

/// `s` without its leading characters of `class`.
pub open spec fn strip_front(s: Seq<char>, class: CharClass) -> Seq<char>
    decreases s.len(),
{
    if s.len() > 0 && in_class(class, s[0]) {
        strip_front(s.drop_first(), class)
    } else {
        s
    }
}

/// `s` without its trailing characters of `class`.
pub open spec fn strip_back(s: Seq<char>, class: CharClass) -> Seq<char>
    decreases s.len(),
{
    if s.len() > 0 && in_class(class, s.last()) {
        strip_back(s.drop_last(), class)
    } else {
        s
    }
}

/// `s` with the characters of `class` removed from both ends.
pub open spec fn strip(s: Seq<char>, class: CharClass) -> Seq<char> {
    strip_back(strip_front(s, class), class)
}

/// What `str::trim` returns.
pub open spec fn trimmed(s: Seq<char>) -> Seq<char> {
    strip(s, CharClass::WhiteSpace)
}

/// Every character is white space (so `trim` leaves nothing).
pub open spec fn is_blank(s: Seq<char>) -> bool {
    forall|i: int| 0 <= i < s.len() ==> is_white_space(#[trigger] s[i])
}

/// What `char::to_ascii_lowercase` returns.
pub open spec fn ascii_lower(c: char) -> char {
    if 'A' <= c <= 'Z' {
        ((c as u32) + 32) as char
    } else {
        c
    }
}

/// What `str::to_ascii_lowercase` returns.
pub open spec fn lower_seq(s: Seq<char>) -> Seq<char> {
    s.map_values(|c: char| ascii_lower(c))
}

/// What `char::is_ascii_alphanumeric` returns.
pub open spec fn is_ascii_alnum(c: char) -> bool {
    ||| '0' <= c <= '9'
    ||| 'A' <= c <= 'Z'
    ||| 'a' <= c <= 'z'
}

proof fn lemma_strip_front_at(s: Seq<char>, class: CharClass, i: int)
    requires
        0 <= i <= s.len(),
        forall|k: int| 0 <= k < i ==> in_class(class, #[trigger] s[k]),
        i == s.len() || !in_class(class, s[i]),
    ensures
        strip_front(s, class) == s.skip(i),
    decreases i,
{
    if i == 0 {
        assert(s.skip(0) =~= s);
    } else {
        let t = s.drop_first();
        assert forall|k: int| 0 <= k < i - 1 implies in_class(class, #[trigger] t[k]) by {
            assert(t[k] == s[k + 1]);
        }
        lemma_strip_front_at(t, class, i - 1);
        assert(t.skip(i - 1) =~= s.skip(i));
    }
}

proof fn lemma_strip_back_at(s: Seq<char>, class: CharClass, j: int)
    requires
        0 <= j <= s.len(),
        forall|k: int| j <= k < s.len() ==> in_class(class, #[trigger] s[k]),
        j == 0 || !in_class(class, s[j - 1]),
    ensures
        strip_back(s, class) == s.take(j),
    decreases s.len() - j,
{
    if j == s.len() {
        assert(s.take(j) =~= s);
    } else {
        let t = s.drop_last();
        assert forall|k: int| j <= k < t.len() implies in_class(class, #[trigger] t[k]) by {
            assert(t[k] == s[k]);
        }
        lemma_strip_back_at(t, class, j);
        assert(t.take(j) =~= s.take(j));
    }
}

/// Nothing is left after stripping exactly when every character is of the class.
pub proof fn lemma_strip_empty(s: Seq<char>, class: CharClass)
    ensures
        strip(s, class).len() == 0 <==> forall|i: int|
            0 <= i < s.len() ==> in_class(class, #[trigger] s[i]),
    decreases s.len(),
{
    if s.len() > 0 {
        if in_class(class, s[0]) {
            lemma_strip_empty(s.drop_first(), class);
            assert(strip(s, class) == strip(s.drop_first(), class));
            if forall|i: int| 0 <= i < s.len() - 1 ==> in_class(class, #[trigger] s.drop_first()[i]) {
                assert forall|i: int| 0 <= i < s.len() implies in_class(class, #[trigger] s[i]) by {
                    if i > 0 {
                        assert(s[i] == s.drop_first()[i - 1]);
                    }
                }
            } else {
                let k = choose|i: int|
                    0 <= i < s.len() - 1 && !in_class(class, #[trigger] s.drop_first()[i]);
                assert(s[k + 1] == s.drop_first()[k]);
            }
        } else {
            assert(strip_front(s, class) == s);
            lemma_strip_back_nonempty(s, class);
        }
    }
}

proof fn lemma_strip_back_nonempty(s: Seq<char>, class: CharClass)
    requires
        s.len() > 0,
        !in_class(class, s[0]),
    ensures
        strip_back(s, class).len() > 0,
    decreases s.len(),
{
    if in_class(class, s.last()) {
        if s.len() > 1 {
            lemma_strip_back_nonempty(s.drop_last(), class);
        }
    }
}

/// A text is blank exactly when trimming leaves nothing.
pub proof fn lemma_blank_iff_trimmed_empty(s: Seq<char>)
    ensures
        is_blank(s) <==> trimmed(s).len() == 0,
{
    lemma_strip_empty(s, CharClass::WhiteSpace);
}


proof fn lemma_strip_front_head(s: Seq<char>, class: CharClass)
    ensures
        strip_front(s, class).len() > 0 ==> !in_class(class, strip_front(s, class)[0]),
    decreases s.len(),
{
    if s.len() > 0 && in_class(class, s[0]) {
        lemma_strip_front_head(s.drop_first(), class);
    }
}

proof fn lemma_strip_back_head(s: Seq<char>, class: CharClass)
    requires
        s.len() > 0,
        !in_class(class, s[0]),
    ensures
        strip_back(s, class).len() > 0,
        strip_back(s, class)[0] == s[0],
    decreases s.len(),
{
    if in_class(class, s.last()) && s.len() > 1 {
        lemma_strip_back_head(s.drop_last(), class);
    }
}

/// Trimming a text that is not blank leaves a text that is not blank.
pub proof fn lemma_trimmed_not_blank(s: Seq<char>)
    ensures
        !is_blank(s) ==> trimmed(s).len() > 0 && !is_blank(trimmed(s)),
{
    if !is_blank(s) {
        lemma_strip_empty(s, CharClass::WhiteSpace);
        let f = strip_front(s, CharClass::WhiteSpace);
        assert(f.len() > 0);
        lemma_strip_front_head(s, CharClass::WhiteSpace);
        lemma_strip_back_head(f, CharClass::WhiteSpace);
        assert(!is_white_space(trimmed(s)[0]));
    }
}

/// Whether `c` is Unicode white space.
pub fn white_space(c: char) -> (res: bool)
    ensures
        res == is_white_space(c),
{
    let u = c as u32;
    (0x09 <= u && u <= 0x0d) || u == 0x20 || u == 0x85 || u == 0xa0 || u == 0x1680 || (0x2000
        <= u && u <= 0x200a) || u == 0x2028 || u == 0x2029 || u == 0x202f || u == 0x205f || u
        == 0x3000
}

/// Whether `c` belongs to `class`.
pub fn char_in_class(class: CharClass, c: char) -> (res: bool)
    ensures
        res == in_class(class, c),
{
    match class {
        CharClass::WhiteSpace => white_space(c),
        CharClass::Dash => c == '-',
    }
}

/// `char::to_ascii_lowercase`.
pub fn lower_char(c: char) -> (res: char)
    ensures
        res == ascii_lower(c),
{
    let u = c as u32;
    if 0x41 <= u && u <= 0x5a {
        let b = (u + 32) as u8;
        b as char
    } else {
        c
    }
}

/// `char::is_ascii_alphanumeric`.
pub fn ascii_alnum(c: char) -> (res: bool)
    ensures
        res == is_ascii_alnum(c),
{
    let u = c as u32;
    (0x30 <= u && u <= 0x39) || (0x41 <= u && u <= 0x5a) || (0x61 <= u && u <= 0x7a)
}

/// The characters of a string slice, in order.
pub fn chars_of(s: &str) -> (res: Vec<char>)
    ensures
        res@ == s@,
{
    let mut out: Vec<char> = Vec::new();
    for c in it: s.chars()
        invariant
            out@ == it.seq().take(it.index() as int),
    {
        out.push(c);
    }
    out
}

/// Appends one character with `String::push`; the contract claims what its
/// documentation says: afterwards the string holds its old characters followed
/// by `c`.
#[verifier::external_body]
pub(crate) fn push_char(s: &mut String, c: char)
    ensures
        final(s)@ == old(s)@.push(c),
{
    s.push(c);
}

/// A string holding `v[lo..hi]`.
pub fn string_from_range(v: &Vec<char>, lo: usize, hi: usize) -> (res: String)
    requires
        lo <= hi <= v.len(),
    ensures
        res@ == v@.subrange(lo as int, hi as int),
{
    let mut out = String::new();
    let mut i = lo;
    while i < hi
        invariant
            lo <= i <= hi <= v.len(),
            out@ == v@.subrange(lo as int, i as int),
        decreases hi - i,
    {
        push_char(&mut out, v[i]);
        assert(v@.subrange(lo as int, i + 1) =~= v@.subrange(lo as int, i as int).push(v@[i as int]));
        i += 1;
    }
    out
}

/// A string holding the characters of `s`.
pub fn owned(s: &str) -> (res: String)
    ensures
        res@ == s@,
{
    s.to_owned()
}

/// The bounds of `v` once the characters of `class` are stripped from both ends.
pub fn strip_bounds(v: &Vec<char>, class: CharClass) -> (res: (usize, usize))
    ensures
        res.0 <= res.1 <= v.len(),
        strip(v@, class) == v@.subrange(res.0 as int, res.1 as int),
{
    let mut start: usize = 0;
    while start < v.len() && char_in_class(class, v[start])
        invariant
            start <= v.len(),
            forall|k: int| 0 <= k < start ==> in_class(class, #[trigger] v@[k]),
        decreases v.len() - start,
    {
        start += 1;
    }
    proof {
        lemma_strip_front_at(v@, class, start as int);
    }
    let mut end: usize = v.len();
    while end > start && char_in_class(class, v[end - 1])
        invariant
            start <= end <= v.len(),
            forall|k: int| end <= k < v.len() ==> in_class(class, #[trigger] v@[k]),
        decreases end,
    {
        end -= 1;
    }
    proof {
        let t = v@.skip(start as int);
        let j = (end - start) as int;
        assert forall|k: int| j <= k < t.len() implies in_class(class, #[trigger] t[k]) by {
            assert(t[k] == v@[k + start]);
        }
        if j > 0 {
            assert(t[j - 1] == v@[end - 1]);
        }
        lemma_strip_back_at(t, class, j);
        assert(t.take(j) =~= v@.subrange(start as int, end as int));
    }
    (start, end)
}

/// `str::trim`: `s` without leading and trailing white space.
pub fn trim(s: &str) -> (res: String)
    ensures
        res@ == trimmed(s@),
{
    let v = chars_of(s);
    let (lo, hi) = strip_bounds(&v, CharClass::WhiteSpace);
    string_from_range(&v, lo, hi)
}

/// `s.trim().is_empty()`: `s` is empty or white space only.
pub fn blank(s: &str) -> (res: bool)
    ensures
        res == is_blank(s@),
        res == (trimmed(s@).len() == 0),
{
    let v = chars_of(s);
    let mut i: usize = 0;
    while i < v.len()
        invariant
            i <= v.len(),
            v@ == s@,
            forall|k: int| 0 <= k < i ==> is_white_space(#[trigger] v@[k]),
        decreases v.len() - i,
    {
        if !white_space(v[i]) {
            proof {
                lemma_blank_iff_trimmed_empty(s@);
            }
            return false;
        }
        i += 1;
    }
    proof {
        lemma_blank_iff_trimmed_empty(s@);
    }
    true
}

/// Whether two texts hold the same characters.
pub fn text_eq(a: &str, b: &str) -> (res: bool)
    ensures
        res == (a@ == b@),
{
    let va = chars_of(a);
    let vb = chars_of(b);
    if va.len() != vb.len() {
        return false;
    }
    let mut i: usize = 0;
    while i < va.len()
        invariant
            i <= va.len() == vb.len(),
            va@ == a@,
            vb@ == b@,
            forall|k: int| 0 <= k < i ==> va@[k] == vb@[k],
        decreases va.len() - i,
    {
        if va[i] != vb[i] {
            return false;
        }
        i += 1;
    }
    assert(va@ =~= vb@);
    true
}

/// `str::to_ascii_lowercase`.
pub fn to_lower(s: &str) -> (res: String)
    ensures
        res@ == lower_seq(s@),
{
    let v = chars_of(s);
    let mut out = String::new();
    let mut i: usize = 0;
    while i < v.len()
        invariant
            i <= v.len(),
            v@ == s@,
            out@ == lower_seq(v@.take(i as int)),
        decreases v.len() - i,
    {
        push_char(&mut out, lower_char(v[i]));
        assert(lower_seq(v@.take(i + 1)) =~= lower_seq(v@.take(i as int)).push(ascii_lower(v@[i as int])));
        i += 1;
    }
    assert(v@.take(v.len() as int) =~= v@);
    out
}


/// `v[lo..hi]`, trimmed and ASCII-lowercased.
pub fn lower_trimmed_range(v: &Vec<char>, lo: usize, hi: usize) -> (res: Vec<char>)
    requires
        lo <= hi <= v.len(),
    ensures
        res@ == lower_seq(trimmed(v@.subrange(lo as int, hi as int))),
{
    let mut part: Vec<char> = Vec::new();
    let mut i = lo;
    while i < hi
        invariant
            lo <= i <= hi <= v.len(),
            part@ == v@.subrange(lo as int, i as int),
        decreases hi - i,
    {
        part.push(v[i]);
        assert(v@.subrange(lo as int, i + 1) =~= v@.subrange(lo as int, i as int).push(v@[i as int]));
        i += 1;
    }
    let (a, b) = strip_bounds(&part, CharClass::WhiteSpace);
    let mut out: Vec<char> = Vec::new();
    let mut j = a;
    while j < b
        invariant
            a <= j <= b <= part.len(),
            out@ == lower_seq(part@.subrange(a as int, j as int)),
        decreases b - j,
    {
        out.push(lower_char(part[j]));
        assert(lower_seq(part@.subrange(a as int, j + 1)) =~= lower_seq(part@.subrange(a as int, j as int)).push(ascii_lower(part@[j as int])));
        j += 1;
    }
    out
}

/// `str::eq_ignore_ascii_case`.
pub fn eq_ignore_case(a: &str, b: &str) -> (res: bool)
    ensures
        res == (lower_seq(a@) == lower_seq(b@)),
{
    let la = to_lower(a);
    let lb = to_lower(b);
    la == lb
}

// ---------------------------------------------------------------------------
// Ordering and decimal text
// ---------------------------------------------------------------------------

/// `a < b` as `str` orders them: character by character (UTF-8 byte order is
/// code point order), a proper prefix first.
pub open spec fn text_less(a: Seq<char>, b: Seq<char>) -> bool
    decreases a.len(),
{
    if a.len() == 0 {
        b.len() > 0
    } else if b.len() == 0 {
        false
    } else if a[0] != b[0] {
        a[0] < b[0]
    } else {
        text_less(a.drop_first(), b.drop_first())
    }
}

proof fn lemma_text_less_irreflexive(a: Seq<char>)
    ensures
        !text_less(a, a),
    decreases a.len(),
{
    if a.len() > 0 {
        lemma_text_less_irreflexive(a.drop_first());
    }
}

proof fn lemma_text_less_asymmetric(a: Seq<char>, b: Seq<char>)
    ensures
        text_less(a, b) ==> !text_less(b, a),
    decreases a.len(),
{
    if a.len() > 0 && b.len() > 0 && a[0] == b[0] {
        lemma_text_less_asymmetric(a.drop_first(), b.drop_first());
    }
}

proof fn lemma_text_less_transitive(a: Seq<char>, b: Seq<char>, c: Seq<char>)
    ensures
        text_less(a, b) && text_less(b, c) ==> text_less(a, c),
    decreases a.len(),
{
    if a.len() > 0 && b.len() > 0 && c.len() > 0 {
        lemma_text_less_transitive(a.drop_first(), b.drop_first(), c.drop_first());
    }
}

proof fn lemma_text_less_total(a: Seq<char>, b: Seq<char>)
    ensures
        a != b ==> text_less(a, b) || text_less(b, a),
    decreases a.len(),
{
    if a.len() > 0 && b.len() > 0 && a[0] == b[0] {
        lemma_text_less_total(a.drop_first(), b.drop_first());
        if a != b {
            assert(a.drop_first() != b.drop_first()) by {
                if a.drop_first() == b.drop_first() {
                    assert(a =~= seq![a[0]] + a.drop_first());
                    assert(b =~= seq![b[0]] + b.drop_first());
                }
            }
        }
    }
    if a.len() == 0 && b.len() == 0 {
        assert(a =~= b);
    }
}

/// `text_less` is a strict total order.
pub proof fn lemma_text_less_order(a: Seq<char>, b: Seq<char>, c: Seq<char>)
    ensures
        !text_less(a, a),
        text_less(a, b) ==> !text_less(b, a),
        text_less(a, b) && text_less(b, c) ==> text_less(a, c),
        a != b ==> text_less(a, b) || text_less(b, a),
{
    lemma_text_less_irreflexive(a);
    lemma_text_less_asymmetric(a, b);
    lemma_text_less_transitive(a, b, c);
    lemma_text_less_total(a, b);
}

/// Whether `a` comes before `b` in `str` order.
pub fn text_lt(a: &str, b: &str) -> (res: bool)
    ensures
        res == text_less(a@, b@),
{
    let va = chars_of(a);
    let vb = chars_of(b);
    let mut i: usize = 0;
    assert(va@.skip(0) =~= va@);
    assert(vb@.skip(0) =~= vb@);
    while i < va.len() && i < vb.len()
        invariant
            i <= va.len(),
            i <= vb.len(),
            text_less(a@, b@) == text_less(va@.skip(i as int), vb@.skip(i as int)),
            va@ == a@,
            vb@ == b@,
        decreases va.len() - i,
    {
        assert(va@.skip(i as int)[0] == va@[i as int]);
        assert(vb@.skip(i as int)[0] == vb@[i as int]);
        if va[i] != vb[i] {
            return va[i] < vb[i];
        }
        assert(va@.skip(i as int).drop_first() =~= va@.skip(i + 1));
        assert(vb@.skip(i as int).drop_first() =~= vb@.skip(i + 1));
        i += 1;
    }
    i == va.len() && i < vb.len()
}

/// The decimal digits of `n`, without leading zeros (`0` is `"0"`).
pub open spec fn decimal_text(n: nat) -> Seq<char>
    decreases n,
{
    if n < 10 {
        seq![(((n + 48) as u32) as char)]
    } else {
        decimal_text(n / 10).push((((n % 10) + 48) as u32) as char)
    }
}

/// Appends the decimal digits of `n` (`write!(s, "{n}")`).
pub fn push_decimal(s: &mut String, n: u32)
    ensures
        final(s)@ == old(s)@ + decimal_text(n as nat),
    decreases n,
{
    if n >= 10 {
        push_decimal(s, n / 10);
    }
    let d = ((n % 10) as u8 + 48) as char;
    let ghost before = s@;
    push_char(s, d);
    proof {
        if n >= 10 {
            assert(s@ =~= old(s)@ + decimal_text(n as nat));
        } else {
            assert(s@ =~= old(s)@ + decimal_text(n as nat));
        }
    }
}


} // verus!
