//! Canonical, zone-free timestamps.
//!
//! The export document writes `2020-06-20 16:56:44 +0000`; track files write
//! ISO 8601 (`2020-06-20T16:56:44Z`, `...+00:00`). Both are brought to
//! `2020-06-20 16:56:44`, read as UTC.

use vstd::prelude::*;
use crate::text::{is_white, slice_text, trim_text, trimmed, trim_start_seq, trim_end_seq};

verus! {

/// `s` ends with a zone offset such as ` +0000` or ` -0500`: a space, a sign
/// and four digits.
pub open spec fn has_offset_suffix(s: Seq<char>) -> bool {
    &&& s.len() >= 6
    &&& s[s.len() - 6] == ' '
    &&& (s[s.len() - 5] == '+' || s[s.len() - 5] == '-')
    &&& forall|k: int| s.len() - 4 <= k < s.len() ==> is_digit(#[trigger] s[k])
}

/// An export-document date without its zone: a trailing ` +hhmm` / ` -hhmm`
/// offset is dropped, or else a trailing `Z`.
pub open spec fn naive_date(s: Seq<char>) -> Seq<char> {
    if has_offset_suffix(s) {
        s.subrange(0, s.len() - 6)
    } else {
        drop_zulu(s)
    }
}

/// `s` without one trailing `Z`.
pub open spec fn drop_zulu(s: Seq<char>) -> Seq<char> {
    if s.len() > 0 && s.last() == 'Z' {
        s.drop_last()
    } else {
        s
    }
}

/// The last six characters of `s` are a `+HH:MM` / `-HH:MM` style offset.
pub open spec fn has_zone_tail(s: Seq<char>) -> bool {
    s.len() > 6 && (s[s.len() - 6] == '+' || s[s.len() - 6] == '-') && s.subrange(
        s.len() - 6,
        s.len() as int,
    ).contains(':')
}

pub open spec fn drop_zone_tail(s: Seq<char>) -> Seq<char> {
    if has_zone_tail(s) {
        s.subrange(0, s.len() - 6)
    } else {
        s
    }
}

/// Every `T` of `s` replaced by a space.
pub open spec fn spaced(s: Seq<char>) -> Seq<char> {
    Seq::new(s.len(), |i: int| if s[i] == 'T' { ' ' } else { s[i] })
}

/// An ISO 8601 track timestamp without its zone and with a space between
/// date and time.
pub open spec fn naive_timestamp(s: Seq<char>) -> Seq<char> {
    spaced(drop_zone_tail(drop_zulu(trimmed(s))))
}

pub open spec fn is_digit(c: char) -> bool {
    '0' <= c && c <= '9'
}

/// `YYYY-MM-DD HH:MM:SS`.
pub open spec fn is_canonical(s: Seq<char>) -> bool {
    &&& s.len() == 19
    &&& s[4] == '-' && s[7] == '-' && s[10] == ' ' && s[13] == ':' && s[16] == ':'
    &&& forall|i: int|
        0 <= i < 19 && i != 4 && i != 7 && i != 10 && i != 13 && i != 16 ==> is_digit(
            #[trigger] s[i],
        )
}

fn is_digit_char(c: char) -> (r: bool)
    ensures
        r == is_digit(c),
{
    '0' <= c && c <= '9'
}

/// Strips the zone of an export-document date (` +0000`, ` -0500` or `Z`).
pub fn clean_date(s: &str) -> (r: String)
    ensures
        r@ == naive_date(s@),
{
    let n = s.unicode_len();
    if n >= 6 && s.get_char(n - 6) == ' ' && (s.get_char(n - 5) == '+' || s.get_char(n - 5) == '-')
        && is_digit_char(s.get_char(n - 4)) && is_digit_char(s.get_char(n - 3)) && is_digit_char(
        s.get_char(n - 2),
    ) && is_digit_char(s.get_char(n - 1)) {
        assert forall|k: int| n - 4 <= k < n implies is_digit(#[trigger] s@[k]) by {
            if k == n - 4 {
            } else if k == n - 3 {
            } else if k == n - 2 {
            } else {
            }
        }
        slice_text(s, 0, n - 6)
    } else if n > 0 && s.get_char(n - 1) == 'Z' {
        slice_text(s, 0, n - 1)
    } else {
        String::from_str(s)
    }
}

/// `clean_date` of the value, when there is one.
pub fn clean_date_opt(s: &Option<String>) -> (r: Option<String>)
    ensures
        match (s, r) {
            (Some(v), Some(w)) => w@ == naive_date(v@),
            (None, None) => true,
            _ => false,
        },
{
    match s {
        Some(v) => Some(clean_date(v.as_str())),
        None => None,
    }
}

/// `s` with every `T` replaced by a space.
fn replace_t(s: &str) -> (r: String)
    ensures
        r@ == spaced(s@),
{
    let n = s.unicode_len();
    let mut out = String::new();
    let mut i: usize = 0;
    while i < n
        invariant
            n == s@.len(),
            i <= n,
            out@ == spaced(s@.subrange(0, i as int)),
        decreases n - i,
    {
        let c = s.get_char(i);
        let next = if c == 'T' {
            String::from_str(" ")
        } else {
            slice_text(s, i, i + 1)
        };
        proof {
            reveal_strlit(" ");
        }
        out.append(next.as_str());
        assert(out@ =~= spaced(s@.subrange(0, i + 1)));
        i = i + 1;
    }
    assert(s@.subrange(0, n as int) =~= s@);
    out
}

/// Strips the zone of an ISO 8601 track timestamp (`Z`, `+HH:MM`, `-HH:MM`)
/// and puts a space between date and time.
pub fn clean_timestamp(ts: &str) -> (r: String)
    ensures
        r@ == naive_timestamp(ts@),
{
    let s = trim_text(ts);
    let n = s.unicode_len();
    let (s1, n1) = if n > 0 && s.get_char(n - 1) == 'Z' {
        (s.substring_char(0, n - 1), n - 1)
    } else {
        (s, n)
    };
    assert(s1@ == drop_zulu(s@));
    let mut zone = false;
    if n1 > 6 {
        let c = s1.get_char(n1 - 6);
        if c == '+' || c == '-' {
            let mut k: usize = n1 - 6;
            while k < n1
                invariant
                    n1 == s1@.len(),
                    n1 > 6,
                    n1 - 6 <= k <= n1,
                    zone == (exists|j: int| n1 - 6 <= j < k && s1@[j] == ':'),
                decreases n1 - k,
            {
                if s1.get_char(k) == ':' {
                    zone = true;
                }
                k = k + 1;
            }
            proof {
                let tail = s1@.subrange(n1 - 6, n1 as int);
                if zone {
                    let j = choose|j: int| n1 - 6 <= j < n1 && s1@[j] == ':';
                    assert(tail[j - (n1 - 6)] == ':');
                } else {
                    assert forall|j: int| 0 <= j < 6 implies #[trigger] tail[j] != ':' by {
                        assert(s1@[n1 - 6 + j] != ':');
                    }
                }
            }
        }
    }
    assert(zone == has_zone_tail(s1@));
    let s2 = if zone {
        s1.substring_char(0, n1 - 6)
    } else {
        s1
    };
    replace_t(s2)
}

proof fn lemma_trimmed_unchanged(s: Seq<char>)
    requires
        s.len() > 0,
        !is_white(s[0]),
        !is_white(s.last()),
    ensures
        trimmed(s) == s,
{
    assert(trim_start_seq(s) == s);
    assert(trim_end_seq(s) == s);
}

/// A canonical timestamp is left unchanged by both canonicalizations.
pub proof fn lemma_canonical_is_fixed(s: Seq<char>)
    requires
        is_canonical(s),
    ensures
        naive_date(s) == s,
        naive_timestamp(s) == s,
{
    assert(is_digit(s[0]) && is_digit(s[18]) && is_digit(s[11]) && is_digit(s[12]));
    assert(is_digit(s[14]));
    assert(!has_offset_suffix(s));
    lemma_trimmed_unchanged(s);
    assert(drop_zulu(s) == s);
    assert(!has_zone_tail(s));
    assert forall|i: int| 0 <= i < 19 implies s[i] != 'T' by {
        if i != 4 && i != 7 && i != 10 && i != 13 && i != 16 {
            assert(is_digit(s[i]));
        }
    }
    assert(spaced(s) =~= s);
}

/// An export-document date written as a canonical `c` followed by nothing,
/// by a ` +hhmm` / ` -hhmm` offset, or by `Z`, canonicalizes to `c`.
pub proof fn lemma_offset_dates_canonicalize(c: Seq<char>, zone: Seq<char>)
    requires
        is_canonical(c),
        zone.len() == 0 || zone == seq!['Z'] || (zone.len() == 6 && zone[0] == ' ' && (zone[1]
            == '+' || zone[1] == '-') && forall|i: int| 2 <= i < 6 ==> is_digit(#[trigger] zone[i])),
    ensures
        naive_date(c + zone) == c,
{
    let s = c + zone;
    assert(is_digit(c[14]) && is_digit(c[18]));
    if zone.len() == 0 {
        assert(s =~= c);
        assert(!has_offset_suffix(s));
    } else if zone == seq!['Z'] {
        assert(s[19] == 'Z');
        assert(!has_offset_suffix(s));
        assert(s.drop_last() =~= c);
    } else {
        assert forall|k: int| s.len() - 4 <= k < s.len() implies is_digit(#[trigger] s[k]) by {
            assert(s[k] == zone[k - 19]);
        }
        assert(has_offset_suffix(s));
        assert(s.subrange(0, 19) =~= c);
    }
}

proof fn lemma_trim_white_prefix(w: Seq<char>, y: Seq<char>)
    requires
        forall|i: int| 0 <= i < w.len() ==> is_white(#[trigger] w[i]),
        y.len() > 0,
        !is_white(y[0]),
    ensures
        trim_start_seq(w + y) == y,
    decreases w.len(),
{
    if w.len() == 0 {
        assert(w + y =~= y);
    } else {
        assert((w + y)[0] == w[0]);
        assert((w + y).drop_first() =~= w.drop_first() + y);
        lemma_trim_white_prefix(w.drop_first(), y);
    }
}

proof fn lemma_trim_white_suffix(y: Seq<char>, w: Seq<char>)
    requires
        forall|i: int| 0 <= i < w.len() ==> is_white(#[trigger] w[i]),
        y.len() > 0,
        !is_white(y.last()),
    ensures
        trim_end_seq(y + w) == y,
    decreases w.len(),
{
    if w.len() == 0 {
        assert(y + w =~= y);
    } else {
        assert((y + w).last() == w.last());
        assert((y + w).drop_last() =~= y + w.drop_last());
        lemma_trim_white_suffix(y, w.drop_last());
    }
}

/// Fractional seconds: nothing, or a dot followed by at least one digit.
pub open spec fn is_fraction(f: Seq<char>) -> bool {
    f.len() == 0 || (f.len() >= 2 && f[0] == '.' && forall|i: int| 1 <= i < f.len() ==> is_digit(#[trigger] f[i]))
}

/// A zone designator: nothing, `Z`, or a `+HH:MM` / `-HH:MM` offset.
pub open spec fn is_iso_zone(zone: Seq<char>) -> bool {
    zone.len() == 0 || zone == seq!['Z'] || (zone.len() == 6 && (zone[0] == '+' || zone[0] == '-')
        && is_digit(zone[1]) && is_digit(zone[2]) && zone[3] == ':' && is_digit(zone[4]) && is_digit(
        zone[5],
    ))
}

/// A track timestamp written as date, `T` or space, time, optional fraction
/// and optional zone, with any white space around it, canonicalizes to the
/// date and time with a space and the fraction.
pub proof fn lemma_iso_timestamps_canonicalize(
    c: Seq<char>,
    sep: char,
    frac: Seq<char>,
    zone: Seq<char>,
    lead: Seq<char>,
    trail: Seq<char>,
)
    requires
        is_canonical(c),
        sep == 'T' || sep == ' ',
        is_fraction(frac),
        is_iso_zone(zone),
        forall|i: int| 0 <= i < lead.len() ==> is_white(#[trigger] lead[i]),
        forall|i: int| 0 <= i < trail.len() ==> is_white(#[trigger] trail[i]),
    ensures
        naive_timestamp(lead + (c.update(10, sep) + frac + zone) + trail) == c + frac,
{
    let core = c.update(10, sep) + frac;
    let x = core + zone;
    let n = core.len() as int;
    assert(is_digit(c[0]) && is_digit(c[18]));
    assert forall|i: int| 0 <= i < n implies #[trigger] core[i] != 'T' || i == 10 by {
        if i < 19 && i != 4 && i != 7 && i != 10 && i != 13 && i != 16 {
            assert(is_digit(c[i]));
        }
        if i >= 19 && i > 19 {
            assert(is_digit(frac[i - 19]));
        }
    }
    assert(!is_white(core.last())) by {
        if frac.len() > 0 {
            assert(core.last() == frac[frac.len() - 1]);
            assert(is_digit(frac[frac.len() - 1]));
        }
    }
    assert(!is_white(x[0]));
    assert(!is_white(x.last())) by {
        if zone.len() > 0 {
            assert(x.last() == zone[zone.len() - 1]);
        } else {
            assert(x =~= core);
        }
    }
    lemma_trim_white_prefix(lead, x + trail);
    assert(lead + x + trail =~= lead + (x + trail));
    lemma_trim_white_suffix(x, trail);
    assert(trimmed(lead + x + trail) == x);
    assert(lead + (c.update(10, sep) + frac + zone) + trail =~= lead + x + trail);
    // no zone left once the designator is gone
    assert(!has_zone_tail(core)) by {
        assert(core[n - 6] != '+' && core[n - 6] != '-') by {
            let k = n - 6;
            if k < 19 {
                if k != 13 && k != 16 {
                    assert(is_digit(c[k]));
                }
            } else if k > 19 {
                assert(is_digit(frac[k - 19]));
            }
        }
    }
    if zone.len() == 0 {
        assert(x =~= core);
        assert(drop_zulu(x) == core);
    } else if zone == seq!['Z'] {
        assert(drop_zulu(x) =~= core);
    } else {
        assert(drop_zulu(x) == x);
        assert(x.subrange(n as int, n + 6 as int)[3] == ':');
        assert(has_zone_tail(x));
        assert(drop_zone_tail(x) =~= core);
    }
    assert forall|i: int| 0 <= i < n implies #[trigger] spaced(core)[i] == (c + frac)[i] by {
        if i < 19 && i != 4 && i != 7 && i != 10 && i != 13 && i != 16 {
            assert(is_digit(c[i]));
        }
        if i > 19 {
            assert(is_digit(frac[i - 19]));
        }
    }
    assert(spaced(core) =~= c + frac);
}

/// Canonicalizing a canonicalized track timestamp changes nothing.
pub proof fn lemma_canonical_timestamp_idempotent(c: Seq<char>, frac: Seq<char>)
    requires
        is_canonical(c),
        is_fraction(frac),
    ensures
        naive_timestamp(c + frac) == c + frac,
{
    let e = Seq::<char>::empty();
    assert(c.update(10, ' ') =~= c);
    lemma_iso_timestamps_canonicalize(c, ' ', frac, e, e, e);
    assert(e + (c.update(10, ' ') + frac + e) + e =~= c + frac);
}

} // verus!
