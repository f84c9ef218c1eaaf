//! The electrocardiogram sidecar parser.
//!
//! A file starts with `Key,Value` header lines and goes on with one voltage
//! sample per line. The header ends at the first line that is not a known
//! key; the recorded date is required. Whether a line is a number is decided
//! by the caller (it reads the sample as a floating-point value).

use vstd::prelude::*;
use crate::identity::{compute_hash, field_views, identity_of};
use crate::text::{drop_prefix, has_prefix, is_white, is_white_char, slice_text, starts_with, trim_start_seq, trim_text, trimmed};
use crate::timestamp::{clean_date, naive_date};
use crate::xml::{opt_view, or_empty, text_or_empty};

verus! {

/// The lines of a text, as `str::lines` splits them.
pub uninterp spec fn lines_of(s: Seq<char>) -> Seq<Seq<char>>;

/// Relies on `str::lines`: the text split at `\n` and `\r\n` line endings.
#[verifier::external_body]
fn split_lines(s: &str) -> (r: Vec<String>)
    ensures
        r.deep_view() == lines_of(s@),
{
    s.lines().map(|l| l.to_string()).collect()
}

/// The lines of `content`, each without its leading and trailing white space.
pub fn trimmed_lines(content: &str) -> (r: Vec<String>)
    ensures
        r@.len() == lines_of(content@).len(),
        forall|i: int| 0 <= i < r@.len() ==> #[trigger] r@[i]@ == trimmed(lines_of(content@)[i]),
{
    let raw = split_lines(content);
    let mut out: Vec<String> = Vec::new();
    let mut i: usize = 0;
    while i < raw.len()
        invariant
            raw.deep_view() == lines_of(content@),
            i <= raw@.len(),
            out@.len() == i,
            forall|j: int| 0 <= j < i ==> #[trigger] out@[j]@ == trimmed(raw@[j]@),
        decreases raw@.len() - i,
    {
        proof {
            assert(raw.deep_view()[i as int] == raw@[i as int]@);
        }
        let t = trim_text(raw[i].as_str());
        out.push(String::from_str(t));
        i = i + 1;
    }
    proof {
        assert forall|j: int| 0 <= j < out@.len() implies #[trigger] out@[j]@ == trimmed(lines_of(content@)[j]) by {
            assert(raw.deep_view()[j] == raw@[j]@);
        }
    }
    out
}

/// The header of one recording.
pub struct EcgReading {
    pub ecg_hash: String,
    pub recorded_date: String,
    pub classification: Option<String>,
    pub device: Option<String>,
    /// The numeric part of the sample rate field (`513.992 hertz` gives `513.992`).
    pub sample_rate: Option<String>,
    pub symptoms: Option<String>,
    pub software_version: Option<String>,
    pub import_id: String,
}

#[derive(Debug, PartialEq, Eq, Structural)]
pub enum EcgError {
    /// The file has no `Recorded Date` header line.
    MissingRecordedDate,
}

impl EcgError {
    /// A description of the error.
    pub fn message(&self) -> (r: String)
        ensures
            r@ == "No recorded date found in ECG file"@,
    {
        String::from_str("No recorded date found in ECG file")
    }
}

/// What the header lines seen so far say.
pub struct HeaderScan {
    pub recorded_date: Seq<char>,
    pub classification: Option<Seq<char>>,
    pub device: Option<Seq<char>>,
    pub sample_rate: Option<Seq<char>>,
    pub symptoms: Option<Seq<char>>,
    pub software_version: Option<Seq<char>>,
    /// A line that is no header line was reached.
    pub done: bool,
}

pub open spec fn initial_header() -> HeaderScan {
    HeaderScan {
        recorded_date: Seq::empty(),
        classification: None,
        device: None,
        sample_rate: None,
        symptoms: None,
        software_version: None,
        done: false,
    }
}

pub open spec fn drop_lead_quotes(s: Seq<char>) -> Seq<char>
    decreases s.len(),
{
    if s.len() > 0 && s[0] == '"' {
        drop_lead_quotes(s.drop_first())
    } else {
        s
    }
}

pub open spec fn drop_trail_quotes(s: Seq<char>) -> Seq<char>
    decreases s.len(),
{
    if s.len() > 0 && s.last() == '"' {
        drop_trail_quotes(s.drop_last())
    } else {
        s
    }
}

/// `s` without its leading and trailing double quotes.
pub open spec fn unquoted(s: Seq<char>) -> Seq<char> {
    drop_trail_quotes(drop_lead_quotes(s))
}

/// The leading characters of `s` up to the first white space.
pub open spec fn word_prefix(s: Seq<char>) -> Seq<char>
    decreases s.len(),
{
    if s.len() == 0 || is_white(s[0]) {
        Seq::empty()
    } else {
        seq![s[0]] + word_prefix(s.drop_first())
    }
}

/// The first white-space separated word of `s`.
pub open spec fn first_word(s: Seq<char>) -> Option<Seq<char>> {
    let t = trim_start_seq(s);
    if t.len() == 0 {
        None
    } else {
        Some(word_prefix(t))
    }
}

pub open spec fn after(s: Seq<char>, p: Seq<char>) -> Seq<char> {
    s.subrange(p.len() as int, s.len() as int)
}

/// The effect of one (trimmed) header line.
pub open spec fn header_step(st: HeaderScan, line: Seq<char>) -> HeaderScan {
    if st.done || line.len() == 0 || starts_with(line, "Name,"@) || starts_with(
        line,
        "Date of Birth,"@,
    ) {
        st
    } else if starts_with(line, "Recorded Date,"@) {
        HeaderScan { recorded_date: naive_date(after(line, "Recorded Date,"@)), ..st }
    } else if starts_with(line, "Classification,"@) {
        HeaderScan { classification: Some(after(line, "Classification,"@)), ..st }
    } else if starts_with(line, "Symptoms,"@) {
        if after(line, "Symptoms,"@).len() > 0 {
            HeaderScan { symptoms: Some(after(line, "Symptoms,"@)), ..st }
        } else {
            st
        }
    } else if starts_with(line, "Software Version,"@) {
        HeaderScan { software_version: Some(after(line, "Software Version,"@)), ..st }
    } else if starts_with(line, "Device,"@) {
        HeaderScan { device: Some(unquoted(after(line, "Device,"@))), ..st }
    } else if starts_with(line, "Sample Rate,"@) {
        HeaderScan { sample_rate: first_word(after(line, "Sample Rate,"@)), ..st }
    } else if starts_with(line, "Lead,"@) || starts_with(line, "Unit,"@) {
        st
    } else {
        HeaderScan { done: true, ..st }
    }
}

pub open spec fn header_run(lines: Seq<Seq<char>>) -> HeaderScan
    decreases lines.len(),
{
    if lines.len() == 0 {
        initial_header()
    } else {
        header_step(header_run(lines.drop_last()), lines.last())
    }
}

/// The identity of a recording: its recorded date and device.
pub open spec fn ecg_identity(h: HeaderScan) -> Seq<char> {
    identity_of(seq![h.recorded_date, or_empty(h.device)])
}

/// `s` without its leading and trailing double quotes.
fn strip_quotes(s: &str) -> (r: String)
    ensures
        r@ == unquoted(s@),
{
    let n = s.unicode_len();
    let mut a: usize = 0;
    assert(s@.subrange(0, n as int) =~= s@);
    while a < n && s.get_char(a) == '"'
        invariant
            n == s@.len(),
            a <= n,
            drop_lead_quotes(s@) == drop_lead_quotes(s@.subrange(a as int, n as int)),
        decreases n - a,
    {
        assert(s@.subrange(a as int, n as int).drop_first() =~= s@.subrange(a + 1, n as int));
        a = a + 1;
    }
    let ghost lead = s@.subrange(a as int, n as int);
    assert(drop_lead_quotes(lead) == lead);
    let mut b: usize = n;
    assert(lead.subrange(0, (b - a) as int) =~= lead);
    while b > a && s.get_char(b - 1) == '"'
        invariant
            n == s@.len(),
            a <= b <= n,
            lead == s@.subrange(a as int, n as int),
            drop_trail_quotes(lead) == drop_trail_quotes(s@.subrange(a as int, b as int)),
        decreases b,
    {
        assert(s@.subrange(a as int, b as int).drop_last() =~= s@.subrange(a as int, b - 1));
        b = b - 1;
    }
    slice_text(s, a, b)
}

/// The first white-space separated word of `s`.
fn first_word_of(s: &str) -> (r: Option<String>)
    ensures
        opt_view(r) == first_word(s@),
{
    let n = s.unicode_len();
    let mut a: usize = 0;
    assert(s@.subrange(0, n as int) =~= s@);
    while a < n && is_white_char(s.get_char(a))
        invariant
            n == s@.len(),
            a <= n,
            trim_start_seq(s@) == trim_start_seq(s@.subrange(a as int, n as int)),
        decreases n - a,
    {
        assert(s@.subrange(a as int, n as int).drop_first() =~= s@.subrange(a + 1, n as int));
        a = a + 1;
    }
    let ghost t = s@.subrange(a as int, n as int);
    if a == n {
        return None;
    }
    let mut b: usize = a;
    while b < n && !is_white_char(s.get_char(b))
        invariant
            n == s@.len(),
            a <= b <= n,
            t == s@.subrange(a as int, n as int),
            word_prefix(t) == s@.subrange(a as int, b as int) + word_prefix(s@.subrange(b as int, n as int)),
        decreases n - b,
    {
        let ghost rest = s@.subrange(b as int, n as int);
        assert(rest.drop_first() =~= s@.subrange(b + 1, n as int));
        assert(s@.subrange(a as int, b + 1) =~= s@.subrange(a as int, b as int) + seq![rest[0]]);
        assert(word_prefix(rest) == seq![rest[0]] + word_prefix(rest.drop_first()));
        assert(s@.subrange(a as int, b as int) + word_prefix(rest) =~= s@.subrange(a as int, b + 1)
            + word_prefix(s@.subrange(b + 1, n as int)));
        b = b + 1;
    }
    assert(word_prefix(s@.subrange(b as int, n as int)) =~= Seq::<char>::empty());
    assert(s@.subrange(a as int, b as int) + Seq::<char>::empty() =~= s@.subrange(a as int, b as int));
    Some(slice_text(s, a, b))
}

proof fn lemma_header_done(lines: Seq<Seq<char>>, i: int)
    requires
        0 <= i <= lines.len(),
        header_run(lines.subrange(0, i)).done,
    ensures
        header_run(lines) == header_run(lines.subrange(0, i)),
    decreases lines.len() - i,
{
    if i < lines.len() {
        assert(lines.subrange(0, i + 1).drop_last() =~= lines.subrange(0, i));
        lemma_header_done(lines, i + 1);
    } else {
        assert(lines.subrange(0, i) =~= lines);
    }
}

/// The rest of `line` after the header key `key`, when `line` starts with it.
fn value_after(line: &str, key: &str) -> (r: Option<String>)
    ensures
        starts_with(line@, key@) ==> opt_view(r) == Some(after(line@, key@)),
        !starts_with(line@, key@) ==> r is None,
{
    if has_prefix(line, key) {
        Some(drop_prefix(line, key.unicode_len()))
    } else {
        None
    }
}

/// Reads the header of a recording from its trimmed lines. Fails when there
/// is no recorded date.
pub fn parse_ecg_header(lines: &Vec<String>, import_id: &str) -> (r: Result<EcgReading, EcgError>)
    ensures
        ({
            let h = header_run(lines.deep_view());
            match r {
                Ok(rd) => {
                    &&& h.recorded_date.len() > 0
                    &&& rd.recorded_date@ == h.recorded_date
                    &&& opt_view(rd.classification) == h.classification
                    &&& opt_view(rd.device) == h.device
                    &&& opt_view(rd.sample_rate) == h.sample_rate
                    &&& opt_view(rd.symptoms) == h.symptoms
                    &&& opt_view(rd.software_version) == h.software_version
                    &&& rd.ecg_hash@ == ecg_identity(h)
                    &&& rd.import_id@ == import_id@
                },
                Err(e) => h.recorded_date.len() == 0 && e == EcgError::MissingRecordedDate,
            }
        }),
{
    let ghost all = lines.deep_view();
    let mut recorded_date = String::new();
    let mut classification: Option<String> = None;
    let mut device: Option<String> = None;
    let mut sample_rate: Option<String> = None;
    let mut symptoms: Option<String> = None;
    let mut software_version: Option<String> = None;
    let mut done = false;
    let mut i: usize = 0;
    while i < lines.len() && !done
        invariant
            all == lines.deep_view(),
            i <= lines@.len(),
            ({
                let h = header_run(all.subrange(0, i as int));
                &&& recorded_date@ == h.recorded_date
                &&& opt_view(classification) == h.classification
                &&& opt_view(device) == h.device
                &&& opt_view(sample_rate) == h.sample_rate
                &&& opt_view(symptoms) == h.symptoms
                &&& opt_view(software_version) == h.software_version
                &&& done == h.done
            }),
        decreases lines@.len() - i,
    {
        let line = lines[i].as_str();
        proof {
            assert(all[i as int] == line@);
            assert(all.subrange(0, i + 1).drop_last() =~= all.subrange(0, i as int));
            assert(all.subrange(0, i + 1).last() == line@);
            reveal_strlit("Name,");
            reveal_strlit("Date of Birth,");
            reveal_strlit("Recorded Date,");
            reveal_strlit("Classification,");
            reveal_strlit("Symptoms,");
            reveal_strlit("Software Version,");
            reveal_strlit("Device,");
            reveal_strlit("Sample Rate,");
            reveal_strlit("Lead,");
            reveal_strlit("Unit,");
        }
        if line.unicode_len() == 0 || has_prefix(line, "Name,") || has_prefix(line, "Date of Birth,") {
        } else if let Some(v) = value_after(line, "Recorded Date,") {
            recorded_date = clean_date(v.as_str());
        } else if let Some(v) = value_after(line, "Classification,") {
            classification = Some(v);
        } else if let Some(v) = value_after(line, "Symptoms,") {
            if v.unicode_len() > 0 {
                symptoms = Some(v);
            }
        } else if let Some(v) = value_after(line, "Software Version,") {
            software_version = Some(v);
        } else if let Some(v) = value_after(line, "Device,") {
            device = Some(strip_quotes(v.as_str()));
        } else if let Some(v) = value_after(line, "Sample Rate,") {
            sample_rate = first_word_of(v.as_str());
        } else if has_prefix(line, "Lead,") || has_prefix(line, "Unit,") {
        } else {
            done = true;
        }
        i = i + 1;
    }
    proof {
        if done {
            lemma_header_done(all, i as int);
        } else {
            assert(all.subrange(0, i as int) =~= all);
        }
    }
    if recorded_date.unicode_len() == 0 {
        return Err(EcgError::MissingRecordedDate);
    }
    let parts = [recorded_date.as_str(), text_or_empty(&device)];
    let ecg_hash = compute_hash(&parts);
    proof {
        assert(field_views(parts@) =~= seq![recorded_date@, or_empty(opt_view(device))]);
    }
    Ok(
        EcgReading {
            ecg_hash,
            recorded_date,
            classification,
            device,
            sample_rate,
            symptoms,
            software_version,
            import_id: String::from_str(import_id),
        },
    )
}

/// The positions of the sample lines from position `i` on: empty lines are
/// skipped, each number is a sample, and the first other line after a sample
/// ends the samples.
pub open spec fn sample_positions(lines: Seq<Seq<char>>, numeric: Seq<bool>, i: int, in_data: bool) -> Seq<int>
    decreases lines.len() - i,
{
    if i >= lines.len() || i < 0 {
        Seq::empty()
    } else if lines[i].len() == 0 {
        sample_positions(lines, numeric, i + 1, in_data)
    } else if numeric[i] {
        seq![i] + sample_positions(lines, numeric, i + 1, true)
    } else if in_data {
        Seq::empty()
    } else {
        sample_positions(lines, numeric, i + 1, in_data)
    }
}

pub open spec fn positions(s: Seq<usize>) -> Seq<int> {
    Seq::new(s.len(), |j: int| s[j] as int)
}

/// The positions of the voltage samples among the trimmed `lines`, in order;
/// `numeric[i]` tells whether line `i` is a number. The sample at position
/// `k` of the result has sample index `k`.
pub fn ecg_sample_lines(lines: &Vec<String>, numeric: &Vec<bool>) -> (r: Vec<usize>)
    requires
        lines@.len() == numeric@.len(),
    ensures
        positions(r@) == sample_positions(lines.deep_view(), numeric@, 0, false),
{
    let ghost all = lines.deep_view();
    let ghost target = sample_positions(all, numeric@, 0, false);
    let mut out: Vec<usize> = Vec::new();
    let mut in_data = false;
    let mut i: usize = 0;
    assert(positions(out@) =~= Seq::<int>::empty());
    assert(target =~= positions(out@) + sample_positions(all, numeric@, 0, false));
    while i < lines.len()
        invariant
            all == lines.deep_view(),
            lines@.len() == numeric@.len(),
            i <= lines@.len(),
            target == sample_positions(all, numeric@, 0, false),
            target == positions(out@) + sample_positions(all, numeric@, i as int, in_data),
        decreases lines@.len() - i,
    {
        proof {
            assert(all[i as int] == lines@[i as int]@);
        }
        if lines[i].unicode_len() == 0 {
        } else if numeric[i] {
            proof {
                assert(positions(out@.push(i)) =~= positions(out@) + seq![i as int]);
                assert(positions(out@) + (seq![i as int] + sample_positions(all, numeric@, i + 1, true))
                    =~= positions(out@) + seq![i as int] + sample_positions(all, numeric@, i + 1, true));
            }
            out.push(i);
            in_data = true;
        } else if in_data {
            assert(target =~= positions(out@));
            return out;
        }
        i = i + 1;
    }
    assert(target =~= positions(out@));
    out
}

} // verus!
