//! The parameters of the read-only query tools, and the SQL text each tool
//! runs. Filter values are quoted with `'` doubled; the record or activity
//! type, where a tool has one, is bound as the query's one parameter.

use vstd::prelude::*;
use crate::text::{has_prefix, starts_with, trim_text, trimmed};
use crate::xml::opt_view;

verus! {

pub struct QueryRecordsParams {
    pub record_type: String,
    pub start_date: Option<String>,
    pub end_date: Option<String>,
    pub source_name: Option<String>,
    /// At most 1000; 100 when absent.
    pub limit: Option<u32>,
}

pub struct GetRecordStatisticsParams {
    pub record_type: String,
    pub start_date: Option<String>,
    pub end_date: Option<String>,
    /// `day`, `week`, `month` or `year`; `day` when absent or unknown.
    pub period: Option<String>,
}

pub struct ListWorkoutsParams {
    pub activity_type: Option<String>,
    pub start_date: Option<String>,
    pub end_date: Option<String>,
    /// At most 500; 50 when absent.
    pub limit: Option<u32>,
}

pub struct GetWorkoutDetailsParams {
    pub workout_hash: String,
}

pub struct GetActivitySummariesParams {
    pub start_date: Option<String>,
    pub end_date: Option<String>,
    /// At most 365; 30 when absent.
    pub limit: Option<u32>,
}

pub struct GetWorkoutRouteParams {
    pub workout_hash: String,
}

pub struct ListEcgReadingsParams {
    pub start_date: Option<String>,
    pub end_date: Option<String>,
}

pub struct GetEcgDataParams {
    pub ecg_hash: String,
}

pub struct RunCustomQueryParams {
    pub query: String,
}

/// `s` with each `'` doubled, fit to stand between quotes in SQL.
pub open spec fn escaped(s: Seq<char>) -> Seq<char>
    decreases s.len(),
{
    if s.len() == 0 {
        Seq::empty()
    } else if s.last() == '\'' {
        escaped(s.drop_last()) + seq!['\'', '\'']
    } else {
        escaped(s.drop_last()) + seq![s.last()]
    }
}

/// The decimal digits of `n`.
pub open spec fn decimal(n: nat) -> Seq<char>
    decreases n,
{
    if n < 10 {
        seq!["0123456789"@[n as int]]
    } else {
        decimal(n / 10) + seq!["0123456789"@[(n % 10) as int]]
    }
}

/// A filter clause `prefix` + quoted value, when there is a value.
pub open spec fn filter_sql(prefix: Seq<char>, v: Option<Seq<char>>) -> Seq<char> {
    match v {
        Some(x) => prefix + escaped(x) + "'"@,
        None => Seq::empty(),
    }
}

/// The requested limit, `default` when absent, capped at `max`.
pub open spec fn capped(limit: Option<u32>, default: nat, max: nat) -> nat {
    let l = match limit {
        Some(l) => l as nat,
        None => default,
    };
    if l < max {
        l
    } else {
        max
    }
}

fn push_escaped(out: &mut String, s: &str)
    ensures
        final(out)@ == old(out)@ + escaped(s@),
{
    let n = s.unicode_len();
    let mut i: usize = 0;
    proof {
        reveal_strlit("''");
    }
    while i < n
        invariant
            n == s@.len(),
            i <= n,
            out@ == old(out)@ + escaped(s@.subrange(0, i as int)),
        decreases n - i,
    {
        let c = s.get_char(i);
        proof {
            assert(s@.subrange(0, i + 1).drop_last() =~= s@.subrange(0, i as int));
        }
        proof {
            reveal_strlit("''");
            assert(s@.subrange(0, i + 1).last() == c);
        }
        if c == '\'' {
            out.append("''");
        } else {
            let piece = s.substring_char(i, i + 1);
            assert(piece@ =~= seq![c]);
            out.append(piece);
        }
        assert(out@ =~= old(out)@ + escaped(s@.subrange(0, i + 1)));
        i = i + 1;
    }
    assert(s@.subrange(0, n as int) =~= s@);
}

fn push_decimal(out: &mut String, n: u32)
    ensures
        final(out)@ == old(out)@ + decimal(n as nat),
    decreases n,
{
    let digits = "0123456789";
    proof {
        reveal_strlit("0123456789");
    }
    if n >= 10 {
        push_decimal(out, n / 10);
    }
    let d = (n % 10) as usize;
    out.append(digits.substring_char(d, d + 1));
    assert(out@ =~= old(out)@ + decimal(n as nat));
}

fn push_filter(out: &mut String, prefix: &str, v: &Option<String>)
    ensures
        final(out)@ == old(out)@ + filter_sql(prefix@, opt_view(*v)),
{
    match v {
        Some(x) => {
            out.append(prefix);
            push_escaped(out, x.as_str());
            out.append("'");
            assert(out@ =~= old(out)@ + filter_sql(prefix@, opt_view(*v)));
        },
        None => {
            assert(out@ =~= old(out)@ + filter_sql(prefix@, opt_view(*v)));
        },
    }
}

fn capped_limit(limit: Option<u32>, default: u32, max: u32) -> (r: u32)
    ensures
        r as nat == capped(limit, default as nat, max as nat),
{
    let l = match limit {
        Some(l) => l,
        None => default,
    };
    if l < max {
        l
    } else {
        max
    }
}

pub open spec fn query_records_sql_of(p: QueryRecordsParams) -> Seq<char> {
    "SELECT record_hash, record_type, value, unit, source_name, start_date, end_date FROM records WHERE record_type = ?"@
        + filter_sql(" AND start_date >= '"@, opt_view(p.start_date)) + filter_sql(
        " AND end_date <= '"@,
        opt_view(p.end_date),
    ) + filter_sql(" AND source_name = '"@, opt_view(p.source_name))
        + " ORDER BY start_date DESC LIMIT "@ + decimal(capped(p.limit, 100, 1000))
}

/// The query of the record tool; the record type is its bound parameter.
pub fn query_records_sql(p: &QueryRecordsParams) -> (r: String)
    ensures
        r@ == query_records_sql_of(*p),
{
    let mut sql = String::from_str(
        "SELECT record_hash, record_type, value, unit, source_name, start_date, end_date FROM records WHERE record_type = ?",
    );
    push_filter(&mut sql, " AND start_date >= '", &p.start_date);
    push_filter(&mut sql, " AND end_date <= '", &p.end_date);
    push_filter(&mut sql, " AND source_name = '", &p.source_name);
    sql.append(" ORDER BY start_date DESC LIMIT ");
    push_decimal(&mut sql, capped_limit(p.limit, 100, 1000));
    sql
}

/// The date expression that a statistics period groups by.
pub open spec fn period_expr(period: Option<Seq<char>>) -> Seq<char> {
    let p = match period {
        Some(p) => p,
        None => "day"@,
    };
    if p == "week"@ {
        "DATE_TRUNC('week', date)"@
    } else if p == "month"@ {
        "DATE_TRUNC('month', date)"@
    } else if p == "year"@ {
        "DATE_TRUNC('year', date)"@
    } else {
        "date"@
    }
}

fn period_sql(period: &Option<String>) -> (r: &'static str)
    ensures
        r@ == period_expr(opt_view(*period)),
{
    match period {
        Some(p) => {
            if crate::text::same_text(p.as_str(), "week") {
                "DATE_TRUNC('week', date)"
            } else if crate::text::same_text(p.as_str(), "month") {
                "DATE_TRUNC('month', date)"
            } else if crate::text::same_text(p.as_str(), "year") {
                "DATE_TRUNC('year', date)"
            } else {
                "date"
            }
        },
        None => {
            proof {
                reveal_strlit("day");
                reveal_strlit("week");
                reveal_strlit("month");
                reveal_strlit("year");
                assert("day"@.len() == 3 && "week"@.len() == 4 && "month"@.len() == 5 && "year"@.len() == 4);
            }
            "date"
        },
    }
}

pub open spec fn record_statistics_sql_of(p: GetRecordStatisticsParams) -> Seq<char> {
    let dt = period_expr(opt_view(p.period));
    "SELECT "@ + dt
        + " as period, SUM(count) as count, SUM(sum_value)/SUM(count) as avg_value, MIN(min_value) as min_value, MAX(max_value) as max_value, SUM(sum_value) as sum_value FROM daily_record_stats WHERE record_type = ?"@
        + filter_sql(" AND date >= '"@, opt_view(p.start_date)) + filter_sql(
        " AND date <= '"@,
        opt_view(p.end_date),
    ) + " GROUP BY "@ + dt + " ORDER BY period"@
}

/// The query of the statistics tool, over the daily aggregates; the record
/// type is its bound parameter.
pub fn record_statistics_sql(p: &GetRecordStatisticsParams) -> (r: String)
    ensures
        r@ == record_statistics_sql_of(*p),
{
    let dt = period_sql(&p.period);
    let mut sql = String::from_str("SELECT ");
    sql.append(dt);
    sql.append(
        " as period, SUM(count) as count, SUM(sum_value)/SUM(count) as avg_value, MIN(min_value) as min_value, MAX(max_value) as max_value, SUM(sum_value) as sum_value FROM daily_record_stats WHERE record_type = ?",
    );
    push_filter(&mut sql, " AND date >= '", &p.start_date);
    push_filter(&mut sql, " AND date <= '", &p.end_date);
    sql.append(" GROUP BY ");
    sql.append(dt);
    sql.append(" ORDER BY period");
    sql
}

pub open spec fn list_workouts_sql_of(p: ListWorkoutsParams) -> Seq<char> {
    "SELECT workout_hash, activity_type, duration, duration_unit, total_distance, total_distance_unit, total_energy_burned, total_energy_unit, source_name, start_date, end_date FROM workouts WHERE 1=1"@
        + filter_sql(" AND activity_type = '"@, opt_view(p.activity_type)) + filter_sql(
        " AND start_date >= '"@,
        opt_view(p.start_date),
    ) + filter_sql(" AND end_date <= '"@, opt_view(p.end_date))
        + " ORDER BY start_date DESC LIMIT "@ + decimal(capped(p.limit, 50, 500))
}

/// The query of the workout listing tool.
pub fn list_workouts_sql(p: &ListWorkoutsParams) -> (r: String)
    ensures
        r@ == list_workouts_sql_of(*p),
{
    let mut sql = String::from_str(
        "SELECT workout_hash, activity_type, duration, duration_unit, total_distance, total_distance_unit, total_energy_burned, total_energy_unit, source_name, start_date, end_date FROM workouts WHERE 1=1",
    );
    push_filter(&mut sql, " AND activity_type = '", &p.activity_type);
    push_filter(&mut sql, " AND start_date >= '", &p.start_date);
    push_filter(&mut sql, " AND end_date <= '", &p.end_date);
    sql.append(" ORDER BY start_date DESC LIMIT ");
    push_decimal(&mut sql, capped_limit(p.limit, 50, 500));
    sql
}

pub open spec fn activity_summaries_sql_of(p: GetActivitySummariesParams) -> Seq<char> {
    "SELECT * FROM activity_summaries WHERE 1=1"@ + filter_sql(
        " AND date_components >= '"@,
        opt_view(p.start_date),
    ) + filter_sql(" AND date_components <= '"@, opt_view(p.end_date))
        + " ORDER BY date_components DESC LIMIT "@ + decimal(capped(p.limit, 30, 365))
}

/// The query of the activity summary tool.
pub fn activity_summaries_sql(p: &GetActivitySummariesParams) -> (r: String)
    ensures
        r@ == activity_summaries_sql_of(*p),
{
    let mut sql = String::from_str("SELECT * FROM activity_summaries WHERE 1=1");
    push_filter(&mut sql, " AND date_components >= '", &p.start_date);
    push_filter(&mut sql, " AND date_components <= '", &p.end_date);
    sql.append(" ORDER BY date_components DESC LIMIT ");
    push_decimal(&mut sql, capped_limit(p.limit, 30, 365));
    sql
}

pub open spec fn ecg_readings_sql_of(p: ListEcgReadingsParams) -> Seq<char> {
    "SELECT ecg_hash, recorded_date, classification, device, sample_rate_hz FROM ecg_readings WHERE 1=1"@
        + filter_sql(" AND recorded_date >= '"@, opt_view(p.start_date)) + filter_sql(
        " AND recorded_date <= '"@,
        opt_view(p.end_date),
    ) + " ORDER BY recorded_date DESC"@
}

/// The query of the ECG listing tool.
pub fn ecg_readings_sql(p: &ListEcgReadingsParams) -> (r: String)
    ensures
        r@ == ecg_readings_sql_of(*p),
{
    let mut sql = String::from_str(
        "SELECT ecg_hash, recorded_date, classification, device, sample_rate_hz FROM ecg_readings WHERE 1=1",
    );
    push_filter(&mut sql, " AND recorded_date >= '", &p.start_date);
    push_filter(&mut sql, " AND recorded_date <= '", &p.end_date);
    sql.append(" ORDER BY recorded_date DESC");
    sql
}

/// The upper-case form of a text.
pub uninterp spec fn upper_of(s: Seq<char>) -> Seq<char>;

/// Relies on `str::to_uppercase`: the upper-case form of `s`, which depends
/// on its characters alone.
#[verifier::external_body]
fn uppercase(s: &str) -> (r: String)
    ensures
        r@ == upper_of(s@),
{
    s.to_uppercase()
}

/// Whether an upper-cased query reads only: it starts with `SELECT` or `WITH`.
pub fn is_read_only(upper: &str) -> (r: bool)
    ensures
        r == (starts_with(upper@, "SELECT"@) || starts_with(upper@, "WITH"@)),
{
    has_prefix(upper, "SELECT") || has_prefix(upper, "WITH")
}

/// The custom query to run, trimmed, when it reads only; none otherwise.
pub fn custom_query(query: &str) -> (r: Option<String>)
    ensures
        ({
            let t = trimmed(query@);
            let u = upper_of(t);
            &&& r is Some <==> (starts_with(u, "SELECT"@) || starts_with(u, "WITH"@))
            &&& r matches Some(q) ==> q@ == t
        }),
{
    let t = trim_text(query);
    let upper = uppercase(t);
    if is_read_only(upper.as_str()) {
        Some(String::from_str(t))
    } else {
        None
    }
}

} // verus!
