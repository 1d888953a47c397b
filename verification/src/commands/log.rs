//! Showing the operation log.

use vstd::prelude::*;

use crate::cli::ActionFilter;
use crate::error::Error;
use crate::text::{
    chars_of, concat2, concat3, copy, decimal, parse_signed, same, signed_decimal, signed_text,
    signed_value, text_of, text_opt, usize_text,
};

verus! {

// ---------------------------------------------------------------------------
// Points in time
// ---------------------------------------------------------------------------

/// The first second of a day written as year, month and day, as chrono reads it;
/// none where the text is no such day.
pub uninterp spec fn day_start(s: Seq<char>) -> Option<i64>;

/// `NaiveDate::parse_from_str` of chrono with the form `%Y-%m-%d`, and the time
/// stamp of midnight on that day.
#[verifier::external_body]
fn parse_day(s: &str) -> (r: Option<i64>)
    ensures
        r == day_start(s@),
{
    let day = chrono::NaiveDate::parse_from_str(s, "%Y-%m-%d").ok()?;
    Some(day.and_hms_opt(0, 0, 0)?.and_utc().timestamp())
}

/// The number before a unit of time at the end of a text.
pub open spec fn count_of(s: Seq<char>, unit: char) -> Option<int> {
    if s.len() > 0 && s.last() == unit {
        signed_value(s.drop_last())
    } else {
        None
    }
}

/// The point in time that a text stands for: so many days or hours before now, or
/// the beginning of a day.
pub open spec fn since(s: Seq<char>, now: int) -> Option<int> {
    if count_of(s, 'd') is Some {
        Some(now - count_of(s, 'd')->0 * 86400)
    } else if count_of(s, 'h') is Some {
        Some(now - count_of(s, 'h')->0 * 3600)
    } else {
        match day_start(s) {
            Some(t) => Some(t as int),
            None => None,
        }
    }
}

/// Whether a number of units and the resulting point in time can be computed.
pub open spec fn reaches(now: int, n: int, seconds: int) -> bool {
    i64::MIN <= n * seconds <= i64::MAX && i64::MIN <= now - n * seconds <= i64::MAX
}

/// Whether the point in time can be computed with 64 bits.
pub open spec fn since_fits(s: Seq<char>, now: int) -> bool {
    if count_of(s, 'd') is Some {
        reaches(now, count_of(s, 'd')->0, 86400)
    } else if count_of(s, 'h') is Some {
        reaches(now, count_of(s, 'h')->0, 3600)
    } else {
        true
    }
}

fn read_count(s: &str, unit: char) -> (r: Option<i64>)
    ensures
        r is Some <==> count_of(s@, unit) is Some,
        r matches Some(n) ==> count_of(s@, unit) == Some(n as int),
{
    let cs = chars_of(s);
    if cs.len() > 0 && cs[cs.len() - 1] == unit {
        let head = text_of(&cs, 0, cs.len() - 1);
        assert(head@ =~= s@.drop_last());
        parse_signed(head.as_str())
    } else {
        None
    }
}

fn within_reach(now: i64, n: i64, seconds: i64) -> (r: bool)
    requires
        0 < seconds <= 86400,
    ensures
        r == reaches(now as int, n as int, seconds as int),
{
    match n.checked_mul(seconds) {
        Some(p) => match now.checked_sub(p) {
            Some(t) => true,
            None => false,
        },
        None => false,
    }
}

/// Whether the point in time can be computed with 64 bits.
pub fn since_in_range(s: &str, now: i64) -> (r: bool)
    ensures
        r == since_fits(s@, now as int),
{
    match read_count(s, 'd') {
        Some(n) => within_reach(now, n, 86400),
        None => match read_count(s, 'h') {
            Some(n) => within_reach(now, n, 3600),
            None => true,
        },
    }
}

/// Reads a point in time; none where the text is not one.
pub fn read_since(s: &str, now: i64) -> (r: Option<i64>)
    requires
        since_fits(s@, now as int),
    ensures
        r is Some <==> since(s@, now as int) is Some,
        r matches Some(t) ==> since(s@, now as int) == Some(t as int),
{
    match read_count(s, 'd') {
        Some(n) => {
            let p: i64 = n * 86400;
            Some(now - p)
        },
        None => match read_count(s, 'h') {
            Some(n) => {
                let p: i64 = n * 3600;
                Some(now - p)
            },
            None => parse_day(s),
        },
    }
}

/// Reads from when on log entries are shown.
pub fn parse_since(s: &str, now: i64) -> (r: Result<i64, Error>)
    requires
        since_fits(s@, now as int),
    ensures
        match since(s@, now as int) {
            Some(ts) => r matches Ok(n) && n == ts,
            None => r matches Err(e) && e@ == "Invalid --since value: "@ + s@,
        },
{
    match read_since(s, now) {
        Some(ts) => Ok(ts),
        None => Err(Error { message: concat2("Invalid --since value: ", s) }),
    }
}

// ---------------------------------------------------------------------------
// The query
// ---------------------------------------------------------------------------

/// A value that is bound to a query.
pub enum Bound {
    Text(String),
    Number(i64),
}

/// A bound value as a value of the specification language.
pub ghost enum BoundView {
    Text(Seq<char>),
    Number(int),
}

impl View for Bound {
    type V = BoundView;

    open spec fn view(&self) -> BoundView {
        match self {
            Bound::Text(s) => BoundView::Text(s@),
            Bound::Number(n) => BoundView::Number(*n as int),
        }
    }
}

/// A query and the values that are bound to it, in their order.
pub struct LogQuery {
    pub text: String,
    pub values: Vec<Bound>,
}

/// A query as a value of the specification language.
pub ghost struct QueryView {
    pub text: Seq<char>,
    pub values: Seq<BoundView>,
}

impl View for LogQuery {
    type V = QueryView;

    open spec fn view(&self) -> QueryView {
        QueryView {
            text: self.text@,
            values: Seq::new(self.values@.len(), |i: int| self.values@[i]@),
        }
    }
}

/// The beginning of every query.
pub const SELECT: &'static str =
    "SELECT timestamp, command, host, action, status, duration_ms, note FROM operation_log WHERE 1=1";

impl QueryView {
    /// The query for everything.
    pub open spec fn all() -> QueryView {
        QueryView { text: SELECT@, values: Seq::empty() }
    }

    /// With one more condition on a bound value.
    pub open spec fn also(self, condition: Seq<char>, value: BoundView) -> QueryView {
        QueryView {
            text: self.text + condition + decimal(self.values.len() + 1),
            values: self.values.push(value),
        }
    }

    /// With one more piece of text.
    pub open spec fn with(self, text: Seq<char>) -> QueryView {
        QueryView { text: self.text + text, ..self }
    }
}

/// The query for the chosen entries: the latest ones first, and no more than asked
/// for.
pub open spec fn log_query(
    last: nat,
    since: Option<i64>,
    host: Option<Seq<char>>,
    action: Option<ActionFilter>,
    errors: bool,
) -> QueryView {
    let q = QueryView::all();
    let q = match host {
        Some(h) => q.also(" AND host = ?"@, BoundView::Text(h)),
        None => q,
    };
    let q = match action {
        Some(a) => q.also(" AND command = ?"@, BoundView::Text(a.spec_name())),
        None => q,
    };
    let q = if errors {
        q.with(" AND status = 'error'"@)
    } else {
        q
    };
    let q = match since {
        Some(t) => q.also(" AND timestamp >= ?"@, BoundView::Number(t as int)),
        None => q,
    };
    q.with(" ORDER BY timestamp DESC"@).with(" LIMIT "@ + decimal(last))
}

impl LogQuery {
    fn also(&mut self, condition: &str, value: Bound)
        requires
            old(self).values@.len() < 100,
        ensures
            final(self)@ == old(self)@.also(condition@, value@),
            final(self).values@.len() == old(self).values@.len() + 1,
    {
        let ghost before = self@;
        let n: usize = self.values.len() + 1;
        self.text.append(condition);
        self.text.append(usize_text(n).as_str());
        self.values.push(value);
        assert(self@.values =~= before.values.push(value@));
    }
}

/// Builds the query for the chosen entries.
pub fn build_query(
    last: usize,
    since: Option<i64>,
    host: Option<&str>,
    action: Option<ActionFilter>,
    errors: bool,
) -> (r: LogQuery)
    ensures
        r@ == log_query(
            last as nat,
            since,
            crate::text::str_opt(host),
            action,
            errors,
        ),
{
    let mut q = LogQuery { text: copy(SELECT), values: Vec::new() };
    assert(q@.values =~= Seq::empty());
    match host {
        Some(h) => q.also(" AND host = ?", Bound::Text(copy(h))),
        None => {},
    }
    match action {
        Some(a) => q.also(" AND command = ?", Bound::Text(copy(a.name()))),
        None => {},
    }
    if errors {
        q.text.append(" AND status = 'error'");
    }
    match since {
        Some(t) => q.also(" AND timestamp >= ?", Bound::Number(t)),
        None => {},
    }
    q.text.append(" ORDER BY timestamp DESC");
    let limit = concat2(" LIMIT ", usize_text(last).as_str());
    q.text.append(limit.as_str());
    q
}

// ---------------------------------------------------------------------------
// What is shown
// ---------------------------------------------------------------------------

/// A time stamp as a date and a time of day, as chrono writes it; none where it is
/// out of range.
pub uninterp spec fn time_text(ts: i64) -> Option<Seq<char>>;

/// `DateTime::from_timestamp` and `DateTime::format` of chrono with the form
/// `%Y-%m-%d %H:%M:%S`.
#[verifier::external_body]
fn write_time(ts: i64) -> (r: Option<String>)
    ensures
        text_opt(r) == time_text(ts),
{
    Some(chrono::DateTime::from_timestamp(ts, 0)?.format("%Y-%m-%d %H:%M:%S").to_string())
}

/// The time of an entry; the bare number where it is out of range.
pub open spec fn shown_time(ts: i64, written: Option<Seq<char>>) -> Seq<char> {
    match written {
        Some(t) => t,
        None => signed_decimal(ts as int),
    }
}

/// Shows the time of an entry.
pub fn show_time(ts: i64) -> (r: String)
    ensures
        r@ == shown_time(ts, time_text(ts)),
{
    match write_time(ts) {
        Some(t) => t,
        None => signed_text(ts),
    }
}

/// The symbol of a status.
pub open spec fn status_icon(status: Seq<char>) -> Seq<char> {
    if status == "ok"@ {
        "\x1b[32m✓\x1b[0m"@
    } else if status == "error"@ {
        "\x1b[31m✗\x1b[0m"@
    } else if status == "skipped"@ {
        "\x1b[33m⊘\x1b[0m"@
    } else {
        "·"@
    }
}

/// The line of an entry; `took` is the time in seconds.
pub open spec fn log_line_text(
    time: Seq<char>,
    status: Seq<char>,
    host: Seq<char>,
    command: Seq<char>,
    action: Seq<char>,
    took: Option<Seq<char>>,
    note: Option<Seq<char>>,
) -> Seq<char> {
    time + " "@ + status_icon(status) + " ["@ + host + "] "@ + command + " "@ + action + (
    match took {
        Some(t) => " ("@ + t + "s)"@,
        None => ""@,
    }) + (match note {
        Some(n) => " — "@ + n,
        None => ""@,
    })
}

/// An entry of the operation log.
pub struct LogEntry {
    pub timestamp: i64,
    pub command: String,
    pub host: String,
    pub action: String,
    pub status: String,
    /// The time it took, in seconds with one digit behind the point.
    pub took: Option<String>,
    pub note: Option<String>,
}

/// Writes the line of an entry.
pub fn log_line(e: &LogEntry) -> (r: String)
    ensures
        r@ == log_line_text(
            shown_time(e.timestamp, time_text(e.timestamp)),
            e.status@,
            e.host@,
            e.command@,
            e.action@,
            text_opt(e.took),
            text_opt(e.note),
        ),
{
    let mut out = show_time(e.timestamp);
    out.append(" ");
    let s = e.status.as_str();
    out.append(
        if same(s, "ok") {
            "\x1b[32m✓\x1b[0m"
        } else if same(s, "error") {
            "\x1b[31m✗\x1b[0m"
        } else if same(s, "skipped") {
            "\x1b[33m⊘\x1b[0m"
        } else {
            "·"
        },
    );
    out.append(" [");
    out.append(e.host.as_str());
    out.append("] ");
    out.append(e.command.as_str());
    out.append(" ");
    out.append(e.action.as_str());
    let took = match &e.took {
        Some(t) => concat3(" (", t.as_str(), "s)"),
        None => copy(""),
    };
    out.append(took.as_str());
    let note = match &e.note {
        Some(n) => concat2(" — ", n.as_str()),
        None => copy(""),
    };
    out.append(note.as_str());
    out
}

/// What is said where the log has no such entry.
pub const NO_ENTRIES: &'static str = "No log entries found.";

// ---------------------------------------------------------------------------
// Laws
// ---------------------------------------------------------------------------

/// The placeholders of a query are numbered from 1 in the order of the values that
/// are bound to it.
pub proof fn placeholders_count_up(q: QueryView, condition: Seq<char>, value: BoundView)
    ensures
        q.also(condition, value).values.len() == q.values.len() + 1,
        q.also(condition, value).values.last() == value,
        q.also(condition, value).text == q.text + condition + decimal(
            q.also(condition, value).values.len(),
        ),
{
}

/// A count of days or hours reaches back by that many, and a longer one further.
pub proof fn counts_reach_back(n: int, now: int)
    requires
        i64::MIN <= n <= i64::MAX,
    ensures
        since(signed_decimal(n) + "d"@, now) == Some(now - n * 24 * 60 * 60),
        since(signed_decimal(n) + "h"@, now) == Some(now - n * 60 * 60),
{
    reveal_strlit("d");
    reveal_strlit("h");
    crate::text::signed_decimals_are_read_back(n);
    let d = signed_decimal(n) + "d"@;
    let h = signed_decimal(n) + "h"@;
    assert(d.last() == 'd');
    assert(h.last() == 'h');
    assert(d.drop_last() =~= signed_decimal(n));
    assert(h.drop_last() =~= signed_decimal(n));
}

/// Whether a query holds a condition with a placeholder that stands for a value.
pub open spec fn asks_for(q: QueryView, condition: Seq<char>, value: BoundView) -> bool {
    exists|pre: Seq<char>, post: Seq<char>, k: int|
        0 <= k < q.values.len() && q.values[k] == value && q.text == #[trigger] (pre + condition
            + decimal((k + 1) as nat) + post)
}

proof fn added_conditions_are_asked_for(q: QueryView, condition: Seq<char>, value: BoundView)
    ensures
        asks_for(q.also(condition, value), condition, value),
{
    let r = q.also(condition, value);
    let none = Seq::<char>::empty();
    let k = q.values.len() as int;
    assert(r.values[k] == value);
    assert(r.text =~= q.text + condition + decimal((k + 1) as nat) + none);
}

proof fn conditions_stay(
    q: QueryView,
    condition: Seq<char>,
    value: BoundView,
    more: Seq<char>,
    other: BoundView,
)
    requires
        asks_for(q, condition, value),
    ensures
        asks_for(q.with(more), condition, value),
        asks_for(q.also(more, other), condition, value),
{
    let (pre, post, k) = choose|pre: Seq<char>, post: Seq<char>, k: int|
        0 <= k < q.values.len() && q.values[k] == value && q.text == #[trigger] (pre + condition
            + decimal((k + 1) as nat) + post);
    let a = q.with(more);
    assert(a.text =~= pre + condition + decimal((k + 1) as nat) + (post + more));
    assert(a.values[k] == value);
    let b = q.also(more, other);
    assert(b.text =~= pre + condition + decimal((k + 1) as nat) + (post + more + decimal(
        q.values.len() + 1,
    )));
    assert(b.values[k] == value);
}

/// The log is asked for what the given filters name and for nothing else, the newest first
/// and no more than the given number.
#[verifier::rlimit(40)]
pub proof fn queries_hold_their_filters(
    last: nat,
    since: Option<i64>,
    host: Option<Seq<char>>,
    action: Option<ActionFilter>,
    errors: bool,
)
    ensures
        ({
            let q = log_query(last, since, host, action, errors);
            &&& host matches Some(h) ==> asks_for(q, " AND host = ?"@, BoundView::Text(h))
            &&& action matches Some(a) ==> asks_for(
                q,
                " AND command = ?"@,
                BoundView::Text(a.spec_name()),
            )
            &&& since matches Some(t) ==> asks_for(
                q,
                " AND timestamp >= ?"@,
                BoundView::Number(t as int),
            )
            &&& errors ==> exists|pre: Seq<char>, post: Seq<char>|
                q.text == #[trigger] (pre + " AND status = 'error'"@ + post)
            &&& q.values.len() == (if host is Some {
                1int
            } else {
                0
            }) + (if action is Some {
                1int
            } else {
                0
            }) + (if since is Some {
                1int
            } else {
                0
            })
            &&& exists|pre: Seq<char>| q.text == #[trigger] (pre + " ORDER BY timestamp DESC"@
                + " LIMIT "@ + decimal(last))
        }),
{
    let none = BoundView::Number(0);
    let q0 = QueryView::all();
    let q1 = match host {
        Some(h) => q0.also(" AND host = ?"@, BoundView::Text(h)),
        None => q0,
    };
    let q2 = match action {
        Some(a) => q1.also(" AND command = ?"@, BoundView::Text(a.spec_name())),
        None => q1,
    };
    let q3 = if errors {
        q2.with(" AND status = 'error'"@)
    } else {
        q2
    };
    let q4 = match since {
        Some(t) => q3.also(" AND timestamp >= ?"@, BoundView::Number(t as int)),
        None => q3,
    };
    let q5 = q4.with(" ORDER BY timestamp DESC"@);
    let tail = " LIMIT "@ + decimal(last);
    let q6 = q5.with(tail);
    assert(q6 == log_query(last, since, host, action, errors));
    assert(q6.text =~= q4.text + " ORDER BY timestamp DESC"@ + " LIMIT "@ + decimal(last));
    if host is Some {
        let c = " AND host = ?"@;
        let v = BoundView::Text(host->0);
        added_conditions_are_asked_for(q0, c, v);
        if action is Some {
            conditions_stay(q1, c, v, " AND command = ?"@, BoundView::Text(action->0.spec_name()));
        }
        if errors {
            conditions_stay(q2, c, v, " AND status = 'error'"@, none);
        }
        if since is Some {
            conditions_stay(q3, c, v, " AND timestamp >= ?"@, BoundView::Number(since->0 as int));
        }
        conditions_stay(q4, c, v, " ORDER BY timestamp DESC"@, none);
        conditions_stay(q5, c, v, tail, none);
    }
    if action is Some {
        let c = " AND command = ?"@;
        let v = BoundView::Text(action->0.spec_name());
        added_conditions_are_asked_for(q1, c, v);
        if errors {
            conditions_stay(q2, c, v, " AND status = 'error'"@, none);
        }
        if since is Some {
            conditions_stay(q3, c, v, " AND timestamp >= ?"@, BoundView::Number(since->0 as int));
        }
        conditions_stay(q4, c, v, " ORDER BY timestamp DESC"@, none);
        conditions_stay(q5, c, v, tail, none);
    }
    if since is Some {
        let c = " AND timestamp >= ?"@;
        let v = BoundView::Number(since->0 as int);
        added_conditions_are_asked_for(q3, c, v);
        conditions_stay(q4, c, v, " ORDER BY timestamp DESC"@, none);
        conditions_stay(q5, c, v, tail, none);
    }
    if errors {
        let t = if since is Some {
            " AND timestamp >= ?"@ + decimal(q3.values.len() + 1)
        } else {
            Seq::empty()
        };
        assert(q6.text =~= q2.text + " AND status = 'error'"@ + (t + " ORDER BY timestamp DESC"@
            + tail));
    }
}

/// A line of the log tells when, on which host and what was done, how it ended, how long it
/// took and what was noted.
pub proof fn log_lines_tell_what_was_done(
    time: Seq<char>,
    status: Seq<char>,
    host: Seq<char>,
    command: Seq<char>,
    action: Seq<char>,
    took: Seq<char>,
    note: Seq<char>,
)
    ensures
        log_line_text(time, status, host, command, action, None, None) == time + " "@ + status_icon(
            status,
        ) + " ["@ + host + "] "@ + command + " "@ + action,
        log_line_text(time, status, host, command, action, Some(took), None) == log_line_text(
            time,
            status,
            host,
            command,
            action,
            None,
            None,
        ) + " ("@ + took + "s)"@,
        log_line_text(time, status, host, command, action, None, Some(note)) == log_line_text(
            time,
            status,
            host,
            command,
            action,
            None,
            None,
        ) + " — "@ + note,
        status_icon("ok"@) != status_icon("error"@),
        status_icon("ok"@) != status_icon("skipped"@),
{
    reveal_strlit("");
    reveal_strlit("ok");
    reveal_strlit("error");
    reveal_strlit("skipped");
    reveal_strlit("\x1b[32m✓\x1b[0m");
    reveal_strlit("\x1b[31m✗\x1b[0m");
    reveal_strlit("\x1b[33m⊘\x1b[0m");
    assert("ok"@.len() == 2 && "error"@.len() == 5 && "skipped"@.len() == 7);
    assert("\x1b[32m✓\x1b[0m"@[3] == '2');
    assert("\x1b[31m✗\x1b[0m"@[3] == '1');
    assert("\x1b[33m⊘\x1b[0m"@[3] == '3');
    let bare = time + " "@ + status_icon(status) + " ["@ + host + "] "@ + command + " "@ + action;
    assert(bare + ""@ + ""@ =~= bare);
    assert(log_line_text(time, status, host, command, action, Some(took), None) =~= bare + " ("@
        + took + "s)"@);
    assert(log_line_text(time, status, host, command, action, None, Some(note)) =~= bare + " — "@
        + note);
}

} // verus!
