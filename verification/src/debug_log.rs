//! Text of the optional debug log: UTC timestamps and argv blocks. The
//! process-wide log file itself (opening, locking, appending) belongs to
//! the binary.

use vstd::prelude::*;

use crate::clock::unix_now_secs;
use crate::text::{decimal, extend_chars, extend_str, push_decimal, string_of, zero_padded};

verus! {

/// Path the ravel-side embedding-debug log is written to.
pub const EMBEDDING_DEBUG_FILE: &'static str = "/tmp/ravel-embedding-debug.log";

/// Gregorian leap years.
pub open spec fn leap(y: int) -> bool {
    (y % 4 == 0 && y % 100 != 0) || y % 400 == 0
}

pub fn is_leap(year: u32) -> (r: bool)
    ensures
        r == leap(year as int),
{
    (year % 4 == 0 && year % 100 != 0) || year % 400 == 0
}

pub open spec fn year_len(y: int) -> int {
    if leap(y) {
        366
    } else {
        365
    }
}

fn year_length(year: u32) -> (r: u64)
    ensures
        r == year_len(year as int),
{
    if is_leap(year) {
        366
    } else {
        365
    }
}

/// Length of month `m` (0 = January).
pub open spec fn month_len(m: int, leap_year: bool) -> int {
    if m == 1 {
        if leap_year {
            29
        } else {
            28
        }
    } else if m == 3 || m == 5 || m == 8 || m == 10 {
        30
    } else {
        31
    }
}

fn month_length(m: u32, leap_year: bool) -> (r: u64)
    ensures
        r == month_len(m as int, leap_year),
{
    if m == 1 {
        if leap_year {
            29
        } else {
            28
        }
    } else if m == 3 || m == 5 || m == 8 || m == 10 {
        30
    } else {
        31
    }
}

/// The year holding day `days` counted from January 1st of `y`, and the
/// day's index within that year.
pub open spec fn civil_year(days: nat, y: int) -> (int, nat)
    decreases days,
{
    if days < year_len(y) {
        (y, days)
    } else {
        civil_year((days - year_len(y)) as nat, y + 1)
    }
}

/// The month (0-based, from `m`) holding day `days` of a year, and the
/// day's index within it. Days past December stay in December.
pub open spec fn civil_month(days: nat, m: int, leap_year: bool) -> (int, nat)
    decreases 12 - m,
{
    if m >= 11 || days < month_len(m, leap_year) {
        (m, days)
    } else {
        civil_month((days - month_len(m, leap_year)) as nat, m + 1, leap_year)
    }
}

/// `YYYY-MM-DDTHH:MM:SSZ` for a Unix time.
pub open spec fn utc_text(secs: nat) -> Seq<char> {
    let seconds = secs % 60;
    let minutes = (secs / 60) % 60;
    let hours = (secs / 3600) % 24;
    let days = secs / 86400;
    let (y, d) = civil_year(days, 1970);
    let (m, dd) = civil_month(d, 0, leap(y));
    zero_padded(y as nat, 4) + "-"@ + zero_padded((m + 1) as nat, 2) + "-"@ + zero_padded(dd + 1, 2) + "T"@
        + zero_padded(hours, 2) + ":"@ + zero_padded(minutes, 2) + ":"@ + zero_padded(seconds, 2) + "Z"@
}

/// A bound on the Unix times the clock is read within (about three
/// billion years out), comfortably inside what the formatter handles.
pub const MAX_FORMATTED_SECS: u64 = 100_000_000_000_000_000;

/// Whether the formatter handles `secs`: its year fits the formatter's
/// 32-bit year count.
pub open spec fn formattable(secs: nat) -> bool {
    civil_year(secs / 86400, 1970).0 <= u32::MAX
}

/// The year of day `days` counted from year `y` is `y` or later, and later
/// than `y` once `days` passes the end of year `y`.
pub proof fn lemma_civil_year_not_before(days: nat, y: int)
    ensures
        civil_year(days, y).0 >= y,
        days >= year_len(y) ==> civil_year(days, y).0 >= y + 1,
    decreases days,
{
    if days >= year_len(y) {
        lemma_civil_year_not_before((days - year_len(y)) as nat, y + 1);
    }
}

/// Every year has at least 365 days.
pub proof fn lemma_civil_year_rate(days: nat, y: int)
    ensures
        365 * (civil_year(days, y).0 - y) <= days,
    decreases days,
{
    if days >= year_len(y) {
        lemma_civil_year_rate((days - year_len(y)) as nat, y + 1);
    }
}

/// Every time up to `MAX_FORMATTED_SECS` is formattable.
pub proof fn lemma_bounded_secs_formattable(secs: nat)
    requires
        secs <= MAX_FORMATTED_SECS,
    ensures
        formattable(secs),
{
    lemma_civil_year_rate(secs / 86400, 1970);
    assert(secs / 86400 <= 1_157_407_407_407) by (nonlinear_arith)
        requires
            secs <= 100_000_000_000_000_000nat,
    ;
}

/// Appends `zero_padded(n, width)`.
pub fn push_zero_padded(out: &mut Vec<char>, n: u64, width: usize)
    ensures
        final(out)@ == old(out)@ + zero_padded(n as nat, width as nat),
{
    let mut d: Vec<char> = Vec::new();
    push_decimal(&mut d, n);
    assert(d@ =~= decimal(n as nat));
    let mut k: usize = d.len();
    let ghost start = out@;
    while k < width
        invariant
            d@ == decimal(n as nat),
            d.len() <= k <= width || (k == d.len() && k >= width),
            out@ == start + Seq::new((k - d.len()) as nat, |i: int| '0'),
        decreases width - k,
    {
        let ghost before = out@;
        out.push('0');
        assert(out@ =~= start + Seq::new((k + 1 - d.len()) as nat, |i: int| '0'));
        k += 1;
    }
    extend_chars(out, &d);
    proof {
        if d.len() >= width {
            assert(k == d.len());
            assert(Seq::new((k - d.len()) as nat, |i: int| '0') =~= Seq::<char>::empty());
            assert(final(out)@ =~= start + decimal(n as nat));
        } else {
            assert(k == width);
        }
    }
}

/// Convert a Unix-epoch second count into `YYYY-MM-DDTHH:MM:SSZ`.
pub fn format_unix_utc(secs: u64) -> (r: String)
    requires
        formattable(secs as nat),
    ensures
        r@ == utc_text(secs as nat),
{
    let seconds = secs % 60;
    let minutes = (secs / 60) % 60;
    let hours = (secs / 60 / 60) % 24;
    let total_days = secs / 60 / 60 / 24;
    assert(secs / 60 / 60 == secs / 3600) by (nonlinear_arith);
    assert(secs / 60 / 60 / 24 == secs / 86400) by (nonlinear_arith);
    let mut days: u64 = total_days;
    let mut year: u32 = 1970;
    assert(civil_year(total_days as nat, 1970).0 <= u32::MAX);
    while days >= year_length(year)
        invariant
            1970 <= year,
            civil_year(total_days as nat, 1970).0 <= u32::MAX,
            civil_year(total_days as nat, 1970) == civil_year(days as nat, year as int),
        decreases days,
    {
        proof {
            lemma_civil_year_not_before(days as nat, year as int);
        }
        days = days - year_length(year);
        year = year + 1;
    }
    let leap_year = is_leap(year);
    let mut month: u32 = 0;
    while month < 11 && days >= month_length(month, leap_year)
        invariant
            month <= 11,
            civil_month(civil_year(total_days as nat, 1970).1, 0, leap(civil_year(total_days as nat, 1970).0))
                == civil_month(days as nat, month as int, leap_year),
            leap_year == leap(civil_year(total_days as nat, 1970).0),
        decreases 11 - month,
    {
        days = days - month_length(month, leap_year);
        month = month + 1;
    }
    assert(days < 366) by {
        assert(civil_year(total_days as nat, 1970).1 < 366) by {
            lemma_civil_year_day_bound(total_days as nat, 1970);
        }
        lemma_civil_month_day_bound(
            civil_year(total_days as nat, 1970).1,
            0,
            leap_year,
        );
    }
    let mut v: Vec<char> = Vec::new();
    push_zero_padded(&mut v, year as u64, 4);
    extend_str(&mut v, "-");
    push_zero_padded(&mut v, (month + 1) as u64, 2);
    extend_str(&mut v, "-");
    push_zero_padded(&mut v, days + 1, 2);
    extend_str(&mut v, "T");
    push_zero_padded(&mut v, hours, 2);
    extend_str(&mut v, ":");
    push_zero_padded(&mut v, minutes, 2);
    extend_str(&mut v, ":");
    push_zero_padded(&mut v, seconds, 2);
    extend_str(&mut v, "Z");
    string_of(&v)
}

pub proof fn lemma_civil_year_day_bound(days: nat, y: int)
    ensures
        civil_year(days, y).1 < year_len(civil_year(days, y).0),
        civil_year(days, y).1 < 366,
    decreases days,
{
    if days >= year_len(y) {
        lemma_civil_year_day_bound((days - year_len(y)) as nat, y + 1);
    }
}

pub proof fn lemma_civil_month_day_bound(days: nat, m: int, leap_year: bool)
    requires
        days < 366,
    ensures
        civil_month(days, m, leap_year).1 <= days,
    decreases 12 - m,
{
    if !(m >= 11 || days < month_len(m, leap_year)) {
        lemma_civil_month_day_bound((days - month_len(m, leap_year)) as nat, m + 1, leap_year);
    }
}

/// The current UTC time as `YYYY-MM-DDTHH:MM:SSZ` (the clock clamped to
/// the formatter's range).
pub fn unix_iso_now() -> (r: String)
    ensures
        exists|secs: nat| secs <= MAX_FORMATTED_SECS && r@ == utc_text(secs),
{
    let secs = unix_now_secs();
    let s = if secs > MAX_FORMATTED_SECS {
        MAX_FORMATTED_SECS
    } else {
        secs
    };
    proof {
        lemma_bounded_secs_formattable(s as nat);
    }
    format_unix_utc(s)
}

/// The body lines of an argv block: the program, then each argument.
pub open spec fn argv_text(program: Seq<char>, args: Seq<Seq<char>>) -> Seq<char>
    decreases args.len(),
{
    if args.len() == 0 {
        "argv:\n    "@ + program
    } else {
        argv_text(program, args.drop_last()) + "\n    "@ + args.last()
    }
}

pub open spec fn arg_views(args: Seq<String>) -> Seq<Seq<char>> {
    args.map_values(|a: String| a@)
}

/// Format an argv vector as a multi-line block for a debug log body, one
/// element per line. (Trailing newlines of the last argument are trimmed.)
pub open spec fn argv_block(program: Seq<char>, args: Seq<Seq<char>>) -> Seq<char> {
    trim_trailing_newlines(argv_text(program, args))
}

/// `s` without the `\n` characters at its end.
pub open spec fn trim_trailing_newlines(s: Seq<char>) -> Seq<char>
    decreases s.len(),
{
    if s.len() > 0 && s.last() == '\n' {
        trim_trailing_newlines(s.drop_last())
    } else {
        s
    }
}

pub fn format_argv(program: &str, args: &[String]) -> (r: String)
    ensures
        r@ == argv_block(program@, arg_views(args@)),
{
    let mut v: Vec<char> = Vec::new();
    extend_str(&mut v, "argv:\n    ");
    extend_str(&mut v, program);
    let mut i: usize = 0;
    while i < args.len()
        invariant
            i <= args.len(),
            v@ == argv_text(program@, arg_views(args@).take(i as int)),
        decreases args.len() - i,
    {
        assert(arg_views(args@).take(i + 1).drop_last() =~= arg_views(args@).take(i as int));
        extend_str(&mut v, "\n    ");
        extend_str(&mut v, args[i].as_str());
        i += 1;
    }
    assert(arg_views(args@).take(i as int) =~= arg_views(args@));
    let ghost full = v@;
    while v.len() > 0 && v[v.len() - 1] == '\n'
        invariant
            trim_trailing_newlines(full) == trim_trailing_newlines(v@),
        decreases v.len(),
    {
        let ghost before = v@;
        v.pop();
        assert(v@ =~= before.drop_last());
    }
    string_of(&v)
}

/// One log entry's lines: `[ts] label`, then each line of `body`
/// indented by four spaces (none when `body` is empty).
pub open spec fn log_entry(ts: Seq<char>, label: Seq<char>, body_lines: Seq<Seq<char>>) -> Seq<Seq<char>> {
    seq!["["@ + ts + "] "@ + label] + body_lines.map_values(|l: Seq<char>| "    "@ + l)
}

/// The lines `log` appends for `label` and `body` at time `ts`.
pub fn log_entry_lines(ts: &str, label: &str, body: &str) -> (r: Vec<String>)
    ensures
        arg_views(r@) == log_entry(
            ts@,
            label@,
            if body@.len() == 0 {
                seq![]
            } else {
                crate::text::lines(body@)
            },
        ),
{
    let mut out: Vec<String> = Vec::new();
    let mut head: Vec<char> = Vec::new();
    extend_str(&mut head, "[");
    extend_str(&mut head, ts);
    extend_str(&mut head, "] ");
    extend_str(&mut head, label);
    out.push(string_of(&head));
    let bv = crate::text::chars_of(body);
    let ls: Vec<Vec<char>> = if bv.len() == 0 {
        Vec::new()
    } else {
        crate::text::lines_of(&bv)
    };
    let ghost bl = crate::text::views(ls@);
    assert(arg_views(out@) =~= log_entry(ts@, label@, bl.take(0)));
    let mut i: usize = 0;
    while i < ls.len()
        invariant
            i <= ls.len(),
            bl == crate::text::views(ls@),
            arg_views(out@) == log_entry(ts@, label@, bl.take(i as int)),
        decreases ls.len() - i,
    {
        let mut l: Vec<char> = Vec::new();
        extend_str(&mut l, "    ");
        extend_chars(&mut l, &ls[i]);
        let ghost before = out@;
        out.push(string_of(&l));
        assert(arg_views(out@) =~= arg_views(before).push(l@));
        assert(bl.take(i + 1) =~= bl.take(i as int).push(bl[i as int]));
        assert(log_entry(ts@, label@, bl.take(i + 1)) =~= log_entry(ts@, label@, bl.take(i as int)).push(
            "    "@ + bl[i as int],
        ));
        i += 1;
    }
    assert(bl.take(i as int) =~= bl);
    out
}

/// The single line `log_stream_line` appends: `[ts] agent:channel line`.
pub fn stream_log_line(ts: &str, agent_name: &str, channel: &str, line: &str) -> (r: String)
    ensures
        r@ == "["@ + ts@ + "] "@ + agent_name@ + ":"@ + channel@ + " "@ + line@,
{
    let mut v: Vec<char> = Vec::new();
    extend_str(&mut v, "[");
    extend_str(&mut v, ts);
    extend_str(&mut v, "] ");
    extend_str(&mut v, agent_name);
    extend_str(&mut v, ":");
    extend_str(&mut v, channel);
    extend_str(&mut v, " ");
    extend_str(&mut v, line);
    string_of(&v)
}

/// Whether the debug log is on, and where it writes. The binary opens the
/// file when it enables the log and appends what `log` and
/// `log_stream_line` return.
pub struct DebugLog {
    pub path: Option<String>,
}

impl DebugLog {
    /// The log before anything enabled it.
    pub fn disabled() -> (r: DebugLog)
        ensures
            r.path is None,
    {
        DebugLog { path: None }
    }

    /// The log writing to `path`.
    pub fn enable(path: &str) -> (r: DebugLog)
        ensures
            r.path matches Some(p) && p@ == path@,
    {
        DebugLog { path: Some(crate::text::owned(path)) }
    }
}

pub fn is_enabled(dl: &DebugLog) -> (r: bool)
    ensures
        r == dl.path is Some,
{
    dl.path.is_some()
}

/// The lines to append for a labelled entry, stamped with the current
/// time; nothing when the log is off.
pub fn log(dl: &DebugLog, label: &str, body: &str) -> (r: Vec<String>)
    ensures
        dl.path is None ==> r@.len() == 0,
        dl.path is Some ==> exists|secs: nat|
            secs <= MAX_FORMATTED_SECS && arg_views(r@) == log_entry(
                utc_text(secs),
                label@,
                if body@.len() == 0 {
                    seq![]
                } else {
                    crate::text::lines(body@)
                },
            ),
{
    if !is_enabled(dl) {
        return Vec::new();
    }
    let ts = unix_iso_now();
    log_entry_lines(ts.as_str(), label, body)
}

/// The line to append for one raw stream line, stamped with the current
/// time; nothing when the log is off.
pub fn log_stream_line(dl: &DebugLog, agent_name: &str, channel: &str, line: &str) -> (r: Option<String>)
    ensures
        dl.path is None ==> r is None,
        dl.path is Some ==> (r matches Some(l) && exists|secs: nat|
            secs <= MAX_FORMATTED_SECS && l@ == "["@ + utc_text(secs) + "] "@ + agent_name@ + ":"@ + channel@ + " "@
                + line@),
{
    if !is_enabled(dl) {
        return None;
    }
    let ts = unix_iso_now();
    Some(stream_log_line(ts.as_str(), agent_name, channel, line))
}

} // verus!
