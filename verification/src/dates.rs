//! The date rule engine: a prioritized list of pattern+format rules that
//! extract a timestamp from a free-text date field, with regime corrections
//! (reset to midnight, rewrite to the current year). All timestamps are
//! milliseconds since epoch; calendar arithmetic itself is chrono's, behind
//! trusted wrappers whose results are named.

use vstd::prelude::*;
use vstd::string::StringExecFns;
use crate::errors::DateParseError;
use crate::text;

verus! {

/// The leftmost match of a regular expression in a text: the whole match,
/// the pattern's number of capture groups, and the text of group 1 where it
/// participated; `None` where the pattern does not compile or nothing
/// matches.
pub uninterp spec fn capture_of(pattern: Seq<char>, t: Seq<char>) -> Option<
    (Seq<char>, nat, Option<Seq<char>>),
>;

/// Relies on regex::Regex::new and Regex::captures: the leftmost match, the
/// group count and group 1's text, a function of the two texts alone.
#[verifier::external_body]
fn regex_capture(pattern: &str, t: &str) -> (r: Option<(String, usize, Option<String>)>)
    ensures
        r is Some <==> capture_of(pattern@, t@) is Some,
        r matches Some(c) ==> {
            let m = capture_of(pattern@, t@)->Some_0;
            &&& c.0@ == m.0
            &&& c.1 as nat == m.1
            &&& (c.2 is Some <==> m.2 is Some)
            &&& (c.2 matches Some(g) ==> m.2 == Some(g@))
        },
{
    let re = match regex::Regex::new(pattern) {
        Ok(re) => re,
        Err(_) => return None,
    };
    let caps = re.captures(t)?;
    let whole = caps.get(0).map(|m| m.as_str().to_string()).unwrap_or_default();
    let group1 = caps.get(1).map(|m| m.as_str().to_string());
    Some((whole, caps.len(), group1))
}

/// The local midnight of the calendar date a text denotes under a format, in
/// the named time zone, as milliseconds since epoch; `None` where the text
/// does not match the format, the zone is unknown, or that midnight does not
/// exist uniquely. Only the format's date fields are read: the time of day
/// is always midnight, even under a format that names time fields.
pub uninterp spec fn format_millis_of(t: Seq<char>, format: Seq<char>, tz: Seq<char>) -> Option<
    int,
>;

/// Relies on chrono's NaiveDate::parse_from_str and chrono-tz's zone lookup:
/// the local midnight of the parsed date, a function of the three texts
/// alone.
#[verifier::external_body]
fn format_date_millis(t: &str, format: &str, tz: &str) -> (r: Option<i64>)
    ensures
        match r {
            Some(m) => format_millis_of(t@, format@, tz@) == Some(m as int),
            None => format_millis_of(t@, format@, tz@) is None,
        },
{
    let zone: chrono_tz::Tz = tz.parse().ok()?;
    let day = chrono::NaiveDate::parse_from_str(t, format).ok()?;
    let local = day.and_hms_opt(0, 0, 0)?;
    let stamp = chrono::TimeZone::from_local_datetime(&zone, &local).single()?;
    Some(stamp.timestamp_millis())
}

/// The same instant with its local calendar year replaced, in the named
/// zone; `None` where the zone is unknown, the instant is out of range, or
/// the rewritten date does not exist.
pub uninterp spec fn year_set_millis(millis: int, year: int, tz: Seq<char>) -> Option<int>;

/// Relies on chrono's Datelike::with_year in the named zone; a function of
/// its arguments alone.
#[verifier::external_body]
fn with_year_millis(millis: i64, year: i32, tz: &str) -> (r: Option<i64>)
    ensures
        match r {
            Some(m) => year_set_millis(millis as int, year as int, tz@) == Some(m as int),
            None => year_set_millis(millis as int, year as int, tz@) is None,
        },
{
    let zone: chrono_tz::Tz = tz.parse().ok()?;
    let stamp = chrono::DateTime::from_timestamp_millis(millis)?.with_timezone(&zone);
    Some(chrono::Datelike::with_year(&stamp, year)?.timestamp_millis())
}

/// The same instant with its local time of day zeroed, in the named zone;
/// `None` where the zone is unknown, the instant is out of range, or that
/// midnight does not exist.
pub uninterp spec fn midnight_millis_of(millis: int, tz: Seq<char>) -> Option<int>;

/// Relies on chrono's Timelike::with_hour, with_minute, with_second and
/// with_nanosecond in the named zone; a function of its arguments alone.
#[verifier::external_body]
fn reset_time_millis(millis: i64, tz: &str) -> (r: Option<i64>)
    ensures
        match r {
            Some(m) => midnight_millis_of(millis as int, tz@) == Some(m as int),
            None => midnight_millis_of(millis as int, tz@) is None,
        },
{
    let zone: chrono_tz::Tz = tz.parse().ok()?;
    let stamp = chrono::DateTime::from_timestamp_millis(millis)?.with_timezone(&zone);
    let zeroed = chrono::Timelike::with_nanosecond(
        &chrono::Timelike::with_second(
            &chrono::Timelike::with_minute(&chrono::Timelike::with_hour(&stamp, 0)?, 0)?,
            0,
        )?,
        0,
    )?;
    Some(zeroed.timestamp_millis())
}

/// Whether a name denotes a known time zone.
pub uninterp spec fn tz_known(name: Seq<char>) -> bool;

/// Relies on chrono-tz's Tz::from_str: whether the name denotes a zone of
/// the compiled-in database; a function of the name alone.
#[verifier::external_body]
pub(crate) fn tz_exists(name: &str) -> (r: bool)
    ensures
        r == tz_known(name@),
{
    name.parse::<chrono_tz::Tz>().is_ok()
}

/// An instant after the reset-to-midnight correction: the local midnight
/// where the zone can compute it, else the instant unchanged.
pub open spec fn spec_reset_applied(m: int, reset_hour: bool, tz: Seq<char>) -> int {
    if reset_hour {
        match midnight_millis_of(m, tz) {
            Some(x) => x,
            None => m,
        }
    } else {
        m
    }
}

/// Apply the reset-to-midnight correction of a rule.
pub fn apply_reset_hour(millis: i64, reset_hour: bool, tz: &str) -> (r: i64)
    ensures
        r as int == spec_reset_applied(millis as int, reset_hour, tz@),
{
    if reset_hour {
        match reset_time_millis(millis, tz) {
            Option::Some(x) => x,
            Option::None => millis,
        }
    } else {
        millis
    }
}

/// An instant after the rewrite-to-current-year correction, kept unchanged
/// where the zone cannot compute the rewritten date.
pub open spec fn spec_year_applied(m: int, add_year: bool, year: int, tz: Seq<char>) -> int {
    if add_year {
        match year_set_millis(m, year, tz) {
            Some(x) => x,
            None => m,
        }
    } else {
        m
    }
}

/// Apply the rewrite-to-current-year correction of a rule to a start date.
pub fn apply_add_year(millis: i64, add_year: bool, year: i32, tz: &str) -> (r: i64)
    ensures
        r as int == spec_year_applied(millis as int, add_year, year as int, tz@),
{
    if add_year {
        match with_year_millis(millis, year, tz) {
            Option::Some(x) => x,
            Option::None => millis,
        }
    } else {
        millis
    }
}

/// An end date after the year correction: rewritten to the current year, and
/// advanced one further year where the rewritten value still precedes the
/// start (events spanning a calendar year boundary).
pub open spec fn spec_end_adjusted(
    start: int,
    end: int,
    add_year: bool,
    year: int,
    tz: Seq<char>,
) -> int {
    if add_year {
        let e1 = match year_set_millis(end, year, tz) {
            Some(x) => x,
            None => end,
        };
        if e1 < start {
            match year_set_millis(e1, year + 1, tz) {
                Some(x) => x,
                None => e1,
            }
        } else {
            e1
        }
    } else {
        end
    }
}

/// Apply the year correction of a rule to an end date, relative to the
/// resolved start date.
pub fn adjust_end_millis(start: i64, end: i64, add_year: bool, year: i32, tz: &str) -> (r: i64)
    requires
        year < i32::MAX,
    ensures
        r as int == spec_end_adjusted(start as int, end as int, add_year, year as int, tz@),
{
    if add_year {
        let e1 = match with_year_millis(end, year, tz) {
            Option::Some(x) => x,
            Option::None => end,
        };
        if e1 < start {
            match with_year_millis(e1, year + 1, tz) {
                Option::Some(x) => x,
                Option::None => e1,
            }
        } else {
            e1
        }
    } else {
        end
    }
}

/// Year rollover: where an end date carries the add-year flag and its
/// rewritten-to-current-year value still precedes the start date, the end is
/// advanced exactly one more year.
pub proof fn lemma_year_rollover(start: int, end: int, year: int, tz: Seq<char>)
    requires
        year_set_millis(end, year, tz) is Some,
        year_set_millis(end, year, tz)->Some_0 < start,
        year_set_millis(year_set_millis(end, year, tz)->Some_0, year + 1, tz) is Some,
    ensures
        spec_end_adjusted(start, end, true, year, tz) == year_set_millis(
            year_set_millis(end, year, tz)->Some_0,
            year + 1,
            tz,
        )->Some_0,
{
}

/// One pattern+format rule of a date rule set.
#[derive(Debug, Clone, PartialEq, Eq)]
pub struct Parser {
    /// A regular expression that locates the date text inside the field.
    pub matcher: String,
    /// A date format for the captured text; absent means the captured text
    /// is a raw epoch value.
    pub format: Option<String>,
    /// Rewrite the parsed date's year to the current calendar year (for
    /// sources that publish recurring annual events without a year).
    pub add_year: bool,
    /// Zero the parsed date's time of day in the source's zone.
    pub reset_hour: bool,
}

/// A parsed date with the rule flags the caller must still apply.
#[derive(Debug, Clone, Copy, PartialEq, Eq, Structural)]
pub struct DateResult {
    /// Milliseconds since epoch.
    pub millis: i64,
    pub add_year: bool,
    pub reset_hour: bool,
}

impl DateResult {
    pub fn new(millis: i64, add_year: bool, reset_hour: bool) -> (r: Self)
        ensures
            r == (DateResult { millis, add_year, reset_hour }),
    {
        DateResult { millis, add_year, reset_hour }
    }
}

/// The text a rule captures: the whole match where the pattern has exactly
/// one capture group, else group 1; nothing where group 1 did not
/// participate in the match.
pub open spec fn spec_selected(pattern: Seq<char>, t: Seq<char>) -> Option<Seq<char>> {
    match capture_of(pattern, t) {
        None => None,
        Some(c) => {
            if c.1 == 1 {
                Some(c.0)
            } else {
                c.2
            }
        },
    }
}

impl Parser {
    /// The instant this rule extracts from a text, in milliseconds since
    /// epoch: the captured text read under the rule's format, or as a raw
    /// epoch value with the seconds heuristic where no format is given.
    pub open spec fn spec_millis(&self, t: Seq<char>, tz: Seq<char>) -> Option<int> {
        match spec_selected(self.matcher@, t) {
            None => None,
            Some(sel) => match self.format {
                Some(f) => format_millis_of(sel, f@, tz),
                None => text::epoch_text_millis(sel),
            },
        }
    }

    /// Try this rule on a text in the given zone.
    pub fn parse(&self, value: &str, locale: &str) -> (r: Option<DateResult>)
        ensures
            match r {
                Some(dr) => self.spec_millis(value@, locale@) == Some(dr.millis as int)
                    && dr.add_year == self.add_year && dr.reset_hour == self.reset_hour,
                None => self.spec_millis(value@, locale@) is None,
            },
    {
        let captured = match regex_capture(self.matcher.as_str(), value) {
            Option::None => {
                return Option::None;
            },
            Option::Some(c) => c,
        };
        let selected: String = if captured.1 == 1 {
            captured.0
        } else {
            match captured.2 {
                Option::Some(g) => g,
                Option::None => {
                    return Option::None;
                },
            }
        };
        let millis: i64 = match &self.format {
            Option::Some(f) => {
                match format_date_millis(selected.as_str(), f.as_str(), locale) {
                    Option::Some(m) => m,
                    Option::None => {
                        return Option::None;
                    },
                }
            },
            Option::None => {
                match text::parse_epoch_text(selected.as_str()) {
                    Option::Some(m) => m,
                    Option::None => {
                        return Option::None;
                    },
                }
            },
        };
        Option::Some(DateResult::new(millis, self.add_year, self.reset_hour))
    }
}

/// The result of the first rule that matches, with its flags; `None` where
/// no rule matches.
pub open spec fn spec_rules_result(parsers: Seq<Parser>, t: Seq<char>, tz: Seq<char>) -> Option<
    (int, bool, bool),
>
    decreases parsers.len(),
{
    if parsers.len() == 0 {
        None
    } else {
        match parsers[0].spec_millis(t, tz) {
            Some(m) => Some((m, parsers[0].add_year, parsers[0].reset_hour)),
            None => spec_rules_result(parsers.drop_first(), t, tz),
        }
    }
}

/// The configured formats, joined with `|`, for diagnostics.
pub open spec fn spec_formats_join(parsers: Seq<Parser>) -> Seq<char>
    decreases parsers.len(),
{
    if parsers.len() == 0 {
        Seq::empty()
    } else {
        let rest = spec_formats_join(parsers.drop_last());
        match parsers.last().format {
            Some(f) => if parsers.drop_last().len() == 0 || !has_format(parsers.drop_last()) {
                f@
            } else {
                rest + seq!['|'] + f@
            },
            None => rest,
        }
    }
}

/// Whether any rule of the list carries a format.
pub open spec fn has_format(parsers: Seq<Parser>) -> bool
    decreases parsers.len(),
{
    if parsers.len() == 0 {
        false
    } else {
        parsers.last().format is Some || has_format(parsers.drop_last())
    }
}

/// A list without formats joins to the empty diagnostic text.
proof fn lemma_join_no_format(parsers: Seq<Parser>)
    requires
        !has_format(parsers),
    ensures
        spec_formats_join(parsers) == Seq::<char>::empty(),
    decreases parsers.len(),
{
    if parsers.len() > 0 {
        lemma_join_no_format(parsers.drop_last());
    }
}

/// One date rule set of a descriptor: where in the record the date text
/// lives, and the rules to read it with, in priority order.
#[derive(Debug, Clone, PartialEq, Eq)]
pub struct DateParser {
    pub path: String,
    pub parsers: Vec<Parser>,
}

impl DateParser {
    /// Parse a date text: the first matching rule wins, no fallback across
    /// rules.
    pub fn parse(&self, value: &str, locale: &str) -> (r: Result<DateResult, DateParseError>)
        ensures
            match r {
                Ok(dr) => spec_rules_result(self.parsers@, value@, locale@) == Some(
                    (dr.millis as int, dr.add_year, dr.reset_hour),
                ),
                Err(e) => spec_rules_result(self.parsers@, value@, locale@) is None && (
                e matches DateParseError::NoRuleMatched(msg) && msg@ == spec_formats_join(
                    self.parsers@,
                )),
            },
{
        assert(self.parsers@.subrange(0, self.parsers@.len() as int) =~= self.parsers@);
        let mut i: usize = 0;
        while i < self.parsers.len()
            invariant
                0 <= i <= self.parsers@.len(),
                spec_rules_result(self.parsers@, value@, locale@) == spec_rules_result(
                    self.parsers@.subrange(i as int, self.parsers@.len() as int),
                    value@,
                    locale@,
                ),
            decreases self.parsers.len() - i,
        {
            let ghost tail = self.parsers@.subrange(i as int, self.parsers@.len() as int);
            assert(tail[0] == self.parsers@[i as int]);
            assert(tail.drop_first() =~= self.parsers@.subrange(
                i as int + 1,
                self.parsers@.len() as int,
            ));
            match self.parsers[i].parse(value, locale) {
                Option::Some(dr) => {
                    return Ok(dr);
                },
                Option::None => {},
            }
            i = i + 1;
        }
        assert(self.parsers@.subrange(
            self.parsers@.len() as int,
            self.parsers@.len() as int,
        ) =~= Seq::<Parser>::empty());
        Err(DateParseError::NoRuleMatched(self.to_string_parsers()))
    }

    /// The configured formats of this rule set, joined with `|`.
    pub fn to_string_parsers(&self) -> (r: String)
        ensures
            r@ == spec_formats_join(self.parsers@),
    {
        let mut out = String::new();
        let mut any = false;
        let mut i: usize = 0;
        while i < self.parsers.len()
            invariant
                0 <= i <= self.parsers@.len(),
                any == has_format(self.parsers@.subrange(0, i as int)),
                out@ == spec_formats_join(self.parsers@.subrange(0, i as int)),
            decreases self.parsers.len() - i,
        {
            let ghost prefix = self.parsers@.subrange(0, i as int);
            let ghost prefix1 = self.parsers@.subrange(0, i as int + 1);
            assert(prefix1.drop_last() =~= prefix);
            assert(prefix1.last() == self.parsers@[i as int]);
            let p = &self.parsers[i];
            match &p.format {
                Option::Some(f) => {
                    if any {
                        proof {
                            reveal_strlit("|");
                            assert("|"@ =~= seq!['|']);
                        }
                        out.append("|");
                        out.append(f.as_str());
                        assert(out@ =~= spec_formats_join(prefix1));
                    } else {
                        out.append(f.as_str());
                        proof {
                            lemma_join_no_format(prefix);
                            assert(out@ =~= spec_formats_join(prefix1));
                        }
                    }
                    any = true;
                },
                Option::None => {},
            }
            i = i + 1;
        }
        assert(self.parsers@.subrange(0, self.parsers@.len() as int) =~= self.parsers@);
        out
    }
}

} // verus!
