//! One road-work record, and the record builder: descriptor + path
//! extraction + date rule engine, combined into one record per raw JSON
//! node, with validation.

use vstd::prelude::*;
use vstd::string::StrSliceExecFns;
use crate::dates::{
    adjust_end_millis, apply_add_year, apply_reset_hour, spec_end_adjusted, spec_formats_join,
    spec_reset_applied, spec_rules_result, spec_year_applied,
};
use crate::descriptor::{spec_locale, ServiceDescriptor};
use crate::errors::{BuildError, DateParseError};
use crate::extract::{
    double_of_matches, spec_double_extract, spec_string_extract, string_of_matches,
};
use crate::jsonio::{matches_in, query_trees, tree_of, JsonValue};
use crate::polygon::{polygons_of_matches, spec_polygons_extract, Polygon};
use crate::sync::{Status, SyncData};
use crate::text;

verus! {

/// One road-work event. Latitude and longitude are decimal texts, exactly as
/// the payload carried them; timestamps are milliseconds since epoch, an end
/// of 0 meaning open-ended.
#[derive(Debug, Clone, PartialEq, Eq)]
pub struct Roadwork {
    /// Source-unique identifier.
    pub id: String,
    pub latitude: String,
    pub longitude: String,
    pub polygons: Option<Vec<Polygon>>,
    pub start: i64,
    pub end: i64,
    pub road: String,
    pub location_details: String,
    pub impact_circulation_detail: String,
    pub description: String,
    pub url: String,
    pub sync_data: SyncData,
}

/// A record at exactly (0, 0) carries no location and must be dropped.
pub open spec fn spec_is_valid(lat: Seq<char>, lon: Seq<char>) -> bool {
    !(text::zero_float_text(lat) && text::zero_float_text(lon))
}

impl Roadwork {
    pub fn is_valid(&self) -> (r: bool)
        ensures
            r == spec_is_valid(self.latitude@, self.longitude@),
    {
        !(text::is_zero_float_text(self.latitude.as_str()) && text::is_zero_float_text(
            self.longitude.as_str(),
        ))
    }

    /// Whether the record's end time has passed.
    pub fn is_expired(&self, now: i64) -> (r: bool)
        ensures
            r == (self.end < now),
    {
        self.end < now
    }
}

/// The path-query matches of one raw node, one list per configured path of
/// the descriptor. A failed query counts as an empty match list.
#[derive(Debug, PartialEq, Eq)]
pub struct RawFields {
    pub id: Vec<JsonValue>,
    pub latitude: Option<Vec<JsonValue>>,
    pub longitude: Option<Vec<JsonValue>>,
    pub polygon: Option<Vec<JsonValue>>,
    pub road: Option<Vec<JsonValue>>,
    pub description: Option<Vec<JsonValue>>,
    pub location_details: Option<Vec<JsonValue>>,
    pub impact: Option<Vec<JsonValue>>,
    pub url: Option<Vec<JsonValue>>,
    pub from_text: Option<Vec<JsonValue>>,
    pub to_text: Option<Vec<JsonValue>>,
}

/// The match lists present are exactly those of the descriptor's configured
/// paths (for latitude, longitude and polygon: configured and non-empty).
pub open spec fn raw_wf(raw: RawFields, d: ServiceDescriptor) -> bool {
    &&& (raw.latitude is Some <==> (d.latitude matches Some(p) && p@.len() > 0))
    &&& (raw.longitude is Some <==> (d.longitude matches Some(p) && p@.len() > 0))
    &&& (raw.polygon is Some <==> (d.polygon matches Some(p) && p@.len() > 0))
    &&& (raw.road is Some <==> d.road is Some)
    &&& (raw.description is Some <==> d.description is Some)
    &&& (raw.location_details is Some <==> d.location_details is Some)
    &&& (raw.impact is Some <==> d.impact_circulation_detail is Some)
    &&& (raw.url is Some <==> d.url is Some)
    &&& (raw.from_text is Some <==> d.from is Some)
    &&& (raw.to_text is Some <==> d.to is Some)
}

/// The matches of one path in a node's content, a failed query counting as
/// no matches.
pub open spec fn node_matches(t: JsonValue, path: Seq<char>) -> Seq<JsonValue> {
    match matches_in(t, path) {
        Some(ms) => ms,
        None => Seq::empty(),
    }
}

/// Run one query, counting a failed query as no matches.
fn run_query(node: &serde_json::Value, path: &str) -> (r: Vec<JsonValue>)
    ensures
        r@ == node_matches(tree_of(*node), path@),
{
    match query_trees(node, path) {
        Option::Some(ms) => ms,
        Option::None => Vec::new(),
    }
}

/// Run one query where a path is configured.
fn run_opt_query(node: &serde_json::Value, path: &Option<String>) -> (r: Option<Vec<JsonValue>>)
    ensures
        r is Some <==> path is Some,
        r matches Some(ms) ==> ms@ == node_matches(tree_of(*node), path->Some_0@),
{
    match path {
        Option::Some(p) => Option::Some(run_query(node, p.as_str())),
        Option::None => Option::None,
    }
}

/// Run one query where a path is configured with a non-empty text.
fn run_nonempty_query(node: &serde_json::Value, path: &Option<String>) -> (r: Option<
    Vec<JsonValue>,
>)
    ensures
        r is Some <==> (path matches Some(p) && p@.len() > 0),
        r matches Some(ms) ==> ms@ == node_matches(tree_of(*node), path->Some_0@),
{
    match path {
        Option::Some(p) => {
            if p.as_str().unicode_len() > 0 {
                Option::Some(run_query(node, p.as_str()))
            } else {
                Option::None
            }
        },
        Option::None => Option::None,
    }
}

/// The matches are exactly those of the descriptor's configured paths in the
/// given content: `raw_wf` for which lists are present, and each present
/// list holding its path's matches.
pub open spec fn raw_gathered(raw: RawFields, d: ServiceDescriptor, t: JsonValue) -> bool {
    &&& raw_wf(raw, d)
    &&& raw.id@ == node_matches(t, d.id@)
    &&& (raw.latitude matches Some(ms) ==> ms@ == node_matches(t, d.latitude->Some_0@))
    &&& (raw.longitude matches Some(ms) ==> ms@ == node_matches(t, d.longitude->Some_0@))
    &&& (raw.polygon matches Some(ms) ==> ms@ == node_matches(t, d.polygon->Some_0@))
    &&& (raw.road matches Some(ms) ==> ms@ == node_matches(t, d.road->Some_0@))
    &&& (raw.description matches Some(ms) ==> ms@ == node_matches(t, d.description->Some_0@))
    &&& (raw.location_details matches Some(ms) ==> ms@ == node_matches(
        t,
        d.location_details->Some_0@,
    ))
    &&& (raw.impact matches Some(ms) ==> ms@ == node_matches(
        t,
        d.impact_circulation_detail->Some_0@,
    ))
    &&& (raw.url matches Some(ms) ==> ms@ == node_matches(t, d.url->Some_0@))
    &&& (raw.from_text matches Some(ms) ==> ms@ == node_matches(t, (d.from->Some_0).path@))
    &&& (raw.to_text matches Some(ms) ==> ms@ == node_matches(t, (d.to->Some_0).path@))
}

/// Query every configured path of the descriptor against one raw node.
pub fn gather_fields(d: &ServiceDescriptor, node: &serde_json::Value) -> (r: RawFields)
    ensures
        raw_gathered(r, *d, tree_of(*node)),
{
    let from_path: Option<String> = match &d.from {
        Option::Some(dp) => Option::Some(dp.path.clone()),
        Option::None => Option::None,
    };
    let to_path: Option<String> = match &d.to {
        Option::Some(dp) => Option::Some(dp.path.clone()),
        Option::None => Option::None,
    };
    RawFields {
        id: run_query(node, d.id.as_str()),
        latitude: run_nonempty_query(node, &d.latitude),
        longitude: run_nonempty_query(node, &d.longitude),
        polygon: run_nonempty_query(node, &d.polygon),
        road: run_opt_query(node, &d.road),
        description: run_opt_query(node, &d.description),
        location_details: run_opt_query(node, &d.location_details),
        impact: run_opt_query(node, &d.impact_circulation_detail),
        url: run_opt_query(node, &d.url),
        from_text: run_opt_query(node, &from_path),
        to_text: run_opt_query(node, &to_path),
    }
}

/// A best-effort optional string field: the extracted string, or empty where
/// the path is unconfigured or extraction failed.
pub open spec fn spec_opt_string(o: Option<Vec<JsonValue>>) -> Seq<char> {
    match o {
        Some(ms) => match spec_string_extract(ms@) {
            Ok(s) => s,
            Err(_) => Seq::empty(),
        },
        None => Seq::empty(),
    }
}

/// Whether a record can be built from these matches at all: identifier,
/// coordinates and start date must all extract; everything else is best
/// effort.
pub open spec fn spec_can_build(d: ServiceDescriptor, raw: RawFields, tz: Seq<char>) -> bool {
    &&& spec_string_extract(raw.id@) is Ok
    &&& raw.latitude is Some
    &&& spec_double_extract(raw.latitude->Some_0@) is Ok
    &&& raw.longitude is Some
    &&& spec_double_extract(raw.longitude->Some_0@) is Ok
    &&& raw.from_text is Some
    &&& spec_string_extract(raw.from_text->Some_0@) is Ok
    &&& spec_rules_result(
        (d.from->Some_0).parsers@,
        spec_string_extract(raw.from_text->Some_0@)->Ok_0,
        tz,
    ) is Some
}

/// The exact error a failed build reports, in the builder's step order.
pub open spec fn spec_build_err(
    d: ServiceDescriptor,
    raw: RawFields,
    tz: Seq<char>,
    e: BuildError,
) -> bool {
    if spec_string_extract(raw.id@) is Err {
        e == BuildError::PathError(spec_string_extract(raw.id@)->Err_0)
    } else if raw.latitude is None {
        e == BuildError::MissingField
    } else if spec_double_extract(raw.latitude->Some_0@) is Err {
        e == BuildError::PathError(spec_double_extract(raw.latitude->Some_0@)->Err_0)
    } else if raw.longitude is None {
        e == BuildError::MissingField
    } else if spec_double_extract(raw.longitude->Some_0@) is Err {
        e == BuildError::PathError(spec_double_extract(raw.longitude->Some_0@)->Err_0)
    } else if raw.from_text is None {
        e == BuildError::MissingField
    } else if spec_string_extract(raw.from_text->Some_0@) is Err {
        e == BuildError::PathError(spec_string_extract(raw.from_text->Some_0@)->Err_0)
    } else if spec_rules_result(
        (d.from->Some_0).parsers@,
        spec_string_extract(raw.from_text->Some_0@)->Ok_0,
        tz,
    ) is None {
        e matches BuildError::DateError(DateParseError::NoRuleMatched(msg)) && msg@
            == spec_formats_join((d.from->Some_0).parsers@)
    } else {
        false
    }
}

/// The resolved start of a buildable record: the first matching rule's
/// instant, with the reset-hour and current-year corrections applied.
pub open spec fn spec_start_of(
    d: ServiceDescriptor,
    raw: RawFields,
    tz: Seq<char>,
    year: int,
) -> int {
    let fr = spec_rules_result(
        (d.from->Some_0).parsers@,
        spec_string_extract(raw.from_text->Some_0@)->Ok_0,
        tz,
    )->Some_0;
    spec_year_applied(spec_reset_applied(fr.0, fr.2, tz), fr.1, year, tz)
}

/// The resolved end of a buildable record: 0 (open-ended) where the end is
/// unconfigured or fails to parse, else the first matching rule's instant
/// with the reset-hour correction and the year rollover applied.
pub open spec fn spec_end_of(
    d: ServiceDescriptor,
    raw: RawFields,
    tz: Seq<char>,
    year: int,
    start: int,
) -> int {
    if raw.to_text is None {
        0
    } else {
        match spec_string_extract(raw.to_text->Some_0@) {
            Err(_) => 0,
            Ok(ttext) => match spec_rules_result((d.to->Some_0).parsers@, ttext, tz) {
                None => 0,
                Some(tr) => spec_end_adjusted(
                    start,
                    spec_reset_applied(tr.0, tr.2, tz),
                    tr.1,
                    year,
                    tz,
                ),
            },
        }
    }
}

/// The polygons of a buildable record: present exactly where the polygon
/// matches extract, absent on any failure (never fatal).
pub open spec fn spec_polygons_of(raw: RawFields, polys: Option<Vec<Polygon>>) -> bool {
    match raw.polygon {
        Some(pm) => match spec_polygons_extract(pm@) {
            Some(models) => polys matches Some(ps) && ps@.map_values(|p: Polygon| p.model())
                == models && (forall|i: int| 0 <= i < ps@.len() ==> (#[trigger] ps@[i]).wf()),
            None => polys is None,
        },
        None => polys is None,
    }
}

/// Every field of a built record, pinned by the gathered matches: the
/// extracted identifier and coordinate texts, the polygons, the resolved
/// date range, the best-effort optional strings, and a fresh annotation.
pub open spec fn spec_built_rec(
    d: ServiceDescriptor,
    raw: RawFields,
    year: int,
    rec: Roadwork,
) -> bool {
    let tz = spec_locale(d.metadata.locale);
    let start = spec_start_of(d, raw, tz, year);
    &&& rec.id@ == spec_string_extract(raw.id@)->Ok_0
    &&& rec.latitude@ == spec_double_extract(raw.latitude->Some_0@)->Ok_0
    &&& rec.longitude@ == spec_double_extract(raw.longitude->Some_0@)->Ok_0
    &&& spec_polygons_of(raw, rec.polygons)
    &&& rec.start == start
    &&& rec.end == spec_end_of(d, raw, tz, year, start)
    &&& rec.road@ == spec_opt_string(raw.road)
    &&& rec.description@ == spec_opt_string(raw.description)
    &&& rec.location_details@ == spec_opt_string(raw.location_details)
    &&& rec.impact_circulation_detail@ == spec_opt_string(raw.impact)
    &&& rec.url@ == spec_opt_string(raw.url)
    &&& rec.sync_data == (SyncData {
        local_update_time: 0,
        server_update_time: 0,
        status: Status::New,
        dirty: false,
    })
}

/// What building from given matches yields: success exactly when the record
/// can be built, the exact error otherwise, and every field pinned on
/// success.
pub open spec fn spec_build_result(
    d: ServiceDescriptor,
    raw: RawFields,
    year: int,
    r: Result<Roadwork, BuildError>,
) -> bool {
    &&& (r is Ok <==> spec_can_build(d, raw, spec_locale(d.metadata.locale)))
    &&& (r matches Err(e) ==> spec_build_err(d, raw, spec_locale(d.metadata.locale), e))
    &&& (r matches Ok(rec) ==> spec_built_rec(d, raw, year, rec))
}

/// What building one record from one raw node yields, stated over the node's
/// content alone: matches gathered from that content, and the assembly's
/// exact result on them.
pub open spec fn rec_built(
    d: ServiceDescriptor,
    t: JsonValue,
    year: int,
    r: Result<Roadwork, BuildError>,
) -> bool {
    exists|raw: RawFields| #[trigger] raw_gathered(raw, d, t) && spec_build_result(d, raw, year, r)
}

/// Build one record from the gathered matches of one raw node.
pub fn assemble_record(d: &ServiceDescriptor, raw: RawFields, current_year: i32) -> (r: Result<
    Roadwork,
    BuildError,
>)
    requires
        raw_wf(raw, *d),
        current_year < i32::MAX,
    ensures
        spec_build_result(*d, raw, current_year as int, r),
{
    let tz: String = d.metadata.get_locale();
    let id = match string_of_matches(&raw.id) {
        Ok(s) => s,
        Err(e) => {
            return Err(BuildError::PathError(e));
        },
    };
    let latitude = match &raw.latitude {
        Option::Some(ms) => match double_of_matches(ms) {
            Ok(s) => s,
            Err(e) => {
                return Err(BuildError::PathError(e));
            },
        },
        Option::None => {
            return Err(BuildError::MissingField);
        },
    };
    let longitude = match &raw.longitude {
        Option::Some(ms) => match double_of_matches(ms) {
            Ok(s) => s,
            Err(e) => {
                return Err(BuildError::PathError(e));
            },
        },
        Option::None => {
            return Err(BuildError::MissingField);
        },
    };
    let polygons: Option<Vec<Polygon>> = match &raw.polygon {
        Option::Some(pm) => polygons_of_matches(pm),
        Option::None => Option::None,
    };
    let road = opt_string_field(&raw.road);
    let description = opt_string_field(&raw.description);
    let location_details = opt_string_field(&raw.location_details);
    // Start date: fatal on any failure.
    let from_rules = match &d.from {
        Option::Some(dp) => dp,
        Option::None => {
            return Err(BuildError::MissingField);
        },
    };
    let from_matches = match &raw.from_text {
        Option::Some(ms) => ms,
        Option::None => {
            return Err(BuildError::MissingField);
        },
    };
    let from_text = match string_of_matches(from_matches) {
        Ok(s) => s,
        Err(e) => {
            return Err(BuildError::PathError(e));
        },
    };
    let from_result = match from_rules.parse(from_text.as_str(), tz.as_str()) {
        Ok(dr) => dr,
        Err(e) => {
            return Err(BuildError::DateError(e));
        },
    };
    let start0 = apply_reset_hour(from_result.millis, from_result.reset_hour, tz.as_str());
    let start = apply_add_year(start0, from_result.add_year, current_year, tz.as_str());
    // End date: best effort; any failure yields an open-ended range.
    let end: i64 = end_of(d, &raw, start, current_year, tz.as_str());
    let impact_circulation_detail = opt_string_field(&raw.impact);
    let url = opt_string_field(&raw.url);
    Ok(
        Roadwork {
            id,
            latitude,
            longitude,
            polygons,
            start,
            end,
            road,
            location_details,
            impact_circulation_detail,
            description,
            url,
            sync_data: SyncData {
                local_update_time: 0,
                server_update_time: 0,
                status: Status::New,
                dirty: false,
            },
        },
    )
}

/// Resolve the end date relative to a resolved start.
fn end_of(d: &ServiceDescriptor, raw: &RawFields, start: i64, current_year: i32, tz: &str) -> (r:
    i64)
    requires
        raw_wf(*raw, *d),
        current_year < i32::MAX,
    ensures
        r as int == spec_end_of(*d, *raw, tz@, current_year as int, start as int),
{
    let to_rules = match &d.to {
        Option::Some(dp) => dp,
        Option::None => {
            return 0;
        },
    };
    let to_matches = match &raw.to_text {
        Option::Some(ms) => ms,
        Option::None => {
            return 0;
        },
    };
    let to_text = match string_of_matches(to_matches) {
        Ok(s) => s,
        Err(_) => {
            return 0;
        },
    };
    match to_rules.parse(to_text.as_str(), tz) {
        Ok(dr) => {
            let e0 = apply_reset_hour(dr.millis, dr.reset_hour, tz);
            adjust_end_millis(start, e0, dr.add_year, current_year, tz)
        },
        Err(_) => 0,
    }
}

/// Extract a best-effort optional string field.
fn opt_string_field(o: &Option<Vec<JsonValue>>) -> (r: String)
    ensures
        r@ == spec_opt_string(*o),
{
    match o {
        Option::Some(ms) => match string_of_matches(ms) {
            Ok(s) => s,
            Err(_) => String::new(),
        },
        Option::None => String::new(),
    }
}

/// Build one record from one raw node of the payload: gather every
/// configured path's matches from the node's content, then assemble.
pub fn build_roadwork(d: &ServiceDescriptor, node: &serde_json::Value, current_year: i32) -> (r:
    Result<Roadwork, BuildError>)
    requires
        current_year < i32::MAX,
    ensures
        rec_built(*d, tree_of(*node), current_year as int, r),
{
    let raw = gather_fields(d, node);
    let ghost raw_g = raw;
    let r = assemble_record(d, raw, current_year);
    proof {
        assert(raw_gathered(raw_g, *d, tree_of(*node)) && spec_build_result(
            *d,
            raw_g,
            current_year as int,
            r,
        ));
    }
    r
}

} // verus!
