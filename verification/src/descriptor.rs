//! Declarative per-source configuration: which paths locate each record
//! field, the date rules, the locale, and the request URL with its static
//! query parameters. Deserialization from descriptor files is the shell's
//! job; the shell hands these plain values in.

use vstd::prelude::*;
use vstd::string::StringExecFns;
use crate::dates::{tz_exists, tz_known, DateParser};

verus! {

/// Source metadata. The map-display fields of a descriptor file (center
/// coordinate, tile server) stay with the shell, which owns the map.
#[derive(Debug, Clone, PartialEq, Eq)]
pub struct Metadata {
    pub country: String,
    pub source_url: String,
    /// Base request URL of the source.
    pub url: String,
    pub name: String,
    pub producer: Option<String>,
    pub licence_name: Option<String>,
    pub licence_url: Option<String>,
    /// Time zone name of the source; an unknown or absent name falls back
    /// to Europe/Paris.
    pub locale: Option<String>,
    /// Static query parameters, in their declared order.
    pub url_params: Option<Vec<(String, String)>>,
    pub editor_pattern: Option<String>,
}

/// The zone name the date rules run under.
pub open spec fn spec_locale(locale: Option<String>) -> Seq<char> {
    match locale {
        Some(l) => if tz_known(l@) {
            l@
        } else {
            "Europe/Paris"@
        },
        None => "Europe/Paris"@,
    }
}

impl Metadata {
    /// The configured locale where it names a known zone, else the default.
    pub fn get_locale(&self) -> (r: String)
        ensures
            r@ == spec_locale(self.locale),
    {
        match &self.locale {
            Option::Some(l) => {
                if tz_exists(l.as_str()) {
                    l.clone()
                } else {
                    <String as StringExecFns>::from_str("Europe/Paris")
                }
            },
            Option::None => <String as StringExecFns>::from_str("Europe/Paris"),
        }
    }
}

/// One open-data source: where each record field lives in the payload, the
/// date rules, and the source metadata.
#[derive(Debug, Clone, PartialEq, Eq)]
pub struct ServiceDescriptor {
    pub metadata: Metadata,
    /// Path of the record identifier; required.
    pub id: String,
    pub latitude: Option<String>,
    pub longitude: Option<String>,
    pub polygon: Option<String>,
    pub road: Option<String>,
    pub description: Option<String>,
    pub location_details: Option<String>,
    pub impact_circulation_detail: Option<String>,
    /// Rules for the start date; a record cannot be built without one.
    pub from: Option<DateParser>,
    /// Rules for the end date; failures yield an open-ended range.
    pub to: Option<DateParser>,
    /// Path of the array of raw records.
    pub roadwork_array: String,
    pub url: Option<String>,
}

/// What the core reads of the user's settings: the active source and the
/// synchronization endpoint. Display-only settings (map center, zoom) stay
/// with the shell.
#[derive(Debug, Clone, PartialEq, Eq)]
pub struct Settings {
    pub opendata_service: String,
    pub synchronization_url: String,
    pub synchronization_team: String,
    pub synchronization_enabled: bool,
    pub synchronization_login: String,
    pub synchronization_password: String,
    pub hide_expired: bool,
}

} // verus!
