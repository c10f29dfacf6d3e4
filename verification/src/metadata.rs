//! The metadata builder: one lookup per logical field, field-specific
//! validation, and either a complete record or the first hard error.
//!
//! The tolerant fields (the coordinate components, `ip`, `city`, `country`)
//! silently default when missing or malformed. A present `asn` must be
//! numeric and in range. `timezone` and `request-time` are required:
//! `timezone` must resolve against the IANA database, `request-time` must be
//! a signed 64-bit integer.

use vstd::prelude::*;
use vstd::string::StringExecFns;

use crate::autonomous_system::Number;
use crate::autonomous_system::valid_asn;
use crate::coordinate::Coordinate;
use crate::coordinate::is_float_literal;
use crate::coordinate::is_float_literal_str;
use crate::coordinate::spec_coord_component;
use crate::headers::Headers;
use crate::headers::LookupError;
use crate::headers::full_header_name;
use crate::headers::spec_lookup;
use crate::ip::IpAddress;
use crate::ip::parse_ip;
use crate::ip::spec_parse_ip;
use crate::numbers::spec_parse_i64;
use crate::numbers::spec_parse_u32;
use crate::time_zone::TimeZone;
use crate::time_zone::resolve_time_zone;

verus! {

/// Why construction of a record failed.
#[derive(Debug, Clone, PartialEq)]
pub enum MetadataError {
    /// A field the policy marks required was absent.
    MissingRequiredField { field: String },
    /// A present value could not be parsed, for a field where that is fatal.
    InvalidValue { field: String, raw: String, reason: String },
    /// A numeric AS number outside the legal ranges.
    OutOfRange { field: String, value: u32 },
}

/// The mathematical shape of a construction error.
pub enum ErrorModel {
    MissingRequiredField { field: Seq<char> },
    InvalidValue { field: Seq<char>, raw: Seq<char>, reason: Seq<char> },
    OutOfRange { field: Seq<char>, value: u32 },
}

impl View for MetadataError {
    type V = ErrorModel;

    open spec fn view(&self) -> ErrorModel {
        match self {
            MetadataError::MissingRequiredField { field } => ErrorModel::MissingRequiredField {
                field: field@,
            },
            MetadataError::InvalidValue { field, raw, reason } => ErrorModel::InvalidValue {
                field: field@,
                raw: raw@,
                reason: reason@,
            },
            MetadataError::OutOfRange { field, value } => ErrorModel::OutOfRange {
                field: field@,
                value: *value,
            },
        }
    }
}

/// The mathematical shape of a metadata record.
pub struct MetadataModel {
    pub latitude: Seq<char>,
    pub longitude: Seq<char>,
    pub ip_address: Option<IpAddress>,
    pub city: Seq<char>,
    pub country: Seq<char>,
    pub asn: u32,
    pub time_zone: Seq<char>,
    pub request_time: i64,
}

/// Metadata of the client, as decoded from one header snapshot.
#[derive(Debug, Clone, PartialEq)]
pub struct Metadata {
    /// Coordinate of the client.
    pub coordinate: Coordinate,
    /// IP address of the client, when the header held a valid literal.
    pub ip_address: Option<IpAddress>,
    /// City of the client.
    pub city: String,
    /// Country of the client.
    pub country: String,
    /// AS number of the client.
    pub asn: Number,
    /// Time zone of the client.
    pub time_zone: TimeZone,
    /// Request time of the client, seconds since the Unix epoch.
    pub request_time: i64,
}

impl View for Metadata {
    type V = MetadataModel;

    open spec fn view(&self) -> MetadataModel {
        MetadataModel {
            latitude: self.coordinate.latitude@,
            longitude: self.coordinate.longitude@,
            ip_address: self.ip_address,
            city: self.city@,
            country: self.country@,
            asn: self.asn@,
            time_zone: self.time_zone@,
            request_time: self.request_time,
        }
    }
}

/// What the `asn` step yields: zero when absent, the value when legal, an
/// error when unparsable or out of range.
pub open spec fn spec_asn_field(h: Seq<(Seq<char>, Seq<char>)>) -> Result<u32, ErrorModel> {
    match spec_lookup(h, full_header_name("asn"@)) {
        None => Ok(0),
        Some(v) => match spec_parse_u32(v) {
            None => Err(
                ErrorModel::InvalidValue {
                    field: "asn"@,
                    raw: v,
                    reason: "expected an unsigned integer"@,
                },
            ),
            Some(n) => if valid_asn(n) {
                Ok(n)
            } else {
                Err(ErrorModel::OutOfRange { field: "asn"@, value: n })
            },
        },
    }
}

/// What the `timezone` step yields, given the outcome of resolving the name
/// against the IANA database.
pub open spec fn spec_time_zone_field(h: Seq<(Seq<char>, Seq<char>)>, tz_ok: bool) -> Result<
    Seq<char>,
    ErrorModel,
> {
    match spec_lookup(h, full_header_name("timezone"@)) {
        None => Err(ErrorModel::MissingRequiredField { field: "timezone"@ }),
        Some(v) => if tz_ok {
            Ok(v)
        } else {
            Err(
                ErrorModel::InvalidValue {
                    field: "timezone"@,
                    raw: v,
                    reason: "unresolvable time zone"@,
                },
            )
        },
    }
}

/// What the `request-time` step yields.
pub open spec fn spec_request_time_field(h: Seq<(Seq<char>, Seq<char>)>) -> Result<
    i64,
    ErrorModel,
> {
    match spec_lookup(h, full_header_name("request-time"@)) {
        None => Err(ErrorModel::MissingRequiredField { field: "request-time"@ }),
        Some(v) => match spec_parse_i64(v) {
            Some(t) => Ok(t),
            None => Err(
                ErrorModel::InvalidValue {
                    field: "request-time"@,
                    raw: v,
                    reason: "expected an integer"@,
                },
            ),
        },
    }
}

/// What construction yields on a snapshot, given the time-zone resolution
/// outcome: the first hard error among `asn`, `timezone` and `request-time`,
/// or the complete record with every tolerant field defaulted as the policy
/// says.
pub open spec fn spec_build(h: Seq<(Seq<char>, Seq<char>)>, tz_ok: bool) -> Result<
    MetadataModel,
    ErrorModel,
> {
    match spec_asn_field(h) {
        Err(e) => Err(e),
        Ok(asn) => match spec_time_zone_field(h, tz_ok) {
            Err(e) => Err(e),
            Ok(tz) => match spec_request_time_field(h) {
                Err(e) => Err(e),
                Ok(t) => Ok(
                    MetadataModel {
                        latitude: spec_coord_component(
                            spec_lookup(h, full_header_name("latitude"@)),
                        ),
                        longitude: spec_coord_component(
                            spec_lookup(h, full_header_name("longitude"@)),
                        ),
                        ip_address: match spec_lookup(h, full_header_name("ip"@)) {
                            Some(v) => spec_parse_ip(v),
                            None => None,
                        },
                        city: match spec_lookup(h, full_header_name("city"@)) {
                            Some(v) => v,
                            None => Seq::empty(),
                        },
                        country: match spec_lookup(h, full_header_name("country"@)) {
                            Some(v) => v,
                            None => Seq::empty(),
                        },
                        asn: asn,
                        time_zone: tz,
                        request_time: t,
                    },
                ),
            },
        },
    }
}

/// The model of a construction result.
pub open spec fn result_model(r: Result<Metadata, MetadataError>) -> Result<
    MetadataModel,
    ErrorModel,
> {
    match r {
        Ok(m) => Ok(m@),
        Err(e) => Err(e@),
    }
}

impl Metadata {
    /// Build the record from a snapshot, with the time-zone resolution
    /// outcome supplied by the caller.
    pub fn from_headers_with(h: &Headers, tz_ok: bool) -> (r: Result<Metadata, MetadataError>)
        ensures
            result_model(r) == spec_build(h@, tz_ok),
    {
        let latitude = match h.get("latitude") {
            Ok(v) => if is_float_literal_str(v.as_str()) {
                v
            } else {
                String::from_str("0")
            },
            Err(_) => String::from_str("0"),
        };
        let longitude = match h.get("longitude") {
            Ok(v) => if is_float_literal_str(v.as_str()) {
                v
            } else {
                String::from_str("0")
            },
            Err(_) => String::from_str("0"),
        };
        let ip_address = match h.get("ip") {
            Ok(v) => parse_ip(v.as_str()),
            Err(_) => None,
        };
        let city = match h.get("city") {
            Ok(v) => v,
            Err(_) => String::new(),
        };
        let country = match h.get("country") {
            Ok(v) => v,
            Err(_) => String::new(),
        };
        let asn = match h.get_u32("asn") {
            Ok(n) => match Number::try_from(n) {
                Ok(a) => a,
                Err(e) => {
                    return Err(e);
                },
            },
            Err(LookupError::NotFound) => Number::default(),
            Err(LookupError::ParseFailure { field, raw, reason }) => {
                return Err(MetadataError::InvalidValue { field, raw, reason });
            },
        };
        let tz_name = match h.get("timezone") {
            Ok(v) => v,
            Err(_) => {
                return Err(
                    MetadataError::MissingRequiredField { field: String::from_str("timezone") },
                );
            },
        };
        if !tz_ok {
            return Err(
                MetadataError::InvalidValue {
                    field: String::from_str("timezone"),
                    raw: tz_name,
                    reason: String::from_str("unresolvable time zone"),
                },
            );
        }
        let request_time = match h.get_i64("request-time") {
            Ok(t) => t,
            Err(LookupError::NotFound) => {
                return Err(
                    MetadataError::MissingRequiredField { field: String::from_str("request-time") },
                );
            },
            Err(LookupError::ParseFailure { field, raw, reason }) => {
                return Err(MetadataError::InvalidValue { field, raw, reason });
            },
        };
        Ok(
            Metadata {
                coordinate: Coordinate::new(latitude, longitude),
                ip_address,
                city,
                country,
                asn,
                time_zone: TimeZone::from_name(tz_name),
                request_time,
            },
        )
    }

    /// Build the record from a snapshot, resolving the time zone against the
    /// IANA database. Two runs may differ only where the databases they see
    /// differ.
    pub fn from_headers(h: &Headers) -> (r: Result<Metadata, MetadataError>)
        ensures
            exists|b: bool| result_model(r) == spec_build(h@, b),
    {
        let tz_ok = match h.get("timezone") {
            Ok(v) => resolve_time_zone(v.as_str()),
            Err(_) => false,
        };
        let r = Self::from_headers_with(h, tz_ok);
        proof {
            assert(result_model(r) == spec_build(h@, tz_ok));
        }
        r
    }
}

/// On a snapshot where every field is present and correctly formatted,
/// construction succeeds and every field of the record equals the decoded
/// header value.
pub proof fn lemma_complete_snapshot(
    h: Seq<(Seq<char>, Seq<char>)>,
    lat: Seq<char>,
    lon: Seq<char>,
    ip_raw: Seq<char>,
    city: Seq<char>,
    country: Seq<char>,
    asn_raw: Seq<char>,
    tz: Seq<char>,
    rt_raw: Seq<char>,
    addr: IpAddress,
    n: u32,
    t: i64,
)
    requires
        spec_lookup(h, full_header_name("latitude"@)) == Some(lat),
        is_float_literal(lat),
        spec_lookup(h, full_header_name("longitude"@)) == Some(lon),
        is_float_literal(lon),
        spec_lookup(h, full_header_name("ip"@)) == Some(ip_raw),
        spec_parse_ip(ip_raw) == Some(addr),
        spec_lookup(h, full_header_name("city"@)) == Some(city),
        spec_lookup(h, full_header_name("country"@)) == Some(country),
        spec_lookup(h, full_header_name("asn"@)) == Some(asn_raw),
        spec_parse_u32(asn_raw) == Some(n),
        valid_asn(n),
        spec_lookup(h, full_header_name("timezone"@)) == Some(tz),
        spec_lookup(h, full_header_name("request-time"@)) == Some(rt_raw),
        spec_parse_i64(rt_raw) == Some(t),
    ensures
        spec_build(h, true) == Ok::<MetadataModel, ErrorModel>(
            MetadataModel {
                latitude: lat,
                longitude: lon,
                ip_address: Some(addr),
                city: city,
                country: country,
                asn: n,
                time_zone: tz,
                request_time: t,
            },
        ),
{
}

/// On a snapshot missing `timezone`, or resolving it but missing
/// `request-time`, construction fails with `MissingRequiredField` naming that
/// field — provided the `asn` step raised no earlier error.
pub proof fn lemma_missing_required_field(h: Seq<(Seq<char>, Seq<char>)>, tz_ok: bool)
    requires
        spec_asn_field(h) is Ok,
    ensures
        spec_lookup(h, full_header_name("timezone"@)) is None ==> spec_build(h, tz_ok) == Err::<
            MetadataModel,
            ErrorModel,
        >(ErrorModel::MissingRequiredField { field: "timezone"@ }),
        (spec_lookup(h, full_header_name("timezone"@)) is Some && tz_ok && spec_lookup(
            h,
            full_header_name("request-time"@),
        ) is None) ==> spec_build(h, tz_ok) == Err::<MetadataModel, ErrorModel>(
            ErrorModel::MissingRequiredField { field: "request-time"@ },
        ),
{
}

/// On a snapshot whose `asn` header is numeric but outside the legal ranges,
/// construction fails with `OutOfRange` carrying that value.
pub proof fn lemma_out_of_range_asn(
    h: Seq<(Seq<char>, Seq<char>)>,
    tz_ok: bool,
    v: Seq<char>,
    n: u32,
)
    requires
        spec_lookup(h, full_header_name("asn"@)) == Some(v),
        spec_parse_u32(v) == Some(n),
        !valid_asn(n),
    ensures
        spec_build(h, tz_ok) == Err::<MetadataModel, ErrorModel>(
            ErrorModel::OutOfRange { field: "asn"@, value: n },
        ),
{
}

/// On a snapshot whose `ip` header is present but no valid IP literal,
/// construction still succeeds — with no IP address — whenever the strict
/// fields are satisfied.
pub proof fn lemma_invalid_ip_tolerated(h: Seq<(Seq<char>, Seq<char>)>, tz_ok: bool, v: Seq<char>)
    requires
        spec_lookup(h, full_header_name("ip"@)) == Some(v),
        spec_parse_ip(v) is None,
        spec_asn_field(h) is Ok,
        spec_time_zone_field(h, tz_ok) is Ok,
        spec_request_time_field(h) is Ok,
    ensures
        spec_build(h, tz_ok) matches Ok(m) && m.ip_address is None,
{
}

/// On a snapshot missing `latitude` or `longitude`, construction still
/// succeeds whenever the strict fields are satisfied, and the missing
/// component defaults to `0`.
pub proof fn lemma_missing_coordinate_defaults(h: Seq<(Seq<char>, Seq<char>)>, tz_ok: bool)
    requires
        spec_asn_field(h) is Ok,
        spec_time_zone_field(h, tz_ok) is Ok,
        spec_request_time_field(h) is Ok,
    ensures
        spec_build(h, tz_ok) is Ok,
        spec_lookup(h, full_header_name("latitude"@)) is None ==> spec_build(h, tz_ok)->Ok_0.latitude
            == "0"@,
        spec_lookup(h, full_header_name("longitude"@)) is None ==> spec_build(
            h,
            tz_ok,
        )->Ok_0.longitude == "0"@,
{
}

/// Construction is a function of the snapshot and the time-zone resolution
/// outcome: two results built from the identical snapshot under the same
/// outcome have equal models.
pub proof fn lemma_construction_deterministic(
    h: Seq<(Seq<char>, Seq<char>)>,
    tz_ok: bool,
    r1: Result<Metadata, MetadataError>,
    r2: Result<Metadata, MetadataError>,
)
    requires
        result_model(r1) == spec_build(h, tz_ok),
        result_model(r2) == spec_build(h, tz_ok),
    ensures
        result_model(r1) == result_model(r2),
{
}

} // verus!
