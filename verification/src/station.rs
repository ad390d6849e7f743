//! The station entity and the JSON-to-record normalization.
//!
//! A station owns its identity, its derived endpoint URLs and the most
//! recent provider documents; the normalization policy — which path
//! each field is read from, and the default standing in when it is
//! absent or unreadable — is stated field by field in the contracts.

use vstd::prelude::*;

use crate::dec::Dec;
use crate::dec::readable;
use crate::dec::spec_sentinel;
use crate::dec::spec_zero;
use crate::dec::sentinel;
use crate::dec::zero;
use crate::dec::fahrenheit;
use crate::dec::fahrenheit_rel;
use crate::dec::mph;
use crate::dec::mph_rel;
use crate::dec::inhg;
use crate::dec::inhg_rel;
use crate::dec::feet;
use crate::dec::feet_rel;
use crate::json::Json;
use crate::json::json_wf;
use crate::json::member_of;
use crate::json::element_of;
use crate::json::as_num;
use crate::json::as_text;
use crate::json::lemma_member_wf;
use crate::json::lemma_element_wf;
use vstd::string::StringExecFns;

verus! {

/// A station row as persisted: the station's identity and location.
#[derive(Clone, Debug)]
pub struct StationRecord {
    pub call_id: String,
    pub name: String,
    pub latitude_deg: Dec,
    pub longitude_deg: Dec,
    pub elevation_m: Dec,
    pub url: String,
}

/// An observation row as persisted: one timestamped reading, each
/// measure in its source unit and its derived unit.
#[allow(non_snake_case)]
#[derive(Clone, Debug)]
pub struct ObservationRecord {
    pub station_id: String,
    pub timestamp_UTC: String,
    pub temperature_C: Dec,
    pub temperature_F: Dec,
    pub dewpoint_C: Dec,
    pub dewpoint_F: Dec,
    pub description: String,
    pub wind_dir: Dec,
    pub wind_spd_km_h: Dec,
    pub wind_spd_mi_h: Dec,
    pub wind_gust_km_h: Dec,
    pub wind_gust_mi_h: Dec,
    pub baro_pres_pa: Dec,
    pub baro_pres_inHg: Dec,
    pub rel_humidity: Dec,
}

/// Failure acquiring or reading station metadata; any of these is
/// fatal to the pipeline, which cannot persist without an identity.
#[derive(Clone, Copy, PartialEq, Eq, Structural, Debug)]
pub enum AcquisitionError {
    Transport,
    Body,
    Parse,
}

/// Failure acquiring or reading one observation; never fatal — the
/// station is skipped until its next poll.
#[derive(Clone, Copy, PartialEq, Eq, Structural, Debug)]
pub enum ObservationError {
    Transport,
    Body,
    Parse,
}

/// The numeric value of a measurement member:
/// `properties.<field>.value`.
pub open spec fn obs_field(doc: Json, field: Seq<char>) -> Option<Dec> {
    as_num(member_of(member_of(member_of(doc, "properties"@), field), "value"@))
}

/// The text of a scalar member: `properties.<field>`.
pub open spec fn obs_text(doc: Json, field: Seq<char>) -> Option<Seq<char>> {
    as_text(member_of(member_of(doc, "properties"@), field))
}

/// The station name member: `properties.name`.
pub open spec fn station_name_of(doc: Json) -> Option<Seq<char>> {
    as_text(member_of(member_of(doc, "properties"@), "name"@))
}

/// A coordinate member: `geometry.coordinates[i]`.
pub open spec fn coordinate_of(doc: Json, i: int) -> Option<Dec> {
    as_num(element_of(member_of(member_of(doc, "geometry"@), "coordinates"@), i))
}

/// The elevation member in metres: `properties.elevation.value`.
pub open spec fn elevation_of(doc: Json) -> Option<Dec> {
    as_num(member_of(member_of(member_of(doc, "properties"@), "elevation"@), "value"@))
}

/// A measured field and its derived Fahrenheit twin: the exact source
/// value and its exact conversion, or the sentinel in both when the
/// source is absent or unreadable.
pub open spec fn pair_c_f(src: Option<Dec>, c: Dec, f: Dec) -> bool {
    match src {
        Some(v) => c == v && fahrenheit_rel(v, f),
        None => c == spec_sentinel() && f == spec_sentinel(),
    }
}

/// A speed field and its derived miles-per-hour twin.
pub open spec fn pair_kmh_mph(src: Option<Dec>, k: Dec, m: Dec) -> bool {
    match src {
        Some(v) => k == v && mph_rel(v, m),
        None => k == spec_sentinel() && m == spec_sentinel(),
    }
}

/// A pressure field and its derived inches-of-mercury twin.
pub open spec fn pair_pa_inhg(src: Option<Dec>, p: Dec, h: Dec) -> bool {
    match src {
        Some(v) => p == v && inhg_rel(v, h),
        None => p == spec_sentinel() && h == spec_sentinel(),
    }
}

/// A numeric field with no derived twin.
pub open spec fn plain_field(src: Option<Dec>, x: Dec) -> bool {
    match src {
        Some(v) => x == v,
        None => x == spec_sentinel(),
    }
}

/// A text field: absent text reads as the empty string, never as a
/// message.
pub open spec fn text_field(src: Option<Seq<char>>, s: Seq<char>) -> bool {
    match src {
        Some(t) => s == t,
        None => s == Seq::<char>::empty(),
    }
}

/// The whole normalization policy of an observation document: every
/// record field against its source member.
pub open spec fn observation_matches(rec: ObservationRecord, id: Seq<char>, doc: Json) -> bool {
    &&& rec.station_id@ == id
    &&& text_field(obs_text(doc, "timestamp"@), rec.timestamp_UTC@)
    &&& pair_c_f(obs_field(doc, "temperature"@), rec.temperature_C, rec.temperature_F)
    &&& pair_c_f(obs_field(doc, "dewpoint"@), rec.dewpoint_C, rec.dewpoint_F)
    &&& text_field(obs_text(doc, "textDescription"@), rec.description@)
    &&& plain_field(obs_field(doc, "windDirection"@), rec.wind_dir)
    &&& pair_kmh_mph(obs_field(doc, "windSpeed"@), rec.wind_spd_km_h, rec.wind_spd_mi_h)
    &&& pair_kmh_mph(obs_field(doc, "windGust"@), rec.wind_gust_km_h, rec.wind_gust_mi_h)
    &&& pair_pa_inhg(obs_field(doc, "barometricPressure"@), rec.baro_pres_pa, rec.baro_pres_inHg)
    &&& plain_field(obs_field(doc, "relativeHumidity"@), rec.rel_humidity)
}

/// Law: in any normalized observation, a missing or unreadable source
/// member leaves the sentinel in its field and in every field derived
/// from it — and only the composite key and text fields escape the
/// numeric sentinel policy.
pub proof fn lemma_missing_field_yields_sentinel(rec: ObservationRecord, id: Seq<char>, doc: Json)
    requires
        observation_matches(rec, id, doc),
    ensures
        obs_field(doc, "temperature"@) is None ==> rec.temperature_C == spec_sentinel()
            && rec.temperature_F == spec_sentinel(),
        obs_field(doc, "dewpoint"@) is None ==> rec.dewpoint_C == spec_sentinel()
            && rec.dewpoint_F == spec_sentinel(),
        obs_field(doc, "windDirection"@) is None ==> rec.wind_dir == spec_sentinel(),
        obs_field(doc, "windSpeed"@) is None ==> rec.wind_spd_km_h == spec_sentinel()
            && rec.wind_spd_mi_h == spec_sentinel(),
        obs_field(doc, "windGust"@) is None ==> rec.wind_gust_km_h == spec_sentinel()
            && rec.wind_gust_mi_h == spec_sentinel(),
        obs_field(doc, "barometricPressure"@) is None ==> rec.baro_pres_pa == spec_sentinel()
            && rec.baro_pres_inHg == spec_sentinel(),
        obs_field(doc, "relativeHumidity"@) is None ==> rec.rel_humidity == spec_sentinel(),
        obs_text(doc, "timestamp"@) is None ==> rec.timestamp_UTC@ == Seq::<char>::empty(),
        obs_text(doc, "textDescription"@) is None ==> rec.description@ == Seq::<char>::empty(),
{
}

/// Law: coordinates present in the document come through exactly — a
/// metadata pass stores the very decimals the document carries.
pub proof fn lemma_present_coordinates_exact(pre: Station, post: Station, lon: Dec, lat: Dec)
    requires
        Station::metadata_applied(pre, post),
        coordinate_of(pre.json_station_serde_val, 0) == Some(lon),
        coordinate_of(pre.json_station_serde_val, 1) == Some(lat),
    ensures
        post.longitude == lon,
        post.latitude == lat,
{
}

/// Reads `properties.<field>.value` as a number.
fn read_obs_num(doc: &Json, field: &str) -> (r: Option<Dec>)
    requires
        json_wf(*doc),
    ensures
        r == obs_field(*doc, field@),
        match r {
            Some(v) => readable(v),
            None => true,
        },
{
    proof {
        lemma_member_wf(*doc, "properties"@);
        lemma_member_wf(member_of(*doc, "properties"@), field@);
        lemma_member_wf(member_of(member_of(*doc, "properties"@), field@), "value"@);
    }
    match doc.member("properties") {
        Some(props) => match props.member(field) {
            Some(f) => match f.member("value") {
                Some(v) => match v {
                    Json::Num(d) => Some(*d),
                    _ => None,
                },
                None => None,
            },
            None => None,
        },
        None => None,
    }
}

/// Reads `properties.<field>` as text.
fn read_obs_text(doc: &Json, field: &str) -> (r: Option<String>)
    ensures
        match r {
            Some(s) => obs_text(*doc, field@) == Some(s@),
            None => obs_text(*doc, field@) is None,
        },
{
    match doc.member("properties") {
        Some(props) => match props.member(field) {
            Some(f) => match f {
                Json::Str(s) => Some(s.clone()),
                _ => None,
            },
            None => None,
        },
        None => None,
    }
}

/// Warnings raised while applying a metadata document: each marks a
/// field that fell back to its default.
#[derive(Clone, Copy, PartialEq, Eq, Structural, Debug)]
pub struct MetadataWarnings {
    pub name_fallback: bool,
    pub longitude_zero: bool,
    pub latitude_zero: bool,
    pub elevation_zero: bool,
}

/// One monitored station: identity, derived endpoint URLs, the most
/// recent raw payloads and documents, and the cached metadata fields.
pub struct Station {
    pub station_identifier: String,
    pub station_name: String,
    pub station_url: String,
    pub json_station_data: String,
    pub json_station_serde_val: Json,
    pub observation_url: String,
    pub latest_observation_data: String,
    pub json_observation_serde_val: Json,
    pub longitude: Dec,
    pub latitude: Dec,
    pub elevation_meters: Dec,
    pub elevation_feet: Dec,
}

impl Station {
    /// The station's well-formedness: documents hold readable numbers,
    /// the cached location is readable, and the feet elevation is
    /// always the exact conversion of the metres elevation.
    pub open spec fn inv(self) -> bool {
        &&& json_wf(self.json_station_serde_val)
        &&& json_wf(self.json_observation_serde_val)
        &&& readable(self.longitude)
        &&& readable(self.latitude)
        &&& readable(self.elevation_meters)
        &&& feet_rel(self.elevation_meters, self.elevation_feet)
    }

    /// The fields a metadata pass never touches.
    pub open spec fn same_identity(pre: Station, post: Station) -> bool {
        &&& post.station_identifier == pre.station_identifier
        &&& post.station_url == pre.station_url
        &&& post.observation_url == pre.observation_url
        &&& post.json_station_data == pre.json_station_data
        &&& post.json_station_serde_val == pre.json_station_serde_val
        &&& post.latest_observation_data == pre.latest_observation_data
        &&& post.json_observation_serde_val == pre.json_observation_serde_val
    }

    /// Creates a station: URLs are derived from the base URL and the
    /// identifier, every cached field starts at its default.
    pub fn new(id: String, stations_url: String) -> (r: Station)
        ensures
            r.inv(),
            r.station_identifier == id,
            r.station_name@ == Seq::<char>::empty(),
            r.station_url@ == stations_url@ + id@,
            r.observation_url@ == stations_url@ + id@ + "/observations/latest"@,
            r.json_station_data@ == Seq::<char>::empty(),
            r.json_station_serde_val == Json::Null,
            r.latest_observation_data@ == Seq::<char>::empty(),
            r.json_observation_serde_val == Json::Null,
            r.longitude == spec_zero(),
            r.latitude == spec_zero(),
            r.elevation_meters == spec_zero(),
            r.elevation_feet == spec_zero(),
    {
        let station_url = stations_url.clone().concat(id.as_str());
        let observation_url = station_url.clone().concat("/observations/latest");
        proof {
            crate::dec::lemma_pow10_pos(60nat);
        }
        let r = Station {
            station_identifier: id,
            station_name: String::new(),
            station_url,
            json_station_data: String::new(),
            json_station_serde_val: Json::Null,
            observation_url,
            latest_observation_data: String::new(),
            json_observation_serde_val: Json::Null,
            longitude: zero(),
            latitude: zero(),
            elevation_meters: zero(),
            elevation_feet: zero(),
        };
        proof {
            assert(crate::dec::dec_val(spec_zero()) == 0);
            assert(crate::dec::pow10(5nat) * 0 == 0) by (nonlinear_arith);
            assert(328084 * crate::dec::dec_val(spec_zero()) == 0) by (nonlinear_arith)
                requires
                    crate::dec::dec_val(spec_zero()) == 0,
            ;
        }
        r
    }

    /// Reads `properties.name` and overwrites the cached name: the
    /// document's name when it is text, else the fallback identifier,
    /// reporting the fallback so the caller can warn.
    pub fn parse_json_station_name(&mut self) -> (fallback: bool)
        ensures
            ({
                let src = station_name_of(old(self).json_station_serde_val);
                match src {
                    Some(nm) => !fallback && final(self).station_name@ == nm,
                    None => fallback && final(self).station_name@ == old(
                        self,
                    ).station_identifier@,
                }
            }),
            Station::same_identity(*old(self), *final(self)),
            final(self).longitude == old(self).longitude,
            final(self).latitude == old(self).latitude,
            final(self).elevation_meters == old(self).elevation_meters,
            final(self).elevation_feet == old(self).elevation_feet,
    {
        let doc = &self.json_station_serde_val;
        let nm: Option<String> = match doc.member("properties") {
            Some(props) => match props.member("name") {
                Some(f) => match f {
                    Json::Str(s) => Some(s.clone()),
                    _ => None,
                },
                None => None,
            },
            None => None,
        };
        match nm {
            Some(n) => {
                self.station_name = n;
                false
            },
            None => {
                self.station_name = self.station_identifier.clone();
                true
            },
        }
    }

    /// Reads `geometry.coordinates[0]`; an absent or unreadable
    /// coordinate reads as zero, and a zero result is reported as the
    /// parse warning (ambiguous with a true prime-meridian station).
    pub fn parse_json_longitude(&mut self) -> (warned: bool)
        requires
            old(self).inv(),
        ensures
            final(self).inv(),
            ({
                let src = coordinate_of(old(self).json_station_serde_val, 0);
                match src {
                    Some(v) => final(self).longitude == v,
                    None => final(self).longitude == spec_zero(),
                }
            }),
            warned == (final(self).longitude == spec_zero()),
            Station::same_identity(*old(self), *final(self)),
            final(self).station_name == old(self).station_name,
            final(self).latitude == old(self).latitude,
            final(self).elevation_meters == old(self).elevation_meters,
            final(self).elevation_feet == old(self).elevation_feet,
    {
        let v = self.read_coordinate(0);
        self.longitude = match v {
            Some(d) => d,
            None => zero(),
        };
        self.longitude == zero()
    }

    /// Reads `geometry.coordinates[1]`; defaults and warns as the
    /// longitude does.
    pub fn parse_json_latitude(&mut self) -> (warned: bool)
        requires
            old(self).inv(),
        ensures
            final(self).inv(),
            ({
                let src = coordinate_of(old(self).json_station_serde_val, 1);
                match src {
                    Some(v) => final(self).latitude == v,
                    None => final(self).latitude == spec_zero(),
                }
            }),
            warned == (final(self).latitude == spec_zero()),
            Station::same_identity(*old(self), *final(self)),
            final(self).station_name == old(self).station_name,
            final(self).longitude == old(self).longitude,
            final(self).elevation_meters == old(self).elevation_meters,
            final(self).elevation_feet == old(self).elevation_feet,
    {
        let v = self.read_coordinate(1);
        self.latitude = match v {
            Some(d) => d,
            None => zero(),
        };
        self.latitude == zero()
    }

    /// Reads `properties.elevation.value` in metres; the feet twin is
    /// always recomputed from the metres value, never read.
    pub fn parse_json_elevation(&mut self) -> (warned: bool)
        requires
            old(self).inv(),
        ensures
            final(self).inv(),
            ({
                let src = elevation_of(old(self).json_station_serde_val);
                match src {
                    Some(v) => final(self).elevation_meters == v,
                    None => final(self).elevation_meters == spec_zero(),
                }
            }),
            feet_rel(final(self).elevation_meters, final(self).elevation_feet),
            warned == (final(self).elevation_meters == spec_zero()),
            Station::same_identity(*old(self), *final(self)),
            final(self).station_name == old(self).station_name,
            final(self).longitude == old(self).longitude,
            final(self).latitude == old(self).latitude,
    {
        let v = read_obs_num(&self.json_station_serde_val, "elevation");
        self.elevation_meters = match v {
            Some(d) => d,
            None => zero(),
        };
        self.elevation_feet = feet(self.elevation_meters);
        self.elevation_meters == zero()
    }

    /// Reads one coordinate from `geometry.coordinates`.
    fn read_coordinate(&self, i: usize) -> (r: Option<Dec>)
        requires
            self.inv(),
        ensures
            r == coordinate_of(self.json_station_serde_val, i as int),
            match r {
                Some(v) => readable(v),
                None => true,
            },
    {
        let doc = &self.json_station_serde_val;
        proof {
            lemma_member_wf(*doc, "geometry"@);
            lemma_member_wf(member_of(*doc, "geometry"@), "coordinates"@);
            lemma_element_wf(
                member_of(member_of(*doc, "geometry"@), "coordinates"@),
                i as int,
            );
        }
        match doc.member("geometry") {
            Some(g) => match g.member("coordinates") {
                Some(coords) => match coords.element(i) {
                    Some(v) => match v {
                        Json::Num(d) => Some(*d),
                        _ => None,
                    },
                    None => None,
                },
                None => None,
            },
            None => None,
        }
    }

    /// Applies the cached metadata document to the cached fields: one
    /// full pass over name, longitude, latitude and elevation.
    pub fn set_station_data(&mut self) -> (warnings: MetadataWarnings)
        requires
            old(self).inv(),
        ensures
            final(self).inv(),
            Station::metadata_applied(*old(self), *final(self)),
            warnings.longitude_zero == (final(self).longitude == spec_zero()),
            warnings.latitude_zero == (final(self).latitude == spec_zero()),
            warnings.elevation_zero == (final(self).elevation_meters == spec_zero()),
            warnings.name_fallback == (station_name_of(old(self).json_station_serde_val)
                is None),
    {
        let name_fallback = self.parse_json_station_name();
        let longitude_zero = self.parse_json_longitude();
        let latitude_zero = self.parse_json_latitude();
        let elevation_zero = self.parse_json_elevation();
        MetadataWarnings { name_fallback, longitude_zero, latitude_zero, elevation_zero }
    }

    /// The full metadata policy: how one application of the cached
    /// document rewrites the cached fields.
    pub open spec fn metadata_applied(pre: Station, post: Station) -> bool {
        let doc = pre.json_station_serde_val;
        &&& Station::same_identity(pre, post)
        &&& ({
            let src = station_name_of(doc);
            match src {
                Some(nm) => post.station_name@ == nm,
                None => post.station_name@ == pre.station_identifier@,
            }
        })
        &&& ({
            let src = coordinate_of(doc, 0);
            match src {
                Some(v) => post.longitude == v,
                None => post.longitude == spec_zero(),
            }
        })
        &&& ({
            let src = coordinate_of(doc, 1);
            match src {
                Some(v) => post.latitude == v,
                None => post.latitude == spec_zero(),
            }
        })
        &&& ({
            let src = elevation_of(doc);
            match src {
                Some(v) => post.elevation_meters == v,
                None => post.elevation_meters == spec_zero(),
            }
        })
        &&& feet_rel(post.elevation_meters, post.elevation_feet)
    }

    /// Law: a metadata pass is a pure function of the document and the
    /// identifier — two stations with the same document and identifier
    /// end with the same name, location and elevation, whatever they
    /// held before.
    pub proof fn lemma_metadata_pass_deterministic(
        pre1: Station,
        post1: Station,
        pre2: Station,
        post2: Station,
    )
        requires
            Station::metadata_applied(pre1, post1),
            Station::metadata_applied(pre2, post2),
            pre1.json_station_serde_val == pre2.json_station_serde_val,
            pre1.station_identifier@ == pre2.station_identifier@,
        ensures
            post1.station_name@ == post2.station_name@,
            post1.longitude == post2.longitude,
            post1.latitude == post2.latitude,
            post1.elevation_meters == post2.elevation_meters,
            post1.elevation_feet == post2.elevation_feet,
    {
        crate::dec::lemma_conversions_deterministic(
            post1.elevation_meters,
            post1.elevation_feet,
            post2.elevation_feet,
        );
    }

    /// Projects the current cached metadata into a persistence row.
    pub fn get_station_record(&self) -> (r: StationRecord)
        ensures
            r.call_id == self.station_identifier,
            r.name == self.station_name,
            r.latitude_deg == self.latitude,
            r.longitude_deg == self.longitude,
            r.elevation_m == self.elevation_meters,
            r.url == self.station_url,
    {
        StationRecord {
            call_id: self.station_identifier.clone(),
            name: self.station_name.clone(),
            latitude_deg: self.latitude,
            longitude_deg: self.longitude,
            elevation_m: self.elevation_meters,
            url: self.station_url.clone(),
        }
    }

    /// Builds the observation row from the cached observation
    /// document: the whole normalization policy, field by field.
    pub fn preprocess_observation(&self) -> (rec: ObservationRecord)
        requires
            self.inv(),
        ensures
            observation_matches(rec, self.station_identifier@, self.json_observation_serde_val),
    {
        let doc = &self.json_observation_serde_val;
        let timestamp_utc = match read_obs_text(doc, "timestamp") {
            Some(s) => s,
            None => String::new(),
        };
        let description = match read_obs_text(doc, "textDescription") {
            Some(s) => s,
            None => String::new(),
        };
        let temperature_c: Dec;
        let temperature_f: Dec;
        match read_obs_num(doc, "temperature") {
            Some(v) => {
                temperature_c = v;
                temperature_f = fahrenheit(v);
            },
            None => {
                temperature_c = sentinel();
                temperature_f = sentinel();
            },
        }
        let dewpoint_c: Dec;
        let dewpoint_f: Dec;
        match read_obs_num(doc, "dewpoint") {
            Some(v) => {
                dewpoint_c = v;
                dewpoint_f = fahrenheit(v);
            },
            None => {
                dewpoint_c = sentinel();
                dewpoint_f = sentinel();
            },
        }
        let wind_dir = match read_obs_num(doc, "windDirection") {
            Some(v) => v,
            None => sentinel(),
        };
        let wind_spd_km_h: Dec;
        let wind_spd_mi_h: Dec;
        match read_obs_num(doc, "windSpeed") {
            Some(v) => {
                wind_spd_km_h = v;
                wind_spd_mi_h = mph(v);
            },
            None => {
                wind_spd_km_h = sentinel();
                wind_spd_mi_h = sentinel();
            },
        }
        let wind_gust_km_h: Dec;
        let wind_gust_mi_h: Dec;
        match read_obs_num(doc, "windGust") {
            Some(v) => {
                wind_gust_km_h = v;
                wind_gust_mi_h = mph(v);
            },
            None => {
                wind_gust_km_h = sentinel();
                wind_gust_mi_h = sentinel();
            },
        }
        let baro_pres_pa: Dec;
        let baro_pres_inhg: Dec;
        match read_obs_num(doc, "barometricPressure") {
            Some(v) => {
                baro_pres_pa = v;
                baro_pres_inhg = inhg(v);
            },
            None => {
                baro_pres_pa = sentinel();
                baro_pres_inhg = sentinel();
            },
        }
        let rel_humidity = match read_obs_num(doc, "relativeHumidity") {
            Some(v) => v,
            None => sentinel(),
        };
        ObservationRecord {
            station_id: self.station_identifier.clone(),
            timestamp_UTC: timestamp_utc,
            temperature_C: temperature_c,
            temperature_F: temperature_f,
            dewpoint_C: dewpoint_c,
            dewpoint_F: dewpoint_f,
            description,
            wind_dir,
            wind_spd_km_h,
            wind_spd_mi_h,
            wind_gust_km_h,
            wind_gust_mi_h,
            baro_pres_pa,
            baro_pres_inHg: baro_pres_inhg,
            rel_humidity,
        }
    }

    /// A station as it stands right after a metadata body was
    /// retained and parsed, before the document is applied.
    pub open spec fn with_station_doc(pre: Station, text: String, doc: Json) -> Station {
        Station {
            station_identifier: pre.station_identifier,
            station_name: pre.station_name,
            station_url: pre.station_url,
            json_station_data: text,
            json_station_serde_val: doc,
            observation_url: pre.observation_url,
            latest_observation_data: pre.latest_observation_data,
            json_observation_serde_val: pre.json_observation_serde_val,
            longitude: pre.longitude,
            latitude: pre.latitude,
            elevation_meters: pre.elevation_meters,
            elevation_feet: pre.elevation_feet,
        }
    }

    /// Takes a fetched metadata body: retains the raw text, parses it,
    /// and on success applies the document to the cached fields.  A
    /// parse failure is the fatal acquisition error the caller must
    /// surface up to process exit.
    pub fn ingest_station_json(&mut self, text: String) -> (r: Result<
        MetadataWarnings,
        AcquisitionError,
    >)
        requires
            old(self).inv(),
        ensures
            final(self).inv(),
            final(self).json_station_data == text,
            r is Ok <==> crate::ingest::json_doc_of(text@) is Some,
            r is Ok ==> (crate::ingest::json_doc_of(text@) matches Some(c)
                && crate::ingest::json_matches_content(
                final(self).json_station_serde_val,
                c,
                crate::ingest::FOLD_DEPTH as nat,
            )),
            r matches Ok(w) ==> {
                &&& w.name_fallback == (station_name_of(final(self).json_station_serde_val)
                    is None)
                &&& w.longitude_zero == (final(self).longitude == spec_zero())
                &&& w.latitude_zero == (final(self).latitude == spec_zero())
                &&& w.elevation_zero == (final(self).elevation_meters == spec_zero())
            },
            r is Err ==> r == Err::<MetadataWarnings, AcquisitionError>(AcquisitionError::Parse),
            r is Err ==> final(self).json_station_serde_val == old(self).json_station_serde_val,
            r is Err ==> final(self).station_name == old(self).station_name,
            r is Err ==> final(self).longitude == old(self).longitude,
            r is Err ==> final(self).latitude == old(self).latitude,
            r is Err ==> final(self).elevation_meters == old(self).elevation_meters,
            r is Err ==> final(self).elevation_feet == old(self).elevation_feet,
            r is Ok ==> Station::metadata_applied(
                Station::with_station_doc(
                    *old(self),
                    text,
                    final(self).json_station_serde_val,
                ),
                *final(self),
            ),
            final(self).station_identifier == old(self).station_identifier,
            final(self).station_url == old(self).station_url,
            final(self).observation_url == old(self).observation_url,
            final(self).latest_observation_data == old(self).latest_observation_data,
            final(self).json_observation_serde_val == old(self).json_observation_serde_val,
    {
        let parsed = crate::ingest::json_from_text(text.as_str());
        self.json_station_data = text;
        match parsed {
            Some(doc) => {
                self.json_station_serde_val = doc;
                let warnings = self.set_station_data();
                Ok(warnings)
            },
            None => Err(AcquisitionError::Parse),
        }
    }

    /// Takes a fetched observation body: retains the raw text, parses
    /// it, and on success builds the observation row.  A parse failure
    /// is the recoverable parse error — the caller skips this poll.
    pub fn ingest_observation_json(&mut self, text: String) -> (r: Result<
        ObservationRecord,
        ObservationError,
    >)
        requires
            old(self).inv(),
        ensures
            final(self).inv(),
            final(self).latest_observation_data == text,
            r is Ok <==> crate::ingest::json_doc_of(text@) is Some,
            r is Ok ==> (crate::ingest::json_doc_of(text@) matches Some(c)
                && crate::ingest::json_matches_content(
                final(self).json_observation_serde_val,
                c,
                crate::ingest::FOLD_DEPTH as nat,
            )),
            r is Err ==> r == Err::<ObservationRecord, ObservationError>(ObservationError::Parse),
            r is Err ==> final(self).json_observation_serde_val == old(
                self,
            ).json_observation_serde_val,
            r is Ok ==> observation_matches(
                r.unwrap(),
                final(self).station_identifier@,
                final(self).json_observation_serde_val,
            ),
            final(self).station_identifier == old(self).station_identifier,
            final(self).station_name == old(self).station_name,
            final(self).station_url == old(self).station_url,
            final(self).observation_url == old(self).observation_url,
            final(self).json_station_data == old(self).json_station_data,
            final(self).json_station_serde_val == old(self).json_station_serde_val,
            final(self).longitude == old(self).longitude,
            final(self).latitude == old(self).latitude,
            final(self).elevation_meters == old(self).elevation_meters,
            final(self).elevation_feet == old(self).elevation_feet,
    {
        let parsed = crate::ingest::json_from_text(text.as_str());
        self.latest_observation_data = text;
        match parsed {
            Some(doc) => {
                self.json_observation_serde_val = doc;
                let rec = self.preprocess_observation();
                Ok(rec)
            },
            None => Err(ObservationError::Parse),
        }
    }
}

} // verus!
