//! Configuration as the pipeline reads it.
//!
//! Each section is an association list of settings; reading the file
//! itself is the caller's concern.  The polling interval falls back to
//! its default both when the setting is absent and when its text does
//! not read as a number.

use vstd::prelude::*;

use crate::dec_text::digits_end;
use crate::dec_text::digits_val;
use crate::dec_text::lemma_digits_end_bounds;
use crate::dec_text::lemma_digits_val_nonneg;
use crate::station::Station;
use crate::strutil::str_eq;
use vstd::string::StrSliceExecFns;
use vstd::string::StringExecFns;

verus! {

/// The polling interval used when the setting is absent or unreadable.
pub const DEFAULT_INTERVAL_SECS: u64 = 300;

/// The configuration sections the pipeline reads.
pub struct Config {
    pub log_section: Vec<(String, String)>,
    pub host_section: Vec<(String, String)>,
    pub db_section: Vec<(String, String)>,
    pub stations_section: Vec<(String, String)>,
    pub parameters_section: Vec<(String, String)>,
}

/// First value bound to `key` in a section.
pub open spec fn section_lookup(s: Seq<(String, String)>, key: Seq<char>) -> Option<Seq<char>>
    decreases s.len(),
{
    if s.len() == 0 {
        None
    } else if s[0].0@ == key {
        Some(s[0].1@)
    } else {
        section_lookup(s.drop_first(), key)
    }
}

/// Looks a setting up in a section.
pub fn section_get<'a>(section: &'a Vec<(String, String)>, key: &str) -> (r: Option<&'a String>)
    ensures
        match r {
            Some(v) => section_lookup(section@, key@) == Some(v@),
            None => section_lookup(section@, key@) is None,
        },
{
    let ghost rows = section@;
    proof {
        assert(rows.skip(0) =~= rows);
    }
    let n = section.len();
    let mut i: usize = 0;
    while i < n
        invariant
            n == section.len(),
            rows == section@,
            i <= n,
            section_lookup(rows, key@) == section_lookup(rows.skip(i as int), key@),
        decreases n - i,
    {
        proof {
            assert(rows.skip(i as int).len() > 0);
            assert(rows.skip(i as int)[0] == rows[i as int]);
            assert(rows.skip(i as int).drop_first() =~= rows.skip(i + 1));
        }
        if str_eq(section[i].0.as_str(), key) {
            return Some(&section[i].1);
        }
        i = i + 1;
    }
    proof {
        assert(rows.skip(n as int).len() == 0);
    }
    None
}

/// What `parse_u64` reads: an optional plus sign and digits, valued
/// below 2^64 — the grammar `str::parse::<u64>` accepts.
pub open spec fn spec_parse_u64(s: Seq<char>) -> Option<u64> {
    let i0: int = if s.len() > 0 && s[0] == '+' {
        1
    } else {
        0
    };
    let e = digits_end(s, i0);
    if e == i0 || e != s.len() {
        None
    } else {
        let v = digits_val(s, i0, e);
        if v < 0x1_0000_0000_0000_0000 {
            Some(v as u64)
        } else {
            None
        }
    }
}

/// Reads an unsigned decimal integer, as `str::parse::<u64>` does.
pub fn parse_u64(s: &str) -> (r: Option<u64>)
    ensures
        r == spec_parse_u64(s@),
{
    let ghost seq = s@;
    let n = s.unicode_len();
    let plus = n > 0 && s.get_char(0) == '+';
    let i0: usize = if plus {
        1
    } else {
        0
    };
    let (e, v, over) = crate::dec_text::scan_digits(s, n, i0, 0, false, 0x1_0000_0000_0000_0000);
    if e == i0 || e != n {
        return None;
    }
    proof {
        lemma_digits_end_bounds(seq, i0 as int);
        lemma_digits_val_nonneg(seq, i0 as int, e as int);
    }
    if over {
        return None;
    }
    Some(v as u64)
}

impl Config {
    /// The polling interval in seconds: the configured value, or the
    /// default when the setting is absent or does not read as a
    /// number.
    pub fn obs_interval_secs(&self) -> (r: u64)
        ensures
            r == Config::spec_interval(self.parameters_section@),
    {
        match section_get(&self.parameters_section, "OBS_INTERVAL_SECS") {
            Some(text) => match parse_u64(text.as_str()) {
                Some(v) => v,
                None => DEFAULT_INTERVAL_SECS,
            },
            None => DEFAULT_INTERVAL_SECS,
        }
    }

    /// The interval policy.
    pub open spec fn spec_interval(params: Seq<(String, String)>) -> u64 {
        match section_lookup(params, "OBS_INTERVAL_SECS"@) {
            Some(text) => match spec_parse_u64(text) {
                Some(v) => v,
                None => DEFAULT_INTERVAL_SECS,
            },
            None => DEFAULT_INTERVAL_SECS,
        }
    }

    /// The base URL all station endpoints are derived from; a
    /// configuration without it cannot drive the pipeline.
    pub fn stations_url(&self) -> (r: Option<&String>)
        ensures
            match r {
                Some(v) => section_lookup(self.host_section@, "STATIONS_URL"@) == Some(v@),
                None => section_lookup(self.host_section@, "STATIONS_URL"@) is None,
            },
    {
        section_get(&self.host_section, "STATIONS_URL")
    }

    /// Builds the station list: one station per configured identifier,
    /// in configuration order, each derived from the base URL.
    pub fn build_stations(&self, stations_url: &str) -> (r: Vec<Station>)
        ensures
            r.len() == self.stations_section@.len(),
            forall|i: int|
                0 <= i < r.len() ==> {
                    &&& (#[trigger] r[i]).inv()
                    &&& r[i].station_identifier@ == self.stations_section@[i].1@
                    &&& r[i].station_url@ == stations_url@ + self.stations_section@[i].1@
                    &&& r[i].observation_url@ == stations_url@ + self.stations_section@[i].1@
                        + "/observations/latest"@
                },
    {
        let n = self.stations_section.len();
        let mut out: Vec<Station> = Vec::new();
        let mut i: usize = 0;
        while i < n
            invariant
                n == self.stations_section.len(),
                i <= n,
                out.len() == i,
                forall|k: int|
                    0 <= k < i ==> {
                        &&& (#[trigger] out[k]).inv()
                        &&& out[k].station_identifier@ == self.stations_section@[k].1@
                        &&& out[k].station_url@ == stations_url@ + self.stations_section@[k].1@
                        &&& out[k].observation_url@ == stations_url@
                            + self.stations_section@[k].1@ + "/observations/latest"@
                    },
            decreases n - i,
        {
            let id = self.stations_section[i].1.clone();
            let base = String::from_str(stations_url);
            let station = Station::new(id, base);
            out.push(station);
            i = i + 1;
        }
        out
    }
}

} // verus!
