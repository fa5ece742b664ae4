//! Weather location presets: eight places covering the Czech Republic for
//! trip planning, rotated one step at a time; the default is Otovice u
//! Broumova.
use crate::text::{chars_eq, chars_of};
use vstd::prelude::*;

verus! {

/// A preset location; coordinates are fixed-point degrees ×10000 (four
/// decimals at most, per yr.no's terms).
#[derive(Debug, Clone, Copy)]
pub struct WeatherLocation {
    pub id: &'static str,
    pub name: &'static str,
    pub lat_x10k: i32,
    pub lon_x10k: i32,
}

/// Number of preset locations.
pub const LOCATION_COUNT: usize = 8;

pub open spec fn location_view(l: WeatherLocation) -> (Seq<char>, Seq<char>, i32, i32) {
    (l.id@, l.name@, l.lat_x10k, l.lon_x10k)
}

/// The preset at `i`: Otovice u Broumova, Špindlerův Mlýn, Praha, Plzeň,
/// České Budějovice, Brno, Zlín, Ostrava.
pub open spec fn preset(i: int) -> (Seq<char>, Seq<char>, i32, i32) {
    if i == 0 {
        ("otovice"@, "Otovice u Broumova"@, 505936i32, 163231i32)
    } else if i == 1 {
        ("spindleruv"@, "Špindlerův Mlýn"@, 507238i32, 156244i32)
    } else if i == 2 {
        ("praha"@, "Praha"@, 500755i32, 144378i32)
    } else if i == 3 {
        ("plzen"@, "Plzeň"@, 497384i32, 133736i32)
    } else if i == 4 {
        ("budejovice"@, "České Budějovice"@, 489757i32, 144749i32)
    } else if i == 5 {
        ("brno"@, "Brno"@, 491951i32, 166068i32)
    } else if i == 6 {
        ("zlin"@, "Zlín"@, 492268i32, 176687i32)
    } else {
        ("ostrava"@, "Ostrava"@, 498209i32, 182609i32)
    }
}

fn location_at(i: usize) -> (r: WeatherLocation)
    requires
        i < LOCATION_COUNT,
    ensures
        location_view(r) == preset(i as int),
{
    if i == 0 {
        WeatherLocation { id: "otovice", name: "Otovice u Broumova", lat_x10k: 505936, lon_x10k: 163231 }
    } else if i == 1 {
        WeatherLocation { id: "spindleruv", name: "Špindlerův Mlýn", lat_x10k: 507238, lon_x10k: 156244 }
    } else if i == 2 {
        WeatherLocation { id: "praha", name: "Praha", lat_x10k: 500755, lon_x10k: 144378 }
    } else if i == 3 {
        WeatherLocation { id: "plzen", name: "Plzeň", lat_x10k: 497384, lon_x10k: 133736 }
    } else if i == 4 {
        WeatherLocation {
            id: "budejovice",
            name: "České Budějovice",
            lat_x10k: 489757,
            lon_x10k: 144749,
        }
    } else if i == 5 {
        WeatherLocation { id: "brno", name: "Brno", lat_x10k: 491951, lon_x10k: 166068 }
    } else if i == 6 {
        WeatherLocation { id: "zlin", name: "Zlín", lat_x10k: 492268, lon_x10k: 176687 }
    } else {
        WeatherLocation { id: "ostrava", name: "Ostrava", lat_x10k: 498209, lon_x10k: 182609 }
    }
}

/// The preset at `idx`, counting round the list.
pub fn location_by_index(idx: usize) -> (r: WeatherLocation)
    ensures
        location_view(r) == preset((idx % LOCATION_COUNT) as int),
{
    location_at(idx % LOCATION_COUNT)
}

/// Index of the preset with this id; the default (0) for an unknown id.
pub open spec fn preset_index(id: Seq<char>) -> int {
    if id == preset(0).0 {
        0
    } else if id == preset(1).0 {
        1
    } else if id == preset(2).0 {
        2
    } else if id == preset(3).0 {
        3
    } else if id == preset(4).0 {
        4
    } else if id == preset(5).0 {
        5
    } else if id == preset(6).0 {
        6
    } else if id == preset(7).0 {
        7
    } else {
        0
    }
}

/// Index of the preset with this id (0, the default, when none has it).
pub fn index_of_location(id: &str) -> (r: usize)
    ensures
        r == preset_index(id@),
{
    let c = chars_of(id);
    let mut i: usize = 0;
    while i < LOCATION_COUNT
        invariant
            0 <= i <= LOCATION_COUNT,
            c@ == id@,
            forall|j: int| 0 <= j < i ==> preset(j).0 != id@,
        decreases LOCATION_COUNT - i,
    {
        let l = location_at(i);
        if chars_eq(chars_of(l.id).as_slice(), c.as_slice()) {
            return i;
        }
        i = i + 1;
    }
    0
}

/// How long a fetched forecast stays fresh, in seconds.
pub const CACHE_TTL_SECS: u64 = 1800;

/// The location kept in the cache file, as a preset index (the default
/// when none is kept).
pub fn selected_index(kept: Option<&str>) -> (r: usize)
    ensures
        r == (match kept {
            Some(id) => preset_index(id@),
            None => 0,
        }),
{
    match kept {
        Some(id) => index_of_location(id),
        None => 0,
    }
}

/// Whether the cache holds the forecast of the location at `index`.
pub open spec fn same_location(kept: Option<&str>, index: usize) -> bool {
    match kept {
        Some(id) => id@ == preset((index % LOCATION_COUNT) as int).0,
        None => false,
    }
}

fn is_location(kept: Option<&str>, index: usize) -> (r: bool)
    ensures
        r == same_location(kept, index),
{
    match kept {
        Some(id) => {
            let loc = location_by_index(index);
            chars_eq(chars_of(id).as_slice(), chars_of(loc.id).as_slice())
        },
        None => false,
    }
}

/// A fetch made at `fetched_at` is still fresh at `now` (a clock that went
/// back makes it stale).
pub open spec fn is_fresh(now: u64, fetched_at: u64) -> bool {
    now >= fetched_at && now - fetched_at < CACHE_TTL_SECS
}

/// Whether the forecast is served from the cache without a fetch: not
/// forced, fresh, of this location, and with a body.
pub fn use_cached_forecast(force: bool, now: u64, fetched_at: u64, kept: Option<&str>, has_body: bool, index: usize) -> (r: bool)
    ensures
        r == (!force && is_fresh(now, fetched_at) && same_location(kept, index) && has_body),
{
    let fresh = match now.checked_sub(fetched_at) {
        Some(age) => age < CACHE_TTL_SECS,
        None => false,
    };
    !force && fresh && is_location(kept, index) && has_body
}

/// After a failed fetch: whether the cached body may stand in (it is of
/// this location and not empty); otherwise the forecast is unavailable.
pub fn fall_back_to_cache(kept: Option<&str>, has_body: bool, index: usize) -> (r: bool)
    ensures
        r == (same_location(kept, index) && has_body),
{
    is_location(kept, index) && has_body
}

} // verus!
