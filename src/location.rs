use vstd::prelude::*;

verus! {

/// One GPS observation as it is stored. Every attribute is opaque text; the
/// timestamp is the record's key.
#[derive(Clone, Debug, PartialEq, Eq)]
pub struct Fix {
    pub lat: String,
    pub lon: String,
    pub timestamp: String,
    pub hdop: String,
    pub altitude: String,
    pub speed: String,
    pub bearing: String,
}

/// The text of each attribute of a fix.
pub ghost struct FixView {
    pub lat: Seq<char>,
    pub lon: Seq<char>,
    pub timestamp: Seq<char>,
    pub hdop: Seq<char>,
    pub altitude: Seq<char>,
    pub speed: Seq<char>,
    pub bearing: Seq<char>,
}

impl View for Fix {
    type V = FixView;

    open spec fn view(&self) -> FixView {
        FixView {
            lat: self.lat@,
            lon: self.lon@,
            timestamp: self.timestamp@,
            hdop: self.hdop@,
            altitude: self.altitude@,
            speed: self.speed@,
            bearing: self.bearing@,
        }
    }
}

/// The views of a sequence of fixes, in the same order.
pub open spec fn fix_views(fixes: Seq<Fix>) -> Seq<FixView> {
    fixes.map_values(|f: Fix| f@)
}

impl Fix {
    pub fn new(
        lat: String,
        lon: String,
        timestamp: String,
        hdop: String,
        altitude: String,
        speed: String,
        bearing: String,
    ) -> (r: Fix)
        ensures
            r@ == (FixView {
                lat: lat@,
                lon: lon@,
                timestamp: timestamp@,
                hdop: hdop@,
                altitude: altitude@,
                speed: speed@,
                bearing: bearing@,
            }),
    {
        Fix { lat, lon, timestamp, hdop, altitude, speed, bearing }
    }

    /// A copy with the same text in every attribute.
    pub fn duplicate(&self) -> (r: Fix)
        ensures
            r@ == self@,
    {
        Fix {
            lat: self.lat.clone(),
            lon: self.lon.clone(),
            timestamp: self.timestamp.clone(),
            hdop: self.hdop.clone(),
            altitude: self.altitude.clone(),
            speed: self.speed.clone(),
            bearing: self.bearing.clone(),
        }
    }
}

/// A fix report together with a token: the parameters of an ingestion
/// request, and the shape of each entry of the history listing.
#[derive(Clone, Debug, PartialEq, Eq)]
pub struct Location {
    pub token: String,
    pub lat: String,
    pub lon: String,
    pub timestamp: String,
    pub hdop: String,
    pub altitude: String,
    pub speed: String,
    pub bearing: String,
}

pub ghost struct LocationView {
    pub token: Seq<char>,
    pub fix: FixView,
}

impl View for Location {
    type V = LocationView;

    open spec fn view(&self) -> LocationView {
        LocationView {
            token: self.token@,
            fix: FixView {
                lat: self.lat@,
                lon: self.lon@,
                timestamp: self.timestamp@,
                hdop: self.hdop@,
                altitude: self.altitude@,
                speed: self.speed@,
                bearing: self.bearing@,
            },
        }
    }
}

/// How a stored fix appears in the history listing: its token is blank.
pub open spec fn listed(f: FixView) -> LocationView {
    LocationView { token: Seq::empty(), fix: f }
}

/// The history listing of a sequence of stored fixes, in the same order.
pub open spec fn listing(rows: Seq<FixView>) -> Seq<LocationView> {
    rows.map_values(|f: FixView| listed(f))
}

impl Location {
    pub fn new(
        token: String,
        lat: String,
        lon: String,
        timestamp: String,
        hdop: String,
        altitude: String,
        speed: String,
        bearing: String,
    ) -> (r: Location)
        ensures
            r@ == (LocationView {
                token: token@,
                fix: FixView {
                    lat: lat@,
                    lon: lon@,
                    timestamp: timestamp@,
                    hdop: hdop@,
                    altitude: altitude@,
                    speed: speed@,
                    bearing: bearing@,
                },
            }),
    {
        Location { token, lat, lon, timestamp, hdop, altitude, speed, bearing }
    }

    /// The reported fix, without the token.
    pub fn fix(&self) -> (r: Fix)
        ensures
            r@ == self@.fix,
    {
        Fix {
            lat: self.lat.clone(),
            lon: self.lon.clone(),
            timestamp: self.timestamp.clone(),
            hdop: self.hdop.clone(),
            altitude: self.altitude.clone(),
            speed: self.speed.clone(),
            bearing: self.bearing.clone(),
        }
    }

    /// The history entry of a stored fix: its attributes and a blank token.
    pub fn from_fix(f: Fix) -> (r: Location)
        ensures
            r@ == listed(f@),
    {
        Location {
            token: String::new(),
            lat: f.lat,
            lon: f.lon,
            timestamp: f.timestamp,
            hdop: f.hdop,
            altitude: f.altitude,
            speed: f.speed,
            bearing: f.bearing,
        }
    }
}

/// The parameters of a reset request.
#[derive(Clone, Debug, PartialEq, Eq)]
pub struct Token {
    pub token: String,
}

impl Token {
    pub fn new(token: String) -> (r: Token)
        ensures
            r.token@ == token@,
    {
        Token { token }
    }
}


/// The views of a sequence of history entries, in the same order.
pub open spec fn location_views(entries: Seq<Location>) -> Seq<LocationView> {
    entries.map_values(|l: Location| l@)
}

/// The history entries of stored fixes, in the same order, each with a blank
/// token.
pub fn listing_of(rows: &Vec<Fix>) -> (r: Vec<Location>)
    ensures
        location_views(r@) == listing(fix_views(rows@)),
{
    let mut out: Vec<Location> = Vec::new();
    let mut i: usize = 0;
    while i < rows.len()
        invariant
            i <= rows@.len(),
            location_views(out@) =~= listing(fix_views(rows@)).subrange(0, i as int),
        decreases rows@.len() - i,
    {
        let entry = Location::from_fix(rows[i].duplicate());
        let ghost prev = out@;
        out.push(entry);
        assert(location_views(out@) =~= location_views(prev).push(entry@));
        assert(listing(fix_views(rows@)).subrange(0, i + 1) =~= listing(fix_views(rows@)).subrange(
            0,
            i as int,
        ).push(listing(fix_views(rows@))[i as int]));
        i = i + 1;
    }
    assert(listing(fix_views(rows@)).subrange(0, i as int) =~= listing(fix_views(rows@)));
    out
}

} // verus!
