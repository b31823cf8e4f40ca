use vstd::prelude::*;

verus! {

/// Directory that holds the database file.
pub const DB_DIR: &'static str = "db/";

/// The database file, created on first run.
pub const DB_LOCATION: &'static str = "db/track.db";

/// The front-end page served at the root path.
pub const STATIC_PAGE: &'static str = "static/index.html";

/// Address and port the service listens on.
pub const LISTEN_HOST: &'static str = "0.0.0.0";

pub const LISTEN_PORT: u16 = 8080;

/// The fix table: seven text columns, the timestamp unique.
pub const CREATE_TABLE: &'static str = "CREATE TABLE IF NOT EXISTS locations (
            lat TEXT NOT NULL,
            lon TEXT NOT NULL,
            timestamp TEXT NOT NULL UNIQUE,
            hdop TEXT NOT NULL,
            altitude TEXT NOT NULL,
            speed TEXT NOT NULL,
            bearing TEXT NOT NULL
        );";

/// Inserts one fix; its seven parameters bind lat, lon, timestamp, hdop,
/// altitude, speed and bearing in that order.
pub const INSERT_FIX: &'static str = "INSERT INTO locations (lat, lon, timestamp, hdop, altitude, speed, bearing) VALUES (?, ?, ?, ?, ?, ?, ?)";

/// Every fix in ascending timestamp order, columns in table order.
pub const SELECT_ALL: &'static str = "SELECT * FROM locations ORDER BY timestamp ASC";

/// Removes every fix.
pub const DELETE_ALL: &'static str = "DELETE FROM locations";

} // verus!
