use vstd::prelude::*;

verus! {

/// Service settings, read from the environment at start-up.
pub struct Config {
    pub http_server_host: String,
    pub http_server_port: u16,
    pub db_url: String,
    pub jwt_secret: String,
    pub jwt_expires_hours: i64,
}

} // verus!
