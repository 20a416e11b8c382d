//! Server configuration, assembled from values the surrounding process reads
//! out of its environment.

use vstd::prelude::*;

verus! {

/// Everything the server needs to know at start-up.
pub struct Config {
    pub connection_string: String,
    pub jwt_secret: String,
    pub jwt_max_age: i32,
    pub app_secret: String,
}

impl Config {
    /// Assembles the configuration from its parts.
    pub fn init(
        connection_string: String,
        jwt_secret: String,
        jwt_max_age: i32,
        app_secret: String,
    ) -> (r: Self)
        ensures
            r.connection_string@ == connection_string@,
            r.jwt_secret@ == jwt_secret@,
            r.jwt_max_age == jwt_max_age,
            r.app_secret@ == app_secret@,
    {
        Config { connection_string, jwt_secret, jwt_max_age, app_secret }
    }
}

} // verus!
