//! The contact service's database configuration: the connection
//! parts, and how the connection string and the profile's environment
//! file name are assembled from them. Reading the environment,
//! fetching secrets and opening the pool are the shell's work.

use vstd::prelude::*;
use vstd::string::*;

verus! {

/// The database connection parts of one deployment profile.
#[derive(Debug, Clone)]
pub struct Config {
    pub user: String,
    pub password: String,
    pub host: String,
    pub port: String,
    pub db_name: String,
}

/// The connection string the parts assemble to.
pub open spec fn spec_database_url(c: &Config) -> Seq<char> {
    "postgres://"@ + c.user@ + ":"@ + c.password@ + "@"@ + c.host@ + ":"@ + c.port@ + "/"@
        + c.db_name@
}

impl Config {
    /// The connection string for this configuration.
    pub fn database_url(&self) -> (r: String)
        ensures
            r@ == spec_database_url(self),
    {
        let mut s = String::from_str("postgres://");
        s.append(self.user.as_str());
        s.append(":");
        s.append(self.password.as_str());
        s.append("@");
        s.append(self.host.as_str());
        s.append(":");
        s.append(self.port.as_str());
        s.append("/");
        s.append(self.db_name.as_str());
        s
    }
}

/// The deployment profile in force: the named one, or `dev` when none
/// was named.
pub fn profile_or_default(profile: Option<String>) -> (r: String)
    ensures
        match profile {
            Some(p) => r@ == p@,
            None => r@ == "dev"@,
        },
{
    match profile {
        Some(p) => p,
        None => String::from_str("dev"),
    }
}

/// The environment file a profile is loaded from.
pub fn profile_env_filename(profile: &str) -> (r: String)
    ensures
        r@ == ".env."@ + profile@,
{
    let mut s = String::from_str(".env.");
    s.append(profile);
    s
}

} // verus!
