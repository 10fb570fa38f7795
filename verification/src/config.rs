//! Runtime configuration and subscribe-URL construction.

use vstd::prelude::*;
use crate::text::{push_str, str_eq};

verus! {

/// Almanac runtime configuration.
#[derive(Debug, Clone)]
pub struct Config {
    /// HTTP bind address (e.g. "0.0.0.0:8787").
    pub bind: String,
    /// Default community id used by the demo / standalone server.
    pub default_community: String,
    /// Whether to seed the demo dataset on startup.
    pub seed_demo: bool,
    /// Base URL for constructing subscribe URLs (e.g. "http://localhost:8787").
    pub public_base_url: String,
}

impl Default for Config {
    fn default() -> (c: Self)
        ensures
            c.bind@ == "0.0.0.0:8787"@,
            c.default_community@ == "demo"@,
            c.seed_demo,
            c.public_base_url@ == "http://localhost:8787"@,
    {
        Config {
            bind: "0.0.0.0:8787".to_owned(),
            default_community: "demo".to_owned(),
            seed_demo: true,
            public_base_url: "http://localhost:8787".to_owned(),
        }
    }
}

/// `s` with every trailing `c` removed (`str::trim_end_matches(c)`).
pub open spec fn trim_end_char(s: Seq<char>, c: char) -> Seq<char>
    decreases s.len(),
{
    if s.len() > 0 && s.last() == c {
        trim_end_char(s.drop_last(), c)
    } else {
        s
    }
}

/// The value of `ALMANAC_SEED_DEMO` that turns seeding on.
pub open spec fn seed_flag_spec(v: Seq<char>) -> bool {
    v == "1"@ || v == "true"@ || v == "TRUE"@ || v == "yes"@
}

pub open spec fn calendar_url_spec(base: Seq<char>, community: Seq<char>) -> Seq<char> {
    trim_end_char(base, '/') + "/calendar/"@ + community + ".ics"@
}

pub open spec fn runs_url_spec(base: Seq<char>, community: Seq<char>) -> Seq<char> {
    trim_end_char(base, '/') + "/calendar/"@ + community + "/runs.ics"@
}

pub open spec fn schedule_url_spec(base: Seq<char>, community: Seq<char>) -> Seq<char> {
    trim_end_char(base, '/') + "/calendar/"@ + community + "/schedule.ics"@
}

pub(crate) fn trimmed_base(base: &str) -> (r: String)
    ensures
        r@ == trim_end_char(base@, '/'),
{
    let v = crate::text::chars_of(base);
    let mut n: usize = v.len();
    assert(v@.take(n as int) =~= v@);
    while n > 0 && v[n - 1] == '/'
        invariant
            n <= v@.len(),
            trim_end_char(v@, '/') == trim_end_char(v@.take(n as int), '/'),
        decreases n,
    {
        assert(v@.take(n as int).drop_last() =~= v@.take(n - 1));
        n = n - 1;
    }
    let r = crate::text::string_of_range(v.as_slice(), 0, n);
    assert(v@.subrange(0, n as int) =~= v@.take(n as int));
    r
}

impl Config {
    /// Configuration from the values of the recognized environment variables
    /// (`ALMANAC_BIND`, `ALMANAC_COMMUNITY`, `ALMANAC_SEED_DEMO`,
    /// `ALMANAC_PUBLIC_URL`); an absent variable keeps its default.
    pub fn from_env_values(
        bind: Option<String>,
        community: Option<String>,
        seed_demo: Option<String>,
        public_url: Option<String>,
    ) -> (c: Config)
        ensures
            c.bind@ == (match bind { Some(v) => v@, None => "0.0.0.0:8787"@ }),
            c.default_community@ == (match community { Some(v) => v@, None => "demo"@ }),
            c.seed_demo == (match seed_demo { Some(v) => seed_flag_spec(v@), None => true }),
            c.public_base_url@ == (match public_url {
                Some(v) => v@,
                None => "http://localhost:8787"@,
            }),
    {
        let mut c = Config::default();
        if let Some(v) = bind {
            c.bind = v;
        }
        if let Some(v) = community {
            c.default_community = v;
        }
        if let Some(v) = seed_demo {
            c.seed_demo = seed_flag(v.as_str());
        }
        if let Some(v) = public_url {
            c.public_base_url = v;
        }
        c
    }

    /// The subscribe URL for a community: `<base>/calendar/<community>.ics`,
    /// trailing slashes of the base removed.
    pub fn calendar_url(&self, community: &str) -> (u: String)
        ensures
            u@ == calendar_url_spec(self.public_base_url@, community@),
    {
        let mut u = trimmed_base(self.public_base_url.as_str());
        push_str(&mut u, "/calendar/");
        push_str(&mut u, community);
        push_str(&mut u, ".ics");
        u
    }

    /// The runs-only subscribe URL: `<base>/calendar/<community>/runs.ics`.
    pub fn runs_url(&self, community: &str) -> (u: String)
        ensures
            u@ == runs_url_spec(self.public_base_url@, community@),
    {
        let mut u = trimmed_base(self.public_base_url.as_str());
        push_str(&mut u, "/calendar/");
        push_str(&mut u, community);
        push_str(&mut u, "/runs.ics");
        u
    }

    /// The schedule-only subscribe URL: `<base>/calendar/<community>/schedule.ics`.
    pub fn schedule_url(&self, community: &str) -> (u: String)
        ensures
            u@ == schedule_url_spec(self.public_base_url@, community@),
    {
        let mut u = trimmed_base(self.public_base_url.as_str());
        push_str(&mut u, "/calendar/");
        push_str(&mut u, community);
        push_str(&mut u, "/schedule.ics");
        u
    }
}

/// Whether an `ALMANAC_SEED_DEMO` value turns demo seeding on
/// (`1`, `true`, `TRUE` or `yes`).
pub fn seed_flag(v: &str) -> (r: bool)
    ensures
        r == seed_flag_spec(v@),
{
    str_eq(v, "1") || str_eq(v, "true") || str_eq(v, "TRUE") || str_eq(v, "yes")
}

} // verus!
