//! Configuration values: the port range and the checks a configuration must
//! pass. Reading the file and the environment is done around the library.

use vstd::prelude::*;

use crate::text::{chars_of, decimal, find, parse_bounded, push_decimal, push_str, string_of, trim};

verus! {

/// The lowest port of the default range; 3000-3010 is commonly forwarded.
pub const DEFAULT_PORT_LOW: u16 = 3000;

/// The highest port of the default range.
pub const DEFAULT_PORT_HIGH: u16 = 3010;

/// A port number as `str::parse::<u16>` reads it.
pub open spec fn port_of(s: Seq<char>) -> Option<u16> {
    match parse_bounded(s, 65535) {
        Some(v) => Some(v as u16),
        None => None,
    }
}

/// What `parse_port_range` gives: `low-high` with `low <= high`, or a single
/// port; surrounding whitespace is ignored.
pub open spec fn spec_parse_port_range(value: Seq<char>) -> Result<(u16, u16), Seq<char>> {
    let t = trim(value);
    match find(t, seq!['-']) {
        Some(i) => match port_of(trim(t.take(i))) {
            None => Err("invalid low port"@),
            Some(low) => match port_of(trim(t.skip(i + 1))) {
                None => Err("invalid high port"@),
                Some(high) => if low <= high {
                    Ok((low, high))
                } else {
                    Err("port range "@ + crate::text::debug_quoted(t) + " is inverted"@)
                },
            },
        },
        None => match port_of(t) {
            Some(p) => Ok((p, p)),
            None => Err("invalid port"@),
        },
    }
}

fn port_in(s: &Vec<char>, lo: usize, hi: usize) -> (r: Option<u16>)
    requires
        lo <= hi <= s.len(),
    ensures
        r == port_of(trim(s@.subrange(lo as int, hi as int))),
{
    let (a, b) = crate::text::trim_bounds(s, lo, hi);
    match crate::text::parse_u64_range(s, a, b) {
        Some(v) => if v <= 65535 {
            Some(v as u16)
        } else {
            None
        },
        None => None,
    }
}

/// Parses `"3000-3010"` or a single `"3000"` into an inclusive range.
pub fn parse_port_range(value: &str) -> (r: Result<(u16, u16), String>)
    ensures
        match r {
            Ok(p) => spec_parse_port_range(value@) == Ok::<(u16, u16), Seq<char>>(p),
            Err(e) => spec_parse_port_range(value@) == Err::<(u16, u16), Seq<char>>(e@),
        },
{
    let t = crate::text::trim_chars(&chars_of(value));
    let mut dash: Vec<char> = Vec::new();
    dash.push('-');
    assert(dash@ =~= seq!['-']);
    assert(t@.subrange(0, t.len() as int) =~= t@);
    match crate::text::find_exec(&t, &dash, 0, t.len()) {
        Some(i) => {
            proof {
                crate::text::lemma_find_from_bounds(t@, seq!['-'], 0);
            }
            assert(t@.subrange(0, i as int) =~= t@.take(i as int));
            assert(t@.subrange(i + 1, t.len() as int) =~= t@.skip(i + 1));
            let low = match port_in(&t, 0, i) {
                Some(p) => p,
                None => {
                    return Err("invalid low port".to_owned());
                },
            };
            let high = match port_in(&t, i + 1, t.len()) {
                Some(p) => p,
                None => {
                    return Err("invalid high port".to_owned());
                },
            };
            if low <= high {
                Ok((low, high))
            } else {
                let ts = string_of(&t);
                let q = crate::text::debug_str(ts.as_str());
                let mut msg = chars_of("port range ");
                push_str(&mut msg, q.as_str());
                push_str(&mut msg, " is inverted");
                Err(string_of(&msg))
            }
        },
        None => {
            let whole = match crate::text::parse_u64_range(&t, 0, t.len()) {
                Some(v) => if v <= 65535 {
                    Some(v as u16)
                } else {
                    None
                },
                None => None,
            };
            match whole {
                Some(p) => Ok((p, p)),
                None => Err("invalid port".to_owned()),
            }
        },
    }
}

/// Why a configuration is refused, if it is: an inverted range, a zero low
/// port, or a webhook that is not an http(s) URL.
pub open spec fn settings_problem(low: u16, high: u16, webhook: Option<Seq<char>>) -> Option<Seq<char>> {
    if low > high {
        Some(
            "port_low ("@ + decimal(low as nat) + ") must not exceed port_high ("@ + decimal(
                high as nat,
            ) + ")"@,
        )
    } else if low == 0 {
        Some("port_low must not be 0"@)
    } else {
        match webhook {
            Some(url) => if !crate::text::starts_with(url, "http://"@) && !crate::text::starts_with(
                url,
                "https://"@,
            ) {
                Some("webhook_url must be an http(s) URL"@)
            } else {
                None
            },
            None => None,
        }
    }
}

/// Checks the values of a configuration.
pub fn validate_settings(low: u16, high: u16, webhook: Option<&str>) -> (r: Result<(), String>)
    ensures
        match settings_problem(low, high, crate::text::str_opt_view(webhook)) {
            None => r is Ok,
            Some(m) => r matches Err(e) && e@ == m,
        },
{
    if low > high {
        let mut msg = chars_of("port_low (");
        push_decimal(&mut msg, low as u64);
        push_str(&mut msg, ") must not exceed port_high (");
        push_decimal(&mut msg, high as u64);
        push_str(&mut msg, ")");
        return Err(string_of(&msg));
    }
    if low == 0 {
        return Err("port_low must not be 0".to_owned());
    }
    match webhook {
        Some(url) => {
            let cs = chars_of(url);
            if !crate::text::starts_with_lit(&cs, "http://") && !crate::text::starts_with_lit(
                &cs,
                "https://",
            ) {
                return Err("webhook_url must be an http(s) URL".to_owned());
            }
        },
        None => {},
    }
    Ok(())
}

/// What `WDYT_WEBHOOK_URL` sets the webhook to: an empty value disables it.
pub fn webhook_override(value: String) -> (r: Option<String>)
    ensures
        value@.len() == 0 ==> r is None,
        value@.len() > 0 ==> r == Some(value),
{
    if chars_of(value.as_str()).len() == 0 {
        None
    } else {
        Some(value)
    }
}


/// The configuration: where notifications go, which ports to use, and how
/// content is shown.
#[derive(Debug, Clone)]
pub struct Config {
    /// The webhook notifications are posted to; `None` prints the link instead.
    pub webhook_url: Option<String>,
    /// Lowest port used, inclusive.
    pub port_low: u16,
    /// Highest port used, inclusive.
    pub port_high: u16,
    /// The address the daemon binds, as written in the configuration.
    pub bind: String,
    /// The host put in links: what the user's browser resolves.
    pub public_host: String,
    /// The workflow variable a Slack trigger fills.
    pub webhook_field: String,
    /// The syntax-highlighting theme.
    pub theme: String,
    /// How long a session lives, in hours; `None` for as long as the daemon.
    pub session_ttl_hours: Option<u64>,
}

impl Default for Config {
    fn default() -> (r: Self)
        ensures
            r.webhook_url is None,
            r.port_low == DEFAULT_PORT_LOW,
            r.port_high == DEFAULT_PORT_HIGH,
            r.bind@ == "127.0.0.1"@,
            r.public_host@ == "localhost"@,
            r.webhook_field@ == "content"@,
            r.theme@ == "Nord"@,
            r.session_ttl_hours == Some(24u64),
    {
        Config {
            webhook_url: None,
            port_low: DEFAULT_PORT_LOW,
            port_high: DEFAULT_PORT_HIGH,
            bind: "127.0.0.1".to_owned(),
            public_host: "localhost".to_owned(),
            webhook_field: "content".to_owned(),
            theme: "Nord".to_owned(),
            session_ttl_hours: Some(24),
        }
    }
}

/// The environment variables that override the configuration, as read:
/// `WDYT_WEBHOOK_URL`, `WDYT_PORTS`, `WDYT_THEME`, `WDYT_WEBHOOK_FIELD` and
/// `WDYT_PUBLIC_HOST`; `None` for one that is not set.
#[derive(Debug, Clone)]
pub struct EnvOverrides {
    pub webhook_url: Option<String>,
    pub ports: Option<String>,
    pub theme: Option<String>,
    pub webhook_field: Option<String>,
    pub public_host: Option<String>,
}

impl Config {
    /// Checks the values: see `settings_problem`.
    pub fn validate(&self) -> (r: Result<(), String>)
        ensures
            match settings_problem(self.port_low, self.port_high, crate::zellij_origin::opt_view(self.webhook_url)) {
                None => r is Ok,
                Some(m) => r matches Err(e) && e@ == m,
            },
    {
        let webhook = match &self.webhook_url {
            Some(u) => Some(u.as_str()),
            None => None,
        };
        validate_settings(self.port_low, self.port_high, webhook)
    }

    /// The ports used, as an inclusive range.
    pub fn ports(&self) -> (r: (u16, u16))
        ensures
            r == (self.port_low, self.port_high),
    {
        (self.port_low, self.port_high)
    }

    /// The port the daemon listens on: the first of the range.
    pub fn daemon_port(&self) -> (r: u16)
        ensures
            r == self.port_low,
    {
        self.port_low
    }

    /// Applies the environment's overrides, which win over the file. An empty
    /// webhook URL disables the webhook. A port range that does not parse is
    /// an error, and the overrides after it are not applied.
    pub fn apply_env(&mut self, env: EnvOverrides) -> (r: Result<(), String>)
        ensures
            final(self).bind == old(self).bind,
            final(self).session_ttl_hours == old(self).session_ttl_hours,
            final(self).webhook_url == match env.webhook_url {
                Some(u) => if u@.len() == 0 {
                    None
                } else {
                    Some(u)
                },
                None => old(self).webhook_url,
            },
            match env.ports {
                Some(p) => match spec_parse_port_range(p@) {
                    Ok((lo, hi)) => final(self).port_low == lo && final(self).port_high == hi,
                    Err(e) => r matches Err(x) && x@ == e && final(self).port_low == old(self).port_low
                        && final(self).port_high == old(self).port_high && final(self).theme
                        == old(self).theme && final(self).webhook_field == old(self).webhook_field
                        && final(self).public_host == old(self).public_host,
                },
                None => final(self).port_low == old(self).port_low && final(self).port_high
                    == old(self).port_high,
            },
            (match env.ports {
                Some(p) => spec_parse_port_range(p@) is Ok,
                None => true,
            }) ==> r is Ok && final(self).theme == (match env.theme {
                Some(t) => t,
                None => old(self).theme,
            }) && final(self).webhook_field == (match env.webhook_field {
                Some(f) => f,
                None => old(self).webhook_field,
            }) && final(self).public_host == (match env.public_host {
                Some(h) => h,
                None => old(self).public_host,
            }),
    {
        let EnvOverrides { webhook_url, ports, theme, webhook_field, public_host } = env;
        match webhook_url {
            Some(url) => {
                self.webhook_url = webhook_override(url);
            },
            None => {},
        }
        match ports {
            Some(value) => {
                match parse_port_range(value.as_str()) {
                    Ok((low, high)) => {
                        self.port_low = low;
                        self.port_high = high;
                    },
                    Err(e) => {
                        return Err(e);
                    },
                }
            },
            None => {},
        }
        match theme {
            Some(t) => {
                self.theme = t;
            },
            None => {},
        }
        match webhook_field {
            Some(f) => {
                self.webhook_field = f;
            },
            None => {},
        }
        match public_host {
            Some(h) => {
                self.public_host = h;
            },
            None => {},
        }
        Ok(())
    }
}

} // verus!
