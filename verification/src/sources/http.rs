//! Requests to the sources' APIs: the spacing between requests to one source, what each
//! answer leads to, and how mcplug introduces itself. The requests are the caller's.

use vstd::prelude::*;
use crate::text::{parse_u64, parse_u64_spec, push_str, string_from_chars, to_chars};

verus! {

/// The version mcplug reports.
pub const VERSION: &'static str = "0.1.0";

/// The gap between two requests to a source that allows `per_minute` of them, in
/// milliseconds (at least one request a minute is assumed).
pub fn min_gap_millis(per_minute: u32) -> (r: u64)
    ensures
        r == 60000int / (if per_minute == 0 { 1int } else { per_minute as int }),
{
    let n: u64 = if per_minute == 0 { 1 } else { per_minute as u64 };
    60000 / n
}

/// How long to wait before the next request: the rest of the gap since the last one.
pub fn pace_wait(since_last_millis: Option<u64>, gap_millis: u64) -> (r: u64)
    ensures
        r == match since_last_millis {
            Some(e) => if e < gap_millis { gap_millis - e } else { 0 },
            None => 0,
        },
{
    match since_last_millis {
        Some(e) => if e < gap_millis { gap_millis - e } else { 0 },
        None => 0,
    }
}

/// How many times a request is made at most.
pub const ATTEMPTS: u32 = 3;

/// What an answer leads to.
#[derive(Debug, Clone, Copy, PartialEq, Eq, Structural)]
pub enum Reply {
    /// Rate limited: wait this many seconds and ask again.
    WaitSecs(u64),
    /// A server error: wait this many milliseconds and ask again.
    WaitMillis(u64),
    /// Take the answer (an error status then fails the request).
    Take,
}

/// A rate limit waits as long as `Retry-After` says (five seconds when it says nothing
/// readable) and asks again; a server error is asked again after half a second, then a
/// second, on the first two attempts (counted from 0); any other answer is taken.
pub open spec fn reply_spec(status: u16, retry_after: Option<Seq<char>>, attempt: u32) -> Reply {
    if status == 429 {
        Reply::WaitSecs(match retry_after {
            Some(t) => match parse_u64_spec(t) {
                Some(n) => n,
                None => 5,
            },
            None => 5,
        })
    } else if status >= 500 && attempt < 2 {
        Reply::WaitMillis((500 * (attempt + 1)) as u64)
    } else {
        Reply::Take
    }
}

pub fn reply(status: u16, retry_after: Option<&str>, attempt: u32) -> (r: Reply)
    ensures
        r == reply_spec(status, match retry_after { Some(t) => Some(t@), None => None }, attempt),
{
    if status == 429 {
        let secs = match retry_after {
            Some(t) => match parse_u64(to_chars(t).as_slice()) {
                Some(n) => n,
                None => 5,
            },
            None => 5,
        };
        Reply::WaitSecs(secs)
    } else if status >= 500 && attempt < 2 {
        Reply::WaitMillis(500 * (attempt as u64 + 1))
    } else {
        Reply::Take
    }
}

/// The error after every attempt was answered with a wait.
pub fn gave_up(url: &str) -> (r: String)
    ensures
        r@ == url@ + ": gave up after retries"@,
{
    crate::text::concat2(url, ": gave up after retries")
}

/// The User-Agent the sources see: `Antoinenz/mcplug/<version>`, with the contact in
/// brackets when one is configured.
pub open spec fn user_agent_spec(contact: Option<Seq<char>>) -> Seq<char> {
    match contact {
        Some(c) => if c.len() > 0 {
            "Antoinenz/mcplug/"@ + VERSION@ + " ("@ + c + ")"@
        } else {
            "Antoinenz/mcplug/"@ + VERSION@
        },
        None => "Antoinenz/mcplug/"@ + VERSION@,
    }
}

pub fn user_agent(contact: Option<&str>) -> (r: String)
    ensures
        r@ == user_agent_spec(match contact { Some(c) => Some(c@), None => None }),
{
    proof {
        reveal_strlit("Antoinenz/mcplug/");
        reveal_strlit(" (");
        reveal_strlit(")");
    }
    let mut out: Vec<char> = Vec::new();
    push_str(&mut out, "Antoinenz/mcplug/");
    push_str(&mut out, VERSION);
    match contact {
        Some(c) => {
            if c.unicode_len() > 0 {
                push_str(&mut out, " (");
                push_str(&mut out, c);
                push_str(&mut out, ")");
            }
        },
        None => {},
    }
    string_from_chars(out.as_slice())
}

/// How many requests a minute mcplug makes to a source at most.
pub fn requests_per_minute(k: crate::sources::model::SourceKind) -> (r: u32)
    ensures
        r == match k {
            crate::sources::model::SourceKind::Modrinth => 200u32,
            crate::sources::model::SourceKind::Hangar => 120u32,
            crate::sources::model::SourceKind::GitHub => 30u32,
            crate::sources::model::SourceKind::GeyserMc => 60u32,
        },
{
    match k {
        crate::sources::model::SourceKind::Modrinth => 200,
        crate::sources::model::SourceKind::Hangar => 120,
        crate::sources::model::SourceKind::GitHub => 30,
        crate::sources::model::SourceKind::GeyserMc => 60,
    }
}

/// How many requests a minute mcplug makes to a server-jar build API at most.
pub const BUILD_API_PER_MINUTE: u32 = 300;

/// The `Authorization` a source's requests carry: a Modrinth token as it is, a GitHub
/// token as a bearer token; nothing for an empty token or another source.
pub open spec fn auth_spec(k: crate::sources::model::SourceKind, token: Option<Seq<char>>) -> Option<Seq<char>> {
    match token {
        Some(t) => if t.len() == 0 {
            None
        } else {
            match k {
                crate::sources::model::SourceKind::Modrinth => Some(t),
                crate::sources::model::SourceKind::GitHub => Some("Bearer "@ + t),
                _ => None,
            }
        },
        None => None,
    }
}

pub fn auth_header(k: crate::sources::model::SourceKind, token: Option<&str>) -> (r: Option<String>)
    ensures
        crate::text::opt_view(r) == auth_spec(k, match token { Some(t) => Some(t@), None => None }),
{
    proof {
        reveal_strlit("Bearer ");
    }
    match token {
        Some(t) => {
            if t.unicode_len() == 0 {
                None
            } else {
                match k {
                    crate::sources::model::SourceKind::Modrinth => Some(String::from_str(t)),
                    crate::sources::model::SourceKind::GitHub => Some(crate::text::concat2("Bearer ", t)),
                    _ => None,
                }
            }
        },
        None => None,
    }
}

} // verus!
