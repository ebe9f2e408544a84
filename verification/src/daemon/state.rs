//! `daemon.json` in the state directory: heartbeat and per-server results.

use vstd::prelude::*;
use crate::text::{concat3, decimal, push_decimal_u64, push_str, string_from_chars};
use crate::util::path::{join, path_join};

verus! {

/// Where the daemon keeps its state.
pub fn path(state_dir: &str) -> (r: String)
    ensures
        r@ == path_join(state_dir@, "daemon.json"@),
{
    proof {
        reveal_strlit("daemon.json");
    }
    join(state_dir, "daemon.json")
}

/// `humantime::format_duration` of a whole number of seconds, as text.
pub uninterp spec fn human_duration(secs: u64) -> Seq<char>;

/// `humantime::format_duration(Duration::from_secs(secs)).to_string()`.
#[verifier::external_body]
pub(crate) fn format_secs(secs: u64) -> (r: String)
    ensures
        r@ == human_duration(secs),
{
    humantime::format_duration(std::time::Duration::from_secs(secs)).to_string()
}

/// Decimal text of a signed number.
pub open spec fn signed_decimal(n: i64) -> Seq<char> {
    if n < 0 { "-"@ + decimal((-n) as nat) } else { decimal(n as nat) }
}

/// A line for status bars, from the age in seconds of the last heartbeat (`None`: there
/// is none): running when it is under three minutes old, else stale.
pub open spec fn describe_spec(age_secs: Option<i64>) -> Seq<char> {
    match age_secs {
        Some(a) => if a < 180 {
            "daemon: running (tick "@ + signed_decimal(a) + "s ago)"@
        } else {
            "daemon: stale (last tick "@ + human_duration(a as u64) + " ago)"@
        },
        None => "daemon: not running"@,
    }
}

pub fn describe(age_secs: Option<i64>) -> (r: String)
    ensures
        r@ == describe_spec(age_secs),
{
    proof {
        reveal_strlit("daemon: running (tick ");
        reveal_strlit("-");
        reveal_strlit("s ago)");
        reveal_strlit("daemon: stale (last tick ");
        reveal_strlit(" ago)");
        reveal_strlit("daemon: not running");
    }
    match age_secs {
        Some(a) => {
            if a < 180 {
                let mut out: Vec<char> = Vec::new();
                push_str(&mut out, "daemon: running (tick ");
                if a < 0 {
                    push_str(&mut out, "-");
                    let m: u64 = (0i128 - (a as i128)) as u64;
                    push_decimal_u64(&mut out, m);
                } else {
                    push_decimal_u64(&mut out, a as u64);
                }
                push_str(&mut out, "s ago)");
                string_from_chars(out.as_slice())
            } else {
                let h = format_secs(a as u64);
                concat3("daemon: stale (last tick ", h.as_str(), " ago)")
            }
        },
        None => String::from_str("daemon: not running"),
    }
}

} // verus!
