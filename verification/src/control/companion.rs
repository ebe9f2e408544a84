//! McplugBridge: a small HTTP listener inside the server that upgrades what another
//! control can do. Its files and its configuration are decided here.

use vstd::prelude::*;
use crate::text::{concat2, concat3, ends_with, is_prefix, is_suffix, push_decimal, push_str, decimal, starts_with, string_from_chars, to_chars};
use crate::util::path::{join, path_join};

verus! {

pub const PLUGIN_NAME: &'static str = "McplugBridge";
pub const JAR_VERSION: &'static str = "0.1.0";
/// The first port handed to a bridge; the next 199 are tried after it.
pub const FIRST_PORT: u16 = 25580;

/// `plugins/McplugBridge/config.yml`, as the plugin writes it.
#[derive(Debug, Clone)]
pub struct BridgeConfig {
    pub port: u16,
    pub token: String,
    pub daemon_url: String,
}

impl BridgeConfig {
    /// Where the bridge keeps its configuration.
    pub fn path(plugins_dir: &str) -> (r: String)
        ensures
            r@ == path_join(path_join(plugins_dir@, PLUGIN_NAME@), "config.yml"@),
    {
        let d = join(plugins_dir, PLUGIN_NAME);
        proof {
            reveal_strlit("config.yml");
        }
        join(d.as_str(), "config.yml")
    }

    /// A configuration is only used once the plugin has generated its token.
    pub fn usable(&self) -> (r: bool)
        ensures
            r == (self.token@.len() > 0),
    {
        self.token.unicode_len() > 0
    }
}

/// The configuration text mcplug writes for a bridge.
pub open spec fn config_text_spec(port: u16, token: Seq<char>, daemon_port: u16) -> Seq<char> {
    "# Written by mcplug. The bridge listens on 127.0.0.1 only; the token authorises both\n# mcplug -> server calls and the in-game /mcplug command -> mcplug daemon.\nport: "@
        + decimal(port as nat) + "\ntoken: \""@ + token + "\"\ndaemon-url: http://127.0.0.1:"@ + decimal(daemon_port as nat) + "\n"@
}

pub fn config_text(port: u16, token: &str, daemon_port: u16) -> (r: String)
    ensures
        r@ == config_text_spec(port, token@, daemon_port),
{
    let mut out: Vec<char> = Vec::new();
    push_str(&mut out, "# Written by mcplug. The bridge listens on 127.0.0.1 only; the token authorises both\n# mcplug -> server calls and the in-game /mcplug command -> mcplug daemon.\nport: ");
    push_decimal(&mut out, port as u32);
    push_str(&mut out, "\ntoken: \"");
    push_str(&mut out, token);
    push_str(&mut out, "\"\ndaemon-url: http://127.0.0.1:");
    push_decimal(&mut out, daemon_port as u32);
    push_str(&mut out, "\n");
    proof {
        reveal_strlit("# Written by mcplug. The bridge listens on 127.0.0.1 only; the token authorises both\n# mcplug -> server calls and the in-game /mcplug command -> mcplug daemon.\nport: ");
        reveal_strlit("\ntoken: \"");
        reveal_strlit("\"\ndaemon-url: http://127.0.0.1:");
        reveal_strlit("\n");
    }
    string_from_chars(out.as_slice())
}

fn port_used(used: &[u16], p: u16) -> (r: bool)
    ensures
        r == used@.contains(p),
{
    let mut i: usize = 0;
    while i < used.len()
        invariant
            i <= used@.len(),
            forall|j: int| 0 <= j < i ==> used@[j] != p,
        decreases used@.len() - i,
    {
        if used[i] == p {
            return true;
        }
        i = i + 1;
    }
    false
}

/// Picks a port no other known bridge uses: the first free one from `FIRST_PORT` on,
/// among 200, else `FIRST_PORT`.
pub fn free_port(used: &[u16]) -> (r: u16)
    ensures
        FIRST_PORT <= r < FIRST_PORT + 200,
        r != FIRST_PORT ==> !used@.contains(r),
        !used@.contains(r) ==> forall|q: u16| FIRST_PORT <= q < r ==> #[trigger] used@.contains(q),
        used@.contains(r) ==> r == FIRST_PORT && forall|q: u16| FIRST_PORT <= q < FIRST_PORT + 200 ==> #[trigger] used@.contains(q),
{
    let mut p: u16 = FIRST_PORT;
    while p < FIRST_PORT + 200
        invariant
            FIRST_PORT <= p <= FIRST_PORT + 200,
            forall|q: u16| FIRST_PORT <= q < p ==> #[trigger] used@.contains(q),
        decreases FIRST_PORT + 200 - p,
    {
        if !port_used(used, p) {
            return p;
        }
        p = p + 1;
    }
    FIRST_PORT
}

/// The file name of the bundled bridge jar.
pub fn jar_file_name() -> (r: String)
    ensures
        r@ == PLUGIN_NAME@ + "-"@ + JAR_VERSION@ + ".jar"@,
{
    let a = concat3(PLUGIN_NAME, "-", JAR_VERSION);
    concat2(a.as_str(), ".jar")
}

/// A jar an earlier bridge install left: named `McplugBridge*.jar`.
pub fn is_bridge_jar(name: &str) -> (r: bool)
    ensures
        r == (is_prefix(PLUGIN_NAME@, name@) && is_suffix(".jar"@, name@)),
{
    let n = to_chars(name);
    let p = to_chars(PLUGIN_NAME);
    let s = to_chars(".jar");
    starts_with(n.as_slice(), p.as_slice()) && ends_with(n.as_slice(), s.as_slice())
}

/// The bytes a bridge token is made of: the random bytes, unless they are all zero (no
/// random source could be read), then bytes spread from a seed (the time and process id).
pub open spec fn token_bytes(random: Seq<u8>, seed: u128) -> Seq<u8> {
    if forall|i: int| 0 <= i < random.len() ==> random[i] == 0 {
        Seq::new(random.len(), |i: int| ((seed >> (((i % 16) * 8) as u32)) as u8) ^ (((i * 31) % 256) as u8))
    } else {
        random
    }
}

/// A bridge token: its bytes in lowercase hex.
pub fn token_text(random: &[u8], seed: u128) -> (r: String)
    ensures
        r@ == crate::digest::hex_lower(token_bytes(random@, seed)),
{
    let mut zero = true;
    let mut i: usize = 0;
    while i < random.len()
        invariant
            i <= random@.len(),
            zero == forall|j: int| 0 <= j < i ==> random@[j] == 0,
        decreases random@.len() - i,
    {
        if random[i] != 0 {
            zero = false;
        }
        i = i + 1;
    }
    if !zero {
        return crate::digest::to_hex(random);
    }
    let mut bytes: Vec<u8> = Vec::new();
    let mut k: usize = 0;
    while k < random.len()
        invariant
            k <= random@.len(),
            bytes@.len() == k,
            forall|j: int| 0 <= j < k ==> bytes@[j] == ((seed >> (((j % 16) * 8) as u32)) as u8) ^ (((j * 31) % 256) as u8),
        decreases random@.len() - k,
    {
        let sh: u32 = ((k % 16) * 8) as u32;
        let m: u8 = (((k % 256) * 31) % 256) as u8;
        proof {
            vstd::arithmetic::div_mod::lemma_mul_mod_noop_left(k as int, 31, 256);
        }
        let b: u8 = ((seed >> sh) as u8) ^ m;
        bytes.push(b);
        k = k + 1;
    }
    assert(bytes@ =~= token_bytes(random@, seed));
    crate::digest::to_hex(bytes.as_slice())
}

/// The port and token a bridge install writes: those of the configuration already there,
/// else the first free port and a fresh token.
pub fn bridge_port_token(existing: &Option<BridgeConfig>, used: &[u16], random: &[u8], seed: u128) -> (r: (u16, String))
    ensures
        match *existing {
            Some(c) => r.0 == c.port && r.1@ == c.token@,
            None => {
                &&& r.1@ == crate::digest::hex_lower(token_bytes(random@, seed))
                &&& FIRST_PORT <= r.0 < FIRST_PORT + 200
                &&& r.0 != FIRST_PORT ==> !used@.contains(r.0)
                &&& !used@.contains(r.0) ==> forall|q: u16| FIRST_PORT <= q < r.0 ==> #[trigger] used@.contains(q)
                &&& used@.contains(r.0) ==> r.0 == FIRST_PORT && forall|q: u16| FIRST_PORT <= q < FIRST_PORT + 200 ==> #[trigger] used@.contains(q)
            },
        },
{
    match existing {
        Some(c) => (c.port, crate::text::clone_string(&c.token)),
        None => (free_port(used), token_text(random, seed)),
    }
}

/// The bridge jars an install replaces: every `McplugBridge*.jar` but the one installed.
pub open spec fn stale_jars(names: Seq<Seq<char>>, new_file: Seq<char>) -> Seq<Seq<char>>
    decreases names.len(),
{
    if names.len() == 0 {
        Seq::empty()
    } else {
        let r = stale_jars(names.drop_last(), new_file);
        let n = names.last();
        if is_prefix(PLUGIN_NAME@, n) && is_suffix(".jar"@, n) && n != new_file { r.push(n) } else { r }
    }
}

pub fn stale_bridge_jars(names: &Vec<String>, new_file: &str) -> (r: Vec<String>)
    ensures
        crate::text::sviews(r@) == stale_jars(crate::text::sviews(names@), new_file@),
{
    let ghost ns = crate::text::sviews(names@);
    let mut out: Vec<String> = Vec::new();
    let mut i: usize = 0;
    assert(ns.take(0) =~= Seq::<Seq<char>>::empty());
    while i < names.len()
        invariant
            i <= names@.len(),
            ns == crate::text::sviews(names@),
            crate::text::sviews(out@) == stale_jars(ns.take(i as int), new_file@),
        decreases names@.len() - i,
    {
        assert(ns.take(i + 1).drop_last() =~= ns.take(i as int));
        assert(ns.take(i + 1).last() == names@[i as int]@);
        let n = &names[i];
        if is_bridge_jar(n.as_str()) && !crate::lockfile::str_eq(n.as_str(), new_file) {
            let ghost before = crate::text::sviews(out@);
            out.push(crate::text::clone_string(n));
            assert(crate::text::sviews(out@) =~= before.push(n@));
        }
        i = i + 1;
    }
    assert(ns.take(names@.len() as int) =~= ns);
    out
}

/// The journal line of a bridge install: `upgraded` where a configuration was there,
/// else `installed`, noting the port.
pub fn bridge_entry(time: i64, tx_id: &str, upgraded: bool, port: u16) -> (r: crate::transaction::journal::JournalEntry)
    ensures
        r.time == time,
        r.tx_id@ == tx_id@,
        r.action@ == "bridge"@,
        r.outcome@ == (if upgraded { "upgraded"@ } else { "installed"@ }),
        r.items@.len() == 0,
        crate::text::opt_view(r.note) == Some("port "@ + decimal(port as nat)),
{
    proof {
        reveal_strlit("bridge");
        reveal_strlit("upgraded");
        reveal_strlit("installed");
        reveal_strlit("port ");
    }
    let outcome = if upgraded { String::from_str("upgraded") } else { String::from_str("installed") };
    let mut note: Vec<char> = Vec::new();
    push_str(&mut note, "port ");
    push_decimal(&mut note, port as u32);
    crate::transaction::flow::note_entry(time, tx_id, "bridge", outcome, Some(string_from_chars(note.as_slice())))
}

} // verus!
