//! The list of servers: MCSManager's instances plus the manual entries of the config.
//! Reading the instance files, the directories and the jars is the caller's part; what is
//! made of what it found is decided here.

use vstd::prelude::*;
use crate::config::model::{Config, ControlConfig, ManualServer};
use crate::server::detect::{PlatformKind, ServerJarInfo};
use crate::server::perms::Access;
use crate::server::start_command::{jar_spec, shell_words, StartCommand};
use crate::text::{clone_string, concat2, concat3, ends_with, is_suffix, lines, lines_of, opt_view, parse_u32, parse_u32_spec, skip_chars, to_chars, trim, trim_chars};
use crate::util::path::{join, path_join};
use crate::util::slug::{slug_of, slugify};

verus! {

/// Where a server's entry came from.
#[derive(Debug, Clone)]
pub enum ServerOrigin {
    Mcsm { uuid: String },
    Manual,
}

#[derive(Debug, Clone)]
pub struct Server {
    /// Stable identifier: the mcbackup-compatible slug of the name.
    pub id: String,
    pub name: String,
    pub root: String,
    pub origin: ServerOrigin,
    pub start_command: Option<String>,
    pub jar: Option<ServerJarInfo>,
    pub platform: PlatformKind,
    pub ping_port: Option<u16>,
    pub control: ControlConfig,
    pub backup_slug: String,
    pub access: Access,
    /// Problems found while discovering (missing jar, unreadable directory). Not fatal.
    pub notes: Vec<String>,
}

/// Fabric keeps its mods in `mods/`, every other platform its plugins in `plugins/`.
pub open spec fn plugins_dir_spec(root: Seq<char>, p: PlatformKind) -> Seq<char> {
    if p == PlatformKind::Fabric {
        path_join(root, "mods"@)
    } else {
        path_join(root, "plugins"@)
    }
}

pub fn plugins_dir_for(root: &str, platform: PlatformKind) -> (r: String)
    ensures
        r@ == plugins_dir_spec(root@, platform),
{
    proof {
        reveal_strlit("mods");
        reveal_strlit("plugins");
    }
    match platform {
        PlatformKind::Fabric => join(root, "mods"),
        _ => join(root, "plugins"),
    }
}

impl Server {
    pub fn plugins_dir(&self) -> (r: String)
        ensures
            r@ == plugins_dir_spec(self.root@, self.platform),
    {
        plugins_dir_for(self.root.as_str(), self.platform)
    }

    pub fn mcsm_uuid(&self) -> (r: Option<&str>)
        ensures
            match self.origin {
                ServerOrigin::Mcsm { uuid } => r matches Some(u) && u@ == uuid@,
                ServerOrigin::Manual => r is None,
            },
    {
        match &self.origin {
            ServerOrigin::Mcsm { uuid } => Some(uuid.as_str()),
            ServerOrigin::Manual => None,
        }
    }

    pub fn jar_path(&self) -> (r: Option<String>)
        ensures
            match self.jar {
                Some(j) => r matches Some(p) && p@ == path_join(self.root@, j.file_name@),
                None => r is None,
            },
    {
        match &self.jar {
            Some(j) => Some(join(self.root.as_str(), j.file_name.as_str())),
            None => None,
        }
    }
}

/// The `*.jar` names among a directory's entries, in order.
pub open spec fn jar_names(names: Seq<Seq<char>>) -> Seq<Seq<char>>
    decreases names.len(),
{
    if names.len() == 0 {
        Seq::empty()
    } else {
        let r = jar_names(names.drop_last());
        if is_suffix(".jar"@, names.last()) { r.push(names.last()) } else { r }
    }
}

/// The server jar: the one the start command runs, else the only jar in the directory.
pub open spec fn jar_name_spec(start_command: Option<Seq<char>>, dir_names: Seq<Seq<char>>) -> Option<Seq<char>> {
    let from_cmd = match start_command {
        Some(c) => jar_spec(shell_words(c)),
        None => None,
    };
    match from_cmd {
        Some(j) => Some(j),
        None => if jar_names(dir_names).len() == 1 { Some(jar_names(dir_names)[0]) } else { None },
    }
}

/// Which jar to inspect, from the start command and the names in the server directory.
pub fn jar_name_for(start_command: &Option<String>, dir_names: &Vec<String>) -> (r: Option<String>)
    ensures
        opt_view(r) == jar_name_spec(opt_view(*start_command), crate::text::sviews(dir_names@)),
{
    if let Some(c) = start_command {
        let cmd = StartCommand::parse(c.as_str());
        if let Some(j) = cmd.jar() {
            return Some(String::from_str(j));
        }
    }
    let ghost nv = crate::text::sviews(dir_names@);
    let suffix = to_chars(".jar");
    let mut jars: Vec<String> = Vec::new();
    let mut i: usize = 0;
    assert(nv.take(0) =~= Seq::<Seq<char>>::empty());
    while i < dir_names.len()
        invariant
            i <= dir_names@.len(),
            nv == crate::text::sviews(dir_names@),
            suffix@ == ".jar"@,
            crate::text::sviews(jars@) == jar_names(nv.take(i as int)),
        decreases dir_names@.len() - i,
    {
        assert(nv.take(i + 1).drop_last() =~= nv.take(i as int));
        assert(nv.take(i + 1).last() == dir_names@[i as int]@);
        let n = to_chars(dir_names[i].as_str());
        if ends_with(n.as_slice(), suffix.as_slice()) {
            let ghost before = crate::text::sviews(jars@);
            jars.push(clone_string(&dir_names[i]));
            assert(crate::text::sviews(jars@) =~= before.push(dir_names@[i as int]@));
        }
        i = i + 1;
    }
    assert(nv.take(dir_names@.len() as int) =~= nv);
    if jars.len() == 1 {
        assert(crate::text::sviews(jars@)[0] == jars@[0]@);
        Some(clone_string(&jars[0]))
    } else {
        None
    }
}

/// What looking for and inspecting the server jar found.
#[derive(Debug, Clone)]
pub enum JarProbe {
    /// No jar in the start command or the directory.
    NotFound,
    /// The jar named could not be read.
    Unreadable { name: String, error: String },
    Found(ServerJarInfo),
}

/// The note discovery leaves for a jar it could not use.
pub open spec fn probe_notes(p: JarProbe) -> Seq<Seq<char>> {
    match p {
        JarProbe::NotFound => seq!["no server jar found in start command or directory"@],
        JarProbe::Unreadable { name, error } => seq!["cannot read server jar "@ + name@ + ": "@ + error@],
        JarProbe::Found(_) => Seq::empty(),
    }
}

/// A server entry from what was found: platform from the jar (unknown without one), the
/// id as backup slug, and a note for a jar that could not be used.
pub fn build_server(
    id: String,
    name: String,
    root: String,
    origin: ServerOrigin,
    start_command: Option<String>,
    ping_port: Option<u16>,
    control: ControlConfig,
    jar: JarProbe,
    access: Access,
) -> (r: Server)
    ensures
        r.id@ == id@,
        r.name@ == name@,
        r.root@ == root@,
        r.origin == origin,
        r.start_command == start_command,
        r.ping_port == ping_port,
        r.control == control,
        r.backup_slug@ == id@,
        r.access == access,
        match jar {
            JarProbe::Found(j) => r.jar == Some(j) && r.platform == j.platform,
            _ => r.jar is None && r.platform == PlatformKind::Unknown,
        },
        crate::text::sviews(r.notes@) == probe_notes(jar),
{
    let mut notes: Vec<String> = Vec::new();
    let ghost jv = jar;
    let (j, platform) = match jar {
        JarProbe::NotFound => {
            notes.push(String::from_str("no server jar found in start command or directory"));
            (None, PlatformKind::Unknown)
        },
        JarProbe::Unreadable { name: n, error } => {
            let head = concat3("cannot read server jar ", n.as_str(), ": ");
            notes.push(concat2(head.as_str(), error.as_str()));
            proof {
                reveal_strlit("cannot read server jar ");
                reveal_strlit(": ");
            }
            (None, PlatformKind::Unknown)
        },
        JarProbe::Found(info) => {
            let p = info.platform;
            (Some(info), p)
        },
    };
    assert(crate::text::sviews(notes@) =~= probe_notes(jv));
    let backup_slug = clone_string(&id);
    Server { id, name, root, origin, start_command, jar: j, platform, ping_port, control, backup_slug, access, notes }
}

/// A manual entry of the config as a server: id and backup slug are slugs (of the id and,
/// unless the config names one, of the name).
pub fn manual_server(m: &ManualServer, jar: JarProbe, access: Access) -> (r: Server)
    ensures
        r.id@ == slug_of(m.id@),
        r.name@ == m.name@,
        r.root@ == m.path@,
        r.origin is Manual,
        opt_view(r.start_command) == opt_view(m.start_command),
        r.ping_port == m.ping_port,
        r.control.same(m.control),
        r.backup_slug@ == match m.backup_slug {
            Some(b) => b@,
            None => slug_of(m.name@),
        },
        match jar {
            JarProbe::Found(j) => r.jar == Some(j) && r.platform == j.platform,
            _ => r.jar is None && r.platform == PlatformKind::Unknown,
        },
        crate::text::sviews(r.notes@) == probe_notes(jar),
        r.access == access,
{
    let mut s = build_server(
        slugify(m.id.as_str()),
        clone_string(&m.name),
        clone_string(&m.path),
        ServerOrigin::Manual,
        crate::text::clone_opt_string(&m.start_command),
        m.ping_port,
        m.control.copy(),
        jar,
        access,
    );
    s.backup_slug = match &m.backup_slug {
        Some(b) => clone_string(b),
        None => slugify(m.name.as_str()),
    };
    s
}

/// `s` is the server built from the manual entry `m` and what probing found.
pub open spec fn manual_built(s: Server, m: ManualServer, probe: (JarProbe, Access)) -> bool {
    &&& s.id@ == slug_of(m.id@)
    &&& s.name@ == m.name@
    &&& s.root@ == m.path@
    &&& s.origin is Manual
    &&& s.backup_slug@ == match m.backup_slug {
        Some(b) => b@,
        None => slug_of(m.name@),
    }
    &&& s.control.same(m.control)
    &&& s.ping_port == m.ping_port
    &&& opt_view(s.start_command) == opt_view(m.start_command)
    &&& crate::text::sviews(s.notes@) == probe_notes(probe.0)
    &&& s.access == probe.1
    &&& match probe.0 {
        JarProbe::Found(j) => s.jar == Some(j) && s.platform == j.platform,
        _ => s.jar is None && s.platform == PlatformKind::Unknown,
    }
}

pub open spec fn panel_count(enabled: bool, n: nat) -> int {
    if enabled { n as int } else { 0 }
}

/// All servers: MCSManager's (when the panel is enabled) first, then the manual entries,
/// each built from what probing its directory found.
pub fn discover(config: &Config, mcsm: Vec<Server>, probes: Vec<(JarProbe, Access)>) -> (r: Vec<Server>)
    requires
        probes@.len() == config.manual_servers@.len(),
    ensures
        r@.len() == panel_count(config.mcsmanager.enabled, mcsm@.len()) + config.manual_servers@.len(),
        config.mcsmanager.enabled ==> forall|i: int| 0 <= i < mcsm@.len() ==> r@[i] == mcsm@[i],
        forall|j: int| panel_count(config.mcsmanager.enabled, mcsm@.len()) <= j < r@.len() ==> manual_built(
            #[trigger] r@[j],
            config.manual_servers@[j - panel_count(config.mcsmanager.enabled, mcsm@.len())],
            probes@[j - panel_count(config.mcsmanager.enabled, mcsm@.len())],
        ),
{
    let ghost base_g = panel_count(config.mcsmanager.enabled, mcsm@.len());
    let mut out: Vec<Server> = if config.mcsmanager.enabled { mcsm } else { Vec::new() };
    let base = out.len();
    let ghost first = out@;
    let ghost pv = probes@;
    let mut rest = probes;
    let mut i: usize = 0;
    while i < config.manual_servers.len()
        invariant
            i <= config.manual_servers@.len(),
            pv.len() == config.manual_servers@.len(),
            rest@ == pv.skip(i as int),
            base == first.len(),
            base == base_g,
            out@.len() == base + i,
            forall|k: int| 0 <= k < base ==> out@[k] == first[k],
            forall|j: int| base <= j < out@.len() ==> manual_built(#[trigger] out@[j], config.manual_servers@[j - base], pv[j - base]),
        decreases config.manual_servers@.len() - i,
    {
        let (jar, access) = rest.remove(0);
        assert(pv.skip(i as int)[0] == pv[i as int]);
        let s = manual_server(&config.manual_servers[i], jar, access);
        out.push(s);
        assert(pv.skip(i as int).drop_first() =~= pv.skip(i + 1));
        i = i + 1;
    }
    out
}

/// Instances discovery leaves out: ignored by nickname or uuid, the panel's own
/// "universal" instances, and instances without a working directory of their own.
pub open spec fn mcsm_skipped(ignore: Seq<Seq<char>>, nickname: Seq<char>, uuid: Seq<char>, kind: Option<Seq<char>>, cwd: Seq<char>) -> bool {
    ignore.contains(nickname) || ignore.contains(uuid) || kind == Some("universal"@) || cwd.len() == 0 || cwd == "/"@
}

pub fn mcsm_skip(ignore: &Vec<String>, nickname: &str, uuid: &str, kind: &Option<String>, cwd: &str) -> (r: bool)
    ensures
        r == mcsm_skipped(crate::text::sviews(ignore@), nickname@, uuid@, opt_view(*kind), cwd@),
{
    proof {
        reveal_strlit("universal");
        reveal_strlit("/");
    }
    let ignored = crate::text::strings_contain(ignore, nickname) || crate::text::strings_contain(ignore, uuid);
    let universal = match kind {
        Some(k) => crate::lockfile::str_eq(k.as_str(), "universal"),
        None => false,
    };
    let c = to_chars(cwd);
    let slash = crate::lockfile::str_eq(cwd, "/");
    ignored || universal || c.len() == 0 || slash
}

/// The port in `server.properties`: the first `server-port=` line, trimmed, as a port.
pub open spec fn server_port_spec(text: Seq<char>) -> Option<u16> {
    match crate::text::first_prefixed(lines_of(text), "server-port="@) {
        Some(l) => match parse_u32_spec(trim(l.skip(12))) {
            Some(n) => if n <= 65535 { Some(n as u16) } else { None },
            None => None,
        },
        None => None,
    }
}

pub fn server_port_from(properties: &str) -> (r: Option<u16>)
    ensures
        r == server_port_spec(properties@),
{
    let cs = to_chars(properties);
    let ls = lines(cs.as_slice());
    let p = to_chars("server-port=");
    proof {
        reveal_strlit("server-port=");
    }
    match crate::text::first_prefixed_exec(&ls, p.as_slice()) {
        Some(i) => {
            let rest = skip_chars(ls[i].as_slice(), 12);
            let t = trim_chars(rest.as_slice());
            match parse_u32(t.as_slice()) {
                Some(n) => if n <= 65535 { Some(n as u16) } else { None },
                None => None,
            }
        },
        None => None,
    }
}

/// Where an instance's server files are: its working directory when that holds
/// `server.properties`, else the first by name of the subdirectories that do, else the
/// working directory.
pub fn server_root(cwd: &str, cwd_has_properties: bool, with_properties: &Vec<String>) -> (r: String)
    ensures
        if cwd_has_properties || with_properties@.len() == 0 {
            r@ == cwd@
        } else {
            crate::text::sviews(with_properties@).contains(r@)
                && forall|i: int| 0 <= i < with_properties@.len() ==> crate::util::sort::str_le(r@, #[trigger] with_properties@[i]@)
        },
{
    if cwd_has_properties || with_properties.len() == 0 {
        return String::from_str(cwd);
    }
    let sorted = crate::util::sort::sort_strings(crate::text::clone_strings(with_properties));
    proof {
        let a = crate::text::sviews(sorted@);
        let b = crate::text::sviews(with_properties@);
        a.to_multiset_ensures();
        b.to_multiset_ensures();
        assert(a.to_multiset().count(a[0]) > 0);
        assert forall|i: int| 0 <= i < with_properties@.len() implies crate::util::sort::str_le(sorted@[0]@, #[trigger] with_properties@[i]@) by {
            assert(b[i] == with_properties@[i]@);
            assert(b.to_multiset().count(b[i]) > 0);
            assert(a.contains(b[i]));
            let q = choose|q: int| 0 <= q < a.len() && a[q] == b[i];
            if q == 0 {
                crate::util::sort::lemma_key_lt_irrefl(crate::text::char_key(a[0]));
            } else {
                assert(crate::util::sort::str_le(a[0], a[q]));
            }
        }
    }
    clone_string(&sorted[0])
}

/// An MCSManager instance as a server: the slug of its nickname as id, its port from the
/// panel or else from `server.properties`, and a note when its files are nested below its
/// working directory.
pub fn mcsm_server(
    nickname: &str,
    uuid: String,
    cwd: &str,
    root: String,
    start_command: Option<String>,
    panel_port: Option<u16>,
    properties_port: Option<u16>,
    jar: JarProbe,
    access: Access,
) -> (r: Server)
    ensures
        r.id@ == slug_of(nickname@),
        r.name@ == nickname@,
        r.root@ == root@,
        r.origin matches ServerOrigin::Mcsm { uuid: u } && u@ == uuid@,
        r.start_command == start_command,
        r.ping_port == (if panel_port is Some { panel_port } else { properties_port }),
        r.control is Absent,
        r.backup_slug@ == slug_of(nickname@),
        r.access == access,
        match jar {
            JarProbe::Found(j) => r.jar == Some(j) && r.platform == j.platform,
            _ => r.jar is None && r.platform == PlatformKind::Unknown,
        },
        crate::text::sviews(r.notes@) == probe_notes(jar) + (if root@ != cwd@ { seq!["server files are nested in "@ + root@] } else { Seq::empty() }),
{
    let ghost jv = jar;
    let nested = !crate::lockfile::str_eq(root.as_str(), cwd);
    let note = concat2("server files are nested in ", root.as_str());
    let port = match panel_port {
        Some(p) => Some(p),
        None => properties_port,
    };
    let mut s = build_server(
        slugify(nickname),
        String::from_str(nickname),
        root,
        ServerOrigin::Mcsm { uuid },
        start_command,
        port,
        ControlConfig::Absent,
        jar,
        access,
    );
    let ghost n0 = crate::text::sviews(s.notes@);
    if nested {
        s.notes.push(note);
        assert(crate::text::sviews(s.notes@) =~= n0.push(note@));
    }
    assert(crate::text::sviews(s.notes@) =~= probe_notes(jv) + (if s.root@ != cwd@ { seq![note@] } else { Seq::<Seq<char>>::empty() }));
    s
}

/// A server answers to a query by its id, by its name ignoring ASCII case, or by an id
/// that contains the lower-cased query.
pub open spec fn answers_to(s: Server, q: Seq<char>) -> bool {
    s.id@ == q || crate::text::lower(s.name@) == crate::text::lower(q) || crate::text::has_sub(s.id@, crate::text::lower(q))
}

/// The positions of the servers that answer to a query, in order.
pub open spec fn hits(ss: Seq<Server>, q: Seq<char>) -> Seq<int>
    decreases ss.len(),
{
    if ss.len() == 0 {
        Seq::empty()
    } else {
        let r = hits(ss.drop_last(), q);
        if answers_to(ss.last(), q) { r.push(ss.len() - 1) } else { r }
    }
}

/// The first server whose id is the query.
pub open spec fn first_with_id(ss: Seq<Server>, q: Seq<char>) -> Option<int>
    decreases ss.len(),
{
    if ss.len() == 0 {
        None
    } else {
        match first_with_id(ss.drop_last(), q) {
            Some(i) => Some(i),
            None => if ss.last().id@ == q { Some(ss.len() - 1) } else { None },
        }
    }
}

/// The server a query names: the only one that answers to it, else among several the one
/// whose id it is; otherwise an error that says why.
pub open spec fn pick_server_spec(ss: Seq<Server>, q: Seq<char>) -> Result<int, Seq<char>> {
    let h = hits(ss, q);
    if h.len() == 0 {
        Err("no server matches "@ + crate::cli::update::debug_quoted(q) + " (see `mcplug servers`)"@)
    } else if h.len() == 1 {
        Ok(h[0])
    } else {
        match first_with_id(ss, q) {
            Some(i) => Ok(i),
            None => Err(crate::cli::update::debug_quoted(q) + " matches several servers: "@
                + crate::text::join_with(h.map_values(|i: int| ss[i].id@), ", "@)),
        }
    }
}

proof fn lemma_hits_prefix(ss: Seq<Server>, q: Seq<char>)
    ensures
        forall|j: int| 0 <= j < hits(ss, q).len() ==> 0 <= #[trigger] hits(ss, q)[j] < ss.len(),
    decreases ss.len(),
{
    if ss.len() > 0 {
        lemma_hits_prefix(ss.drop_last(), q);
        let r = hits(ss.drop_last(), q);
        assert forall|j: int| 0 <= j < hits(ss, q).len() implies 0 <= #[trigger] hits(ss, q)[j] < ss.len() by {
            if j < r.len() {
                assert(hits(ss, q)[j] == r[j]);
            }
        }
    }
}

proof fn lemma_first_with_id_range(ss: Seq<Server>, q: Seq<char>)
    ensures
        first_with_id(ss, q) matches Some(i) ==> 0 <= i < ss.len(),
    decreases ss.len(),
{
    if ss.len() > 0 {
        lemma_first_with_id_range(ss.drop_last(), q);
    }
}

/// Which of the servers a query names.
pub fn pick_server(servers: &Vec<Server>, query: &str) -> (r: Result<usize, String>)
    ensures
        match pick_server_spec(servers@, query@) {
            Ok(i) => r == Ok::<usize, String>(i as usize) && i < servers@.len(),
            Err(e) => r matches Err(m) && m@ == e,
        },
{
    proof {
        reveal_strlit("no server matches ");
        reveal_strlit(" (see `mcplug servers`)");
        reveal_strlit(" matches several servers: ");
        reveal_strlit(", ");
    }
    let ghost ss = servers@;
    let q = to_chars(query);
    let lq = crate::text::lower_chars(q.as_slice());
    let mut found: Vec<usize> = Vec::new();
    let mut exact: Option<usize> = None;
    let mut i: usize = 0;
    assert(ss.take(0) =~= Seq::<Server>::empty());
    while i < servers.len()
        invariant
            i <= ss.len(),
            ss == servers@,
            q@ == query@,
            lq@ == crate::text::lower(query@),
            found@.map_values(|k: usize| k as int) == hits(ss.take(i as int), query@),
            match exact {
                Some(k) => first_with_id(ss.take(i as int), query@) == Some(k as int),
                None => first_with_id(ss.take(i as int), query@) is None,
            },
        decreases ss.len() - i,
    {
        assert(ss.take(i + 1).drop_last() =~= ss.take(i as int));
        assert(ss.take(i + 1).last() == ss[i as int]);
        let s = &servers[i];
        let id = to_chars(s.id.as_str());
        let same_id = crate::text::eq_chars(id.as_slice(), q.as_slice());
        let ln = crate::text::lower_chars(to_chars(s.name.as_str()).as_slice());
        let hit = same_id || crate::text::eq_chars(ln.as_slice(), lq.as_slice()) || crate::text::contains(id.as_slice(), lq.as_slice());
        if hit {
            let ghost before = found@.map_values(|k: usize| k as int);
            found.push(i);
            assert(found@.map_values(|k: usize| k as int) =~= before.push(i as int));
        }
        if same_id && exact.is_none() {
            exact = Some(i);
        }
        i = i + 1;
    }
    assert(ss.take(ss.len() as int) =~= ss);
    proof {
        lemma_hits_prefix(ss, query@);
        lemma_first_with_id_range(ss, query@);
    }
    let ghost h = hits(ss, query@);
    assert(found@.len() == h.len());
    if found.len() == 0 {
        let dq = crate::cli::update::debug_str(query);
        let head = concat2("no server matches ", dq.as_str());
        let m = concat2(head.as_str(), " (see `mcplug servers`)");
        assert(m@ == "no server matches "@ + crate::cli::update::debug_quoted(query@) + " (see `mcplug servers`)"@);
        return Err(m);
    }
    if found.len() == 1 {
        assert(found@.map_values(|k: usize| k as int)[0] == h[0]);
        assert(0 <= h[0] < ss.len());
        return Ok(found[0]);
    }
    match exact {
        Some(k) => {
            assert(first_with_id(ss, query@) == Some(k as int));
            Ok(k)
        },
        None => {
            let mut ids: Vec<Vec<char>> = Vec::new();
            let mut j: usize = 0;
            while j < found.len()
                invariant
                    j <= found@.len(),
                    found@.map_values(|k: usize| k as int) == h,
                    h == hits(ss, query@),
                    ss == servers@,
                    forall|t: int| 0 <= t < h.len() ==> 0 <= #[trigger] h[t] < ss.len(),
                    crate::text::views(ids@) == h.take(j as int).map_values(|x: int| ss[x].id@),
                decreases found@.len() - j,
            {
                assert(found@.map_values(|k: usize| k as int)[j as int] == h[j as int]);
                let k = found[j];
                let ghost before = crate::text::views(ids@);
                ids.push(to_chars(servers[k].id.as_str()));
                assert(crate::text::views(ids@) =~= before.push(ss[h[j as int]].id@));
                assert(h.take(j + 1) =~= h.take(j as int).push(h[j as int]));
                assert(h.take(j + 1).map_values(|x: int| ss[x].id@) =~= h.take(j as int).map_values(|x: int| ss[x].id@).push(ss[h[j as int]].id@));
                j = j + 1;
            }
            assert(h.take(h.len() as int) =~= h);
            let sep = to_chars(", ");
            let joined = crate::text::join_chars(&ids, sep.as_slice());
            let mut out: Vec<char> = Vec::new();
            let dq = crate::cli::update::debug_str(query);
            crate::text::push_str(&mut out, dq.as_str());
            crate::text::push_str(&mut out, " matches several servers: ");
            crate::text::push_all(&mut out, joined.as_slice());
            assert(crate::text::views(ids@) =~= h.map_values(|x: int| ss[x].id@));
            let m = crate::text::string_from_chars(out.as_slice());
            assert(m@ =~= crate::cli::update::debug_quoted(query@) + " matches several servers: "@ + crate::text::join_with(h.map_values(|x: int| ss[x].id@), ", "@));
            Err(m)
        },
    }
}

} // verus!
