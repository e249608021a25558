//! Who may call what through the MCP gateway: a token's permission levels, the catalog a
//! token sees, the request's origin, the protocol version, and the failed-auth throttle.

use vstd::prelude::*;

use crate::mcp::catalog::{declared_module, Endpoint};
use crate::text::{
    ascii_lower, chars_eq, chars_of, decimal, decimal_of, find, index_of, lemma_index_of_bounds,
    lower_vec, occurs_at, slice_chars, split_on, str_eq, string_of,
};

verus! {

/// A token's permissions: module key → level, as the JSON object holds them (a level that is
/// not a string is kept as `None`).
pub struct Perms {
    pub entries: Vec<(String, Option<String>)>,
}

/// The level stored under a module key.
pub open spec fn level_in(entries: Seq<(String, Option<String>)>, module: Seq<char>) -> Option<Seq<char>>
    decreases entries.len(),
{
    if entries.len() == 0 {
        None
    } else if entries[0].0@ == module {
        match entries[0].1 {
            Some(l) => Some(l@),
            None => None,
        }
    } else {
        level_in(entries.drop_first(), module)
    }
}

impl Perms {
    pub open spec fn level_of(&self, module: Seq<char>) -> Option<Seq<char>> {
        level_in(self.entries@, module)
    }

    /// The level this token holds on a module, when it is a string.
    pub fn level(&self, module: &str) -> (r: Option<&str>)
        ensures
            match r {
                Some(l) => self.level_of(module@) == Some(l@),
                None => self.level_of(module@) is None,
            },
    {
        let mut i: usize = 0;
        assert(self.entries@.skip(0) == self.entries@);
        while i < self.entries.len()
            invariant
                i <= self.entries@.len(),
                self.level_of(module@) == level_in(self.entries@.skip(i as int), module@),
            decreases self.entries@.len() - i,
        {
            proof {
                assert(self.entries@.skip(i as int).drop_first() == self.entries@.skip(i + 1));
            }
            if str_eq(self.entries[i].0.as_str(), module) {
                return match &self.entries[i].1 {
                    Some(l) => Some(l.as_str()),
                    None => None,
                };
            }
            i = i + 1;
        }
        None
    }

    pub open spec fn reads(&self, m: Seq<char>) -> bool {
        self.level_of(m) == Some("r"@) || self.level_of(m) == Some("rw"@) || self.level_of(m) == Some("rwd"@)
    }

    pub open spec fn writes(&self, m: Seq<char>) -> bool {
        self.level_of(m) == Some("rw"@) || self.level_of(m) == Some("rwd"@)
    }

    pub open spec fn deletes(&self, m: Seq<char>) -> bool {
        self.level_of(m) == Some("rwd"@)
    }

    pub fn can_read(&self, module: &str) -> (b: bool)
        ensures
            b == self.reads(module@),
    {
        match self.level(module) {
            Some(l) => str_eq(l, "r") || str_eq(l, "rw") || str_eq(l, "rwd"),
            None => false,
        }
    }

    pub fn can_write(&self, module: &str) -> (b: bool)
        ensures
            b == self.writes(module@),
    {
        match self.level(module) {
            Some(l) => str_eq(l, "rw") || str_eq(l, "rwd"),
            None => false,
        }
    }

    pub fn can_delete(&self, module: &str) -> (b: bool)
        ensures
            b == self.deletes(module@),
    {
        match self.level(module) {
            Some(l) => str_eq(l, "rwd"),
            None => false,
        }
    }

    /// GET needs read, DELETE needs full access, other writes need read and write.
    pub open spec fn calls(&self, m: Seq<char>, method: Seq<char>) -> bool {
        if method == "GET"@ {
            self.reads(m)
        } else if method == "DELETE"@ {
            self.deletes(m)
        } else {
            self.writes(m)
        }
    }

    pub fn can_call(&self, module: &str, method: &str) -> (b: bool)
        ensures
            b == self.calls(module@, method@),
    {
        if str_eq(method, "GET") {
            self.can_read(module)
        } else if str_eq(method, "DELETE") {
            self.can_delete(module)
        } else {
            self.can_write(module)
        }
    }

    /// The label for a token's access on a module whose read is already granted.
    pub fn access_label(&self, module: &str) -> (l: &'static str)
        ensures
            l@ == (if self.deletes(module@) {
                "full (read+write+delete)"@
            } else if self.writes(module@) {
                "read+write"@
            } else {
                "read-only"@
            }),
    {
        if self.can_delete(module) {
            "full (read+write+delete)"
        } else if self.can_write(module) {
            "read+write"
        } else {
            "read-only"
        }
    }
}

/// Every level that deletes also writes, and every level that writes also reads.
pub proof fn lemma_levels_are_nested(p: Perms, m: Seq<char>)
    ensures
        p.deletes(m) ==> p.writes(m),
        p.writes(m) ==> p.reads(m),
{
}

/// Whether the token writes anywhere.
pub fn any_write(perms: &Perms) -> (b: bool)
    ensures
        b == exists|i: int| 0 <= i < crate::mcp::catalog::module_keys().len() && perms.writes(
            #[trigger] crate::mcp::catalog::module_keys()[i],
        ),
{
    let mods = crate::mcp::catalog::modules();
    let mut i: usize = 0;
    while i < mods.len()
        invariant
            i <= mods@.len(),
            mods@.map_values(|p: (&'static str, &'static str)| p.0@) == crate::mcp::catalog::module_keys(),
            forall|j: int| 0 <= j < i ==> !perms.writes(#[trigger] crate::mcp::catalog::module_keys()[j]),
        decreases mods@.len() - i,
    {
        proof {
            assert(crate::mcp::catalog::module_keys()[i as int] == mods@[i as int].0@);
        }
        if perms.can_write(mods[i].0) {
            return true;
        }
        i = i + 1;
    }
    false
}

/// The entries of a module this token may call, counted.
pub open spec fn visible_count(c: Seq<Endpoint>, perms: Perms, module: Seq<char>) -> nat
    decreases c.len(),
{
    if c.len() == 0 {
        0
    } else {
        visible_count(c.drop_last(), perms, module) + if c.last().module@ == module && perms.calls(
            module,
            c.last().method@,
        ) {
            1nat
        } else {
            0nat
        }
    }
}

/// Number of endpoints in `module` visible at this permission level.
pub fn visible_endpoint_count(c: &[Endpoint], perms: &Perms, module: &str) -> (n: usize)
    ensures
        n == visible_count(c@, *perms, module@),
{
    let mut n: usize = 0;
    let mut i: usize = 0;
    while i < c.len()
        invariant
            i <= c@.len(),
            n == visible_count(c@.take(i as int), *perms, module@),
            n <= i,
        decreases c@.len() - i,
    {
        proof {
            assert(c@.take(i + 1).drop_last() == c@.take(i as int));
            assert(c@.take(i + 1).last() == c@[i as int]);
        }
        if str_eq(c[i].module, module) && perms.can_call(module, c[i].method) {
            n = n + 1;
        }
        i = i + 1;
    }
    proof {
        assert(c@.take(c@.len() as int) == c@);
    }
    n
}

/// What a token with no access to what it asked for is told.
pub fn no_access_message() -> (m: String)
    ensures
        m@ == "No accessible endpoints. This token has no permission on the requested module(s); permissions are managed in OpenTraderWorld Settings → MCP."@,
{
    "No accessible endpoints. This token has no permission on the requested module(s); permissions are managed in OpenTraderWorld Settings → MCP.".to_string()
}

/// Permissions must map known module ids to `"r"` or `"rw"`; anything else is refused so a
/// typo can never silently widen (or dead-letter) a token's access. `None` is a value that
/// is not a JSON object.
pub open spec fn permissions_error(entries: Option<Seq<(String, Option<String>)>>) -> Option<Seq<char>> {
    match entries {
        None => Some("permissions must be an object"@),
        Some(e) => first_bad_entry(e),
    }
}

pub open spec fn first_bad_entry(e: Seq<(String, Option<String>)>) -> Option<Seq<char>>
    decreases e.len(),
{
    if e.len() == 0 {
        None
    } else if !declared_module(e[0].0@) {
        Some("unknown module: "@ + e[0].0@)
    } else if !(e[0].1 matches Some(l) && (l@ == "r"@ || l@ == "rw"@)) {
        Some("permission for "@ + e[0].0@ + " must be \"r\" or \"rw\""@)
    } else {
        first_bad_entry(e.drop_first())
    }
}

pub open spec fn perm_entries(perms: Option<&Perms>) -> Option<Seq<(String, Option<String>)>> {
    match perms {
        Some(p) => Some(p.entries@),
        None => None,
    }
}

pub fn validate_permissions(perms: Option<&Perms>) -> (r: Result<(), String>)
    ensures
        r is Ok <==> permissions_error(perm_entries(perms)) is None,
        r matches Err(m) ==> permissions_error(perm_entries(perms)) == Some(m@),
{
    let p = match perms {
        Some(p) => p,
        None => return Err("permissions must be an object".to_string()),
    };
    let mut i: usize = 0;
    assert(p.entries@.skip(0) == p.entries@);
    while i < p.entries.len()
        invariant
            i <= p.entries@.len(),
            perm_entries(perms) == Some(p.entries@),
            first_bad_entry(p.entries@.skip(i as int)) == first_bad_entry(p.entries@),
        decreases p.entries@.len() - i,
    {
        proof {
            assert(p.entries@.skip(i as int)[0] == p.entries@[i as int]);
            assert(p.entries@.skip(i as int).drop_first() == p.entries@.skip(i + 1));
        }
        let module = p.entries[i].0.as_str();
        if !crate::mcp::catalog::is_module(module) {
            let mut m = "unknown module: ".to_string();
            m.append(module);
            assert(first_bad_entry(p.entries@.skip(i as int)) == Some(m@));
            return Err(m);
        }
        let ok = match &p.entries[i].1 {
            Some(l) => str_eq(l.as_str(), "r") || str_eq(l.as_str(), "rw"),
            None => false,
        };
        if !ok {
            let mut m = "permission for ".to_string();
            m.append(module);
            m.append(" must be \"r\" or \"rw\"");
            assert(first_bad_entry(p.entries@.skip(i as int)) == Some(m@));
            return Err(m);
        }
        i = i + 1;
    }
    Ok(())
}

// ── The request itself ───────────────────────────────────────────────────────

/// Origin/Host consistency: browsers always send Origin, and a DNS-rebinding page would carry
/// a foreign Origin with our Host; non-browser MCP clients omit Origin entirely.
pub open spec fn origin_ok_of(origin: Option<Seq<char>>, host: Option<Seq<char>>) -> bool {
    match origin {
        None => true,
        Some(o) => match host {
            None => false,
            Some(h) => {
                let k = index_of(o, "://"@, 0);
                k >= 0 && ascii_lower(split_on(o.skip(k + 3), '/')[0]) == ascii_lower(h)
            },
        },
    }
}

pub fn origin_ok(origin: Option<&str>, host: Option<&str>) -> (b: bool)
    ensures
        b == origin_ok_of(crate::text::opt_str(origin), crate::text::opt_str(host)),
{
    let o = match origin {
        Some(o) => o,
        None => return true,
    };
    let h = match host {
        Some(h) => h,
        None => return false,
    };
    let v = chars_of(o);
    let vlen = v.len();
    let sep = chars_of("://");
    match find(&v, &sep, 0) {
        None => false,
        Some(k) => {
            proof {
                reveal_strlit("://");
                lemma_index_of_bounds(v@, sep@, 0);
            }
            let rest = string_of(slice_chars(&v, k + 3, vlen).as_slice());
            proof {
                assert(v@.subrange(k + 3, v@.len() as int) == v@.skip(k + 3));
            }
            let fields = crate::text::split_chars(rest.as_str(), '/');
            proof {
                assert(crate::text::views(fields@)[0] == fields@[0]@);
            }
            let a = lower_vec(&chars_of(fields[0].as_str()));
            let b = lower_vec(&chars_of(h));
            chars_eq(&a, &b)
        },
    }
}

/// The protocol versions this gateway speaks, newest first.
pub open spec fn supported_version(v: Seq<char>) -> bool {
    v == "2025-06-18"@ || v == "2025-03-26"@ || v == "2024-11-05"@
}

/// The version the session runs: the one asked for when it is supported, else the latest.
pub fn protocol_version(requested: Option<&str>) -> (v: &str)
    ensures
        v@ == (match requested {
            Some(r) => if supported_version(r@) { r@ } else { "2025-06-18"@ },
            None => "2025-06-18"@,
        }),
{
    match requested {
        Some(r) => if str_eq(r, "2025-06-18") || str_eq(r, "2025-03-26") || str_eq(r, "2024-11-05") {
            r
        } else {
            "2025-06-18"
        },
        None => "2025-06-18",
    }
}

// ── Failed-auth throttle ─────────────────────────────────────────────────────

/// Failures per window before requests are refused early.
pub const AUTH_FAIL_LIMIT: u32 = 10;
/// The window, in seconds.
pub const AUTH_FAIL_WINDOW_SECS: u64 = 60;

/// The current failure window: when it started, and how many failures it holds.
pub struct AuthFails {
    pub window: Option<(u64, u32)>,
}

impl AuthFails {
    pub fn new() -> (a: AuthFails)
        ensures
            a.window is None,
    {
        AuthFails { window: None }
    }

    /// Whether a request at `now` is refused before its token is looked at.
    pub fn throttled(&self, now: u64) -> (b: bool)
        ensures
            b == (self.window matches Some((start, n)) && n >= AUTH_FAIL_LIMIT && start <= now && now - start < AUTH_FAIL_WINDOW_SECS),
    {
        match self.window {
            Some((start, n)) => n >= AUTH_FAIL_LIMIT && start <= now && now - start < AUTH_FAIL_WINDOW_SECS,
            None => false,
        }
    }

    /// Count one failure at `now`: inside the window it adds up, otherwise a new window opens.
    pub fn record(&mut self, now: u64)
        ensures
            final(self).window == (match old(self).window {
                Some((start, n)) => if start <= now && now - start < AUTH_FAIL_WINDOW_SECS {
                    Some((start, if n < u32::MAX { (n + 1) as u32 } else { n }))
                } else {
                    Some((now, 1u32))
                },
                None => Some((now, 1u32)),
            }),
    {
        self.window = match self.window {
            Some((start, n)) => if start <= now && now - start < AUTH_FAIL_WINDOW_SECS {
                Some((start, if n < u32::MAX { n + 1 } else { n }))
            } else {
                Some((now, 1))
            },
            None => Some((now, 1)),
        };
    }
}


// ── The catalog a token sees ─────────────────────────────────────────────────

pub open spec fn access_of(perms: Perms, m: Seq<char>) -> Seq<char> {
    if perms.deletes(m) {
        "full (read+write+delete)"@
    } else if perms.writes(m) {
        "read+write"@
    } else {
        "read-only"@
    }
}

pub open spec fn labels_view(mods: Seq<(&'static str, &'static str)>) -> Seq<(Seq<char>, Seq<char>)> {
    mods.map_values(|p: (&'static str, &'static str)| (p.0@, p.1@))
}

/// One index line per module the token reads.
pub open spec fn index_lines(mods: Seq<(Seq<char>, Seq<char>)>, c: Seq<Endpoint>, perms: Perms) -> Seq<char>
    decreases mods.len(),
{
    if mods.len() == 0 {
        Seq::empty()
    } else {
        let (m, label) = mods.last();
        index_lines(mods.drop_last(), c, perms) + if perms.reads(m) {
            m + " — "@ + label + " ("@ + access_of(perms, m) + ", "@ + decimal_of(visible_count(c, perms, m))
                + " endpoints)\n"@
        } else {
            Seq::empty()
        }
    }
}

pub open spec fn index_header() -> Seq<char> {
    "Accessible modules. Call otw_catalog with a \"module\" argument (e.g. {\"module\":\"journal\"}) to list that module's endpoints.\n\n"@
}

/// The compact index: accessible modules with their access and endpoint count, so the
/// model drills into one module with a second call.
pub fn render_index(c: &[Endpoint], perms: &Perms) -> (r: String)
    ensures
        ({
            let lines = index_lines(labels_view(crate::mcp::catalog::modules_spec()), c@, *perms);
            r@ == (if lines.len() == 0 {
                "No accessible endpoints. This token has no permission on the requested module(s); permissions are managed in OpenTraderWorld Settings → MCP."@
            } else {
                index_header() + lines
            })
        }),
{
    let mods = crate::mcp::catalog::modules();
    let mut out = String::new();
    let mut i: usize = 0;
    while i < mods.len()
        invariant
            i <= mods@.len(),
            mods@ == crate::mcp::catalog::modules_spec(),
            out@ == index_lines(labels_view(mods@.take(i as int)), c@, *perms),
        decreases mods@.len() - i,
    {
        let (module, label) = mods[i];
        proof {
            assert(labels_view(mods@.take(i + 1)).drop_last() == labels_view(mods@.take(i as int)));
            assert(labels_view(mods@.take(i + 1)).last() == (module@, label@));
        }
        if perms.can_read(module) {
            out.append(module);
            out.append(" — ");
            out.append(label);
            out.append(" (");
            out.append(perms.access_label(module));
            out.append(", ");
            let n = visible_endpoint_count(c, perms, module);
            out.append(decimal(n as u64).as_str());
            out.append(" endpoints)\n");
        }
        i = i + 1;
    }
    proof {
        assert(mods@.take(mods@.len() as int) == mods@);
    }
    if out.as_str().is_empty() {
        no_access_message()
    } else {
        let mut r = "Accessible modules. Call otw_catalog with a \"module\" argument (e.g. {\"module\":\"journal\"}) to list that module's endpoints.\n\n".to_string();
        r.append(out.as_str());
        r
    }
}

/// The listing lines of a module's callable entries, each with its body schema when it
/// takes one (`schemas` runs beside the catalog).
pub open spec fn module_lines(c: Seq<Endpoint>, schemas: Seq<String>, perms: Perms, m: Seq<char>) -> Seq<char>
    decreases c.len(),
{
    if c.len() == 0 || schemas.len() != c.len() {
        Seq::empty()
    } else {
        let e = c.last();
        module_lines(c.drop_last(), schemas.drop_last(), perms, m) + if e.module@ == m && perms.calls(m, e.method@) {
            e.method@ + " "@ + e.path@ + " — "@ + e.desc@ + "\n"@ + if e.has_body {
                "  body schema: "@ + schemas.last()@ + "\n"@
            } else {
                Seq::empty()
            }
        } else {
            Seq::empty()
        }
    }
}

/// The label of a declared module, when `m` is one.
pub open spec fn label_of(mods: Seq<(Seq<char>, Seq<char>)>, m: Seq<char>) -> Option<Seq<char>>
    decreases mods.len(),
{
    if mods.len() == 0 {
        None
    } else if mods[0].0 == m {
        Some(mods[0].1)
    } else {
        label_of(mods.drop_first(), m)
    }
}

pub open spec fn render_module_of(c: Seq<Endpoint>, schemas: Seq<String>, perms: Perms, m: Seq<char>) -> Seq<char> {
    match label_of(labels_view(crate::mcp::catalog::modules_spec()), m) {
        None => "Unknown module \""@ + m + "\". Call otw_catalog with no argument to list accessible modules."@,
        Some(label) => if !perms.reads(m) {
            "No accessible endpoints. This token has no permission on the requested module(s); permissions are managed in OpenTraderWorld Settings → MCP."@
        } else {
            "## "@ + m + " — "@ + label + " ("@ + access_of(perms, m) + ")\n"@ + module_lines(c, schemas, perms, m)
        },
    }
}

/// The label of a declared module.
pub fn module_label(module: &str) -> (r: Option<&'static str>)
    ensures
        crate::text::opt_str(r) == label_of(labels_view(crate::mcp::catalog::modules_spec()), module@),
{
    let mods = crate::mcp::catalog::modules();
    let mut i: usize = 0;
    assert(labels_view(mods@).skip(0) == labels_view(mods@));
    while i < mods.len()
        invariant
            i <= mods@.len(),
            mods@ == crate::mcp::catalog::modules_spec(),
            label_of(labels_view(mods@).skip(i as int), module@) == label_of(labels_view(mods@), module@),
        decreases mods@.len() - i,
    {
        proof {
            assert(labels_view(mods@).skip(i as int)[0] == (mods@[i as int].0@, mods@[i as int].1@));
            assert(labels_view(mods@).skip(i as int).drop_first() == labels_view(mods@).skip(i + 1));
        }
        if str_eq(mods[i].0, module) {
            return Some(mods[i].1);
        }
        i = i + 1;
    }
    None
}

/// The full endpoint list for one module, as this token may call it.
pub fn render_module(c: &[Endpoint], schemas: &[String], perms: &Perms, module: &str) -> (r: String)
    requires
        schemas@.len() == c@.len(),
    ensures
        r@ == render_module_of(c@, schemas@, *perms, module@),
{
    let label = module_label(module);
    let label = match label {
        Some(l) => l,
        None => {
            let mut m = "Unknown module \"".to_string();
            m.append(module);
            m.append("\". Call otw_catalog with no argument to list accessible modules.");
            return m;
        },
    };
    if !perms.can_read(module) {
        return no_access_message();
    }
    let mut out = "## ".to_string();
    out.append(module);
    out.append(" — ");
    out.append(label);
    out.append(" (");
    out.append(perms.access_label(module));
    out.append(")\n");
    let ghost head = out@;
    let mut k: usize = 0;
    while k < c.len()
        invariant
            k <= c@.len(),
            schemas@.len() == c@.len(),
            out@ == head + module_lines(c@.take(k as int), schemas@.take(k as int), *perms, module@),
        decreases c@.len() - k,
    {
        proof {
            assert(c@.take(k + 1).drop_last() == c@.take(k as int));
            assert(schemas@.take(k + 1).drop_last() == schemas@.take(k as int));
            assert(c@.take(k + 1).last() == c@[k as int]);
            assert(schemas@.take(k + 1).last() == schemas@[k as int]);
        }
        let e = c[k];
        if str_eq(e.module, module) && perms.can_call(module, e.method) {
            out.append(e.method);
            out.append(" ");
            out.append(e.path);
            out.append(" — ");
            out.append(e.desc);
            out.append("\n");
            if e.has_body {
                out.append("  body schema: ");
                out.append(schemas[k].as_str());
                out.append("\n");
            }
        }
        k = k + 1;
    }
    proof {
        assert(c@.take(c@.len() as int) == c@);
        assert(schemas@.take(schemas@.len() as int) == schemas@);
    }
    out
}

} // verus!
