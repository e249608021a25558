//! Small request checks shared by the settings screens: which notification modules a
//! channel may be granted, the allowed values of the mailbox forms, and the mindset
//! module's phases, dates and rich-text notes.

use vstd::prelude::*;

use crate::json::{get, items_view, jv, lemma_items_view, member, Json, JsonV};
use crate::mailbox::sanitize::{ammonia_clean_bare, bare_cleaned_of, is_dropped_with_content, policy_ok, policy_view, CleanPolicy, PolicyV};

use crate::text::{chars_of, contains_string, dedup, no_dups, one_of, str_eq, string_of, trim, trim_vec, views};

verus! {

// ── Notification channels ────────────────────────────────────────────────────

/// The grant that covers every notifying module, present and future.
pub const ALL_MODULES: &'static str = "*";

/// Modules that produce notifications and can therefore be granted a channel.
pub open spec fn notif_module(m: Seq<char>) -> bool {
    m == "remindme"@ || m == "watchlists"@ || m == "mailbox"@ || m == "webhooks"@ || m == "histdata"@
        || m == "automator"@
}

pub fn notif_modules() -> (v: Vec<&'static str>)
    ensures
        v@ == seq!["remindme", "watchlists", "mailbox", "webhooks", "histdata", "automator"],
{
    let mut v: Vec<&'static str> = Vec::new();
    v.push("remindme");
    v.push("watchlists");
    v.push("mailbox");
    v.push("webhooks");
    v.push("histdata");
    v.push("automator");
    assert(v@ =~= seq!["remindme", "watchlists", "mailbox", "webhooks", "histdata", "automator"]);
    v
}

/// The kinds of notification channel.
pub open spec fn channel_kind(k: Seq<char>) -> bool {
    k == "email"@ || k == "telegram"@ || k == "slack"@ || k == "discord"@
}

/// A channel as submitted: a known kind, and a config that is a JSON object.
pub fn validate_channel(kind: &str, config: &Json) -> (r: Result<(), String>)
    ensures
        !channel_kind(kind@) ==> (r matches Err(e) && e@ == "kind must be email, telegram, slack or discord"@),
        channel_kind(kind@) && !(jv(*config) is Obj) ==> (r matches Err(e) && e@ == "config must be a JSON object"@),
        channel_kind(kind@) && jv(*config) is Obj ==> r is Ok,
{
    if !(str_eq(kind, "email") || str_eq(kind, "telegram") || str_eq(kind, "slack") || str_eq(kind, "discord")) {
        return Err("kind must be email, telegram, slack or discord".to_string());
    }
    match config {
        Json::Obj(_) => Ok(()),
        _ => Err("config must be a JSON object".to_string()),
    }
}

/// A module id a channel can be granted to.
pub fn valid_module(m: &str) -> (r: Result<(), String>)
    ensures
        r is Ok <==> notif_module(m@),
        r matches Err(e) ==> e@ == "unknown module: "@ + m@,
{
    if str_eq(m, "remindme") || str_eq(m, "watchlists") || str_eq(m, "mailbox") || str_eq(m, "webhooks")
        || str_eq(m, "histdata") || str_eq(m, "automator") {
        Ok(())
    } else {
        let mut e = "unknown module: ".to_string();
        e.append(m);
        Err(e)
    }
}

/// The trimmed ids, in order.
pub open spec fn trimmed(s: Seq<Seq<char>>) -> Seq<Seq<char>> {
    s.map_values(|x: Seq<char>| trim(x))
}

/// The first trimmed id that no module answers to.
pub open spec fn first_unknown(s: Seq<Seq<char>>) -> Option<Seq<char>>
    decreases s.len(),
{
    if s.len() == 0 {
        None
    } else if !notif_module(trim(s[0])) {
        Some(trim(s[0]))
    } else {
        first_unknown(s.drop_first())
    }
}

/// Normalise a grant list: `*` anywhere collapses everything else; otherwise the ids are
/// trimmed, validated and de-duplicated in order. An empty list is allowed: the channel
/// then receives nothing.
pub fn normalize_modules(input: &[String]) -> (r: Result<Vec<String>, String>)
    ensures
        views(input@).contains("*"@) ==> (r matches Ok(v) && views(v@) == seq!["*"@]),
        !views(input@).contains("*"@) ==> match r {
            Ok(v) => first_unknown(views(input@)) is None && views(v@) == dedup(trimmed(views(input@))),
            Err(e) => first_unknown(views(input@)) matches Some(m) && e@ == "unknown module: "@ + m,
        },
{
    let mut star = false;
    let mut k: usize = 0;
    while k < input.len()
        invariant
            k <= input@.len(),
            star == exists|j: int| 0 <= j < k && #[trigger] input@[j]@ == ALL_MODULES@,
        decreases input@.len() - k,
    {
        if str_eq(input[k].as_str(), ALL_MODULES) {
            star = true;
        }
        k = k + 1;
    }
    proof {
        if views(input@).contains(ALL_MODULES@) {
            let j = choose|j: int| 0 <= j < views(input@).len() && views(input@)[j] == ALL_MODULES@;
            assert(input@[j]@ == ALL_MODULES@);
        }
        if star {
            let j = choose|j: int| 0 <= j < k && #[trigger] input@[j]@ == ALL_MODULES@;
            assert(views(input@)[j] == ALL_MODULES@);
        }
    }
    if star {
        let mut v: Vec<String> = Vec::new();
        v.push(ALL_MODULES.to_string());
        proof {
            reveal_strlit("*");
            assert(views(v@) =~= seq!["*"@]);
        }
        return Ok(v);
    }
    proof {
        reveal_strlit("*");
    }
    let mut out: Vec<String> = Vec::new();
    let mut i: usize = 0;
    assert(views(input@).skip(0) == views(input@));
    while i < input.len()
        invariant
            i <= input@.len(),
            !views(input@).contains("*"@),
            first_unknown(views(input@).skip(i as int)) == first_unknown(views(input@)),
            first_unknown(views(input@).take(i as int)) is None,
            views(out@) == dedup(trimmed(views(input@).take(i as int))),
        decreases input@.len() - i,
    {
        let ghost vs = views(input@);
        proof {
            assert(vs.skip(i as int)[0] == input@[i as int]@);
            assert(vs.skip(i as int).drop_first() == vs.skip(i + 1));
            assert(vs.take(i + 1).drop_last() == vs.take(i as int));
            assert(trimmed(vs.take(i + 1)) == trimmed(vs.take(i as int)).push(trim(input@[i as int]@)));
        }
        let m = string_of(trim_vec(&chars_of(input[i].as_str())).as_slice());
        match valid_module(m.as_str()) {
            Ok(()) => {},
            Err(e) => {
                return Err(e);
            },
        }
        proof {
            lemma_first_unknown_push(vs.take(i as int), input@[i as int]@);
            assert(vs.take(i + 1) == vs.take(i as int).push(input@[i as int]@));
            let t = trimmed(vs.take(i as int));
            assert(t.push(m@).drop_last() == t);
            assert(t.push(m@).last() == m@);
        }
        if !contains_string(&out, m.as_str()) {
            let ghost before = views(out@);
            out.push(m);
            proof {
                assert(views(out@) == before.push(out@[out@.len() - 1]@));
            }
        }
        i = i + 1;
    }
    proof {
        assert(views(input@).take(input@.len() as int) == views(input@));
    }
    Ok(out)
}

proof fn lemma_first_unknown_push(s: Seq<Seq<char>>, x: Seq<char>)
    requires
        first_unknown(s) is None,
        notif_module(trim(x)),
    ensures
        first_unknown(s.push(x)) is None,
    decreases s.len(),
{
    if s.len() > 0 {
        assert(s.push(x)[0] == s[0]);
        assert(notif_module(trim(s[0])));
        assert(first_unknown(s.drop_first()) is None);
        assert(s.push(x).drop_first() == s.drop_first().push(x));
        lemma_first_unknown_push(s.drop_first(), x);
        assert(first_unknown(s.push(x).drop_first()) is None);
    } else {
        assert(s.push(x)[0] == x);
        assert(s.push(x).drop_first() =~= Seq::<Seq<char>>::empty());
        assert(first_unknown(s.push(x).drop_first()) is None);
    }
}

/// A normalised grant never names a module twice.
pub proof fn lemma_normalized_has_no_repeats(input: Seq<Seq<char>>)
    ensures
        no_dups(dedup(trimmed(input))),
{
    crate::text::lemma_dedup(trimmed(input));
}

// ── Mailbox forms ────────────────────────────────────────────────────────────

/// `value` is one of `allowed`, or the error names the field and the value.
pub fn check(value: &str, allowed: &[&str], field: &str) -> (r: Result<(), String>)
    ensures
        r is Ok <==> exists|i: int| 0 <= i < allowed@.len() && #[trigger] allowed@[i]@ == value@,
        r matches Err(e) ==> e@ == "unknown "@ + field@ + ": "@ + value@,
{
    if one_of(value, allowed) {
        Ok(())
    } else {
        let mut e = "unknown ".to_string();
        e.append(field);
        e.append(": ");
        e.append(value);
        Err(e)
    }
}

/// The same check for an optional field: absent is fine.
pub fn check_opt(value: Option<&String>, allowed: &[&str], field: &str) -> (r: Result<(), String>)
    ensures
        match value {
            Some(v) => (r is Ok <==> exists|i: int| 0 <= i < allowed@.len() && #[trigger] allowed@[i]@ == v@)
                && (r matches Err(e) ==> e@ == "unknown "@ + field@ + ": "@ + v@),
            None => r is Ok,
        },
{
    match value {
        Some(v) => check(v.as_str(), allowed, field),
        None => Ok(()),
    }
}

pub fn security_kinds() -> (v: Vec<&'static str>)
    ensures
        v@ == seq!["ssl", "starttls", "none"],
{
    let mut v: Vec<&'static str> = Vec::new();
    v.push("ssl");
    v.push("starttls");
    v.push("none");
    assert(v@ =~= seq!["ssl", "starttls", "none"]);
    v
}

pub fn auth_kinds() -> (v: Vec<&'static str>)
    ensures
        v@ == seq!["password", "oauth"],
{
    let mut v: Vec<&'static str> = Vec::new();
    v.push("password");
    v.push("oauth");
    assert(v@ =~= seq!["password", "oauth"]);
    v
}

pub fn categories() -> (v: Vec<&'static str>)
    ensures
        v@ == seq!["news", "newsletter", "broker", "other"],
{
    let mut v: Vec<&'static str> = Vec::new();
    v.push("news");
    v.push("newsletter");
    v.push("broker");
    v.push("other");
    assert(v@ =~= seq!["news", "newsletter", "broker", "other"]);
    v
}

pub fn statuses() -> (v: Vec<&'static str>)
    ensures
        v@ == seq!["kept", "pending", "ignored"],
{
    let mut v: Vec<&'static str> = Vec::new();
    v.push("kept");
    v.push("pending");
    v.push("ignored");
    assert(v@ =~= seq!["kept", "pending", "ignored"]);
    v
}

pub fn topics() -> (v: Vec<&'static str>)
    ensures
        v@ == seq!["mindset", "finance", "trading", "geopolitics", "economics", "other"],
{
    let mut v: Vec<&'static str> = Vec::new();
    v.push("mindset");
    v.push("finance");
    v.push("trading");
    v.push("geopolitics");
    v.push("economics");
    v.push("other");
    assert(v@ =~= seq!["mindset", "finance", "trading", "geopolitics", "economics", "other"]);
    v
}

// ── Mindset ──────────────────────────────────────────────────────────────────

/// When in the trading day a check-in belongs; new prompts default to before the session.
pub fn default_phase() -> (p: String)
    ensures
        p@ == "pre"@,
{
    "pre".to_string()
}

pub fn phases() -> (v: Vec<&'static str>)
    ensures
        v@ == seq!["pre", "live", "post"],
{
    let mut v: Vec<&'static str> = Vec::new();
    v.push("pre");
    v.push("live");
    v.push("post");
    assert(v@ =~= seq!["pre", "live", "post"]);
    v
}

pub fn prompt_kinds() -> (v: Vec<&'static str>)
    ensures
        v@ == seq!["scale", "choice", "tags", "text"],
{
    let mut v: Vec<&'static str> = Vec::new();
    v.push("scale");
    v.push("choice");
    v.push("tags");
    v.push("text");
    assert(v@ =~= seq!["scale", "choice", "tags", "text"]);
    v
}

/// A phase of the trading day.
pub open spec fn phase_ok(p: Seq<char>) -> bool {
    p == "pre"@ || p == "live"@ || p == "post"@
}

/// Why a request is refused: it is malformed, or what it names does not exist.
#[derive(Debug)]
pub enum Refused {
    BadRequest(String),
    NotFound(String),
}

/// Which template a check-in belongs to.
#[derive(Debug, PartialEq, Eq)]
pub enum TemplatePick {
    /// The one the request names; the store still has to have it.
    Id(u128),
    /// The first active template of the phase named, by its place in the active list.
    At(usize),
}

/// The first place in `phases` that holds `p`.
pub open spec fn first_of_phase(phases: Seq<Seq<char>>, p: Seq<char>, i: int) -> bool {
    0 <= i < phases.len() && phases[i] == p && forall|j: int| 0 <= j < i ==> phases[j] != p
}

/// Resolve the template a check-in is saved against: the id when one is given, else the first
/// active template of the phase given, so an older client that names only "the pre-mortem"
/// still lands somewhere sensible. `active_phases` are the active templates' phases, in order.
pub fn resolve_template(template_id: Option<u128>, phase: Option<&str>, active_phases: &Vec<String>) -> (r: Result<TemplatePick, Refused>)
    ensures
        template_id matches Some(id) ==> r == Ok::<TemplatePick, Refused>(TemplatePick::Id(id)),
        template_id is None ==> match phase {
            None => r matches Err(Refused::BadRequest(m)) && m@ == "template_id or phase is required"@,
            Some(p) => if !phase_ok(p@) {
                r matches Err(Refused::BadRequest(m)) && m@ == "phase must be pre|live|post"@
            } else if exists|i: int| first_of_phase(views(active_phases@), p@, i) {
                r matches Ok(TemplatePick::At(i)) && first_of_phase(views(active_phases@), p@, i as int)
            } else {
                r matches Err(Refused::NotFound(m)) && m@ == "no template for that phase"@
                    && forall|i: int| 0 <= i < active_phases@.len() ==> active_phases@[i]@ != p@
            },
        },
{
    if let Some(id) = template_id {
        return Ok(TemplatePick::Id(id));
    }
    let p = match phase {
        Some(p) => p,
        None => {
            return Err(Refused::BadRequest("template_id or phase is required".to_string()));
        },
    };
    if !(str_eq(p, "pre") || str_eq(p, "live") || str_eq(p, "post")) {
        return Err(Refused::BadRequest("phase must be pre|live|post".to_string()));
    }
    let ghost v = views(active_phases@);
    let mut i: usize = 0;
    while i < active_phases.len()
        invariant
            i <= active_phases@.len(),
            v == views(active_phases@),
            template_id is None,
            phase == Some(p),
            phase_ok(p@),
            forall|j: int| 0 <= j < i ==> v[j] != p@,
        decreases active_phases@.len() - i,
    {
        if str_eq(active_phases[i].as_str(), p) {
            assert(first_of_phase(v, p@, i as int));
            return Ok(TemplatePick::At(i));
        }
        i = i + 1;
    }
    proof {
        assert forall|k: int| !first_of_phase(v, p@, k) by {}
        assert forall|k: int| 0 <= k < active_phases@.len() implies active_phases@[k]@ != p@ by {
            assert(v[k] == active_phases@[k]@);
        }
    }
    Err(Refused::NotFound("no template for that phase".to_string()))
}

/// How many recent check-ins the history returns: sixty unless asked, at least one, at most a
/// year's worth.
pub fn history_limit(limit: Option<i64>) -> (n: i64)
    ensures
        n == (match limit {
            Some(l) => if l < 1 { 1 } else if l > 365 { 365 } else { l as int },
            None => 60,
        }),
{
    match limit {
        Some(l) => if l < 1 {
            1
        } else if l > 365 {
            365
        } else {
            l
        },
        None => 60,
    }
}

/// A day's consistency mark: `full` or `action`, or none (an absent or empty mark clears the
/// day).
pub fn day_mark(mark: Option<&str>) -> (r: Result<Option<&str>, String>)
    ensures
        match mark {
            None => r == Ok::<Option<&str>, String>(None),
            Some(m) => if m@.len() == 0 {
                r == Ok::<Option<&str>, String>(None)
            } else if m@ == "full"@ || m@ == "action"@ {
                r == Ok::<Option<&str>, String>(Some(m))
            } else {
                r matches Err(e) && e@ == "mark must be full|action or null"@
            },
        },
{
    match mark {
        None => Ok(None),
        Some(m) => if m.is_empty() {
            Ok(None)
        } else if str_eq(m, "full") || str_eq(m, "action") {
            Ok(Some(m))
        } else {
            Err("mark must be full|action or null".to_string())
        },
    }
}

/// The policy for template notes: small formatted blocks, so only text marks, lists,
/// headings, code, quotes and links (with `href` and `title`, opened in a new tab with
/// `rel="noopener noreferrer nofollow"`, `http`, `https` and `mailto` only) — no images, no
/// tables; nothing else starts allowed.
pub open spec fn note_policy_view() -> PolicyV {
    PolicyV {
        tags: seq!["p"@, "br"@, "strong"@, "b"@, "em"@, "i"@, "u"@, "s"@, "code"@, "pre"@, "blockquote"@,
            "ul"@, "ol"@, "li"@, "h1"@, "h2"@, "h3"@, "a"@, "span"@],
        tag_attributes: seq![("a"@, "href"@), ("a"@, "title"@)],
        link_rel: Some("noopener noreferrer nofollow"@),
        tag_attribute_values: seq![("a"@, "target"@, "_blank"@)],
        url_schemes: seq!["http"@, "https"@, "mailto"@],
    }
}

pub fn note_policy() -> (p: CleanPolicy)
    ensures
        policy_view(&p) == note_policy_view(),
        policy_ok(policy_view(&p)),
{
    let mut tags: Vec<String> = Vec::new();
    tags.push("p".to_string());
    tags.push("br".to_string());
    tags.push("strong".to_string());
    tags.push("b".to_string());
    tags.push("em".to_string());
    tags.push("i".to_string());
    tags.push("u".to_string());
    tags.push("s".to_string());
    tags.push("code".to_string());
    tags.push("pre".to_string());
    tags.push("blockquote".to_string());
    tags.push("ul".to_string());
    tags.push("ol".to_string());
    tags.push("li".to_string());
    tags.push("h1".to_string());
    tags.push("h2".to_string());
    tags.push("h3".to_string());
    tags.push("a".to_string());
    tags.push("span".to_string());
    let mut tag_attributes: Vec<(String, String)> = Vec::new();
    tag_attributes.push(("a".to_string(), "href".to_string()));
    tag_attributes.push(("a".to_string(), "title".to_string()));
    let mut tag_attribute_values: Vec<(String, String, String)> = Vec::new();
    tag_attribute_values.push(("a".to_string(), "target".to_string(), "_blank".to_string()));
    let mut url_schemes: Vec<String> = Vec::new();
    url_schemes.push("http".to_string());
    url_schemes.push("https".to_string());
    url_schemes.push("mailto".to_string());
    let p = CleanPolicy {
        tags,
        tag_attributes,
        link_rel: Some("noopener noreferrer nofollow".to_string()),
        tag_attribute_values,
        url_schemes,
    };
    assert(policy_view(&p).tags =~= note_policy_view().tags);
    assert(policy_view(&p).tag_attributes =~= note_policy_view().tag_attributes);
    assert(policy_view(&p).tag_attribute_values =~= note_policy_view().tag_attribute_values);
    assert(policy_view(&p).url_schemes =~= note_policy_view().url_schemes);
    proof {
        lemma_note_policy_ok();
    }
    p
}

proof fn lemma_note_policy_ok()
    ensures
        policy_ok(note_policy_view()),
{
    reveal_strlit("p");
    reveal_strlit("br");
    reveal_strlit("strong");
    reveal_strlit("b");
    reveal_strlit("em");
    reveal_strlit("i");
    reveal_strlit("u");
    reveal_strlit("s");
    reveal_strlit("code");
    reveal_strlit("pre");
    reveal_strlit("blockquote");
    reveal_strlit("ul");
    reveal_strlit("ol");
    reveal_strlit("li");
    reveal_strlit("h1");
    reveal_strlit("h2");
    reveal_strlit("h3");
    reveal_strlit("a");
    reveal_strlit("span");
    reveal_strlit("script");
    reveal_strlit("style");
    reveal_strlit("href");
    reveal_strlit("title");
    reveal_strlit("rel");
    let v = note_policy_view();
    assert("script"@.len() == 6 && "style"@.len() == 5);
    assert(v.tags.len() == 19);
    assert(v.tags[0] == "p"@ && !is_dropped_with_content(v.tags[0]));
    assert(v.tags[1] == "br"@ && !is_dropped_with_content(v.tags[1]));
    assert("strong"@[1] == 't' && "script"@[1] == 'c');
    assert(v.tags[2] == "strong"@ && !is_dropped_with_content(v.tags[2]));
    assert(v.tags[3] == "b"@ && !is_dropped_with_content(v.tags[3]));
    assert(v.tags[4] == "em"@ && !is_dropped_with_content(v.tags[4]));
    assert(v.tags[5] == "i"@ && !is_dropped_with_content(v.tags[5]));
    assert(v.tags[6] == "u"@ && !is_dropped_with_content(v.tags[6]));
    assert(v.tags[7] == "s"@ && !is_dropped_with_content(v.tags[7]));
    assert(v.tags[8] == "code"@ && !is_dropped_with_content(v.tags[8]));
    assert(v.tags[9] == "pre"@ && !is_dropped_with_content(v.tags[9]));
    assert(v.tags[10] == "blockquote"@ && !is_dropped_with_content(v.tags[10]));
    assert(v.tags[11] == "ul"@ && !is_dropped_with_content(v.tags[11]));
    assert(v.tags[12] == "ol"@ && !is_dropped_with_content(v.tags[12]));
    assert(v.tags[13] == "li"@ && !is_dropped_with_content(v.tags[13]));
    assert(v.tags[14] == "h1"@ && !is_dropped_with_content(v.tags[14]));
    assert(v.tags[15] == "h2"@ && !is_dropped_with_content(v.tags[15]));
    assert(v.tags[16] == "h3"@ && !is_dropped_with_content(v.tags[16]));
    assert(v.tags[17] == "a"@ && !is_dropped_with_content(v.tags[17]));
    assert(v.tags[18] == "span"@ && !is_dropped_with_content(v.tags[18]));
    assert(v.tag_attributes.len() == 2);
    assert(v.tag_attributes[0].0 == "a"@ && v.tag_attributes[0].1 == "href"@);
    assert(v.tag_attributes[1].0 == "a"@ && v.tag_attributes[1].1 == "title"@);
    assert("href"@ != "rel"@ && "title"@ != "rel"@);
    assert(!is_dropped_with_content("a"@));
    assert(v.tag_attribute_values.len() == 1);
}

/// What a template note becomes under [`note_policy_view`].
pub open spec fn note_sanitized_of(html: Seq<char>) -> Seq<char> {
    bare_cleaned_of(html, note_policy_view())
}

/// Sanitise a template note.
pub fn clean_note(html: &str) -> (r: String)
    ensures
        r@ == note_sanitized_of(html@),
{
    ammonia_clean_bare(html, &note_policy())
}

/// What `Date::parse(s, &Iso8601::DATE)` reads: the year, month and day, or `None`.
pub uninterp spec fn iso_date_of(s: Seq<char>) -> Option<(i32, u8, u8)>;

#[verifier::external_body]
fn parse_iso_date(s: &str) -> (r: Option<(i32, u8, u8)>)
    ensures
        r == iso_date_of(s@),
{
    let d = time::Date::parse(s, &time::format_description::well_known::Iso8601::DATE).ok()?;
    Some((d.year(), d.month() as u8, d.day()))
}

/// A check-in's date: the one given, which must be `YYYY-MM-DD`, else today's.
pub fn parse_date(s: Option<&str>, today: (i32, u8, u8)) -> (r: Result<(i32, u8, u8), String>)
    ensures
        match s {
            Some(t) => match iso_date_of(t@) {
                Some(d) => r == Ok::<(i32, u8, u8), String>(d),
                None => r matches Err(e) && e@ == "invalid date (expected YYYY-MM-DD)"@,
            },
            None => r == Ok::<(i32, u8, u8), String>(today),
        },
{
    match s {
        Some(t) => match parse_iso_date(t) {
            Some(d) => Ok(d),
            None => Err("invalid date (expected YYYY-MM-DD)".to_string()),
        },
        None => Ok(today),
    }
}


// ── Mindset prompts ───────────────────────────────────────────────────────────

/// One prompt of a template as the client sent it.
pub struct PromptIn {
    pub id: Option<u128>,
    pub kind: String,
    pub label: String,
    pub hint: String,
    pub config: Json,
}

/// A prompt as stored: label and hint trimmed, the config an object.
pub struct PromptOut {
    pub id: Option<u128>,
    pub kind: String,
    pub label: String,
    pub hint: String,
    pub config: Json,
}

pub open spec fn prompt_kind(k: Seq<char>) -> bool {
    k == "scale"@ || k == "choice"@ || k == "tags"@ || k == "text"@
}

/// The config kept: the one sent when it is an object, an empty object otherwise.
pub open spec fn config_of(c: JsonV) -> JsonV {
    if c is Obj { c } else { JsonV::Obj(Seq::empty()) }
}

/// A choice or tags prompt names its options: a non-empty array of strings.
pub open spec fn options_ok(c: JsonV) -> bool {
    match member(c, "options"@) {
        Some(JsonV::Arr(a)) => a.len() > 0 && forall|i: int| 0 <= i < a.len() ==> (#[trigger] a[i]) is Str,
        _ => false,
    }
}

/// Why a prompt with a label is refused, if it is.
pub open spec fn prompt_error(kind: Seq<char>, config: JsonV) -> Option<Seq<char>> {
    if !prompt_kind(kind) {
        Some("kind must be scale|choice|tags|text"@)
    } else if (kind == "choice"@ || kind == "tags"@) && !options_ok(config_of(config)) {
        Some("choice/tags prompts need config.options: [string, …]"@)
    } else {
        None
    }
}

pub open spec fn prompt_in_view(p: PromptIn) -> (Option<u128>, Seq<char>, Seq<char>, Seq<char>, JsonV) {
    (p.id, p.kind@, p.label@, p.hint@, jv(p.config))
}

pub open spec fn prompt_out_view(p: PromptOut) -> (Option<u128>, Seq<char>, Seq<char>, Seq<char>, JsonV) {
    (p.id, p.kind@, p.label@, p.hint@, jv(p.config))
}

/// The prompts kept, in order: blank labels dropped, the first refusal among the rest
/// failing the whole list.
pub open spec fn cleaned(ps: Seq<(Option<u128>, Seq<char>, Seq<char>, Seq<char>, JsonV)>) -> Result<Seq<(Option<u128>, Seq<char>, Seq<char>, Seq<char>, JsonV)>, Seq<char>>
    decreases ps.len(),
{
    if ps.len() == 0 {
        Ok(Seq::empty())
    } else {
        let (id, kind, label, hint, config) = ps[0];
        if trim(label).len() == 0 {
            cleaned(ps.drop_first())
        } else {
            match prompt_error(kind, config) {
                Some(e) => Err(e),
                None => match cleaned(ps.drop_first()) {
                    Ok(r) => Ok(seq![(id, kind, trim(label), trim(hint), config_of(config))] + r),
                    Err(e) => Err(e),
                },
            }
        }
    }
}

fn options_check(c: &Json) -> (b: bool)
    ensures
        b == options_ok(jv(*c)),
{
    match get(c, "options") {
        Some(Json::Arr(a)) => {
            proof {
                lemma_items_view(*a);
            }
            if a.len() == 0 {
                return false;
            }
            let mut i: usize = 0;
            while i < a.len()
                invariant
                    i <= a@.len(),
                    a@.len() > 0,
                    member(jv(*c), "options"@) == Some(JsonV::Arr(items_view(a@))),
                    forall|j: int| 0 <= j < i ==> (#[trigger] items_view(a@)[j]) is Str,
                decreases a@.len() - i,
            {
                match &a[i] {
                    Json::Str(_) => {},
                    _ => {
                        proof {
                            assert(items_view(a@)[i as int] == jv(a@[i as int]));
                        }
                        return false;
                    },
                }
                proof {
                    assert(items_view(a@)[i as int] == jv(a@[i as int]));
                }
                i = i + 1;
            }
            true
        },
        _ => false,
    }
}

/// A choice or tags prompt must name its options; other kinds need nothing of the config.
pub fn validate_config(kind: &str, config: &Json) -> (r: Result<(), String>)
    ensures
        r is Ok <==> !((kind@ == "choice"@ || kind@ == "tags"@) && !options_ok(jv(*config))),
        r matches Err(e) ==> e@ == "choice/tags prompts need config.options: [string, …]"@,
{
    if (str_eq(kind, "choice") || str_eq(kind, "tags")) && !options_check(config) {
        return Err("choice/tags prompts need config.options: [string, …]".to_string());
    }
    Ok(())
}

/// Trim, validate and drop blank rows. A prompt with no label is not a question.
pub fn clean_prompts(prompts: Vec<PromptIn>) -> (r: Result<Vec<PromptOut>, String>)
    ensures
        match r {
            Ok(v) => cleaned(prompts@.map_values(|p: PromptIn| prompt_in_view(p)))
                == Ok::<_, Seq<char>>(v@.map_values(|p: PromptOut| prompt_out_view(p))),
            Err(e) => cleaned(prompts@.map_values(|p: PromptIn| prompt_in_view(p))) == Err::<Seq<(Option<u128>, Seq<char>, Seq<char>, Seq<char>, JsonV)>, _>(e@),
        },
{
    let ghost ps = prompts@.map_values(|p: PromptIn| prompt_in_view(p));
    let mut out: Vec<PromptOut> = Vec::new();
    let mut i: usize = 0;
    proof {
        assert(ps.skip(0) =~= ps);
        assert(out@.map_values(|p: PromptOut| prompt_out_view(p)) =~= Seq::<(Option<u128>, Seq<char>, Seq<char>, Seq<char>, JsonV)>::empty());
        match cleaned(ps) {
            Ok(all) => {
                assert(Seq::<(Option<u128>, Seq<char>, Seq<char>, Seq<char>, JsonV)>::empty() + all =~= all);
            },
            Err(_) => {},
        }
    }
    while i < prompts.len()
        invariant
            i <= prompts@.len(),
            ps == prompts@.map_values(|p: PromptIn| prompt_in_view(p)),
            match cleaned(ps) {
                Ok(all) => match cleaned(ps.skip(i as int)) {
                    Ok(tail) => all == out@.map_values(|p: PromptOut| prompt_out_view(p)) + tail,
                    Err(_) => false,
                },
                Err(e) => cleaned(ps.skip(i as int)) == Err::<Seq<(Option<u128>, Seq<char>, Seq<char>, Seq<char>, JsonV)>, Seq<char>>(e),
            },
        decreases prompts@.len() - i,
    {
        let p = &prompts[i];
        proof {
            assert(prompt_in_view(*p) == ps[i as int]);
            assert(ps.skip(i as int)[0] == ps[i as int]);
            assert(ps.skip(i as int).drop_first() =~= ps.skip(i + 1));
        }
        let label = crate::text::trim_str(p.label.as_str());
        if label.as_str().is_empty() {
            i = i + 1;
            continue;
        }
        if !(str_eq(p.kind.as_str(), "scale") || str_eq(p.kind.as_str(), "choice")
            || str_eq(p.kind.as_str(), "tags") || str_eq(p.kind.as_str(), "text")) {
            return Err("kind must be scale|choice|tags|text".to_string());
        }
        let config = match &p.config {
            Json::Obj(_) => p.config.copy(),
            _ => Json::Obj(Vec::new()),
        };
        proof {
            assert(jv(config) == config_of(jv(p.config))) by {
                match p.config {
                    Json::Obj(m) => {},
                    _ => {
                        assert(jv(config)->Obj_0 =~= Seq::<(Seq<char>, JsonV)>::empty());
                    },
                }
            }
        }
        match validate_config(p.kind.as_str(), &config) {
            Ok(()) => {},
            Err(e) => {
                return Err(e);
            },
        }
        let hint = crate::text::trim_str(p.hint.as_str());
        let item = PromptOut { id: p.id, kind: p.kind.clone(), label, hint, config };
        let ghost before = out@.map_values(|p: PromptOut| prompt_out_view(p));
        out.push(item);
        proof {
            assert(out@.map_values(|p: PromptOut| prompt_out_view(p)) =~= before.push(prompt_out_view(item)));
            let t = ps.skip(i as int);
            match cleaned(ps) {
                Ok(all) => {
                    match cleaned(ps.skip(i + 1)) {
                        Ok(tail2) => {
                            assert(seq![prompt_out_view(item)] + tail2 == cleaned(t)->Ok_0);
                            assert(before + (seq![prompt_out_view(item)] + tail2) =~= before.push(prompt_out_view(item)) + tail2);
                        },
                        Err(_) => {},
                    }
                },
                Err(_) => {},
            }
        }
        i = i + 1;
    }
    proof {
        assert(ps.skip(i as int) =~= Seq::<(Option<u128>, Seq<char>, Seq<char>, Seq<char>, JsonV)>::empty());
        assert(out@.map_values(|p: PromptOut| prompt_out_view(p)) + Seq::<(Option<u128>, Seq<char>, Seq<char>, Seq<char>, JsonV)>::empty()
            =~= out@.map_values(|p: PromptOut| prompt_out_view(p)));
    }
    Ok(out)
}
} // verus!
