//! The fields kept of a mail, and how it is classified.
//!
//! A mail is *bulk* when it carries the headers a mailing list is required to send
//! (`List-Unsubscribe`, `List-Id`, `Precedence: bulk`). Bulk mail is kept automatically;
//! anything else is only recorded as a sender awaiting the user's decision, so connecting a
//! personal mailbox never silently copies private conversations into the database.

use vstd::prelude::*;

use crate::mailbox::ingest::ParsedMail;

use crate::text::{
    ascii_lower, chars_of, contains, lower_vec, replace_char_vec, split_chars, split_on,
    starts_with, str_contains, str_eq, strip_lead, strip_lead_vec, strip_trail, strip_trail_vec,
    string_of, to_lowercase, lowercase_of, trim, trim_start, trim_end, trim_vec, views, is_ws,
};

verus! {

/// One named payload of a mail.
pub struct Attachment {
    pub filename: String,
    pub mime: String,
    pub bytes: Vec<u8>,
}

/// `char::is_control`: the C0 and C1 control characters.
pub open spec fn is_control(c: char) -> bool {
    (c as u32) <= 0x1F || (0x7F <= (c as u32) && (c as u32) <= 0x9F)
}

/// Path separators, line breaks, quotes and control characters become `_`.
pub open spec fn filename_char(c: char) -> char {
    if c == '/' || c == '\\' || c == '\r' || c == '\n' || c == '"' || is_control(c) {
        '_'
    } else {
        c
    }
}

/// A name usable as a download name: mapped, cut to 120 characters, trimmed of white space
/// and of dots at both ends, and `attachment` when nothing is left.
pub open spec fn safe_filename(name: Seq<char>) -> Seq<char> {
    let m = name.map_values(|c: char| filename_char(c));
    let cut = if m.len() > 120 { m.take(120) } else { m };
    let t = strip_trail(strip_lead(trim(cut), '.'), '.');
    if t.len() == 0 {
        "attachment"@
    } else {
        t
    }
}

/// Keep a filename usable as a download name: no path separators, no control characters.
pub fn sanitize_filename(name: &str) -> (r: String)
    ensures
        r@ == safe_filename(name@),
{
    let v = chars_of(name);
    let mut m: Vec<char> = Vec::new();
    let mut i: usize = 0;
    while i < v.len() && i < 120
        invariant
            i <= v@.len(),
            i <= 120,
            m@ == v@.map_values(|c: char| filename_char(c)).take(i as int),
        decreases v@.len() - i,
    {
        let c = v[i];
        let u = c as u32;
        let d = if c == '/' || c == '\\' || c == '\r' || c == '\n' || c == '"' || u <= 0x1F || (0x7F <= u
            && u <= 0x9F) {
            '_'
        } else {
            c
        };
        m.push(d);
        proof {
            let mv = v@.map_values(|c: char| filename_char(c));
            assert(mv.take(i + 1) == mv.take(i as int).push(mv[i as int]));
        }
        i = i + 1;
    }
    proof {
        let mv = v@.map_values(|c: char| filename_char(c));
        if mv.len() <= 120 {
            assert(mv.take(mv.len() as int) == mv);
        }
    }
    let t = strip_trail_vec(&strip_lead_vec(&trim_vec(&m), '.'), '.');
    if t.len() == 0 {
        proof {
            reveal_strlit("attachment");
        }
        "attachment".to_string()
    } else {
        string_of(t.as_slice())
    }
}

/// Neither separator appears in `s`.
pub open spec fn no_separator(s: Seq<char>) -> bool {
    forall|i: int| 0 <= i < s.len() ==> #[trigger] s[i] != '/' && s[i] != '\\'
}

proof fn lemma_trim_start_keeps(s: Seq<char>)
    requires
        no_separator(s),
    ensures
        no_separator(trim_start(s)),
    decreases s.len(),
{
    if s.len() > 0 && is_ws(s[0]) {
        let d = s.drop_first();
        assert forall|i: int| 0 <= i < d.len() implies #[trigger] d[i] != '/' && d[i] != '\\' by {
            assert(d[i] == s[i + 1]);
        }
        lemma_trim_start_keeps(d);
    }
}

proof fn lemma_trim_end_keeps(s: Seq<char>)
    requires
        no_separator(s),
    ensures
        no_separator(trim_end(s)),
    decreases s.len(),
{
    if s.len() > 0 && is_ws(s.last()) {
        let d = s.drop_last();
        assert forall|i: int| 0 <= i < d.len() implies #[trigger] d[i] != '/' && d[i] != '\\' by {
            assert(d[i] == s[i]);
        }
        lemma_trim_end_keeps(d);
    }
}

proof fn lemma_strip_lead_keeps(s: Seq<char>, c: char)
    requires
        no_separator(s),
    ensures
        no_separator(strip_lead(s, c)),
        strip_lead(s, c).len() > 0 ==> strip_lead(s, c)[0] != c,
    decreases s.len(),
{
    if s.len() > 0 && s[0] == c {
        let d = s.drop_first();
        assert forall|i: int| 0 <= i < d.len() implies #[trigger] d[i] != '/' && d[i] != '\\' by {
            assert(d[i] == s[i + 1]);
        }
        lemma_strip_lead_keeps(d, c);
    }
}

proof fn lemma_strip_trail_prefix(s: Seq<char>, c: char)
    ensures
        strip_trail(s, c).len() <= s.len(),
        forall|i: int| 0 <= i < strip_trail(s, c).len() ==> #[trigger] strip_trail(s, c)[i] == s[i],
    decreases s.len(),
{
    if s.len() > 0 && s.last() == c {
        lemma_strip_trail_prefix(s.drop_last(), c);
    }
}

/// A sanitised filename has no path separator and never starts with a dot, so it cannot
/// climb out of the directory it is saved in.
pub proof fn lemma_filenames_cannot_escape(name: Seq<char>)
    ensures
        no_separator(safe_filename(name)),
        safe_filename(name).len() > 0,
        safe_filename(name)[0] != '.',
{
    reveal_strlit("attachment");
    let m = name.map_values(|c: char| filename_char(c));
    let cut = if m.len() > 120 { m.take(120) } else { m };
    assert(no_separator(cut));
    lemma_trim_start_keeps(cut);
    lemma_trim_end_keeps(trim_start(cut));
    let a = strip_lead(trim(cut), '.');
    lemma_strip_lead_keeps(trim(cut), '.');
    lemma_strip_trail_prefix(a, '.');
    let t = strip_trail(a, '.');
    if t.len() > 0 {
        assert(t[0] == a[0]);
        assert forall|i: int| 0 <= i < t.len() implies #[trigger] t[i] != '/' && t[i] != '\\' by {
            assert(t[i] == a[i]);
        }
    }
}

/// One `List-Unsubscribe` entry without its white space and angle brackets.
pub open spec fn unsub_entry(p: Seq<char>) -> Seq<char> {
    trim(strip_trail(strip_lead(trim(p), '<'), '>'))
}

pub open spec fn is_web_url(p: Seq<char>) -> bool {
    starts_with(p, "https://"@)
}

/// The first entry of the list that is an https URL.
pub open spec fn first_web_url(parts: Seq<Seq<char>>) -> Option<Seq<char>>
    decreases parts.len(),
{
    if parts.len() == 0 {
        None
    } else if is_web_url(unsub_entry(parts[0])) {
        Some(unsub_entry(parts[0]))
    } else {
        first_web_url(parts.drop_first())
    }
}

/// The https URL of a `List-Unsubscribe` header, if it offers one. The header is a list of
/// `<…>` entries mixing `mailto:` and `https:`; a plain `http:` link is not offered up.
pub fn unsubscribe_url(header: &str) -> (r: Option<String>)
    ensures
        match r {
            Some(u) => first_web_url(split_on(header@, ',')) == Some(u@),
            None => first_web_url(split_on(header@, ',')) is None,
        },
{
    let parts = split_chars(header, ',');
    let https = chars_of("https://");
    let mut i: usize = 0;
    assert(views(parts@).skip(0) == views(parts@));
    while i < parts.len()
        invariant
            i <= parts@.len(),
            views(parts@) == split_on(header@, ','),
            https@ == "https://"@,
            first_web_url(views(parts@).skip(i as int)) == first_web_url(split_on(header@, ',')),
        decreases parts@.len() - i,
    {
        let e = trim_vec(&strip_trail_vec(&strip_lead_vec(&trim_vec(&chars_of(parts[i].as_str())), '<'), '>'));
        proof {
            let rest = views(parts@).skip(i as int);
            assert(rest[0] == parts@[i as int]@);
            assert(rest.drop_first() == views(parts@).skip(i + 1));
        }
        if crate::text::matches_at(&e, &https, 0) {
            return Some(string_of(e.as_slice()));
        }
        i = i + 1;
    }
    None
}

/// A header's raw value with its line breaks turned into spaces, trimmed.
pub open spec fn header_text_of(raw: Seq<char>) -> Seq<char> {
    trim(crate::text::replace_char(crate::text::replace_char(raw, '\r', ' '), '\n', ' '))
}

pub fn header_text(raw: &str) -> (r: String)
    ensures
        r@ == header_text_of(raw@),
{
    let v = replace_char_vec(&replace_char_vec(&chars_of(raw), '\r', ' '), '\n', ' ');
    string_of(trim_vec(&v).as_slice())
}

/// The list headers, classified.
#[derive(Debug, Clone, Copy, PartialEq, Eq, Structural)]
pub struct ListKind {
    /// The mail carries a list header, or a `Precedence` of `bulk`, `list` or `junk`.
    pub is_bulk: bool,
    /// RFC 8058: the sender accepts a one-click POST to unsubscribe.
    pub one_click: bool,
}

pub open spec fn list_kind_of(unsub: Seq<char>, list_id: Seq<char>, precedence: Seq<char>, unsub_post: Seq<char>) -> ListKind {
    let p = ascii_lower(precedence);
    ListKind {
        is_bulk: unsub.len() > 0 || list_id.len() > 0 || p == "bulk"@ || p == "list"@ || p == "junk"@,
        one_click: contains(ascii_lower(unsub_post), "one-click"@),
    }
}

/// Each list header alone marks a mail as bulk: a `List-Unsubscribe`, a `List-Id`, or a
/// `Precedence` of `bulk`, `list` or `junk` (any case). A mail with none of them is personal.
/// One-click unsubscribe is offered exactly when `List-Unsubscribe-Post` names `One-Click`.
pub proof fn lemma_list_headers_make_bulk(unsub: Seq<char>, list_id: Seq<char>, precedence: Seq<char>, unsub_post: Seq<char>)
    ensures
        unsub.len() > 0 ==> list_kind_of(unsub, list_id, precedence, unsub_post).is_bulk,
        list_id.len() > 0 ==> list_kind_of(unsub, list_id, precedence, unsub_post).is_bulk,
        (ascii_lower(precedence) == "bulk"@ || ascii_lower(precedence) == "list"@
            || ascii_lower(precedence) == "junk"@) ==> list_kind_of(unsub, list_id, precedence, unsub_post).is_bulk,
        (unsub.len() == 0 && list_id.len() == 0 && ascii_lower(precedence) != "bulk"@
            && ascii_lower(precedence) != "list"@ && ascii_lower(precedence) != "junk"@)
            ==> !list_kind_of(unsub, list_id, precedence, unsub_post).is_bulk,
        list_kind_of(unsub, list_id, precedence, unsub_post).one_click
            <==> contains(ascii_lower(unsub_post), "one-click"@),
{
}

/// Classify a mail from its list headers, each already through [`header_text`].
pub fn list_kind(unsub: &str, list_id: &str, precedence: &str, unsub_post: &str) -> (k: ListKind)
    ensures
        k == list_kind_of(unsub@, list_id@, precedence@, unsub_post@),
        unsub@.len() > 0 ==> k.is_bulk,
        list_id@.len() > 0 ==> k.is_bulk,
        (ascii_lower(precedence@) == "bulk"@ || ascii_lower(precedence@) == "list"@
            || ascii_lower(precedence@) == "junk"@) ==> k.is_bulk,
{
    proof {
        lemma_list_headers_make_bulk(unsub@, list_id@, precedence@, unsub_post@);
    }
    let p = string_of(lower_vec(&chars_of(precedence)).as_slice());
    let post = string_of(lower_vec(&chars_of(unsub_post)).as_slice());
    let unsub_empty = unsub.is_empty();
    let id_empty = list_id.is_empty();
    ListKind {
        is_bulk: !unsub_empty || !id_empty || str_eq(p.as_str(), "bulk") || str_eq(p.as_str(), "list")
            || str_eq(p.as_str(), "junk"),
        one_click: str_contains(post.as_str(), "one-click"),
    }
}

/// The sender's address as stored: trimmed and lower-cased.
pub fn sender_address(raw: &str) -> (r: String)
    ensures
        r@ == lowercase_of(trim(raw@)),
        crate::text::all_ascii(trim(raw@)) ==> r@ == ascii_lower(trim(raw@)),
{
    let t = string_of(trim_vec(&chars_of(raw)).as_slice());
    to_lowercase(t.as_str())
}

/// Inline parts referenced by the body (`cid:` images, signatures) are not attachments a user
/// would look for: only named payloads are kept.
pub fn keep_attachment(name: Option<&str>, has_content_id: bool) -> (b: bool)
    ensures
        b == (name matches Some(n) && trim(n@).len() > 0 && !has_content_id),
{
    match name {
        Some(n) => trim_vec(&chars_of(n)).len() > 0 && !has_content_id,
        None => false,
    }
}

/// An attachment's media type: `type/subtype`, the bare type, or the octet-stream default.
pub open spec fn mime_of(ctype: Option<(Seq<char>, Option<Seq<char>>)>) -> Seq<char> {
    match ctype {
        Some((t, Some(sub))) => t + "/"@ + sub,
        Some((t, None)) => t,
        None => "application/octet-stream"@,
    }
}

pub fn mime(ctype: Option<(&str, Option<&str>)>) -> (r: String)
    ensures
        r@ == mime_of(match ctype {
            Some((t, s)) => Some((t@, crate::text::opt_str(s))),
            None => None,
        }),
{
    match ctype {
        Some((t, Some(sub))) => {
            let mut m = t.to_string();
            m.append("/");
            m.append(sub);
            m
        },
        Some((t, None)) => t.to_string(),
        None => "application/octet-stream".to_string(),
    }
}


// ── One mail, field by field ──────────────────────────────────────────────────

/// One MIME part the message parser lists as an attachment: its name, whether the body
/// references it by `Content-ID`, its content type, and its payload.
pub struct RawPart {
    pub name: Option<String>,
    pub has_content_id: bool,
    pub ctype: Option<(String, Option<String>)>,
    pub bytes: Vec<u8>,
}

/// What the message parser reads of one mail: the first `From` address (name, address),
/// the plain headers, the raw list headers, the first HTML and text bodies, and the parts.
pub struct MailParts {
    pub from: Option<(Option<String>, Option<String>)>,
    pub subject: Option<String>,
    pub message_id: Option<String>,
    /// The `Date` header as seconds since the epoch, when it parsed into a valid date.
    pub date: Option<i64>,
    pub html: Option<String>,
    pub text: Option<String>,
    pub list_unsubscribe: Option<String>,
    pub list_id: Option<String>,
    pub precedence: Option<String>,
    pub list_unsubscribe_post: Option<String>,
    pub parts: Vec<RawPart>,
}

pub open spec fn or_empty(o: Option<String>) -> Seq<char> {
    match o {
        Some(s) => s@,
        None => Seq::empty(),
    }
}

pub open spec fn ctype_view(c: Option<(String, Option<String>)>) -> Option<(Seq<char>, Option<Seq<char>>)> {
    match c {
        Some((t, s)) => Some((t@, match s {
            Some(x) => Some(x@),
            None => None,
        })),
        None => None,
    }
}

/// A part kept as an attachment: named (non-blank) and not referenced inline.
pub open spec fn kept_part(p: RawPart) -> bool {
    p.name matches Some(n) && trim(n@).len() > 0 && !p.has_content_id
}

/// The attachments kept of a mail's parts, in order: file name, media type, payload.
pub open spec fn kept_attachments(parts: Seq<RawPart>) -> Seq<(Seq<char>, Seq<char>, Seq<u8>)>
    decreases parts.len(),
{
    if parts.len() == 0 {
        Seq::empty()
    } else {
        let r = kept_attachments(parts.drop_last());
        let p = parts.last();
        if kept_part(p) {
            r.push((safe_filename(or_empty(p.name)), mime_of(ctype_view(p.ctype)), p.bytes@))
        } else {
            r
        }
    }
}

pub open spec fn attachment_view(a: Attachment) -> (Seq<char>, Seq<char>, Seq<u8>) {
    (a.filename@, a.mime@, a.bytes@)
}

/// A raw header, flattened and trimmed; an absent one is empty.
fn header_of(o: &Option<String>) -> (t: String)
    ensures
        t@ == header_text_of(or_empty(*o)),
{
    match o {
        Some(x) => header_text(x.as_str()),
        None => {
            let r = header_text("");
            proof {
                reveal_strlit("");
                assert(""@ =~= Seq::<char>::empty());
            }
            r
        },
    }
}

/// A plain header, trimmed; an absent one is empty.
fn trimmed_of(o: &Option<String>) -> (t: String)
    ensures
        t@ == trim(or_empty(*o)),
{
    match o {
        Some(x) => string_of(trim_vec(&chars_of(x.as_str())).as_slice()),
        None => {
            proof {
                assert(trim(Seq::<char>::empty()) =~= Seq::<char>::empty());
            }
            String::new()
        },
    }
}

fn copy_bytes(v: &Vec<u8>) -> (r: Vec<u8>)
    ensures
        r@ == v@,
{
    let mut r: Vec<u8> = Vec::new();
    let mut i: usize = 0;
    while i < v.len()
        invariant
            i <= v@.len(),
            r@ == v@.take(i as int),
        decreases v@.len() - i,
    {
        r.push(v[i]);
        proof {
            assert(v@.take(i + 1) == v@.take(i as int).push(v@[i as int]));
        }
        i = i + 1;
    }
    proof {
        assert(v@.take(v@.len() as int) == v@);
    }
    r
}

/// The fields this module keeps of one mail, from what the message parser read of it: the
/// sender (name trimmed, address trimmed and lower-cased), the trimmed subject and id, the
/// list headers with their line breaks flattened, the bulk and one-click classification, and
/// the named attachments with safe file names.
pub fn parse(m: &MailParts) -> (r: ParsedMail)
    ensures
        r.from_name@ == trim(match m.from {
            Some((n, _)) => or_empty(n),
            None => Seq::empty(),
        }),
        r.from_addr@ == lowercase_of(trim(match m.from {
            Some((_, a)) => or_empty(a),
            None => Seq::empty(),
        })),
        crate::text::all_ascii(trim(match m.from {
            Some((_, a)) => or_empty(a),
            None => Seq::empty(),
        })) ==> r.from_addr@ == ascii_lower(trim(match m.from {
            Some((_, a)) => or_empty(a),
            None => Seq::empty(),
        })),
        r.subject@ == trim(or_empty(m.subject)),
        r.message_id@ == trim(or_empty(m.message_id)),
        r.date == m.date,
        r.html == m.html,
        r.text == m.text,
        r.list_unsubscribe@ == header_text_of(or_empty(m.list_unsubscribe)),
        ({
            let k = list_kind_of(
                header_text_of(or_empty(m.list_unsubscribe)),
                header_text_of(or_empty(m.list_id)),
                header_text_of(or_empty(m.precedence)),
                header_text_of(or_empty(m.list_unsubscribe_post)),
            );
            r.is_bulk == k.is_bulk && r.list_unsub_post == k.one_click
        }),
        r.attachments@.map_values(|a: Attachment| attachment_view(a)) == kept_attachments(m.parts@),
{
    let (from_name, from_addr) = match &m.from {
        Some((n, a)) => {
            let name = match n {
                Some(x) => string_of(trim_vec(&chars_of(x.as_str())).as_slice()),
                None => String::new(),
            };
            let addr = match a {
                Some(x) => sender_address(x.as_str()),
                None => sender_address(""),
            };
            proof {
                reveal_strlit("");
                assert(""@ =~= Seq::<char>::empty());
                assert(trim(Seq::<char>::empty()) =~= Seq::<char>::empty());
            }
            (name, addr)
        },
        None => {
            proof {
                reveal_strlit("");
                assert(""@ =~= Seq::<char>::empty());
                assert(trim(Seq::<char>::empty()) =~= Seq::<char>::empty());
            }
            (String::new(), sender_address(""))
        },
    };
    let list_unsubscribe = header_of(&m.list_unsubscribe);
    let list_id = header_of(&m.list_id);
    let precedence = header_of(&m.precedence);
    let post = header_of(&m.list_unsubscribe_post);
    let k = list_kind(list_unsubscribe.as_str(), list_id.as_str(), precedence.as_str(), post.as_str());
    let subject = trimmed_of(&m.subject);
    let message_id = trimmed_of(&m.message_id);
    let mut attachments: Vec<Attachment> = Vec::new();
    let mut i: usize = 0;
    while i < m.parts.len()
        invariant
            i <= m.parts@.len(),
            attachments@.map_values(|a: Attachment| attachment_view(a)) == kept_attachments(m.parts@.take(i as int)),
        decreases m.parts@.len() - i,
    {
        let p = &m.parts[i];
        proof {
            assert(m.parts@.take(i + 1).drop_last() == m.parts@.take(i as int));
            assert(m.parts@.take(i + 1).last() == *p);
        }
        let name = match &p.name {
            Some(n) => Some(n.as_str()),
            None => None,
        };
        if keep_attachment(name, p.has_content_id) {
            let filename = match &p.name {
                Some(n) => sanitize_filename(n.as_str()),
                None => sanitize_filename("attachment"),
            };
            let ct = match &p.ctype {
                Some((t, s)) => Some((t.as_str(), match s {
                    Some(x) => Some(x.as_str()),
                    None => None,
                })),
                None => None,
            };
            let a = Attachment { filename, mime: mime(ct), bytes: copy_bytes(&p.bytes) };
            let ghost before = attachments@.map_values(|a: Attachment| attachment_view(a));
            attachments.push(a);
            proof {
                assert(attachments@.map_values(|a: Attachment| attachment_view(a)) =~= before.push(attachment_view(a)));
            }
        }
        i = i + 1;
    }
    proof {
        assert(m.parts@.take(m.parts@.len() as int) == m.parts@);
    }
    ParsedMail {
        from_addr,
        from_name,
        subject,
        message_id,
        date: m.date,
        html: match &m.html {
            Some(h) => Some(h.clone()),
            None => None,
        },
        text: match &m.text {
            Some(t) => Some(t.clone()),
            None => None,
        },
        list_unsubscribe,
        list_unsub_post: k.one_click,
        is_bulk: k.is_bulk,
        attachments,
    }
}

} // verus!
