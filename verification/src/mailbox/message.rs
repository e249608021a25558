//! Raw mail bytes through `mail_parser`: each field the library reads, named as the parser
//! returns it, then gathered into [`MailParts`] and handed to [`parse`].

use mail_parser::{MessageParser, MimeHeaders};
use vstd::prelude::*;

use crate::live::bars::{MAX_TS, MIN_TS};
use crate::mailbox::ingest::ParsedMail;
use crate::mailbox::parse::{
    attachment_view, ctype_view, header_text_of, kept_attachments, kept_part, list_kind_of, mime_of,
    or_empty, parse, safe_filename, Attachment, MailParts, RawPart,
};
use crate::text::{lowercase_of, trim};

verus! {

/// A part as a value: its name, whether it has a content id, its media type, its payload.
pub open spec fn raw_part_view(p: RawPart) -> (Option<Seq<char>>, bool, Option<(Seq<char>, Option<Seq<char>>)>, Seq<u8>) {
    (opt_view(p.name), p.has_content_id, ctype_view(p.ctype), p.bytes@)
}

pub open spec fn opt_view(o: Option<String>) -> Option<Seq<char>> {
    match o {
        Some(s) => Some(s@),
        None => None,
    }
}

/// Whether `MessageParser::parse` reads these bytes as a message.
pub uninterp spec fn mail_parses_of(raw: Seq<u8>) -> bool;

/// The first `From` address of the parsed message: its display name and its address.
pub uninterp spec fn mail_from_of(raw: Seq<u8>) -> Option<(Option<Seq<char>>, Option<Seq<char>>)>;

/// `Message::subject` of the parsed message.
pub uninterp spec fn mail_subject_of(raw: Seq<u8>) -> Option<Seq<char>>;

/// `Message::message_id` of the parsed message.
pub uninterp spec fn mail_message_id_of(raw: Seq<u8>) -> Option<Seq<char>>;

/// `Message::date` of the parsed message, as `DateTime::to_timestamp`.
pub uninterp spec fn mail_date_of(raw: Seq<u8>) -> Option<i64>;

/// `Message::body_html(0)` of the parsed message.
pub uninterp spec fn mail_html_of(raw: Seq<u8>) -> Option<Seq<char>>;

/// `Message::body_text(0)` of the parsed message.
pub uninterp spec fn mail_text_of(raw: Seq<u8>) -> Option<Seq<char>>;

/// `Message::header_raw(name)` of the parsed message: the header's value as written.
pub uninterp spec fn mail_header_of(raw: Seq<u8>, name: Seq<char>) -> Option<Seq<char>>;

/// `Message::attachments` of the parsed message, each part by [`raw_part_view`].
pub uninterp spec fn mail_attachments_of(raw: Seq<u8>) -> Seq<(Option<Seq<char>>, bool, Option<(Seq<char>, Option<Seq<char>>)>, Seq<u8>)>;

/// Whether `OffsetDateTime::from_unix_timestamp` accepts `t`: it lies between the first
/// instant of -9999-01-01 and the last of 9999-12-31, UTC (the range of `time` built without
/// its `large-dates` feature, which nothing here enables).
pub open spec fn timestamp_ok_of(t: i64) -> bool {
    MIN_TS <= t <= MAX_TS
}

/// `MessageParser::default().parse(raw).is_some()`.
#[verifier::external_body]
fn mail_parses(raw: &[u8]) -> (r: bool)
    ensures
        r == mail_parses_of(raw@),
{
    MessageParser::default().parse(raw).is_some()
}

/// `Message::from`, its first address, as (name, address).
#[verifier::external_body]
fn mail_from(raw: &[u8]) -> (r: Option<(Option<String>, Option<String>)>)
    ensures
        match r {
            Some((n, a)) => mail_from_of(raw@) == Some((opt_view(n), opt_view(a))),
            None => mail_from_of(raw@) is None,
        },
{
    let msg = MessageParser::default().parse(raw)?;
    let a = msg.from()?.first()?;
    Some((a.name().map(|s| s.to_string()), a.address().map(|s| s.to_string())))
}

/// `Message::subject`.
#[verifier::external_body]
fn mail_subject(raw: &[u8]) -> (r: Option<String>)
    ensures
        opt_view(r) == mail_subject_of(raw@),
{
    MessageParser::default().parse(raw)?.subject().map(|s| s.to_string())
}

/// `Message::message_id`.
#[verifier::external_body]
fn mail_message_id(raw: &[u8]) -> (r: Option<String>)
    ensures
        opt_view(r) == mail_message_id_of(raw@),
{
    MessageParser::default().parse(raw)?.message_id().map(|s| s.to_string())
}

/// `Message::date`, as `DateTime::to_timestamp`.
#[verifier::external_body]
fn mail_date(raw: &[u8]) -> (r: Option<i64>)
    ensures
        r == mail_date_of(raw@),
{
    MessageParser::default().parse(raw)?.date().map(|d| d.to_timestamp())
}

/// `Message::body_html(0)`.
#[verifier::external_body]
fn mail_html(raw: &[u8]) -> (r: Option<String>)
    ensures
        opt_view(r) == mail_html_of(raw@),
{
    MessageParser::default().parse(raw)?.body_html(0).map(|s| s.into_owned())
}

/// `Message::body_text(0)`.
#[verifier::external_body]
fn mail_text(raw: &[u8]) -> (r: Option<String>)
    ensures
        opt_view(r) == mail_text_of(raw@),
{
    MessageParser::default().parse(raw)?.body_text(0).map(|s| s.into_owned())
}

/// `Message::header_raw(name)`.
#[verifier::external_body]
fn mail_header(raw: &[u8], name: &str) -> (r: Option<String>)
    ensures
        opt_view(r) == mail_header_of(raw@, name@),
{
    MessageParser::default().parse(raw)?.header_raw(name).map(|s| s.to_string())
}

/// `Message::attachments`, each part's name, content id, media type and contents.
#[verifier::external_body]
fn mail_attachments(raw: &[u8]) -> (r: Vec<RawPart>)
    ensures
        r@.map_values(|p: RawPart| raw_part_view(p)) == mail_attachments_of(raw@),
{
    let Some(msg) = MessageParser::default().parse(raw) else { return Vec::new() };
    msg.attachments()
        .map(|p| RawPart {
            name: p.attachment_name().map(|s| s.to_string()),
            has_content_id: p.content_id().is_some(),
            ctype: p.content_type().map(|c| (c.ctype().to_string(), c.subtype().map(|s| s.to_string()))),
            bytes: p.contents().to_vec(),
        })
        .collect()
}

/// What `time`'s range error on a Unix timestamp displays: `ensure_ranged!` names the
/// component after the `timestamp` parameter, and `ComponentRange` shows `{name} was not in
/// range`.
pub open spec fn timestamp_error() -> Seq<char> {
    "timestamp was not in range"@
}

/// `OffsetDateTime::from_unix_timestamp(t)`, kept as success or the text of its error.
/// Claimed: it succeeds exactly within the representable range, [`timestamp_ok_of`], and
/// otherwise fails with [`timestamp_error`].
#[verifier::external_body]
pub(crate) fn unix_timestamp(t: i64) -> (r: Result<(), String>)
    ensures
        r is Ok <==> timestamp_ok_of(t),
        r matches Err(m) ==> m@ == timestamp_error(),
{
    time::OffsetDateTime::from_unix_timestamp(t).map(|_| ()).map_err(|e| e.to_string())
}

/// What the message parser reads of one mail: the first `From` address, the plain headers,
/// the `Date` when it is a date this build represents, the first HTML and text bodies, the
/// raw list headers (the parser reads `List-Unsubscribe` as an address list, which mangles
/// the `<https://…>` entry) and the parts. `None` only when the bytes are not a message.
pub fn mail_parts(raw: &[u8]) -> (r: Option<MailParts>)
    ensures
        r is Some <==> mail_parses_of(raw@),
        r matches Some(m) ==> {
            &&& match m.from {
                Some((n, a)) => mail_from_of(raw@) == Some((opt_view(n), opt_view(a))),
                None => mail_from_of(raw@) is None,
            }
            &&& opt_view(m.subject) == mail_subject_of(raw@)
            &&& opt_view(m.message_id) == mail_message_id_of(raw@)
            &&& m.date == (match mail_date_of(raw@) {
                Some(t) => if timestamp_ok_of(t) { Some(t) } else { None },
                None => None,
            })
            &&& opt_view(m.html) == mail_html_of(raw@)
            &&& opt_view(m.text) == mail_text_of(raw@)
            &&& opt_view(m.list_unsubscribe) == mail_header_of(raw@, "List-Unsubscribe"@)
            &&& opt_view(m.list_id) == mail_header_of(raw@, "List-Id"@)
            &&& opt_view(m.precedence) == mail_header_of(raw@, "Precedence"@)
            &&& opt_view(m.list_unsubscribe_post) == mail_header_of(raw@, "List-Unsubscribe-Post"@)
            &&& m.parts@.map_values(|p: RawPart| raw_part_view(p)) == mail_attachments_of(raw@)
        },
{
    if !mail_parses(raw) {
        return None;
    }
    let date = match mail_date(raw) {
        Some(t) => if unix_timestamp(t).is_ok() { Some(t) } else { None },
        None => None,
    };
    Some(MailParts {
        from: mail_from(raw),
        subject: mail_subject(raw),
        message_id: mail_message_id(raw),
        date,
        html: mail_html(raw),
        text: mail_text(raw),
        list_unsubscribe: mail_header(raw, "List-Unsubscribe"),
        list_id: mail_header(raw, "List-Id"),
        precedence: mail_header(raw, "Precedence"),
        list_unsubscribe_post: mail_header(raw, "List-Unsubscribe-Post"),
        parts: mail_attachments(raw),
    })
}

pub open spec fn opt_or_empty(o: Option<Seq<char>>) -> Seq<char> {
    match o {
        Some(s) => s,
        None => Seq::empty(),
    }
}

/// The attachments kept of parts given by value, as [`kept_attachments`] keeps them.
pub open spec fn kept_of(parts: Seq<(Option<Seq<char>>, bool, Option<(Seq<char>, Option<Seq<char>>)>, Seq<u8>)>) -> Seq<(Seq<char>, Seq<char>, Seq<u8>)>
    decreases parts.len(),
{
    if parts.len() == 0 {
        Seq::empty()
    } else {
        let r = kept_of(parts.drop_last());
        let p = parts.last();
        if p.0 matches Some(n) && trim(n).len() > 0 && !p.1 {
            r.push((safe_filename(opt_or_empty(p.0)), mime_of(p.2), p.3))
        } else {
            r
        }
    }
}

proof fn lemma_kept_of(parts: Seq<RawPart>)
    ensures
        kept_attachments(parts) == kept_of(parts.map_values(|p: RawPart| raw_part_view(p))),
    decreases parts.len(),
{
    if parts.len() > 0 {
        lemma_kept_of(parts.drop_last());
        assert(parts.drop_last().map_values(|p: RawPart| raw_part_view(p))
            == parts.map_values(|p: RawPart| raw_part_view(p)).drop_last());
        let p = parts.last();
        assert(or_empty(p.name) == opt_or_empty(opt_view(p.name)));
        assert(kept_part(p) == (opt_view(p.name) matches Some(n) && trim(n).len() > 0 && !p.has_content_id));
    }
}

/// One mail from its raw bytes to the fields this module keeps: [`mail_parts`], then
/// [`parse`]. `None` only when the bytes are not a message.
pub fn parse_raw(raw: &[u8]) -> (r: Option<ParsedMail>)
    ensures
        r is Some <==> mail_parses_of(raw@),
        r matches Some(p) ==> {
            let from = mail_from_of(raw@);
            &&& p.from_name@ == trim(match from {
                Some((n, _)) => opt_or_empty(n),
                None => Seq::empty(),
            })
            &&& p.from_addr@ == lowercase_of(trim(match from {
                Some((_, a)) => opt_or_empty(a),
                None => Seq::empty(),
            }))
            &&& p.subject@ == trim(opt_or_empty(mail_subject_of(raw@)))
            &&& p.message_id@ == trim(opt_or_empty(mail_message_id_of(raw@)))
            &&& p.date == (match mail_date_of(raw@) {
                Some(t) => if timestamp_ok_of(t) { Some(t) } else { None },
                None => None,
            })
            &&& opt_view(p.html) == mail_html_of(raw@)
            &&& opt_view(p.text) == mail_text_of(raw@)
            &&& p.list_unsubscribe@ == header_text_of(opt_or_empty(mail_header_of(raw@, "List-Unsubscribe"@)))
            &&& ({
                let k = list_kind_of(
                    header_text_of(opt_or_empty(mail_header_of(raw@, "List-Unsubscribe"@))),
                    header_text_of(opt_or_empty(mail_header_of(raw@, "List-Id"@))),
                    header_text_of(opt_or_empty(mail_header_of(raw@, "Precedence"@))),
                    header_text_of(opt_or_empty(mail_header_of(raw@, "List-Unsubscribe-Post"@))),
                );
                p.is_bulk == k.is_bulk && p.list_unsub_post == k.one_click
            })
            &&& p.attachments@.map_values(|a: Attachment| attachment_view(a)) == kept_of(mail_attachments_of(raw@))
        },
{
    match mail_parts(raw) {
        Some(m) => {
            let p = parse(&m);
            proof {
                lemma_kept_of(m.parts@);
                assert(or_empty(m.subject) == opt_or_empty(opt_view(m.subject)));
                assert(or_empty(m.message_id) == opt_or_empty(opt_view(m.message_id)));
                assert(or_empty(m.list_unsubscribe) == opt_or_empty(opt_view(m.list_unsubscribe)));
                assert(or_empty(m.list_id) == opt_or_empty(opt_view(m.list_id)));
                assert(or_empty(m.precedence) == opt_or_empty(opt_view(m.precedence)));
                assert(or_empty(m.list_unsubscribe_post) == opt_or_empty(opt_view(m.list_unsubscribe_post)));
                match m.from {
                    Some((n, a)) => {
                        assert(or_empty(n) == opt_or_empty(opt_view(n)));
                        assert(or_empty(a) == opt_or_empty(opt_view(a)));
                    },
                    None => {},
                }
            }
            Some(p)
        },
        None => None,
    }
}

} // verus!
