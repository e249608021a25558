//! HTML hygiene for stored mail.
//!
//! Newsletter HTML is hostile by default: tracking pixels, remote CSS, click-wrapped links,
//! sometimes scripts. Two rules make it safe to display:
//!
//! 1. **Sanitise once, at ingest.** Scripts, styles, forms and frames never reach the
//!    database, so a body cannot become dangerous later by being rendered differently.
//! 2. **Park remote images.** Their URL moves from `src` to `data-otw-src`, so opening a mail
//!    sends no request to the sender. The reader can put them back on demand
//!    ([`restore_images`]), which is a deliberate, per-message choice.

use vstd::prelude::*;

use crate::text::{
    contains, lemma_absent_in_piece, lemma_replace_absent, lemma_replace_head, lemma_replace_split,
    ascii_lower, chars_of, find, index_of, is_whitespace, is_ws, lemma_index_of_bounds,
    lower_vec, occurs_at, replace_all, replace_str, slice_chars, starts_with, string_of, trim,
    trim_vec,
};

verus! {

/// How `ammonia` is told to clean one kind of HTML, on top of the tag set it starts from.
pub struct CleanPolicy {
    /// Tags allowed besides the base set.
    pub tags: Vec<String>,
    /// Attributes allowed on a tag, as (tag, attribute).
    pub tag_attributes: Vec<(String, String)>,
    /// The `rel` every link is given, if any.
    pub link_rel: Option<String>,
    /// Attribute values set on every element of a tag, as (tag, attribute, value).
    pub tag_attribute_values: Vec<(String, String, String)>,
    /// The only URL schemes kept.
    pub url_schemes: Vec<String>,
}

/// A policy as values.
pub struct PolicyV {
    pub tags: Seq<Seq<char>>,
    pub tag_attributes: Seq<(Seq<char>, Seq<char>)>,
    pub link_rel: Option<Seq<char>>,
    pub tag_attribute_values: Seq<(Seq<char>, Seq<char>, Seq<char>)>,
    pub url_schemes: Seq<Seq<char>>,
}

pub open spec fn policy_view(p: &CleanPolicy) -> PolicyV {
    PolicyV {
        tags: p.tags@.map_values(|t: String| t@),
        tag_attributes: p.tag_attributes@.map_values(|e: (String, String)| (e.0@, e.1@)),
        link_rel: match p.link_rel {
            Some(r) => Some(r@),
            None => None,
        },
        tag_attribute_values: p.tag_attribute_values@.map_values(|e: (String, String, String)| (e.0@, e.1@, e.2@)),
        url_schemes: p.url_schemes@.map_values(|t: String| t@),
    }
}

/// `script` and `style`: the tags whose content ammonia drops together with the tag, in the
/// builders it starts from.
pub open spec fn is_dropped_with_content(t: Seq<char>) -> bool {
    t == "script"@ || t == "style"@
}

/// The policies `ammonia::Builder::clean` accepts and answers the same way in every run:
/// - no `script` or `style` among the added tags or as a tag given attributes (`clean` asserts
///   that a tag whose content it drops is neither allowed nor given attributes);
/// - no `rel` allowed on `a` while a link `rel` is set (`clean` asserts that too);
/// - at most one set attribute value per tag (ammonia keeps a tag's set values in a `HashMap`
///   and adds them in that map's walk order, which differs from process to process).
pub open spec fn policy_ok(p: PolicyV) -> bool {
    &&& forall|i: int| 0 <= i < p.tags.len() ==> !is_dropped_with_content(#[trigger] p.tags[i])
    &&& forall|i: int|
        0 <= i < p.tag_attributes.len() ==> !is_dropped_with_content(#[trigger] p.tag_attributes[i].0)
    &&& p.link_rel is Some ==> forall|i: int|
        0 <= i < p.tag_attributes.len() ==> !(#[trigger] p.tag_attributes[i].0 == "a"@
            && p.tag_attributes[i].1 == "rel"@)
    &&& forall|i: int, j: int|
        0 <= i < j < p.tag_attribute_values.len() ==> #[trigger] p.tag_attribute_values[i].0
            != #[trigger] p.tag_attribute_values[j].0
}

/// What `ammonia::Builder::clean` returns for `html`, starting from `Builder::default()` (its
/// safe tag set) and configured by a policy that [`policy_ok`] admits.
pub uninterp spec fn cleaned_of(html: Seq<char>, policy: PolicyV) -> Seq<char>;

/// What `ammonia::Builder::clean` returns for `html`, starting from `Builder::empty()` (no tag
/// at all) and configured by a policy that [`policy_ok`] admits.
pub uninterp spec fn bare_cleaned_of(html: Seq<char>, policy: PolicyV) -> Seq<char>;

/// `ammonia::Builder::default()` configured by `p`, then `clean`. Claimed: the result is
/// [`cleaned_of`] the input and the policy. Policies on which `clean` panics, or answers in a
/// per-process order, are left out by the `requires`.
#[verifier::external_body]
pub(crate) fn ammonia_clean(html: &str, p: &CleanPolicy) -> (r: String)
    requires
        policy_ok(policy_view(p)),
    ensures
        r@ == cleaned_of(html@, policy_view(p)),
{
    let mut b = ammonia::Builder::default();
    b.add_tags(&p.tags).link_rel(p.link_rel.as_deref());
    for (t, a) in &p.tag_attributes {
        b.add_tag_attributes(t, [a]);
    }
    for (t, a, v) in &p.tag_attribute_values {
        b.set_tag_attribute_value(t, a, v);
    }
    b.url_schemes(p.url_schemes.iter().map(|s| s.as_str()).collect());
    b.clean(html).to_string()
}

/// `ammonia::Builder::empty()` configured by `p`, then `clean`. Claimed: the result is
/// [`bare_cleaned_of`] the input and the policy, on the policies [`policy_ok`] admits.
#[verifier::external_body]
pub(crate) fn ammonia_clean_bare(html: &str, p: &CleanPolicy) -> (r: String)
    requires
        policy_ok(policy_view(p)),
    ensures
        r@ == bare_cleaned_of(html@, policy_view(p)),
{
    let mut b = ammonia::Builder::empty();
    b.add_tags(&p.tags).link_rel(p.link_rel.as_deref());
    for (t, a) in &p.tag_attributes {
        b.add_tag_attributes(t, [a]);
    }
    for (t, a, v) in &p.tag_attribute_values {
        b.set_tag_attribute_value(t, a, v);
    }
    b.url_schemes(p.url_schemes.iter().map(|s| s.as_str()).collect());
    b.clean(html).to_string()
}

/// This module's policy for mail bodies: ammonia's safe tag set, `data-otw-src` allowed on
/// images (where a parked image keeps its URL), links opened in a new tab with
/// `rel="noopener noreferrer nofollow"`, and only `http`, `https` and `mailto` URLs kept.
pub open spec fn mail_policy_view() -> PolicyV {
    PolicyV {
        tags: Seq::empty(),
        tag_attributes: seq![("img"@, "data-otw-src"@)],
        link_rel: Some("noopener noreferrer nofollow"@),
        tag_attribute_values: seq![("a"@, "target"@, "_blank"@)],
        url_schemes: seq!["http"@, "https"@, "mailto"@],
    }
}

pub fn mail_policy() -> (p: CleanPolicy)
    ensures
        policy_view(&p) == mail_policy_view(),
        policy_ok(policy_view(&p)),
{
    let mut tag_attributes: Vec<(String, String)> = Vec::new();
    tag_attributes.push(("img".to_string(), "data-otw-src".to_string()));
    let mut tag_attribute_values: Vec<(String, String, String)> = Vec::new();
    tag_attribute_values.push(("a".to_string(), "target".to_string(), "_blank".to_string()));
    let mut url_schemes: Vec<String> = Vec::new();
    url_schemes.push("http".to_string());
    url_schemes.push("https".to_string());
    url_schemes.push("mailto".to_string());
    let p = CleanPolicy {
        tags: Vec::new(),
        tag_attributes,
        link_rel: Some("noopener noreferrer nofollow".to_string()),
        tag_attribute_values,
        url_schemes,
    };
    assert(policy_view(&p).tags =~= Seq::<Seq<char>>::empty());
    assert(policy_view(&p).tag_attributes =~= seq![("img"@, "data-otw-src"@)]);
    assert(policy_view(&p).tag_attribute_values =~= seq![("a"@, "target"@, "_blank"@)]);
    assert(policy_view(&p).url_schemes =~= seq!["http"@, "https"@, "mailto"@]);
    proof {
        lemma_mail_policy_ok();
    }
    p
}

proof fn lemma_mail_policy_ok()
    ensures
        policy_ok(mail_policy_view()),
{
    reveal_strlit("img");
    reveal_strlit("a");
    reveal_strlit("script");
    reveal_strlit("style");
    let v = mail_policy_view();
    assert(v.tag_attributes.len() == 1 && v.tag_attributes[0].0 == "img"@);
    assert("img"@.len() == 3 && "script"@.len() == 6 && "style"@.len() == 5);
    assert(!is_dropped_with_content("img"@));
    assert("img"@ != "a"@);
    assert(v.tag_attribute_values.len() == 1);
}

/// What a mail body becomes under [`mail_policy_view`].
pub open spec fn sanitized_of(html: Seq<char>) -> Seq<char> {
    cleaned_of(html, mail_policy_view())
}

/// Where an image's URL starts in sanitiser output.
pub open spec fn src_attr() -> Seq<char> {
    seq![' ', 's', 'r', 'c', '=', '"']
}

/// Where a parked image keeps its URL.
pub open spec fn parked_attr() -> Seq<char> {
    seq![' ', 'd', 'a', 't', 'a', '-', 'o', 't', 'w', '-', 's', 'r', 'c', '=', '"']
}

pub open spec fn img_open() -> Seq<char> {
    seq!['<', 'i', 'm', 'g']
}

/// Whether the attribute value starting here (up to its closing quote) is an http(s) URL:
/// `cid:` and `data:` load nothing remotely.
pub open spec fn is_remote_spec(rest: Seq<char>) -> bool {
    let q = index_of(rest, seq!['"'], 0);
    let url = if q >= 0 { rest.take(q) } else { rest };
    let u = ascii_lower(trim(url));
    starts_with(u, "http://"@) || starts_with(u, "https://"@)
}

/// One `<img …>` tag with a remote `src` parked, and whether it was.
pub open spec fn park_tag_spec(tag: Seq<char>) -> (Seq<char>, bool) {
    let p = index_of(tag, src_attr(), 0);
    if p >= 0 && is_remote_spec(tag.skip(p + 6)) {
        (tag.take(p) + parked_attr() + tag.skip(p + 6), true)
    } else {
        (tag, false)
    }
}

/// `html[i..]` with every complete `<img …>` tag's remote `src` parked, and whether any was.
pub open spec fn park_from(h: Seq<char>, i: int) -> (Seq<char>, bool)
    decreases h.len() - i,
{
    if i < 0 || i > h.len() {
        (Seq::empty(), false)
    } else {
        let t = index_of(h, img_open(), i);
        if t < 0 {
            (h.skip(i), false)
        } else {
            let e = index_of(h, seq!['>'], t);
            if e < 0 {
                (h.skip(i), false)
            } else {
                proof {
                    lemma_index_of_bounds(h, img_open(), i);
                    lemma_index_of_bounds(h, seq!['>'], t);
                }
                let tag = park_tag_spec(h.subrange(t, e + 1));
                let rest = park_from(h, e + 1);
                (h.subrange(i, t) + tag.0 + rest.0, tag.1 || rest.1)
            }
        }
    }
}

pub open spec fn park(h: Seq<char>) -> (Seq<char>, bool) {
    park_from(h, 0)
}

fn push_all(out: &mut Vec<char>, v: &Vec<char>)
    ensures
        final(out)@ == old(out)@ + v@,
{
    let mut k: usize = 0;
    let ghost start = out@;
    while k < v.len()
        invariant
            k <= v@.len(),
            out@ == start + v@.take(k as int),
        decreases v@.len() - k,
    {
        out.push(v[k]);
        proof {
            assert(v@.take(k + 1) == v@.take(k as int).push(v@[k as int]));
        }
        k = k + 1;
    }
    proof {
        assert(v@.take(v@.len() as int) == v@);
    }
}

/// Whether an attribute value is an http(s) URL.
pub fn is_remote(rest: &Vec<char>) -> (b: bool)
    ensures
        b == is_remote_spec(rest@),
{
    let quote = vec!['"'];
    assert(quote@ == seq!['"']);
    let n = rest.len();
    let url = match find(rest, &quote, 0) {
        Some(q) => {
            proof {
                lemma_index_of_bounds(rest@, seq!['"'], 0);
                assert(occurs_at(rest@, seq!['"'], q as int));
            }
            slice_chars(rest, 0, q)
        },
        None => slice_chars(rest, 0, rest.len()),
    };
    proof {
        assert(rest@.subrange(0, rest@.len() as int) == rest@);
    }
    let u = lower_vec(&trim_vec(&url));
    let h1 = chars_of("http://");
    let h2 = chars_of("https://");
    crate::text::matches_at(&u, &h1, 0) || crate::text::matches_at(&u, &h2, 0)
}

fn park_tag(tag: &Vec<char>) -> (r: (Vec<char>, bool))
    ensures
        (r.0@, r.1) == park_tag_spec(tag@),
{
    let src = vec![' ', 's', 'r', 'c', '=', '"'];
    let n = tag.len();
    assert(src@ == src_attr());
    match find(tag, &src, 0) {
        Some(p) => {
            proof {
                lemma_index_of_bounds(tag@, src_attr(), 0);
                assert(index_of(tag@, src_attr(), 0) == p);
                assert(occurs_at(tag@, src_attr(), p as int));
                assert(src_attr().len() == 6);
            }
            let rest = slice_chars(tag, p + 6, tag.len());
            if is_remote(&rest) {
                let mut out = slice_chars(tag, 0, p);
                let parked = vec![' ', 'd', 'a', 't', 'a', '-', 'o', 't', 'w', '-', 's', 'r', 'c', '=', '"'];
                assert(parked@ == parked_attr());
                push_all(&mut out, &parked);
                push_all(&mut out, &rest);
                proof {
                    assert(tag@.subrange(0, p as int) == tag@.take(p as int));
                    assert(tag@.subrange(p + 6, tag@.len() as int) == tag@.skip(p + 6));
                }
                (out, true)
            } else {
                proof {
                    assert(tag@.subrange(p + 6, tag@.len() as int) == tag@.skip(p + 6));
                }
                (slice_chars(tag, 0, tag.len()), false)
            }
        },
        None => {
            proof {
                assert(tag@.subrange(0, tag@.len() as int) == tag@);
            }
            (slice_chars(tag, 0, tag.len()), false)
        },
    }
}

/// Move remote `src` URLs on `<img>` tags to `data-otw-src`. Runs on sanitiser output, where
/// the markup is normalised (`attr="value"`, double quotes), so a scan is exact.
pub fn park_images(html: &str) -> (r: (String, bool))
    ensures
        (r.0@, r.1) == park(html@),
{
    let v = chars_of(html);
    let img = vec!['<', 'i', 'm', 'g'];
    let gt = vec!['>'];
    assert(img@ == img_open());
    let mut out: Vec<char> = Vec::new();
    let mut found = false;
    let mut i: usize = 0;
    let n = v.len();
    loop
        invariant
            i <= v@.len(),
            n == v@.len(),
            v@ == html@,
            img@ == img_open(),
            gt@ == seq!['>'],
            out@ + park_from(v@, i as int).0 == park(v@).0,
            (found || park_from(v@, i as int).1) == park(v@).1,
        ensures
            out@ + v@.skip(i as int) == park(v@).0,
            found == park(v@).1,
        decreases v@.len() - i,
    {
        match find(&v, &img, i) {
            None => {
                break;
            },
            Some(t) => {
                match find(&v, &gt, t) {
                    None => {
                        break;
                    },
                    Some(e) => {
                        proof {
                            lemma_index_of_bounds(v@, img_open(), i as int);
                            lemma_index_of_bounds(v@, seq!['>'], t as int);
                        }
                        let ghost before = out@;
                        let pre = slice_chars(&v, i, t);
                        push_all(&mut out, &pre);
                        let tag = slice_chars(&v, t, e + 1);
                        let (parked, f) = park_tag(&tag);
                        push_all(&mut out, &parked);
                        found = found || f;
                        proof {
                            let pf = park_from(v@, i as int);
                            assert(pf.0 == v@.subrange(i as int, t as int) + park_tag_spec(v@.subrange(t as int, e + 1)).0
                                + park_from(v@, e + 1).0);
                            assert(out@ == before + v@.subrange(i as int, t as int) + park_tag_spec(v@.subrange(t as int, e + 1)).0);
                        }
                        i = e + 1;
                    },
                }
            },
        }
    }
    let tail = slice_chars(&v, i, v.len());
    push_all(&mut out, &tail);
    proof {
        assert(v@.subrange(i as int, v@.len() as int) == v@.skip(i as int));
    }
    (string_of(out.as_slice()), found)
}

/// Sanitise a mail body: the clean HTML, and whether it references remote images.
pub fn clean(html: &str) -> (r: (String, bool))
    ensures
        (r.0@, r.1) == park(sanitized_of(html@)),
{
    let cleaned = ammonia_clean(html, &mail_policy());
    park_images(cleaned.as_str())
}

/// Put parked images back: called only when the reader explicitly asks for them.
pub fn restore_images(html: &str) -> (r: String)
    ensures
        r@ == replace_all(html@, parked_attr(), src_attr()),
{
    proof {
        reveal_strlit(" data-otw-src=\"");
        reveal_strlit(" src=\"");
    }
    let r = replace_str(html, " data-otw-src=\"", " src=\"");
    assert(" data-otw-src=\""@ == parked_attr());
    assert(" src=\""@ == src_attr());
    r
}

/// The parked attribute holds a space only at its start, and neither `<` nor `>`.
proof fn lemma_parked_attr_chars()
    ensures
        parked_attr().len() == 15,
        parked_attr()[0] == ' ',
        forall|k: int| 1 <= k < 15 ==> parked_attr()[k] != ' ' && parked_attr()[k] != '<' && parked_attr()[k] != '>',
{
    assert(parked_attr().len() == 15);
    assert forall|k: int| 1 <= k < 15 implies parked_attr()[k] != ' ' && parked_attr()[k] != '<'
        && parked_attr()[k] != '>' by {
        let p = parked_attr();
        assert(p[1] == 'd' && p[2] == 'a' && p[3] == 't' && p[4] == 'a' && p[5] == '-' && p[6] == 'o');
        assert(p[7] == 't' && p[8] == 'w' && p[9] == '-' && p[10] == 's' && p[11] == 'r' && p[12] == 'c');
        assert(p[13] == '=' && p[14] == '"');
    }
}

/// One tag, parked and restored, is the tag again.
proof fn lemma_restore_tag(tag: Seq<char>)
    requires
        !contains(tag, parked_attr()),
        tag.len() > 0,
        tag[0] == '<',
    ensures
        replace_all(park_tag_spec(tag).0, parked_attr(), src_attr()) == tag,
        park_tag_spec(tag).0.len() > 0,
        park_tag_spec(tag).0[0] == '<',
        park_tag_spec(tag).0.last() == tag.last(),
{
    let p = index_of(tag, src_attr(), 0);
    lemma_index_of_bounds(tag, src_attr(), 0);
    lemma_parked_attr_chars();
    if p >= 0 && is_remote_spec(tag.skip(p + 6)) {
        assert(occurs_at(tag, src_attr(), p));
        assert(src_attr().len() == 6);
        assert(tag.subrange(p, p + 6) == src_attr());
        assert(p != 0) by {
            if p == 0 {
                assert(tag.subrange(0, 6)[0] == tag[0]);
            }
        }
        let pre = tag.take(p);
        let post = tag.skip(p + 6);
        lemma_absent_in_piece(tag, parked_attr(), 0, p);
        lemma_absent_in_piece(tag, parked_attr(), p + 6, tag.len() as int);
        assert(tag.subrange(0, p) == pre);
        assert(tag.subrange(p + 6, tag.len() as int) == post);
        lemma_replace_split(pre, parked_attr() + post, parked_attr(), src_attr());
        assert((pre + (parked_attr() + post)) == pre + parked_attr() + post);
        lemma_replace_head(parked_attr(), post, src_attr());
        lemma_replace_absent(pre, parked_attr(), src_attr());
        lemma_replace_absent(post, parked_attr(), src_attr());
        assert(pre + src_attr() + post =~= tag);
        assert((pre + parked_attr() + post)[0] == tag[0]);
        if post.len() > 0 {
            assert((pre + parked_attr() + post).last() == tag.last());
        } else {
            assert(tag.last() == tag[p + 5]);
            assert(tag[p + 5] == src_attr()[5]);
            assert((pre + parked_attr() + post).last() == parked_attr()[14]);
        }
    } else {
        lemma_replace_absent(tag, parked_attr(), src_attr());
    }
}

/// Restoring text before a parked tag, the tag, and what follows: each part on its own.
proof fn lemma_restore_around(pre: Seq<char>, parked: Seq<char>, rest: Seq<char>, tag: Seq<char>)
    requires
        !contains(pre, parked_attr()),
        parked.len() > 0,
        parked[0] == '<',
        parked.last() == '>',
        replace_all(parked, parked_attr(), src_attr()) == tag,
    ensures
        replace_all(pre + parked + rest, parked_attr(), src_attr()) == pre + (tag + replace_all(rest, parked_attr(), src_attr())),
{
    let P = parked_attr();
    let S = src_attr();
    lemma_parked_attr_chars();
    lemma_replace_split(pre, parked + rest, P, S);
    assert((parked + rest)[0] == '<');
    assert(pre + parked + rest == pre + (parked + rest));
    lemma_replace_absent(pre, P, S);
    let body = parked.drop_last();
    let gt = seq![parked.last()];
    let tail = gt + rest;
    assert(body + tail == parked + rest);
    assert(body + gt == parked);
    lemma_replace_split(body, tail, P, S);
    lemma_replace_split(body, gt, P, S);
    assert(!starts_with(tail, P));
    assert(tail.drop_first() == rest);
    assert(!starts_with(gt, P));
    assert(gt.drop_first() =~= Seq::<char>::empty());
    assert(replace_all(Seq::<char>::empty(), P, S) == Seq::<char>::empty());
    assert(replace_all(gt, P, S) == gt + replace_all(Seq::<char>::empty(), P, S));
    assert(gt + Seq::<char>::empty() =~= gt);
    assert(replace_all(tail, P, S) == gt + replace_all(rest, P, S));
    assert(replace_all(parked + rest, P, S) =~= replace_all(parked, P, S) + replace_all(rest, P, S));
}

/// `park_from(h, i)` restored is `h[i..]` again, when `h` held no parked attribute.
proof fn lemma_restore_from(h: Seq<char>, i: int)
    requires
        0 <= i <= h.len(),
        !contains(h, parked_attr()),
    ensures
        replace_all(park_from(h, i).0, parked_attr(), src_attr()) == h.skip(i),
    decreases h.len() - i,
{
    lemma_parked_attr_chars();
    let t = index_of(h, img_open(), i);
    lemma_index_of_bounds(h, img_open(), i);
    if t < 0 {
        lemma_absent_in_piece(h, parked_attr(), i, h.len() as int);
        assert(h.subrange(i, h.len() as int) == h.skip(i));
        lemma_replace_absent(h.skip(i), parked_attr(), src_attr());
    } else {
        let e = index_of(h, seq!['>'], t);
        lemma_index_of_bounds(h, seq!['>'], t);
        if e < 0 {
            lemma_absent_in_piece(h, parked_attr(), i, h.len() as int);
            assert(h.subrange(i, h.len() as int) == h.skip(i));
            lemma_replace_absent(h.skip(i), parked_attr(), src_attr());
        } else {
            assert(occurs_at(h, img_open(), t));
            assert(h.subrange(t, t + 4)[0] == h[t]);
            assert(occurs_at(h, seq!['>'], e));
            assert(h.subrange(e, e + 1)[0] == h[e]);
            let tag = h.subrange(t, e + 1);
            let pre = h.subrange(i, t);
            let parked = park_tag_spec(tag).0;
            let rest = park_from(h, e + 1).0;
            lemma_absent_in_piece(h, parked_attr(), t, e + 1);
            lemma_absent_in_piece(h, parked_attr(), i, t);
            lemma_restore_tag(tag);
            lemma_restore_from(h, e + 1);
            lemma_restore_around(pre, parked, rest, tag);
            assert(park_from(h, i).0 == pre + parked + rest);
            assert(pre + (tag + h.skip(e + 1)) =~= h.skip(i));
        }
    }
}

/// Parking is undone by restoring: a body that held no parked attribute of its own comes
/// back exactly as it was.
pub proof fn lemma_restore_undoes_park(h: Seq<char>)
    requires
        !contains(h, parked_attr()),
    ensures
        replace_all(park(h).0, parked_attr(), src_attr()) == h,
{
    lemma_restore_from(h, 0);
    assert(h.skip(0) == h);
}

/// The characters outside tags, with a space where each tag closed.
pub open spec fn strip_tags(s: Seq<char>, in_tag: bool) -> Seq<char>
    decreases s.len(),
{
    if s.len() == 0 {
        Seq::empty()
    } else if s[0] == '<' {
        strip_tags(s.drop_first(), true)
    } else if s[0] == '>' {
        seq![' '] + strip_tags(s.drop_first(), false)
    } else if !in_tag {
        seq![s[0]] + strip_tags(s.drop_first(), in_tag)
    } else {
        strip_tags(s.drop_first(), in_tag)
    }
}

/// A very small tag stripper, for the list snippet when a mail has no plain-text part.
pub fn to_text(html: &str) -> (r: String)
    ensures
        r@ == strip_tags(html@, false),
{
    let v = chars_of(html);
    let mut out: Vec<char> = Vec::new();
    let mut in_tag = false;
    let mut i: usize = 0;
    assert(v@.skip(0) == v@);
    while i < v.len()
        invariant
            i <= v@.len(),
            v@ == html@,
            out@ + strip_tags(v@.skip(i as int), in_tag) == strip_tags(html@, false),
        decreases v@.len() - i,
    {
        let c = v[i];
        proof {
            assert(v@.skip(i as int)[0] == c);
            assert(v@.skip(i as int).drop_first() == v@.skip(i + 1));
        }
        if c == '<' {
            in_tag = true;
        } else if c == '>' {
            in_tag = false;
            out.push(' ');
        } else if !in_tag {
            out.push(c);
        }
        i = i + 1;
    }
    string_of(out.as_slice())
}

/// The snippet scan: whitespace runs collapse to one space (none at the start), and the scan
/// stops once `max` characters are out.
pub open spec fn snip(rest: Seq<char>, s: Seq<char>, space: bool, max: nat) -> Seq<char>
    decreases rest.len(),
{
    if rest.len() == 0 {
        s
    } else {
        let c = rest[0];
        let s2 = if is_ws(c) {
            if !space { s.push(' ') } else { s }
        } else {
            s.push(c)
        };
        let sp2 = is_ws(c);
        if s2.len() >= max {
            s2
        } else {
            snip(rest.drop_first(), s2, sp2, max)
        }
    }
}

/// Collapse whitespace and cut to `max` characters: the one-line preview in the list.
pub fn snippet(text: &str, max: usize) -> (r: String)
    ensures
        r@ == trim(snip(text@, Seq::empty(), true, max as nat)),
{
    let v = chars_of(text);
    let mut s: Vec<char> = Vec::new();
    let mut space = true;
    let mut i: usize = 0;
    assert(v@.skip(0) == v@);
    while i < v.len()
        invariant_except_break
            i <= v@.len(),
            v@ == text@,
            snip(v@.skip(i as int), s@, space, max as nat) == snip(text@, Seq::empty(), true, max as nat),
        ensures
            s@ == snip(text@, Seq::empty(), true, max as nat),
        decreases v@.len() - i,
    {
        let c = v[i];
        proof {
            assert(v@.skip(i as int)[0] == c);
            assert(v@.skip(i as int).drop_first() == v@.skip(i + 1));
        }
        if is_whitespace(c) {
            if !space {
                s.push(' ');
            }
            space = true;
        } else {
            s.push(c);
            space = false;
        }
        if s.len() >= max {
            break;
        }
        i = i + 1;
    }
    let t = trim_vec(&s);
    string_of(t.as_slice())
}

} // verus!
