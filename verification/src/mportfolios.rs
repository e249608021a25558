//! Managers' Portfolios: reading Dataroma's public superinvestor pages.
//!
//! The markup is plain, server-rendered HTML tables, parsed with narrow scans anchored on
//! Dataroma's own class names and cell order. Every numeric field is optional: a layout
//! tweak degrades to missing values, never a panic. Numbers are kept here as their cleaned
//! text; turning that text into a floating-point amount happens where the rows are stored.

use vstd::prelude::*;

use crate::text::{
    ascii_upper, chars_of, find, index_of, is_digit, is_ws, lemma_index_of_bounds, replace_all,
    replace_str, slice_chars, str_contains, string_of, trim, trim_vec, contains,
};

verus! {

/// Canonical Dataroma detail URL for a manager slug.
pub fn detail_url(slug: &str) -> (u: String)
    ensures
        u@ == "https://www.dataroma.com/m/holdings.php?m="@ + slug@,
{
    let mut u = "https://www.dataroma.com/m/holdings.php?m=".to_string();
    u.append(slug);
    u
}

/// The characters outside tags.
pub open spec fn untagged(s: Seq<char>, in_tag: bool) -> Seq<char>
    decreases s.len(),
{
    if s.len() == 0 {
        Seq::empty()
    } else if s[0] == '<' {
        untagged(s.drop_first(), true)
    } else if s[0] == '>' {
        untagged(s.drop_first(), false)
    } else if !in_tag {
        seq![s[0]] + untagged(s.drop_first(), in_tag)
    } else {
        untagged(s.drop_first(), in_tag)
    }
}

/// Tags stripped, the handful of entities Dataroma emits decoded, trimmed.
pub open spec fn text_of_spec(s: Seq<char>) -> Seq<char> {
    let t = untagged(s, false);
    trim(replace_all(replace_all(replace_all(t, "&amp;"@, "&"@), "&nbsp;"@, " "@), "&#8801"@, Seq::empty()))
}

/// Strip HTML tags and decode the handful of entities Dataroma emits.
pub fn text_of(s: &str) -> (r: String)
    ensures
        r@ == text_of_spec(s@),
{
    let v = chars_of(s);
    let mut out: Vec<char> = Vec::new();
    let mut in_tag = false;
    let mut i: usize = 0;
    assert(v@.skip(0) == v@);
    while i < v.len()
        invariant
            i <= v@.len(),
            v@ == s@,
            out@ + untagged(v@.skip(i as int), in_tag) == untagged(s@, false),
        decreases v@.len() - i,
    {
        let c = v[i];
        proof {
            assert(v@.skip(i as int)[0] == c);
            assert(v@.skip(i as int).drop_first() == v@.skip(i + 1));
        }
        if c == '<' {
            in_tag = true;
        } else if c == '>' {
            in_tag = false;
        } else if !in_tag {
            out.push(c);
        }
        i = i + 1;
    }
    proof {
        reveal_strlit("&amp;");
        reveal_strlit("&nbsp;");
        reveal_strlit("&#8801");
        reveal_strlit("");
        assert(v@.skip(i as int).len() == 0);
        assert(out@ == untagged(s@, false));
        assert(""@ == Seq::<char>::empty());
    }
    let t = string_of(out.as_slice());
    let a = replace_str(t.as_str(), "&amp;", "&");
    let b = replace_str(a.as_str(), "&nbsp;", " ");
    let c = replace_str(b.as_str(), "&#8801", "");
    string_of(trim_vec(&chars_of(c.as_str())).as_slice())
}

/// The inner HTML of every `open …>…close` element of `h` from index `i` on.
pub open spec fn elements_from(h: Seq<char>, open: Seq<char>, close: Seq<char>, i: int) -> Seq<Seq<char>>
    decreases h.len() - i,
{
    if i < 0 || i > h.len() || close.len() == 0 {
        Seq::empty()
    } else {
        let start = index_of(h, open, i);
        if start < 0 {
            Seq::empty()
        } else {
            let gt = index_of(h, seq!['>'], start);
            if gt < 0 {
                Seq::empty()
            } else {
                let end = index_of(h, close, gt + 1);
                if end < 0 {
                    Seq::empty()
                } else {
                    proof {
                        lemma_index_of_bounds(h, open, i);
                        lemma_index_of_bounds(h, seq!['>'], start);
                        lemma_index_of_bounds(h, close, gt + 1);
                    }
                    seq![h.subrange(gt + 1, end)] + elements_from(h, open, close, end + close.len())
                }
            }
        }
    }
}

fn elements(body: &str, open: &str, close: &str) -> (r: Vec<String>)
    requires
        close@.len() > 0,
    ensures
        crate::text::views(r@) == elements_from(body@, open@, close@, 0),
{
    let v = chars_of(body);
    let n = v.len();
    let ov = chars_of(open);
    let cv = chars_of(close);
    let gt = vec!['>'];
    assert(gt@ == seq!['>']);
    let mut out: Vec<String> = Vec::new();
    let mut i: usize = 0;
    loop
        invariant
            i <= v@.len(),
            n == v@.len(),
            v@ == body@,
            ov@ == open@,
            cv@ == close@,
            close@.len() > 0,
            gt@ == seq!['>'],
            crate::text::views(out@) + elements_from(v@, ov@, cv@, i as int) == elements_from(v@, ov@, cv@, 0),
        ensures
            crate::text::views(out@) == elements_from(v@, ov@, cv@, 0),
        decreases v@.len() - i,
    {
        let start = match find(&v, &ov, i) {
            Some(s) => s,
            None => {
                break;
            },
        };
        let g = match find(&v, &gt, start) {
            Some(g) => g,
            None => {
                break;
            },
        };
        proof {
            lemma_index_of_bounds(v@, ov@, i as int);
            lemma_index_of_bounds(v@, seq!['>'], start as int);
        }
        let end = match find(&v, &cv, g + 1) {
            Some(e) => e,
            None => {
                break;
            },
        };
        proof {
            lemma_index_of_bounds(v@, cv@, g + 1);
        }
        let ghost before = crate::text::views(out@);
        let inner = string_of(slice_chars(&v, g + 1, end).as_slice());
        out.push(inner);
        proof {
            assert(crate::text::views(out@) == before.push(v@.subrange(g + 1, end as int)));
            assert(seq![v@.subrange(g + 1, end as int)] + elements_from(v@, ov@, cv@, end + cv@.len()) == elements_from(v@, ov@, cv@, i as int));
            assert(before.push(v@.subrange(g + 1, end as int)) + elements_from(v@, ov@, cv@, end + cv@.len()) == before + (seq![v@.subrange(g + 1, end as int)] + elements_from(v@, ov@, cv@, end + cv@.len())));
        }
        i = end + cv.len();
    }
    out
}

/// Extract the inner HTML of every `<tr>…</tr>` in `body`.
pub fn rows(body: &str) -> (r: Vec<String>)
    ensures
        crate::text::views(r@) == elements_from(body@, "<tr"@, "</tr>"@, 0),
{
    proof {
        reveal_strlit("</tr>");
    }
    elements(body, "<tr", "</tr>")
}

/// Split a row's inner HTML into the inner HTML of each `<td>…</td>`.
pub fn cells(row: &str) -> (r: Vec<String>)
    ensures
        crate::text::views(r@) == elements_from(row@, "<td"@, "</td>"@, 0),
{
    proof {
        reveal_strlit("</td>");
    }
    elements(row, "<td", "</td>")
}

/// A character that ends a slug.
pub open spec fn ends_slug(c: char) -> bool {
    c == '"' || c == '&' || c == '\'' || is_ws(c)
}

/// The first index at or after `from` whose character ends a slug, or the length.
pub open spec fn slug_end(s: Seq<char>, from: int) -> int
    decreases s.len() - from,
{
    if from < 0 || from >= s.len() {
        s.len() as int
    } else if ends_slug(s[from]) {
        from
    } else {
        slug_end(s, from + 1)
    }
}

/// The `m=` slug of the first `holdings.php?m=SLUG` link.
pub open spec fn slug_of(h: Seq<char>) -> Option<Seq<char>> {
    let k = index_of(h, "holdings.php?m="@, 0);
    if k < 0 {
        None
    } else {
        let from = k + "holdings.php?m="@.len();
        Some(h.subrange(from, slug_end(h, from)))
    }
}

/// Pull the `m=` slug out of a `holdings.php?m=SLUG` link.
pub fn slug_from(html: &str) -> (r: Option<String>)
    ensures
        match r {
            Some(s) => slug_of(html@) == Some(s@),
            None => slug_of(html@) is None,
        },
{
    let v = chars_of(html);
    let n = v.len();
    let key = chars_of("holdings.php?m=");
    proof {
        reveal_strlit("holdings.php?m=");
    }
    let k = match find(&v, &key, 0) {
        Some(k) => k,
        None => return None,
    };
    proof {
        lemma_index_of_bounds(v@, key@, 0);
    }
    let from = k + key.len();
    let mut e = from;
    while e < n && !(v[e] == '"' || v[e] == '&' || v[e] == '\'' || crate::text::is_whitespace(v[e]))
        invariant
            from <= e <= n,
            n == v@.len(),
            slug_end(v@, e as int) == slug_end(v@, from as int),
        decreases n - e,
    {
        e = e + 1;
    }
    Some(string_of(slice_chars(&v, from, e).as_slice()))
}

/// The reporting period from `<p id="p2">Period: <span>Q1 2026</span>`; empty when the page
/// has none.
pub open spec fn period_of(h: Seq<char>) -> Seq<char> {
    let i = index_of(h, "Period:"@, 0);
    let s = if i >= 0 { index_of(h, "<span"@, i) } else { -1 };
    let o = if s >= 0 { index_of(h, seq!['>'], s) } else { -1 };
    let end = if o >= 0 { index_of(h, "</span>"@, o + 1) } else { -1 };
    if i < 0 || s < 0 || o < 0 || end < 0 {
        Seq::empty()
    } else {
        text_of_spec(h.subrange(o + 1, end))
    }
}

/// Period label from `<p id="p2">Period: <span>Q1 2026</span>`.
pub fn parse_period(html: &str) -> (r: String)
    ensures
        r@ == period_of(html@),
{
    let v = chars_of(html);
    let n = v.len();
    let p = chars_of("Period:");
    let sp = chars_of("<span");
    let gt = vec!['>'];
    let close = chars_of("</span>");
    assert(gt@ == seq!['>']);
    let i = match find(&v, &p, 0) {
        Some(i) => i,
        None => return String::new(),
    };
    let s = match find(&v, &sp, i) {
        Some(s) => s,
        None => return String::new(),
    };
    let o = match find(&v, &gt, s) {
        Some(o) => o,
        None => return String::new(),
    };
    proof {
        lemma_index_of_bounds(v@, seq!['>'], s as int);
    }
    let end = match find(&v, &close, o + 1) {
        Some(e) => e,
        None => return String::new(),
    };
    proof {
        lemma_index_of_bounds(v@, close@, o + 1);
    }
    let inner = string_of(slice_chars(&v, o + 1, end).as_slice());
    text_of(inner.as_str())
}

/// A `stock` cell as (ticker, company): the text before ` - `, and the text after it.
pub open spec fn stock_of(cell: Seq<char>) -> (Seq<char>, Seq<char>) {
    let plain = text_of_spec(cell);
    let k = index_of(plain, " - "@, 0);
    if k >= 0 {
        (trim(plain.take(k)), trim(plain.skip(k + 3)))
    } else {
        (trim(plain), Seq::empty())
    }
}

/// Split a `stock` cell into (ticker, company).
pub fn split_stock(cell: &str) -> (r: (String, String))
    ensures
        (r.0@, r.1@) == stock_of(cell@),
{
    let plain = text_of(cell);
    let v = chars_of(plain.as_str());
    let n = v.len();
    let sep = chars_of(" - ");
    proof {
        reveal_strlit(" - ");
    }
    match find(&v, &sep, 0) {
        Some(k) => {
            proof {
                lemma_index_of_bounds(v@, sep@, 0);
                assert(v@.subrange(0, k as int) == v@.take(k as int));
                assert(v@.subrange(k + 3, n as int) == v@.skip(k + 3));
            }
            let t = trim_vec(&slice_chars(&v, 0, k));
            let c = trim_vec(&slice_chars(&v, k + 3, n));
            (string_of(t.as_slice()), string_of(c.as_slice()))
        },
        None => (string_of(trim_vec(&v).as_slice()), String::new()),
    }
}

/// The characters a number can be read from: digits, the decimal point and the minus sign.
pub open spec fn number_chars(s: Seq<char>) -> Seq<char>
    decreases s.len(),
{
    if s.len() == 0 {
        Seq::empty()
    } else {
        let r = number_chars(s.drop_last());
        let c = s.last();
        if is_digit(c) || c == '.' || c == '-' { r.push(c) } else { r }
    }
}

/// A value's text with `$`, commas, `%`, units and white space dropped, ready to parse.
pub fn number_text(s: &str) -> (r: String)
    ensures
        r@ == number_chars(s@),
{
    let v = chars_of(s);
    let mut out: Vec<char> = Vec::new();
    let mut i: usize = 0;
    while i < v.len()
        invariant
            i <= v@.len(),
            v@ == s@,
            out@ == number_chars(v@.take(i as int)),
        decreases v@.len() - i,
    {
        proof {
            assert(v@.take(i + 1).drop_last() == v@.take(i as int));
        }
        let c = v[i];
        if ('0' <= c && c <= '9') || c == '.' || c == '-' {
            out.push(c);
        }
        i = i + 1;
    }
    proof {
        assert(v@.take(v@.len() as int) == v@);
    }
    string_of(out.as_slice())
}

/// The scale a value's unit letter stands for: Dataroma writes `$263.1 B`, `$172 M`.
#[derive(Debug, Clone, Copy, PartialEq, Eq, Structural)]
pub enum Scale {
    Billion,
    Million,
    Thousand,
    One,
}

pub open spec fn scale_of(s: Seq<char>) -> Scale {
    let up = ascii_upper(s);
    if up.contains('B') {
        Scale::Billion
    } else if up.contains('M') {
        Scale::Million
    } else if up.contains('K') {
        Scale::Thousand
    } else {
        Scale::One
    }
}

pub fn value_scale(s: &str) -> (k: Scale)
    ensures
        k == scale_of(s@),
{
    let up = crate::text::upper_vec(&chars_of(s));
    if crate::text::has_char(&up, 'B') {
        Scale::Billion
    } else if crate::text::has_char(&up, 'M') {
        Scale::Million
    } else if crate::text::has_char(&up, 'K') {
        Scale::Thousand
    } else {
        Scale::One
    }
}

/// One manager of the summary list, with its numbers as text.
pub struct ManagerRow {
    pub slug: String,
    pub name: String,
    pub value_text: String,
    pub count_text: String,
}

/// A manager row: it carries class `man`, at least three cells, and a slug in its first.
pub open spec fn manager_of(row: Seq<char>) -> Option<(Seq<char>, Seq<char>, Seq<char>, Seq<char>)> {
    let cs = elements_from(row, "<td"@, "</td>"@, 0);
    if !contains(row, "class=\"man\""@) || cs.len() < 3 {
        None
    } else {
        match slug_of(cs[0]) {
            Some(slug) => if slug.len() > 0 {
                Some((slug, text_of_spec(cs[0]), text_of_spec(cs[1]), number_chars(text_of_spec(cs[2]))))
            } else {
                None
            },
            None => None,
        }
    }
}

pub open spec fn managers_of(rows: Seq<Seq<char>>) -> Seq<(Seq<char>, Seq<char>, Seq<char>, Seq<char>)>
    decreases rows.len(),
{
    if rows.len() == 0 {
        Seq::empty()
    } else {
        let r = managers_of(rows.drop_last());
        match manager_of(rows.last()) {
            Some(m) => r.push(m),
            None => r,
        }
    }
}

pub open spec fn manager_view(m: ManagerRow) -> (Seq<char>, Seq<char>, Seq<char>, Seq<char>) {
    (m.slug@, m.name@, m.value_text@, m.count_text@)
}

/// Parse the managers summary table: one row per manager, with the slug, the name, the
/// value as written and the holdings count's digits.
pub fn parse_managers(html: &str) -> (r: Vec<ManagerRow>)
    ensures
        r@.map_values(|m: ManagerRow| manager_view(m)) == managers_of(elements_from(html@, "<tr"@, "</tr>"@, 0)),
{
    let rs = rows(html);
    let mut out: Vec<ManagerRow> = Vec::new();
    let mut i: usize = 0;
    while i < rs.len()
        invariant
            i <= rs@.len(),
            crate::text::views(rs@) == elements_from(html@, "<tr"@, "</tr>"@, 0),
            out@.map_values(|m: ManagerRow| manager_view(m)) == managers_of(crate::text::views(rs@).take(i as int)),
        decreases rs@.len() - i,
    {
        let ghost vs = crate::text::views(rs@);
        proof {
            assert(vs.take(i + 1).drop_last() == vs.take(i as int));
            assert(vs.take(i + 1).last() == rs@[i as int]@);
            reveal_strlit("class=\"man\"");
        }
        let row = rs[i].as_str();
        let ghost before = out@.map_values(|m: ManagerRow| manager_view(m));
        if str_contains(row, "class=\"man\"") {
            let cs = cells(row);
            if cs.len() >= 3 {
                proof {
                    assert(crate::text::views(cs@)[0] == cs@[0]@);
                    assert(crate::text::views(cs@)[1] == cs@[1]@);
                    assert(crate::text::views(cs@)[2] == cs@[2]@);
                }
                match slug_from(cs[0].as_str()) {
                    Some(slug) => {
                        if !slug.as_str().is_empty() {
                            let name = text_of(cs[0].as_str());
                            let value_text = text_of(cs[1].as_str());
                            let count_text = number_text(text_of(cs[2].as_str()).as_str());
                            out.push(ManagerRow { slug, name, value_text, count_text });
                            proof {
                                assert(out@.map_values(|m: ManagerRow| manager_view(m)) == before.push(
                                    manager_view(out@[out@.len() - 1]),
                                ));
                            }
                        }
                    },
                    None => {},
                }
            }
        }
        i = i + 1;
    }
    proof {
        assert(crate::text::views(rs@).take(rs@.len() as int) == crate::text::views(rs@));
    }
    out
}


// ── A manager's holdings ──────────────────────────────────────────────────────

/// Each element consumes at least one character, so there are never more than the text.
pub proof fn lemma_elements_bound(h: Seq<char>, open: Seq<char>, close: Seq<char>, i: int)
    requires
        0 <= i <= h.len(),
    ensures
        elements_from(h, open, close, i).len() <= h.len() - i,
    decreases h.len() - i,
{
    if close.len() > 0 {
        let start = index_of(h, open, i);
        lemma_index_of_bounds(h, open, i);
        if start >= 0 {
            let gt = index_of(h, seq!['>'], start);
            lemma_index_of_bounds(h, seq!['>'], start);
            if gt >= 0 {
                let end = index_of(h, close, gt + 1);
                lemma_index_of_bounds(h, close, gt + 1);
                if end >= 0 {
                    lemma_elements_bound(h, open, close, end + close.len());
                }
            }
        }
    }
}

/// The body of the holdings grid: from `id="grid"` on, cut to its `<tbody>` when it has one.
pub open spec fn grid_body(h: Seq<char>) -> Seq<char> {
    let g = index_of(h, "id=\"grid\""@, 0);
    if g < 0 {
        h
    } else {
        let tail = h.skip(g);
        let a = index_of(tail, "<tbody"@, 0);
        let b = index_of(tail, "</tbody>"@, 0);
        if a >= 0 && b >= 0 { tail.subrange(a, b) } else { tail }
    }
}

/// The page can be cut as the grid scan cuts it: a `</tbody>` never comes before the
/// `<tbody` it closes.
pub open spec fn grid_ok(h: Seq<char>) -> bool {
    let g = index_of(h, "id=\"grid\""@, 0);
    let tail = h.skip(g);
    g >= 0 ==> !(index_of(tail, "<tbody"@, 0) >= 0 && index_of(tail, "</tbody>"@, 0) >= 0
        && index_of(tail, "<tbody"@, 0) > index_of(tail, "</tbody>"@, 0))
}

/// One holding of a manager, with its numbers as cleaned text.
pub struct HoldingRow {
    pub position: i32,
    pub ticker: String,
    pub company: String,
    pub pct_text: String,
    pub activity: String,
    pub shares_text: String,
    pub reported_price_text: String,
    pub value_text: String,
    pub current_price_text: Option<String>,
    pub change_pct_text: Option<String>,
    pub week52_low_text: Option<String>,
    pub week52_high_text: Option<String>,
}

/// The cleaned number of cell `k`, when the row has that many cells.
pub open spec fn cell_number(cs: Seq<Seq<char>>, k: int) -> Option<Seq<char>> {
    if k < cs.len() { Some(number_chars(text_of_spec(cs[k]))) } else { None }
}

/// A holdings row: marked `stock`, with at least seven cells; its fields in cell order.
pub open spec fn holding_of(row: Seq<char>) -> Option<(Seq<char>, Seq<char>, Seq<char>, Seq<char>, Seq<char>, Seq<char>, Seq<char>, Seq<Option<Seq<char>>>)> {
    let cs = elements_from(row, "<td"@, "</td>"@, 0);
    if cs.len() < 7 || !contains(row, "class=\"stock\""@) {
        None
    } else {
        let (ticker, company) = stock_of(cs[1]);
        Some((
            ticker,
            company,
            number_chars(text_of_spec(cs[2])),
            text_of_spec(cs[3]),
            number_chars(text_of_spec(cs[4])),
            number_chars(text_of_spec(cs[5])),
            number_chars(text_of_spec(cs[6])),
            seq![cell_number(cs, 8), cell_number(cs, 9), cell_number(cs, 10), cell_number(cs, 11)],
        ))
    }
}

pub open spec fn holdings_of(rows: Seq<Seq<char>>) -> Seq<(Seq<char>, Seq<char>, Seq<char>, Seq<char>, Seq<char>, Seq<char>, Seq<char>, Seq<Option<Seq<char>>>)>
    decreases rows.len(),
{
    if rows.len() == 0 {
        Seq::empty()
    } else {
        let r = holdings_of(rows.drop_last());
        match holding_of(rows.last()) {
            Some(x) => r.push(x),
            None => r,
        }
    }
}

pub open spec fn opt_text(o: Option<String>) -> Option<Seq<char>> {
    match o {
        Some(s) => Some(s@),
        None => None,
    }
}

pub open spec fn holding_view(h: HoldingRow) -> (Seq<char>, Seq<char>, Seq<char>, Seq<char>, Seq<char>, Seq<char>, Seq<char>, Seq<Option<Seq<char>>>) {
    (
        h.ticker@,
        h.company@,
        h.pct_text@,
        h.activity@,
        h.shares_text@,
        h.reported_price_text@,
        h.value_text@,
        seq![opt_text(h.current_price_text), opt_text(h.change_pct_text), opt_text(h.week52_low_text), opt_text(h.week52_high_text)],
    )
}

fn optional_number(cs: &Vec<String>, k: usize) -> (r: Option<String>)
    ensures
        opt_text(r) == cell_number(crate::text::views(cs@), k as int),
{
    if k < cs.len() {
        proof {
            assert(crate::text::views(cs@)[k as int] == cs@[k as int]@);
        }
        Some(number_text(text_of(cs[k].as_str()).as_str()))
    } else {
        None
    }
}

/// The columns of Dataroma's holdings grid, as the page lays them out: the history link, the
/// stock, % of portfolio, recent activity, shares, the price reported with the filing, the
/// position's value, a spacer, then the current price, its change since the filing, and the
/// 52-week low and high.
pub const COL_STOCK: usize = 1;
pub const COL_PCT: usize = 2;
pub const COL_ACTIVITY: usize = 3;
pub const COL_SHARES: usize = 4;
pub const COL_REPORTED_PRICE: usize = 5;
pub const COL_VALUE: usize = 6;
pub const COL_CURRENT_PRICE: usize = 8;
pub const COL_CHANGE: usize = 9;
pub const COL_LOW_52W: usize = 10;
pub const COL_HIGH_52W: usize = 11;

/// The cleaned number in column `k` of a row's cells.
pub open spec fn column_number(cs: Seq<Seq<char>>, k: usize) -> Seq<char> {
    number_chars(text_of_spec(cs[k as int]))
}

/// A holding read from a grid row: every field comes from its own column of the table above.
#[verifier::opaque]
pub open spec fn reads_columns(
    h: (Seq<char>, Seq<char>, Seq<char>, Seq<char>, Seq<char>, Seq<char>, Seq<char>, Seq<Option<Seq<char>>>),
    row: Seq<char>,
) -> bool {
    let cs = elements_from(row, "<td"@, "</td>"@, 0);
    &&& cs.len() > COL_VALUE && contains(row, "class=\"stock\""@)
    &&& (h.0, h.1) == stock_of(cs[COL_STOCK as int])
    &&& h.2 == column_number(cs, COL_PCT)
    &&& h.3 == text_of_spec(cs[COL_ACTIVITY as int])
    &&& h.4 == column_number(cs, COL_SHARES)
    &&& h.5 == column_number(cs, COL_REPORTED_PRICE)
    &&& h.6 == column_number(cs, COL_VALUE)
    &&& h.7.len() == 4
    &&& h.7[0] == (if cs.len() > COL_CURRENT_PRICE { Some(column_number(cs, COL_CURRENT_PRICE)) } else { None })
    &&& h.7[1] == (if cs.len() > COL_CHANGE { Some(column_number(cs, COL_CHANGE)) } else { None })
    &&& h.7[2] == (if cs.len() > COL_LOW_52W { Some(column_number(cs, COL_LOW_52W)) } else { None })
    &&& h.7[3] == (if cs.len() > COL_HIGH_52W { Some(column_number(cs, COL_HIGH_52W)) } else { None })
}

/// A row is a holding exactly when it is a `stock` row with the value column present, and
/// then each field is read from its own column: the value from the value column, the
/// reported price from the reported-price column.
pub proof fn lemma_holding_reads_its_columns(row: Seq<char>)
    ensures
        holding_of(row) is Some <==> (elements_from(row, "<td"@, "</td>"@, 0).len() > COL_VALUE
            && contains(row, "class=\"stock\""@)),
        holding_of(row) matches Some(h) ==> reads_columns(h, row),
{
    reveal(reads_columns);
}

/// `h` is read, column by column, from one of `rows`.
pub open spec fn read_from_a_row(
    h: (Seq<char>, Seq<char>, Seq<char>, Seq<char>, Seq<char>, Seq<char>, Seq<char>, Seq<Option<Seq<char>>>),
    rows: Seq<Seq<char>>,
) -> bool {
    exists|k: int| 0 <= k < rows.len() && #[trigger] reads_columns(h, rows[k])
}

/// A grid row that holds a position: a `stock` row reaching the value column.
pub open spec fn is_holding_row(row: Seq<char>) -> bool {
    elements_from(row, "<td"@, "</td>"@, 0).len() > COL_VALUE && contains(row, "class=\"stock\""@)
}

/// Some holding of `hs` is read, column by column, from `row`.
pub open spec fn row_is_kept(hs: Seq<(Seq<char>, Seq<char>, Seq<char>, Seq<char>, Seq<char>, Seq<char>, Seq<char>, Seq<Option<Seq<char>>>)>, row: Seq<char>) -> bool {
    exists|j: int| 0 <= j < hs.len() && #[trigger] reads_columns(hs[j], row)
}

/// Every holding of a grid comes from one of its rows, read column by column, and every
/// holding row of the grid gives a holding.
pub proof fn lemma_holdings_come_from_rows(rows: Seq<Seq<char>>)
    ensures
        forall|j: int| 0 <= j < holdings_of(rows).len() ==> read_from_a_row(#[trigger] holdings_of(rows)[j], rows),
        forall|k: int| 0 <= k < rows.len() && is_holding_row(#[trigger] rows[k]) ==> row_is_kept(holdings_of(rows), rows[k]),
    decreases rows.len(),
{
    if rows.len() == 0 {
        assert(holdings_of(rows).len() == 0);
    } else {
        let init = rows.drop_last();
        lemma_holdings_come_from_rows(init);
        lemma_holding_reads_its_columns(rows.last());
        let hs = holdings_of(rows);
        let hi = holdings_of(init);
        assert(hs == match holding_of(rows.last()) {
            Some(x) => hi.push(x),
            None => hi,
        });
        assert forall|j: int| 0 <= j < hs.len() implies read_from_a_row(#[trigger] hs[j], rows) by {
            if j < hi.len() {
                assert(hs[j] == hi[j]);
                assert(read_from_a_row(hi[j], init));
                let k = choose|k: int| 0 <= k < init.len() && #[trigger] reads_columns(hi[j], init[k]);
                assert(rows[k] == init[k]);
                assert(reads_columns(hs[j], rows[k]));
            } else {
                let x = holding_of(rows.last())->0;
                assert(hs[j] == x);
                assert(rows[rows.len() - 1] == rows.last());
                assert(reads_columns(hs[j], rows[rows.len() - 1]));
            }
        }
        assert forall|k: int| 0 <= k < rows.len() && is_holding_row(#[trigger] rows[k]) implies row_is_kept(hs, rows[k]) by {
            if k < init.len() {
                assert(rows[k] == init[k]);
                assert(is_holding_row(init[k]));
                assert(row_is_kept(hi, init[k]));
                let j = choose|j: int| 0 <= j < hi.len() && #[trigger] reads_columns(hi[j], init[k]);
                assert(hs[j] == hi[j]);
                assert(reads_columns(hs[j], rows[k]));
            } else {
                assert(rows[k] == rows.last());
                let x = holding_of(rows.last())->0;
                assert(hs[hi.len() as int] == x);
                assert(reads_columns(hs[hi.len() as int], rows[k]));
            }
        }
    }
}

/// The body of the holdings grid.
pub fn grid(html: &str) -> (r: String)
    requires
        grid_ok(html@),
    ensures
        r@ == grid_body(html@),
        r@.len() <= html@.len(),
{
    let v = chars_of(html);
    let marker = chars_of("id=\"grid\"");
    match find(&v, &marker, 0) {
        None => {
            proof {
                assert(v@.subrange(0, v@.len() as int) == v@);
            }
            string_of(slice_chars(&v, 0, v.len()).as_slice())
        },
        Some(g) => {
            proof {
                lemma_index_of_bounds(v@, marker@, 0);
            }
            let tail = slice_chars(&v, g, v.len());
            proof {
                assert(tail@ == html@.skip(g as int));
            }
            let open = chars_of("<tbody");
            let close = chars_of("</tbody>");
            match (find(&tail, &open, 0), find(&tail, &close, 0)) {
                (Some(a), Some(b)) => {
                    proof {
                        lemma_index_of_bounds(tail@, open@, 0);
                        lemma_index_of_bounds(tail@, close@, 0);
                    }
                    string_of(slice_chars(&tail, a, b).as_slice())
                },
                _ => {
                    proof {
                        assert(tail@.subrange(0, tail@.len() as int) == tail@);
                    }
                    string_of(slice_chars(&tail, 0, tail.len()).as_slice())
                },
            }
        },
    }
}

/// Parse a manager's holdings grid: one row per holding, numbered from 1 in page order.
pub fn parse_holdings(html: &str) -> (r: Vec<HoldingRow>)
    requires
        grid_ok(html@),
        html@.len() <= i32::MAX,
    ensures
        r@.map_values(|h: HoldingRow| holding_view(h)) == holdings_of(
            elements_from(grid_body(html@), "<tr"@, "</tr>"@, 0),
        ),
        forall|i: int| 0 <= i < r@.len() ==> (#[trigger] r@[i]).position == i + 1,
        forall|j: int| 0 <= j < r@.len() ==> read_from_a_row(
            holding_view(#[trigger] r@[j]),
            elements_from(grid_body(html@), "<tr"@, "</tr>"@, 0),
        ),
        forall|k: int| 0 <= k < elements_from(grid_body(html@), "<tr"@, "</tr>"@, 0).len()
            && is_holding_row(#[trigger] elements_from(grid_body(html@), "<tr"@, "</tr>"@, 0)[k])
            ==> row_is_kept(r@.map_values(|h: HoldingRow| holding_view(h)), elements_from(grid_body(html@), "<tr"@, "</tr>"@, 0)[k]),
{
    let body = grid(html);
    let rs = rows(body.as_str());
    proof {
        lemma_elements_bound(body@, "<tr"@, "</tr>"@, 0);
    }
    let mut out: Vec<HoldingRow> = Vec::new();
    let mut position: i32 = 0;
    let mut i: usize = 0;
    while i < rs.len()
        invariant
            i <= rs@.len(),
            rs@.len() <= body@.len(),
            body@.len() <= html@.len(),
            html@.len() <= i32::MAX,
            crate::text::views(rs@) == elements_from(grid_body(html@), "<tr"@, "</tr>"@, 0),
            out@.map_values(|h: HoldingRow| holding_view(h)) == holdings_of(crate::text::views(rs@).take(i as int)),
            position == out@.len(),
            out@.len() <= i,
            forall|j: int| 0 <= j < out@.len() ==> (#[trigger] out@[j]).position == j + 1,
        decreases rs@.len() - i,
    {
        let ghost vs = crate::text::views(rs@);
        proof {
            assert(vs.take(i + 1).drop_last() == vs.take(i as int));
            assert(vs.take(i + 1).last() == rs@[i as int]@);
            reveal_strlit("class=\"stock\"");
        }
        let row = rs[i].as_str();
        let cs = cells(row);
        if cs.len() >= 7 && str_contains(row, "class=\"stock\"") {
            proof {
                assert(crate::text::views(cs@)[1] == cs@[1]@);
                assert(crate::text::views(cs@)[2] == cs@[2]@);
                assert(crate::text::views(cs@)[3] == cs@[3]@);
                assert(crate::text::views(cs@)[4] == cs@[4]@);
                assert(crate::text::views(cs@)[5] == cs@[5]@);
                assert(crate::text::views(cs@)[6] == cs@[6]@);
                assert(body@.len() <= i32::MAX);
            }
            let (ticker, company) = split_stock(cs[1].as_str());
            position = position + 1;
            let h = HoldingRow {
                position,
                ticker,
                company,
                pct_text: number_text(text_of(cs[2].as_str()).as_str()),
                activity: text_of(cs[3].as_str()),
                shares_text: number_text(text_of(cs[4].as_str()).as_str()),
                reported_price_text: number_text(text_of(cs[5].as_str()).as_str()),
                value_text: number_text(text_of(cs[6].as_str()).as_str()),
                current_price_text: optional_number(&cs, 8),
                change_pct_text: optional_number(&cs, 9),
                week52_low_text: optional_number(&cs, 10),
                week52_high_text: optional_number(&cs, 11),
            };
            let ghost before = out@.map_values(|h: HoldingRow| holding_view(h));
            out.push(h);
            proof {
                assert(holding_view(h) == holding_of(rs@[i as int]@)->0);
                assert(out@.map_values(|h: HoldingRow| holding_view(h)) =~= before.push(holding_view(h)));
            }
        }
        i = i + 1;
    }
    proof {
        assert(crate::text::views(rs@).take(rs@.len() as int) == crate::text::views(rs@));
        let rows = elements_from(grid_body(html@), "<tr"@, "</tr>"@, 0);
        lemma_holdings_come_from_rows(rows);
        assert forall|j: int| 0 <= j < out@.len() implies read_from_a_row(holding_view(#[trigger] out@[j]), rows) by {
            assert(holding_view(out@[j]) == out@.map_values(|h: HoldingRow| holding_view(h))[j]);
        }
        let rows = elements_from(grid_body(html@), "<tr"@, "</tr>"@, 0);
        lemma_holdings_come_from_rows(rows);
        assert forall|j: int| 0 <= j < out@.len() implies read_from_a_row(holding_view(#[trigger] out@[j]), rows) by {
            assert(holding_view(out@[j]) == out@.map_values(|h: HoldingRow| holding_view(h))[j]);
        }
    }
    out
}
} // verus!
