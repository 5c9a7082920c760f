//! Public-page reading: which addresses may be contacted, and how a fetched
//! HTML page is reduced to its readable text.
use vstd::prelude::*;
use crate::urls::{join_url, joined_url, opt_chars, parse_url, parsed_url, UrlParts, UrlView};
use crate::text::{
    chars_of, collapse_ws, extend, find_first, find_from, lemma_find_first, lower_seq, replace,
    replace_all, slice_vec, string_of, strip_markup, strip_markup_exec, take_chars, to_lower,
    truncate_chars, collapse_whitespace, owned, str_eq, starts_with, contains_seq,
    str_has_prefix, str_contains, trim, trim_bounds, occurs_at, lower_char, is_ws, collapse_step,
    strip_markup_state,
};
use crate::search::{
    entity_free, lemma_not_at_start, lemma_other_entity, lemma_replace_entity_free,
    lemma_replace_head, lemma_replace_split,
};

verus! {

/// Characters kept from a page.
pub const PAGE_TEXT_LIMIT: usize = 12000;

/// `<tag`
pub open spec fn open_marker(tag: Seq<char>) -> Seq<char> {
    seq!['<'] + tag
}

/// `</tag>`
pub open spec fn close_marker(tag: Seq<char>) -> Seq<char> {
    seq!['<', '/'] + tag + seq!['>']
}

/// Removes every `<tag ...>...</tag>` block (matched without regard to ASCII
/// case) by a single space, first block first; an unterminated block cuts the
/// text where it opens.
pub open spec fn remove_blocks(s: Seq<char>, tag: Seq<char>) -> Seq<char>
    decreases s.len(),
{
    let lower = lower_seq(s);
    match find_first(lower, open_marker(tag), 0) {
        None => s,
        Some(start) => match find_first(lower, close_marker(tag), start) {
            None => s.take(start),
            Some(end) => {
                proof {
                    lemma_find_first(lower, open_marker(tag), 0);
                    lemma_find_first(lower, close_marker(tag), start);
                }
                remove_blocks(
                    s.take(start) + seq![' '] + s.skip(end + close_marker(tag).len()),
                    tag,
                )
            },
        },
    }
}

/// Script, style, noscript and svg blocks removed, in that order.
pub open spec fn remove_hidden_blocks(s: Seq<char>) -> Seq<char> {
    remove_blocks(
        remove_blocks(remove_blocks(remove_blocks(s, "script"@), "style"@), "noscript"@),
        "svg"@,
    )
}

/// The readable text of an HTML page: hidden blocks and tags removed,
/// whitespace collapsed, three entities decoded, at most 12000 characters.
pub open spec fn page_text_of(html: Seq<char>) -> Seq<char> {
    take_chars(
        replace_all(
            replace_all(
                replace_all(collapse_ws(strip_markup(remove_hidden_blocks(html))), "&amp;"@, "&"@),
                "&nbsp;"@,
                " "@,
            ),
            "&quot;"@,
            "\""@,
        ),
        PAGE_TEXT_LIMIT as int,
    )
}

/// `find_first` answers the least matching position from `from` on.
proof fn lemma_find_is(h: Seq<char>, n: Seq<char>, from: int, i: int)
    requires
        0 <= from <= i,
        occurs_at(h, n, i),
        forall|j: int| from <= j < i ==> !occurs_at(h, n, j),
    ensures
        find_first(h, n, from) == Some(i),
{
    lemma_find_first(h, n, from);
}

/// `find_first` answers nothing when nothing matches from `from` on.
proof fn lemma_find_none(h: Seq<char>, n: Seq<char>, from: int)
    requires
        0 <= from,
        forall|j: int| from <= j ==> !occurs_at(h, n, j),
    ensures
        find_first(h, n, from) is None,
{
    lemma_find_first(h, n, from);
}

/// A match in `x + y` from position `x.len() + k` on is a match in `y` from `k`.
proof fn lemma_occurs_shift(x: Seq<char>, y: Seq<char>, n: Seq<char>, k: int)
    requires
        k >= 0,
    ensures
        occurs_at(x + y, n, x.len() + k) == occurs_at(y, n, k),
{
    if occurs_at(y, n, k) {
        assert((x + y).subrange(x.len() + k, x.len() + k + n.len()) =~= y.subrange(k, k + n.len()));
    }
    if occurs_at(x + y, n, x.len() + k) {
        assert((x + y).subrange(x.len() + k, x.len() + k + n.len()) =~= y.subrange(k, k + n.len()));
    }
}

/// Searching `x + y` from inside `y` is searching `y`, shifted.
proof fn lemma_find_shift(x: Seq<char>, y: Seq<char>, n: Seq<char>, k: int)
    requires
        k >= 0,
    ensures
        find_first(x + y, n, x.len() + k) == match find_first(y, n, k) {
            Some(i) => Some(x.len() + i),
            None => None::<int>,
        },
{
    lemma_find_first(y, n, k);
    match find_first(y, n, k) {
        Some(i) => {
            lemma_occurs_shift(x, y, n, i);
            assert forall|j: int| x.len() + k <= j < x.len() + i implies !occurs_at(x + y, n, j) by {
                lemma_occurs_shift(x, y, n, j - x.len());
            }
            lemma_find_is(x + y, n, x.len() + k, x.len() + i);
        },
        None => {
            assert forall|j: int| x.len() + k <= j implies !occurs_at(x + y, n, j) by {
                lemma_occurs_shift(x, y, n, j - x.len());
            }
            lemma_find_none(x + y, n, x.len() + k);
        },
    }
}

proof fn lemma_lower_concat(x: Seq<char>, y: Seq<char>)
    ensures
        lower_seq(x + y) == lower_seq(x) + lower_seq(y),
{
    assert(lower_seq(x + y) =~= lower_seq(x) + lower_seq(y));
}

/// The `k`-th character after position `i` of `p` rules out `<tag` there.
pub open spec fn rules_out(p: Seq<char>, tag: Seq<char>, i: int, k: int) -> bool {
    1 <= k <= tag.len() && i + k < p.len() && lower_char(p[i + k]) != tag[k - 1]
}

/// No block of `tag` opens in `p`: after every `<` of `p`, some character
/// within `p` differs from `tag` (in either case).
pub open spec fn opens_no_block(p: Seq<char>, tag: Seq<char>) -> bool {
    forall|i: int| 0 <= i < p.len() && #[trigger] p[i] == '<' ==> exists|k: int| #[trigger] rules_out(p, tag, i, k)
}

/// Text in which no block of `tag` opens passes through block removal
/// untouched, whatever follows it.
proof fn lemma_remove_blocks_prefix(p: Seq<char>, c: Seq<char>, tag: Seq<char>)
    requires
        tag.len() > 0,
        opens_no_block(p, tag),
    ensures
        remove_blocks(p + c, tag) == p + remove_blocks(c, tag),
    decreases c.len(),
{
    let s = p + c;
    let open = open_marker(tag);
    let close = close_marker(tag);
    lemma_lower_concat(p, c);
    let ls = lower_seq(s);
    let lc = lower_seq(c);
    assert(ls == lower_seq(p) + lc);
    assert forall|j: int| 0 <= j < p.len() implies !occurs_at(ls, open, j) by {
        if occurs_at(ls, open, j) {
            assert(ls.subrange(j, j + open.len())[0] == ls[j]);
            assert(ls[j] == lower_char(p[j]));
            assert(p[j] == '<');
            let k = choose|k: int| #[trigger] rules_out(p, tag, j, k);
            assert(ls.subrange(j, j + open.len())[k] == ls[j + k]);
            assert(open[k] == tag[k - 1]);
            assert(ls[j + k] == lower_char(p[j + k]));
        }
    }
    lemma_find_shift(lower_seq(p), lc, open, 0);
    lemma_find_first(ls, open, 0);
    lemma_find_first(lc, open, 0);
    let f0 = find_first(ls, open, 0);
    assert(f0 == find_first(ls, open, p.len() as int)) by {
        match f0 {
            Some(i) => {
                assert(i >= p.len());
                lemma_find_first(ls, open, p.len() as int);
                match find_first(ls, open, p.len() as int) {
                    Some(k) => {
                        assert(k == i);
                    },
                    None => {},
                }
            },
            None => {
                lemma_find_none(ls, open, p.len() as int);
            },
        }
    }
    match find_first(lc, open, 0) {
        None => {},
        Some(st) => {
            lemma_find_shift(lower_seq(p), lc, close, st);
            lemma_find_first(lc, close, st);
            match find_first(lc, close, st) {
                None => {
                    assert(s.take(p.len() + st) =~= p + c.take(st));
                },
                Some(e) => {
                    let cn = c.take(st) + seq![' '] + c.skip(e + close.len());
                    let sn = s.take(p.len() + st) + seq![' '] + s.skip(p.len() + e + close.len());
                    assert(sn =~= p + cn);
                    assert(cn.len() < c.len());
                    lemma_remove_blocks_prefix(p, cn, tag);
                },
            }
        },
    }
}

/// `<tag>`
pub open spec fn open_tag(tag: Seq<char>) -> Seq<char> {
    seq!['<'] + tag + seq!['>']
}

/// `</tag>`
pub open spec fn close_tag(tag: Seq<char>) -> Seq<char> {
    seq!['<', '/'] + tag + seq!['>']
}

/// A lower-case tag name without `<`, `/` or `>`.
pub open spec fn plain_tag(tag: Seq<char>) -> bool {
    &&& tag.len() > 0
    &&& lower_seq(tag) == tag
    &&& forall|i: int| 0 <= i < tag.len() ==> #[trigger] tag[i] != '<' && tag[i] != '/' && tag[i] != '>'
}

/// A `<tag>...</tag>` block between text without `<` is removed for a single
/// space.
proof fn lemma_block_removed(a: Seq<char>, t: Seq<char>, c: Seq<char>, tag: Seq<char>)
    requires
        !a.contains('<'),
        !t.contains('<'),
        plain_tag(tag),
    ensures
        remove_blocks(a + open_tag(tag) + t + close_tag(tag) + c, tag) == remove_blocks(a + seq![' '] + c, tag),
{
    let n = open_tag(tag);
    let e = close_tag(tag);
    let s = a + n + t + e + c;
    let ls = lower_seq(s);
    let open = open_marker(tag);
    let close = close_marker(tag);
    assert(lower_seq(n) =~= n) by {
        assert forall|i: int| 0 <= i < n.len() implies lower_seq(n)[i] == n[i] by {
            if 1 <= i < n.len() - 1 {
                assert(lower_seq(tag)[i - 1] == tag[i - 1]);
            }
        }
    }
    assert(lower_seq(e) =~= e) by {
        assert forall|i: int| 0 <= i < e.len() implies lower_seq(e)[i] == e[i] by {
            if 2 <= i < e.len() - 1 {
                assert(lower_seq(tag)[i - 2] == tag[i - 2]);
            }
        }
    }
    lemma_lower_concat(a + n + t + e, c);
    lemma_lower_concat(a + n + t, e);
    lemma_lower_concat(a + n, t);
    lemma_lower_concat(a, n);
    let la = lower_seq(a);
    let lt = lower_seq(t);
    assert(ls == la + n + lt + e + lower_seq(c));
    assert forall|i: int| 0 <= i < la.len() implies la[i] != '<' by {
        assert(a.contains(a[i]));
    }
    assert forall|i: int| 0 <= i < lt.len() implies lt[i] != '<' by {
        assert(t.contains(t[i]));
    }
    let st = a.len() as int;
    assert(occurs_at(ls, open, st)) by {
        assert(ls.subrange(st, st + open.len()) =~= open);
    }
    assert forall|j: int| 0 <= j < st implies !occurs_at(ls, open, j) by {
        if occurs_at(ls, open, j) {
            assert(ls.subrange(j, j + open.len())[0] == ls[j]);
        }
    }
    lemma_find_is(ls, open, 0, st);
    let en = (a.len() + n.len() + t.len()) as int;
    assert(occurs_at(ls, close, en)) by {
        assert(ls.subrange(en, en + close.len()) =~= close);
    }
    assert forall|j: int| st <= j < en implies !occurs_at(ls, close, j) by {
        if occurs_at(ls, close, j) {
            assert(ls.subrange(j, j + close.len())[0] == ls[j]);
            assert(ls.subrange(j, j + close.len())[1] == ls[j + 1]);
            if j == st {
                assert(ls[j + 1] == tag[0]);
            } else if j < st + n.len() {
                assert(ls[j] == n[j - st]);
                if j < st + n.len() - 1 {
                    assert(n[j - st] == tag[j - st - 1]);
                }
            } else {
                assert(ls[j] == lt[j - st - n.len()]);
            }
        }
    }
    lemma_find_is(ls, close, st, en);
    assert(s.take(st) + seq![' '] + s.skip(en + close.len()) =~= a + seq![' '] + c);
}

/// Text without `<` opens no block.
proof fn lemma_plain_opens_none(q: Seq<char>, tag: Seq<char>)
    requires
        forall|i: int| 0 <= i < q.len() ==> #[trigger] q[i] != '<',
    ensures
        opens_no_block(q, tag),
{
}

/// The four hidden tags.
pub open spec fn hidden_tag(tag: Seq<char>) -> bool {
    tag == "script"@ || tag == "style"@ || tag == "noscript"@ || tag == "svg"@
}

/// Nothing inside a `<script>`, `<style>`, `<noscript>` or `<svg>` block
/// reaches the readable text: the block reads as a single space, wherever it
/// stands between text without markup.
pub proof fn lemma_hidden_block(a: Seq<char>, t: Seq<char>, c: Seq<char>, tag: Seq<char>)
    requires
        !a.contains('<'),
        !t.contains('<'),
        hidden_tag(tag),
    ensures
        page_text_of(a + open_tag(tag) + t + close_tag(tag) + c) == page_text_of(a + " "@ + c),
{
    reveal_strlit("script");
    reveal_strlit("style");
    reveal_strlit("noscript");
    reveal_strlit("svg");
    reveal_strlit(" ");
    let sc = "script"@;
    let sy = "style"@;
    let ns = "noscript"@;
    let sv = "svg"@;
    assert(sc[1] != sy[1] && sc[1] != sv[1] && sy[1] != sv[1]);
    assert(ns[0] != sc[0]);
    assert(lower_seq(tag) =~= tag);
    assert(plain_tag(tag));
    let n = open_tag(tag);
    let e = close_tag(tag);
    let p = a + n + t + e;
    let q = a + seq![' '];
    assert forall|i: int| 0 <= i < q.len() implies #[trigger] q[i] != '<' by {
        if i < a.len() {
            assert(a.contains(a[i]));
        }
    }
    // The '<' of p: the opening of the block, and that of its closing tag.
    assert forall|other: Seq<char>| hidden_tag(other) && other != tag implies opens_no_block(p, other) by {
        assert forall|i: int| 0 <= i < p.len() && #[trigger] p[i] == '<' implies exists|k: int|
            #[trigger] rules_out(p, other, i, k) by {
            if i < a.len() {
                assert(a.contains(a[i]));
            } else if i < a.len() + n.len() {
                assert(i == a.len());
                if tag[0] != other[0] {
                    assert(rules_out(p, other, i, 1));
                } else {
                    assert(tag[1] != other[1]);
                    assert(rules_out(p, other, i, 2));
                }
            } else if i < a.len() + n.len() + t.len() {
                assert(t.contains(t[i - a.len() - n.len()]));
            } else if i == a.len() + n.len() + t.len() {
                assert(rules_out(p, other, i, 1));
            } else {
                assert(e[i - a.len() - n.len() - t.len()] == p[i]);
            }
        }
    }
    assert(a + n + t + e + seq![' '] =~= p + seq![' ']);
    let x = p + seq![' '];
    assert(a + open_tag(tag) + t + close_tag(tag) + c =~= p + c);
    assert(a + " "@ + c =~= q + c);
    let c1 = remove_blocks(c, sc);
    let c2 = remove_blocks(c1, sy);
    let c3 = remove_blocks(c2, ns);
    lemma_plain_opens_none(q, sc);
    lemma_plain_opens_none(q, sy);
    lemma_plain_opens_none(q, ns);
    lemma_plain_opens_none(q, sv);
    lemma_remove_blocks_prefix(q, c, sc);
    lemma_remove_blocks_prefix(q, c1, sy);
    lemma_remove_blocks_prefix(q, c2, ns);
    lemma_remove_blocks_prefix(q, c3, sv);
    if tag == sc {
        lemma_block_removed(a, t, c, sc);
        assert(a + seq![' '] + c =~= q + c);
        lemma_remove_blocks_prefix(q, c1, sy);
    } else if tag == sy {
        assert(hidden_tag(sc) && sc != tag);
        assert(opens_no_block(p, sc));
        lemma_remove_blocks_prefix(p, c, sc);
        assert(p + c1 =~= a + n + t + e + c1);
        lemma_block_removed(a, t, c1, sy);
        assert(a + seq![' '] + c1 =~= q + c1);
    } else if tag == ns {
        assert(hidden_tag(sc) && sc != tag);
        assert(opens_no_block(p, sc));
        assert(hidden_tag(sy) && sy != tag);
        assert(opens_no_block(p, sy));
        lemma_remove_blocks_prefix(p, c, sc);
        lemma_remove_blocks_prefix(p, c1, sy);
        assert(p + c2 =~= a + n + t + e + c2);
        lemma_block_removed(a, t, c2, ns);
        assert(a + seq![' '] + c2 =~= q + c2);
    } else {
        assert(hidden_tag(sc) && sc != tag);
        assert(opens_no_block(p, sc));
        assert(hidden_tag(sy) && sy != tag);
        assert(opens_no_block(p, sy));
        assert(hidden_tag(ns) && ns != tag);
        assert(opens_no_block(p, ns));
        lemma_remove_blocks_prefix(p, c, sc);
        lemma_remove_blocks_prefix(p, c1, sy);
        lemma_remove_blocks_prefix(p, c2, ns);
        assert(p + c3 =~= a + n + t + e + c3);
        lemma_block_removed(a, t, c3, sv);
        assert(a + seq![' '] + c3 =~= q + c3);
    }
    assert(remove_hidden_blocks(p + c) == remove_hidden_blocks(q + c));
}

/// Nothing inside a `<noscript>...</noscript>` block reaches the readable
/// text (see `lemma_hidden_block`).
pub proof fn lemma_noscript_hidden(a: Seq<char>, t: Seq<char>, c: Seq<char>)
    requires
        !a.contains('<'),
        !t.contains('<'),
    ensures
        page_text_of(a + "<noscript>"@ + t + "</noscript>"@ + c) == page_text_of(a + " "@ + c),
{
    reveal_strlit("<noscript>");
    reveal_strlit("</noscript>");
    reveal_strlit("noscript");
    assert(open_tag("noscript"@) =~= "<noscript>"@);
    assert(close_tag("noscript"@) =~= "</noscript>"@);
    lemma_hidden_block(a, t, c, "noscript"@);
}

/// Text without markup (`<`, `>`) and without whitespace.
pub open spec fn unmarked(s: Seq<char>) -> bool {
    forall|i: int| 0 <= i < s.len() ==> #[trigger] s[i] != '<' && s[i] != '>' && !is_ws(s[i])
}

proof fn lemma_unmarked_blocks(s: Seq<char>, tag: Seq<char>)
    requires
        unmarked(s),
    ensures
        remove_blocks(s, tag) == s,
{
    let ls = lower_seq(s);
    let open = open_marker(tag);
    assert forall|j: int| 0 <= j implies !occurs_at(ls, open, j) by {
        if occurs_at(ls, open, j) {
            assert(ls.subrange(j, j + open.len())[0] == ls[j]);
            assert(ls[j] == lower_char(s[j]));
        }
    }
    lemma_find_none(ls, open, 0);
}

pub(crate) proof fn lemma_unmarked_strip(s: Seq<char>)
    requires
        unmarked(s),
    ensures
        strip_markup_state(s) == (s, false),
    decreases s.len(),
{
    if s.len() > 0 {
        lemma_unmarked_strip(s.drop_last());
        assert(s.drop_last().push(s.last()) =~= s);
    }
}

pub(crate) proof fn lemma_unmarked_collapse(s: Seq<char>)
    requires
        unmarked(s),
    ensures
        collapse_step(s) == s,
    decreases s.len(),
{
    if s.len() > 0 {
        lemma_unmarked_collapse(s.drop_last());
        assert(s.drop_last().push(s.last()) =~= s);
    }
}

/// The readable text of text without markup and whitespace, before entities
/// are decoded and the length is capped.
proof fn lemma_unmarked_visible(s: Seq<char>)
    requires
        unmarked(s),
    ensures
        collapse_ws(strip_markup(remove_hidden_blocks(s))) == s,
{
    reveal_strlit("script");
    reveal_strlit("style");
    reveal_strlit("noscript");
    reveal_strlit("svg");
    lemma_unmarked_blocks(s, "script"@);
    lemma_unmarked_blocks(s, "style"@);
    lemma_unmarked_blocks(s, "noscript"@);
    lemma_unmarked_blocks(s, "svg"@);
    lemma_unmarked_strip(s);
    lemma_unmarked_collapse(s);
    if s.len() > 0 {
        assert(!is_ws(s.last()));
    }
}

/// Plain words come through as they are, cut after `PAGE_TEXT_LIMIT`
/// characters: text without markup, whitespace or entities reads as itself,
/// up to 12000 characters.
pub proof fn lemma_plain_page(s: Seq<char>)
    requires
        unmarked(s),
        entity_free(s),
    ensures
        page_text_of(s) == if s.len() <= 12000 {
            s
        } else {
            s.take(12000)
        },
{
    reveal_strlit("&amp;");
    reveal_strlit("&nbsp;");
    reveal_strlit("&quot;");
    lemma_unmarked_visible(s);
    lemma_replace_entity_free(s, "&amp;"@, "&"@);
    lemma_replace_entity_free(s, "&nbsp;"@, " "@);
    lemma_replace_entity_free(s, "&quot;"@, "\""@);
}

/// The page reader decodes `&amp;`, `&nbsp;` and `&quot;`: one of them
/// standing between plain words becomes its character (`&amp;` when no `;`
/// follows that could make a new entity), within the length limit.
pub proof fn lemma_page_entities(a: Seq<char>, b: Seq<char>)
    requires
        unmarked(a),
        unmarked(b),
        entity_free(a),
        entity_free(b),
        a.len() + b.len() + 6 <= 12000,
    ensures
        page_text_of(a + "&quot;"@ + b) == a + "\""@ + b,
        page_text_of(a + "&nbsp;"@ + b) == a + " "@ + b,
        (forall|i: int| 0 <= i < b.len() ==> b[i] != ';') ==> page_text_of(a + "&amp;"@ + b) == a + "&"@
            + b,
{
    reveal_strlit("&amp;");
    reveal_strlit("&nbsp;");
    reveal_strlit("&quot;");
    reveal_strlit("&");
    reveal_strlit(" ");
    reveal_strlit("\"");
    let amp = "&amp;"@;
    let nbsp = "&nbsp;"@;
    let quot = "&quot;"@;
    assert(entity_free(amp.drop_first()));
    assert(entity_free(nbsp.drop_first()));
    assert(entity_free(quot.drop_first()));
    // &quot;
    {
        let e = quot;
        let s = a + e + b;
        assert(unmarked(s)) by {
            assert forall|i: int| 0 <= i < s.len() implies #[trigger] s[i] != '<' && s[i] != '>' && !is_ws(s[i]) by {
                if i < a.len() {
                } else if i < a.len() + e.len() {
                    assert(s[i] == e[i - a.len()]);
                } else {
                    assert(s[i] == b[i - a.len() - e.len()]);
                }
            }
        }
        lemma_unmarked_visible(s);
        lemma_not_at_start(e + b, amp, 1);
        lemma_other_entity(a, e, b, amp, "&"@);
        lemma_not_at_start(e + b, nbsp, 1);
        lemma_other_entity(a, e, b, nbsp, " "@);
        assert(a + e + b =~= a + (e + b));
        lemma_replace_split(a, e + b, e, "\""@);
        lemma_replace_head(b, e, "\""@);
        lemma_replace_entity_free(b, e, "\""@);
        assert(a + ("\""@ + b) =~= a + "\""@ + b);
    }
    // &nbsp;
    {
        let e = nbsp;
        let s = a + e + b;
        assert(unmarked(s)) by {
            assert forall|i: int| 0 <= i < s.len() implies #[trigger] s[i] != '<' && s[i] != '>' && !is_ws(s[i]) by {
                if i < a.len() {
                } else if i < a.len() + e.len() {
                    assert(s[i] == e[i - a.len()]);
                } else {
                    assert(s[i] == b[i - a.len() - e.len()]);
                }
            }
        }
        lemma_unmarked_visible(s);
        lemma_not_at_start(e + b, amp, 1);
        lemma_other_entity(a, e, b, amp, "&"@);
        assert(a + e + b =~= a + (e + b));
        lemma_replace_split(a, e + b, e, " "@);
        lemma_replace_head(b, e, " "@);
        lemma_replace_entity_free(b, e, " "@);
        let s1 = a + " "@ + b;
        assert(a + (" "@ + b) =~= s1);
        assert(entity_free(s1));
        lemma_replace_entity_free(s1, quot, "\""@);
    }
    // &amp;
    if forall|i: int| 0 <= i < b.len() ==> b[i] != ';' {
        let e = amp;
        let s = a + e + b;
        assert(unmarked(s)) by {
            assert forall|i: int| 0 <= i < s.len() implies #[trigger] s[i] != '<' && s[i] != '>' && !is_ws(s[i]) by {
                if i < a.len() {
                } else if i < a.len() + e.len() {
                    assert(s[i] == e[i - a.len()]);
                } else {
                    assert(s[i] == b[i - a.len() - e.len()]);
                }
            }
        }
        lemma_unmarked_visible(s);
        assert(a + e + b =~= a + (e + b));
        lemma_replace_split(a, e + b, e, "&"@);
        lemma_replace_head(b, e, "&"@);
        lemma_replace_entity_free(b, e, "&"@);
        let s1 = a + "&"@ + b;
        assert(a + ("&"@ + b) =~= s1);
        let hb = "&"@ + b;
        assert(s1 =~= a + hb);
        assert(hb.drop_first() =~= b);
        lemma_replace_split(a, hb, nbsp, " "@);
        if occurs_at(hb, nbsp, 0) {
            assert(hb.subrange(0, nbsp.len() as int)[5] == b[4]);
        }
        lemma_replace_entity_free(b, nbsp, " "@);
        assert(seq!['&'] + b =~= hb);
        lemma_replace_split(a, hb, quot, "\""@);
        if occurs_at(hb, quot, 0) {
            assert(hb.subrange(0, quot.len() as int)[5] == b[4]);
        }
        lemma_replace_entity_free(b, quot, "\""@);
    }
}

fn marker_vecs(tag: &str) -> (r: (Vec<char>, Vec<char>))
    ensures
        r.0@ == open_marker(tag@),
        r.1@ == close_marker(tag@),
{
    let t = chars_of(tag);
    let mut open: Vec<char> = vec!['<'];
    extend(&mut open, &t);
    let mut close: Vec<char> = vec!['<', '/'];
    extend(&mut close, &t);
    close.push('>');
    assert(open@ =~= open_marker(tag@));
    assert(close@ =~= close_marker(tag@));
    (open, close)
}

fn remove_tag_blocks(s: Vec<char>, tag: &str) -> (r: Vec<char>)
    ensures
        r@ == remove_blocks(s@, tag@),
{
    let (open, close) = marker_vecs(tag);
    let mut cur = s;
    loop
        invariant
            open@ == open_marker(tag@),
            close@ == close_marker(tag@),
            remove_blocks(cur@, tag@) == remove_blocks(s@, tag@),
        decreases cur.len(),
    {
        let lower = to_lower(&cur);
        match find_from(&lower, &open, 0) {
            None => {
                return cur;
            },
            Some(start) => {
                proof {
                    lemma_find_first(lower@, open@, 0);
                }
                match find_from(&lower, &close, start) {
                    None => {
                        return slice_vec(&cur, 0, start);
                    },
                    Some(end) => {
                        proof {
                            lemma_find_first(lower@, close@, start as int);
                        }
                        let mut next = slice_vec(&cur, 0, start);
                        next.push(' ');
                        let rest = slice_vec(&cur, end + close.len(), cur.len());
                        extend(&mut next, &rest);
                        assert(next@ =~= cur@.take(start as int) + seq![' '] + cur@.skip(
                            end + close@.len(),
                        ));
                        cur = next;
                    },
                }
            },
        }
    }
}

/// The readable text of an HTML page (see `page_text_of`).
pub fn page_text(html: &str) -> (r: String)
    ensures
        r@ == page_text_of(html@),
{
    let mut cleaned = chars_of(html);
    cleaned = remove_tag_blocks(cleaned, "script");
    cleaned = remove_tag_blocks(cleaned, "style");
    cleaned = remove_tag_blocks(cleaned, "noscript");
    cleaned = remove_tag_blocks(cleaned, "svg");
    let visible = strip_markup_exec(&cleaned);
    let joined = collapse_whitespace(&visible);
    let amp = chars_of("&amp;");
    let nbsp = chars_of("&nbsp;");
    let quot = chars_of("&quot;");
    proof {
        reveal_strlit("&amp;");
        reveal_strlit("&nbsp;");
        reveal_strlit("&quot;");
    }
    let t1 = replace(&joined, &amp, &chars_of("&"));
    let t2 = replace(&t1, &nbsp, &chars_of(" "));
    let t3 = replace(&t2, &quot, &chars_of("\""));
    string_of(&truncate_chars(&t3, PAGE_TEXT_LIMIT))
}

// ---------------------------------------------------------------- addresses

/// An IP address as the resolver reports it: four octets or eight 16-bit
/// segments.
#[derive(Clone, Copy, Debug, PartialEq, Eq)]
pub enum IpAddress {
    V4([u8; 4]),
    V6([u16; 8]),
}

/// 10.0.0.0/8, 172.16.0.0/12 and 192.168.0.0/16 (`Ipv4Addr::is_private`).
pub open spec fn v4_private(a: u8, b: u8) -> bool {
    a == 10 || (a == 172 && 16 <= b && b <= 31) || (a == 192 && b == 168)
}

/// 192.0.2.0/24, 198.51.100.0/24 and 203.0.113.0/24 (`is_documentation`).
pub open spec fn v4_documentation(a: u8, b: u8, c: u8) -> bool {
    (a == 192 && b == 0 && c == 2) || (a == 198 && b == 51 && c == 100) || (a == 203 && b == 0
        && c == 113)
}

/// An IPv4 address that is routable on the public internet: not private,
/// loopback (127/8), link-local (169.254/16), broadcast, documentation,
/// unspecified, multicast (224/4), "this network" (0/8), reserved (240/4) nor
/// shared address space (100.64/10).
pub open spec fn public_v4(o: [u8; 4]) -> bool {
    let (a, b, c, d) = (o[0], o[1], o[2], o[3]);
    &&& !v4_private(a, b)
    &&& a != 127
    &&& !(a == 169 && b == 254)
    &&& !(a == 255 && b == 255 && c == 255 && d == 255)
    &&& !v4_documentation(a, b, c)
    &&& !(a == 0 && b == 0 && c == 0 && d == 0)
    &&& !(224 <= a && a <= 239)
    &&& a != 0
    &&& a < 224
    &&& !(a == 100 && 64 <= b && b <= 127)
}

/// `::ffff:a.b.c.d`, the IPv4-mapped form (`Ipv6Addr::to_ipv4_mapped`).
pub open spec fn v4_mapped(s: [u16; 8]) -> bool {
    s[0] == 0 && s[1] == 0 && s[2] == 0 && s[3] == 0 && s[4] == 0 && s[5] == 0xffff
}

pub open spec fn mapped_octets(s: [u16; 8]) -> [u8; 4] {
    [(s[6] / 256) as u8, (s[6] % 256) as u8, (s[7] / 256) as u8, (s[7] % 256) as u8]
}

/// Public addresses: public IPv4 (also when IPv4-mapped into IPv6), or IPv6
/// global unicast 2000::/3 outside the documentation prefix 2001:db8::/32.
pub open spec fn is_public_ip(ip: IpAddress) -> bool {
    match ip {
        IpAddress::V4(o) => public_v4(o),
        IpAddress::V6(s) => if v4_mapped(s) {
            public_v4(mapped_octets(s))
        } else {
            0x2000 <= s[0] && s[0] < 0x4000 && !(s[0] == 0x2001 && s[1] == 0xdb8)
        },
    }
}

fn public_v4_exec(o: [u8; 4]) -> (r: bool)
    ensures
        r == public_v4(o),
{
    let a = o[0];
    let b = o[1];
    let c = o[2];
    let d = o[3];
    let private = a == 10 || (a == 172 && 16 <= b && b <= 31) || (a == 192 && b == 168);
    let documentation = (a == 192 && b == 0 && c == 2) || (a == 198 && b == 51 && c == 100) || (
    a == 203 && b == 0 && c == 113);
    !private && a != 127 && !(a == 169 && b == 254) && !(a == 255 && b == 255 && c == 255 && d
        == 255) && !documentation && !(a == 0 && b == 0 && c == 0 && d == 0) && !(224 <= a && a
        <= 239) && a != 0 && a < 224 && !(a == 100 && 64 <= b && b <= 127)
}

/// Whether a resolved address may be contacted by the page reader.
pub fn public_ip(ip: IpAddress) -> (r: bool)
    ensures
        r == is_public_ip(ip),
{
    match ip {
        IpAddress::V4(o) => public_v4_exec(o),
        IpAddress::V6(s) => {
            if s[0] == 0 && s[1] == 0 && s[2] == 0 && s[3] == 0 && s[4] == 0 && s[5] == 0xffff {
                let hi = s[6];
                let lo = s[7];
                let o: [u8; 4] = [(hi / 256) as u8, (hi % 256) as u8, (lo / 256) as u8, (lo
                    % 256) as u8];
                assert(o@ =~= mapped_octets(s)@);
                public_v4_exec(o)
            } else {
                let first = s[0];
                let global = (first & 0xe000) == 0x2000;
                assert(((first & 0xe000) == 0x2000) == (0x2000 <= first && first < 0x4000))
                    by (bit_vector);
                global && !(s[0] == 0x2001 && s[1] == 0xdb8)
            }
        },
    }
}

/// Every resolved address is public, and there is at least one.
pub open spec fn addresses_allowed_spec(addresses: Seq<IpAddress>) -> bool {
    addresses.len() > 0 && forall|i: int| 0 <= i < addresses.len() ==> is_public_ip(
        #[trigger] addresses[i],
    )
}

pub fn addresses_allowed(addresses: &Vec<IpAddress>) -> (r: bool)
    ensures
        r == addresses_allowed_spec(addresses@),
{
    if addresses.len() == 0 {
        return false;
    }
    let mut i: usize = 0;
    while i < addresses.len()
        invariant
            i <= addresses.len(),
            forall|k: int| 0 <= k < i ==> is_public_ip(#[trigger] addresses@[k]),
        decreases addresses.len() - i,
    {
        if !public_ip(addresses[i]) {
            return false;
        }
        i += 1;
    }
    true
}

// ---------------------------------------------------------------- fetching

/// Redirects followed before a page is given up.
pub const MAX_PAGE_HOPS: usize = 5;

/// Bytes of body accepted from one page.
pub const MAX_PAGE_BYTES: usize = 2097152;

pub open spec fn msg_invalid_link() -> Seq<char> {
    "El enlace no es válido."@
}

pub open spec fn msg_not_public_web() -> Seq<char> {
    "Solo se pueden consultar páginas web públicas HTTP o HTTPS."@
}

pub open spec fn msg_no_domain() -> Seq<char> {
    "El enlace no tiene dominio."@
}

pub open spec fn msg_bad_redirect() -> Seq<char> {
    "Redirección no válida."@
}

pub open spec fn msg_not_text() -> Seq<char> {
    "El enlace no contiene una página de texto compatible."@
}

pub open spec fn msg_no_readable_text() -> Seq<char> {
    "La página no contiene texto legible; puede requerir JavaScript."@
}

/// Where the reader connects: the URL, its host and its port.
#[derive(Clone, Debug)]
pub struct PageTarget {
    pub url: String,
    pub host: String,
    pub port: u16,
}

/// Why a parsed URL may not be read, if it may not: only plain http(s) on the
/// standard ports, without credentials, with a host.
pub open spec fn target_refusal(u: UrlView) -> Option<Seq<char>> {
    if !(u.scheme == "https"@ || u.scheme == "http"@) || u.username.len() != 0
        || u.password is Some || !(u.port == Some(80u16) || u.port == Some(443u16)) {
        Some(msg_not_public_web())
    } else if u.host is None {
        Some(msg_no_domain())
    } else {
        None
    }
}

/// Decides whether a parsed URL may be read (see `target_refusal`).
pub fn check_page_target(parts: &UrlParts) -> (r: Result<PageTarget, String>)
    ensures
        match target_refusal(parts@) {
            Some(m) => r matches Err(e) && e@ == m,
            None => r matches Ok(t) && parts@.host == Some(t.host@) && parts@.port == Some(t.port)
                && t.url@ == parts@.text,
        },
{
    let web = str_eq(parts.scheme.as_str(), "https") || str_eq(parts.scheme.as_str(), "http");
    let standard_port = match parts.port {
        Some(p) => p == 80 || p == 443,
        None => false,
    };
    let no_user = parts.username.as_str().is_empty();
    if !web || !no_user || parts.password.is_some() || !standard_port {
        return Err(owned("Solo se pueden consultar páginas web públicas HTTP o HTTPS."));
    }
    match &parts.host {
        None => Err(owned("El enlace no tiene dominio.")),
        Some(host) => Ok(
            PageTarget { url: parts.text.clone(), host: host.clone(), port: parts.port.unwrap() },
        ),
    }
}

/// What the reader does with a link before connecting: parse it, then apply
/// `target_refusal`.
pub open spec fn page_target_outcome(text: Seq<char>) -> Option<Seq<char>> {
    match parsed_url(text) {
        None => Some(msg_invalid_link()),
        Some(u) => target_refusal(u),
    }
}

/// Parses a link and checks that it may be read.
pub fn page_target(value: &str) -> (r: Result<PageTarget, String>)
    ensures
        match page_target_outcome(value@) {
            Some(m) => r matches Err(e) && e@ == m,
            None => r matches Ok(t) && parsed_url(value@) matches Some(u) && u.host == Some(t.host@)
                && u.port == Some(t.port) && t.url@ == u.text,
        },
{
    match parse_url(value) {
        None => Err(owned("El enlace no es válido.")),
        Some(parts) => check_page_target(&parts),
    }
}

/// The next URL after a redirect response: the `Location` value resolved
/// against the current URL, which must itself be readable.
pub open spec fn redirect_outcome(current: Seq<char>, location: Option<Seq<char>>) -> Option<Seq<char>> {
    match location {
        None => Some(msg_bad_redirect()),
        Some(l) => match joined_url(current, l) {
            None => Some(msg_bad_redirect()),
            Some(next) => page_target_outcome(next),
        },
    }
}

pub fn redirect_target(current: &str, location: Option<&str>) -> (r: Result<PageTarget, String>)
    ensures
        match redirect_outcome(current@, match location { Some(l) => Some(l@), None => None }) {
            Some(m) => r matches Err(e) && e@ == m,
            None => r matches Ok(t) && location matches Some(l) && joined_url(current@, l@) matches Some(
                next,
            ) && parsed_url(next) matches Some(u) && u.host == Some(t.host@) && u.port == Some(
                t.port,
            ) && t.url@ == u.text,
        },
{
    match location {
        None => Err(owned("Redirección no válida.")),
        Some(l) => match join_url(current, l) {
            None => Err(owned("Redirección no válida.")),
            Some(next) => page_target(next.as_str()),
        },
    }
}

/// A response whose content type does not start with `text/` is refused;
/// otherwise the answer says whether it is HTML.
pub open spec fn content_outcome(content_type: Seq<char>) -> Result<bool, Seq<char>> {
    if !starts_with(content_type, "text/"@) {
        Err(msg_not_text())
    } else {
        Ok(contains_seq(content_type, "html"@))
    }
}

/// Classifies a response by its `Content-Type` (absent counts as empty).
pub fn page_content_kind(content_type: Option<&str>) -> (r: Result<bool, String>)
    ensures
        match content_outcome(match content_type { Some(c) => c@, None => Seq::empty() }) {
            Ok(html) => r == Ok::<bool, String>(html),
            Err(m) => r matches Err(e) && e@ == m,
        },
{
    let ct = match content_type {
        Some(c) => c,
        None => "",
    };
    proof {
        reveal_strlit("");
        assert(ct@ == match content_type {
            Some(c) => c@,
            None => Seq::<char>::empty(),
        });
    }
    if !str_has_prefix(ct, "text/") {
        Err(owned("El enlace no contiene una página de texto compatible."))
    } else {
        Ok(str_contains(ct, "html"))
    }
}

/// A body may grow by `chunk` bytes while it stays within `MAX_PAGE_BYTES`.
pub fn body_within_limit(received: usize, chunk: usize) -> (r: bool)
    ensures
        r == (received + chunk <= MAX_PAGE_BYTES),
{
    received <= MAX_PAGE_BYTES && chunk <= MAX_PAGE_BYTES - received
}

/// The text handed back for a fetched body: the readable text of HTML, the
/// first 12000 characters otherwise; refused when only whitespace is left.
pub open spec fn page_result(body: Seq<char>, html: bool) -> Result<Seq<char>, Seq<char>> {
    let text = if html {
        page_text_of(body)
    } else {
        take_chars(body, PAGE_TEXT_LIMIT as int)
    };
    if trim(text).len() == 0 {
        Err(msg_no_readable_text())
    } else {
        Ok(text)
    }
}

pub fn finish_page(body: &str, html: bool) -> (r: Result<String, String>)
    ensures
        match page_result(body@, html) {
            Ok(t) => r matches Ok(s) && s@ == t,
            Err(m) => r matches Err(e) && e@ == m,
        },
{
    let text: Vec<char> = if html {
        chars_of(page_text(body).as_str())
    } else {
        truncate_chars(&chars_of(body), PAGE_TEXT_LIMIT)
    };
    let (a, b) = trim_bounds(&text);
    if a == b {
        Err(owned("La página no contiene texto legible; puede requerir JavaScript."))
    } else {
        Ok(string_of(&text))
    }
}


pub open spec fn msg_not_public_address() -> Seq<char> {
    "El enlace no corresponde a una dirección pública."@
}

/// The addresses a host resolved to may be connected to only when there is at
/// least one and all are public.
pub fn check_addresses(addresses: &Vec<IpAddress>) -> (r: Result<(), String>)
    ensures
        addresses_allowed_spec(addresses@) ==> r is Ok,
        !addresses_allowed_spec(addresses@) ==> (r matches Err(e) && e@ == msg_not_public_address()),
{
    if addresses_allowed(addresses) {
        Ok(())
    } else {
        Err(owned("El enlace no corresponde a una dirección pública."))
    }
}


// ---------------------------------------------------------------- the read loop

pub open spec fn msg_no_resolve() -> Seq<char> {
    "No se pudo resolver el dominio."@
}

pub open spec fn msg_no_connect() -> Seq<char> {
    "No se pudo conectar con la página."@
}

pub open spec fn msg_interrupted() -> Seq<char> {
    "La lectura de la página se interrumpió."@
}

pub open spec fn msg_too_large() -> Seq<char> {
    "La página supera el tamaño permitido."@
}

pub open spec fn msg_too_many_redirects() -> Seq<char> {
    "La página tiene demasiadas redirecciones."@
}

/// The answer to a response that is neither a redirect nor a success, where
/// `status` is the status as HTTP writes it (`404 Not Found`).
pub open spec fn msg_http_status(status: Seq<char>) -> Seq<char> {
    "La página respondió HTTP "@ + status + "."@
}

/// How far the reading of one page has come.
#[derive(Clone, Copy, Debug, PartialEq, Eq, Structural)]
pub enum ReadStage {
    /// The target's host is being looked up.
    Resolving,
    /// A request is on its way to the target.
    Requesting,
    /// The body of a successful response is coming in.
    Receiving,
    /// The read is over; its answer has been given.
    Over,
}

/// A page read in progress: where it goes, how many requests it has sent, how
/// many body bytes it has accepted and whether the body is HTML.
#[derive(Clone, Debug)]
pub struct PageRead {
    pub target: PageTarget,
    pub requests: usize,
    pub received: usize,
    pub html: bool,
    pub stage: ReadStage,
}

pub struct PageReadView {
    pub url: Seq<char>,
    pub host: Seq<char>,
    pub port: u16,
    pub requests: nat,
    pub received: nat,
    pub html: bool,
    pub stage: ReadStage,
}

impl View for PageRead {
    type V = PageReadView;

    open spec fn view(&self) -> PageReadView {
        PageReadView {
            url: self.target.url@,
            host: self.target.host@,
            port: self.target.port,
            requests: self.requests as nat,
            received: self.received as nat,
            html: self.html,
            stage: self.stage,
        }
    }
}

/// No more than `MAX_PAGE_HOPS` requests, no more than `MAX_PAGE_BYTES` of
/// body, and a lookup only while another request may still be sent.
pub open spec fn page_read_wf(s: PageReadView) -> bool {
    &&& s.requests <= MAX_PAGE_HOPS
    &&& s.received <= MAX_PAGE_BYTES
    &&& s.stage == ReadStage::Resolving ==> s.requests < MAX_PAGE_HOPS
}

/// What the caller saw since the last step.
#[derive(Debug)]
pub enum PageEvent {
    /// The host resolved to these addresses.
    Resolved(Vec<IpAddress>),
    ResolveFailed,
    /// The request could not be sent or no response came.
    SendFailed,
    /// A response: its status code, the status as HTTP writes it, and its
    /// `Location` and `Content-Type` headers where they are readable text.
    Responded {
        status: u16,
        status_text: String,
        location: Option<String>,
        content_type: Option<String>,
    },
    /// A chunk of this many body bytes arrived.
    Chunk(usize),
    ChunkFailed,
    /// The body ended; these are its bytes decoded lossily as UTF-8.
    BodyEnd(String),
}

pub enum PageEventView {
    Resolved(Seq<IpAddress>),
    ResolveFailed,
    SendFailed,
    Responded {
        status: u16,
        status_text: Seq<char>,
        location: Option<Seq<char>>,
        content_type: Option<Seq<char>>,
    },
    Chunk(nat),
    ChunkFailed,
    BodyEnd(Seq<char>),
}

impl View for PageEvent {
    type V = PageEventView;

    open spec fn view(&self) -> PageEventView {
        match self {
            PageEvent::Resolved(a) => PageEventView::Resolved(a@),
            PageEvent::ResolveFailed => PageEventView::ResolveFailed,
            PageEvent::SendFailed => PageEventView::SendFailed,
            PageEvent::Responded { status, status_text, location, content_type } =>
                PageEventView::Responded {
                    status: *status,
                    status_text: status_text@,
                    location: opt_chars(*location),
                    content_type: opt_chars(*content_type),
                },
            PageEvent::Chunk(n) => PageEventView::Chunk(*n as nat),
            PageEvent::ChunkFailed => PageEventView::ChunkFailed,
            PageEvent::BodyEnd(b) => PageEventView::BodyEnd(b@),
        }
    }
}

/// What the caller does next.
#[derive(Debug)]
pub enum PageAction {
    /// Look up the target's host and port.
    Resolve,
    /// Send a GET for the target's URL to the addresses just resolved,
    /// following no redirect itself.
    Send,
    /// Keep the chunk and wait for the next one.
    Receive,
    /// Nothing: the event does not belong to this stage.
    Ignore,
    /// The read is over, with this answer.
    Done(Result<String, String>),
}

pub enum PageActionView {
    Resolve,
    Send,
    Receive,
    Ignore,
    Done(Result<Seq<char>, Seq<char>>),
}

impl View for PageAction {
    type V = PageActionView;

    open spec fn view(&self) -> PageActionView {
        match self {
            PageAction::Resolve => PageActionView::Resolve,
            PageAction::Send => PageActionView::Send,
            PageAction::Receive => PageActionView::Receive,
            PageAction::Ignore => PageActionView::Ignore,
            PageAction::Done(Ok(t)) => PageActionView::Done(Ok(t@)),
            PageAction::Done(Err(e)) => PageActionView::Done(Err(e@)),
        }
    }
}

pub open spec fn read_stage(s: PageReadView, stage: ReadStage) -> PageReadView {
    PageReadView {
        url: s.url,
        host: s.host,
        port: s.port,
        requests: s.requests,
        received: s.received,
        html: s.html,
        stage,
    }
}

/// The read ends with `answer`.
pub open spec fn read_over(s: PageReadView, answer: Result<Seq<char>, Seq<char>>) -> (
    PageReadView,
    PageActionView,
) {
    (read_stage(s, ReadStage::Over), PageActionView::Done(answer))
}

/// A redirect: with requests left, the read moves on to the resolved
/// `Location` (see `redirect_outcome`); after the last one, a valid `Location`
/// ends the read as having too many redirects.
pub open spec fn after_redirect(s: PageReadView, location: Option<Seq<char>>) -> (
    PageReadView,
    PageActionView,
) {
    if s.requests >= MAX_PAGE_HOPS {
        if location matches Some(l) && joined_url(s.url, l) is Some {
            read_over(s, Err(msg_too_many_redirects()))
        } else {
            read_over(s, Err(msg_bad_redirect()))
        }
    } else {
        match redirect_outcome(s.url, location) {
            Some(m) => read_over(s, Err(m)),
            None => {
                let u = parsed_url(joined_url(s.url, location->0)->0)->0;
                (
                    PageReadView {
                        url: u.text,
                        host: u.host->0,
                        port: u.port->0,
                        requests: s.requests,
                        received: s.received,
                        html: s.html,
                        stage: ReadStage::Resolving,
                    },
                    PageActionView::Resolve,
                )
            },
        }
    }
}

/// One step of a page read.
pub open spec fn page_read_next(s: PageReadView, e: PageEventView) -> (PageReadView, PageActionView) {
    match (s.stage, e) {
        (ReadStage::Resolving, PageEventView::Resolved(a)) => if addresses_allowed_spec(a) {
            (
                PageReadView {
                    url: s.url,
                    host: s.host,
                    port: s.port,
                    requests: s.requests + 1,
                    received: s.received,
                    html: s.html,
                    stage: ReadStage::Requesting,
                },
                PageActionView::Send,
            )
        } else {
            read_over(s, Err(msg_not_public_address()))
        },
        (ReadStage::Resolving, PageEventView::ResolveFailed) => read_over(s, Err(msg_no_resolve())),
        (ReadStage::Requesting, PageEventView::SendFailed) => read_over(s, Err(msg_no_connect())),
        (
            ReadStage::Requesting,
            PageEventView::Responded { status, status_text, location, content_type },
        ) => if 300 <= status && status <= 399 {
            after_redirect(s, location)
        } else if !(200 <= status && status <= 299) {
            read_over(s, Err(msg_http_status(status_text)))
        } else {
            match content_outcome(
                match content_type {
                    Some(c) => c,
                    None => Seq::empty(),
                },
            ) {
                Err(m) => read_over(s, Err(m)),
                Ok(html) => (
                    PageReadView {
                        url: s.url,
                        host: s.host,
                        port: s.port,
                        requests: s.requests,
                        received: 0,
                        html,
                        stage: ReadStage::Receiving,
                    },
                    PageActionView::Receive,
                ),
            }
        },
        (ReadStage::Receiving, PageEventView::Chunk(n)) => if s.received + n <= MAX_PAGE_BYTES {
            (
                PageReadView {
                    url: s.url,
                    host: s.host,
                    port: s.port,
                    requests: s.requests,
                    received: s.received + n,
                    html: s.html,
                    stage: ReadStage::Receiving,
                },
                PageActionView::Receive,
            )
        } else {
            read_over(s, Err(msg_too_large()))
        },
        (ReadStage::Receiving, PageEventView::ChunkFailed) => read_over(s, Err(msg_interrupted())),
        (ReadStage::Receiving, PageEventView::BodyEnd(body)) => read_over(s, page_result(body, s.html)),
        _ => (s, PageActionView::Ignore),
    }
}

/// Starts reading the page at `value`: a link that may not be read ends the
/// read at once (see `page_target_outcome`); otherwise its host is looked up.
pub fn page_read_start(value: &str) -> (r: (PageRead, PageAction))
    ensures
        page_read_wf(r.0@),
        r.0@.requests == 0,
        r.0@.received == 0,
        match page_target_outcome(value@) {
            Some(m) => r.0@.stage == ReadStage::Over && r.1@ == PageActionView::Done(Err(m)),
            None => r.0@.stage == ReadStage::Resolving && r.1@ == PageActionView::Resolve && (
            parsed_url(value@) matches Some(u) && u.host == Some(r.0@.host) && u.port == Some(
                r.0@.port,
            ) && r.0@.url == u.text),
        },
{
    match page_target(value) {
        Ok(target) => (
            PageRead { target, requests: 0, received: 0, html: false, stage: ReadStage::Resolving },
            PageAction::Resolve,
        ),
        Err(e) => (
            PageRead {
                target: PageTarget { url: String::new(), host: String::new(), port: 0 },
                requests: 0,
                received: 0,
                html: false,
                stage: ReadStage::Over,
            },
            PageAction::Done(Err(e)),
        ),
    }
}

/// The text `"La página respondió HTTP <status>."`.
fn http_status_message(status_text: &str) -> (r: String)
    ensures
        r@ == msg_http_status(status_text@),
{
    let mut v = chars_of("La página respondió HTTP ");
    extend(&mut v, &chars_of(status_text));
    v.push('.');
    proof {
        reveal_strlit("La página respondió HTTP ");
        reveal_strlit(".");
        assert(v@ =~= msg_http_status(status_text@));
    }
    string_of(&v)
}

/// A redirect response (see `after_redirect`).
fn follow_redirect(state: PageRead, location: Option<String>) -> (r: (PageRead, PageAction))
    requires
        page_read_wf(state@),
        state.stage == ReadStage::Requesting,
    ensures
        (r.0@, r.1@) == after_redirect(state@, opt_chars(location)),
{
    let ghost s = state@;
    if state.requests >= MAX_PAGE_HOPS {
        let joined = match &location {
            Some(l) => join_url(state.target.url.as_str(), l.as_str()).is_some(),
            None => false,
        };
        let answer = if joined {
            owned("La página tiene demasiadas redirecciones.")
        } else {
            owned("Redirección no válida.")
        };
        let next = PageRead { stage: ReadStage::Over, ..state };
        proof {
            reveal_strlit("La página tiene demasiadas redirecciones.");
            reveal_strlit("Redirección no válida.");
        }
        (next, PageAction::Done(Err(answer)))
    } else {
        let loc: Option<&str> = match &location {
            Some(l) => Some(l.as_str()),
            None => None,
        };
        assert(match loc { Some(l) => Some(l@), None => None } == opt_chars(location));
        match redirect_target(state.target.url.as_str(), loc) {
            Ok(t) => (PageRead { target: t, stage: ReadStage::Resolving, ..state }, PageAction::Resolve),
            Err(e) => (PageRead { stage: ReadStage::Over, ..state }, PageAction::Done(Err(e))),
        }
    }
}

/// One step of a page read (see `page_read_next`).
pub fn page_read_step(state: PageRead, event: PageEvent) -> (r: (PageRead, PageAction))
    requires
        page_read_wf(state@),
    ensures
        (r.0@, r.1@) == page_read_next(state@, event@),
        page_read_wf(r.0@),
{
    let ghost e = event@;
    match (state.stage, event) {
        (ReadStage::Resolving, PageEvent::Resolved(a)) => {
            match check_addresses(&a) {
                Ok(()) => {
                    let requests = state.requests + 1;
                    (PageRead { requests, stage: ReadStage::Requesting, ..state }, PageAction::Send)
                },
                Err(m) => (PageRead { stage: ReadStage::Over, ..state }, PageAction::Done(Err(m))),
            }
        },
        (ReadStage::Resolving, PageEvent::ResolveFailed) => {
            proof {
                reveal_strlit("No se pudo resolver el dominio.");
            }
            (
                PageRead { stage: ReadStage::Over, ..state },
                PageAction::Done(Err(owned("No se pudo resolver el dominio."))),
            )
        },
        (ReadStage::Requesting, PageEvent::SendFailed) => {
            proof {
                reveal_strlit("No se pudo conectar con la página.");
            }
            (
                PageRead { stage: ReadStage::Over, ..state },
                PageAction::Done(Err(owned("No se pudo conectar con la página."))),
            )
        },
        (
            ReadStage::Requesting,
            PageEvent::Responded { status, status_text, location, content_type },
        ) => {
            if 300 <= status && status <= 399 {
                follow_redirect(state, location)
            } else if !(200 <= status && status <= 299) {
                let m = http_status_message(status_text.as_str());
                (PageRead { stage: ReadStage::Over, ..state }, PageAction::Done(Err(m)))
            } else {
                let ct: Option<&str> = match &content_type {
                    Some(c) => Some(c.as_str()),
                    None => None,
                };
                match page_content_kind(ct) {
                    Ok(html) => (
                        PageRead { received: 0, html, stage: ReadStage::Receiving, ..state },
                        PageAction::Receive,
                    ),
                    Err(m) => (PageRead { stage: ReadStage::Over, ..state }, PageAction::Done(Err(m))),
                }
            }
        },
        (ReadStage::Receiving, PageEvent::Chunk(n)) => {
            if body_within_limit(state.received, n) {
                let received = state.received + n;
                (PageRead { received, ..state }, PageAction::Receive)
            } else {
                proof {
                    reveal_strlit("La página supera el tamaño permitido.");
                }
                (
                    PageRead { stage: ReadStage::Over, ..state },
                    PageAction::Done(Err(owned("La página supera el tamaño permitido."))),
                )
            }
        },
        (ReadStage::Receiving, PageEvent::ChunkFailed) => {
            proof {
                reveal_strlit("La lectura de la página se interrumpió.");
            }
            (
                PageRead { stage: ReadStage::Over, ..state },
                PageAction::Done(Err(owned("La lectura de la página se interrumpió."))),
            )
        },
        (ReadStage::Receiving, PageEvent::BodyEnd(body)) => {
            let html = state.html;
            let answer = finish_page(body.as_str(), html);
            (PageRead { stage: ReadStage::Over, ..state }, PageAction::Done(answer))
        },
        (_, _) => (state, PageAction::Ignore),
    }
}

/// Each step sends at most one request, and never a request beyond the
/// `MAX_PAGE_HOPS`-th: a `Send` raises the count of requests by one, every
/// other action leaves it as it was, and the count stays within the limit.
pub proof fn lemma_page_requests_bounded(s: PageReadView, e: PageEventView)
    requires
        page_read_wf(s),
    ensures
        page_read_next(s, e).0.requests <= MAX_PAGE_HOPS,
        page_read_next(s, e).1 == PageActionView::Send ==> s.requests < MAX_PAGE_HOPS
            && page_read_next(s, e).0.requests == s.requests + 1,
        page_read_next(s, e).1 != PageActionView::Send ==> page_read_next(s, e).0.requests
            == s.requests,
{
}

/// A redirect answered to the last request allowed ends the read with
/// "too many redirects" whenever its `Location` resolves.
pub proof fn lemma_redirect_limit(s: PageReadView, status: u16, status_text: Seq<char>, l: Seq<char>, content_type: Option<Seq<char>>)
    requires
        page_read_wf(s),
        s.stage == ReadStage::Requesting,
        s.requests == MAX_PAGE_HOPS,
        300 <= status <= 399,
        joined_url(s.url, l) is Some,
    ensures
        page_read_next(
            s,
            PageEventView::Responded { status, status_text, location: Some(l), content_type },
        ).1 == PageActionView::Done(Err(msg_too_many_redirects())),
{
}

/// A read that is over stays over and answers nothing more.
pub proof fn lemma_page_read_over_is_final(s: PageReadView, e: PageEventView)
    requires
        s.stage == ReadStage::Over,
    ensures
        page_read_next(s, e) == (s, PageActionView::Ignore),
{
}

/// A body is never accepted beyond `MAX_PAGE_BYTES`: a chunk that would take
/// it further ends the read with the size message.
pub proof fn lemma_page_size_limit(s: PageReadView, n: nat)
    requires
        page_read_wf(s),
        s.stage == ReadStage::Receiving,
        s.received + n > MAX_PAGE_BYTES,
    ensures
        page_read_next(s, PageEventView::Chunk(n)).1 == PageActionView::Done(Err(msg_too_large())),
{
}

/// A page read that succeeds answers with text that is not blank and holds
/// at most `PAGE_TEXT_LIMIT` characters.
pub proof fn lemma_page_answer_readable(s: PageReadView, e: PageEventView)
    ensures
        page_read_next(s, e).1 matches PageActionView::Done(Ok(t)) ==> trim(t).len() > 0 && t.len()
            <= 12000,
{
}

} // verus!
