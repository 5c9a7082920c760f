//! Web search: reading a DuckDuckGo HTML result page, and deciding what a
//! search request asks for.
use vstd::prelude::*;
use crate::text::{
    chars_of, collapse_whitespace, collapse_ws, extend, find_first, find_from, lemma_find_first,
    owned, replace, replace_all, slice_vec, starts_with, str_has_prefix, string_of, strip_markup,
    strip_markup_exec, vec_eq, has_suffix, ends_with, contains_seq, take_chars, truncate_chars,
    has_prefix, is_ws, is_ws_exec, trim, trim_vec, occurs_at,
};
use crate::urls::{encode_query, form_encode, opt_chars, parse_url, parsed_url, UrlParts, UrlView};
use crate::diagnostic::{diag, Diagnostic, DiagnosticView};
use vstd::utf8::encode_utf8;

verus! {

/// The value of attribute `name` in `tag`: the text after the first `name=`,
/// between a pair of matching single or double quotes.
pub open spec fn html_attribute_spec(tag: Seq<char>, name: Seq<char>) -> Option<Seq<char>> {
    let needle = name + seq!['='];
    match find_first(tag, needle, 0) {
        None => None,
        Some(i) => {
            let start = i + needle.len();
            if start >= tag.len() {
                None
            } else {
                let quote = tag[start];
                if quote != '\'' && quote != '"' {
                    None
                } else {
                    let rest = tag.skip(start + 1);
                    match find_first(rest, seq![quote], 0) {
                        None => None,
                        Some(end) => Some(rest.take(end)),
                    }
                }
            }
        },
    }
}

pub fn html_attribute(tag: &str, name: &str) -> (r: Option<String>)
    ensures
        opt_chars(r) == html_attribute_spec(tag@, name@),
{
    let t = chars_of(tag);
    let mut needle = chars_of(name);
    needle.push('=');
    assert(needle@ =~= name@ + seq!['=']);
    let start = match find_from(&t, &needle, 0) {
        None => return None,
        Some(i) => {
            proof {
                lemma_find_first(t@, needle@, 0);
            }
            i + needle.len()
        },
    };
    if start >= t.len() {
        return None;
    }
    let quote = t[start];
    if quote != '\'' && quote != '"' {
        return None;
    }
    let rest = slice_vec(&t, start + 1, t.len());
    assert(rest@ =~= t@.skip(start + 1));
    let q = vec![quote];
    assert(q@ =~= seq![quote]);
    match find_from(&rest, &q, 0) {
        None => None,
        Some(end) => {
            proof {
                lemma_find_first(rest@, q@, 0);
            }
            let value = slice_vec(&rest, 0, end);
            assert(value@ =~= rest@.take(end as int));
            Some(string_of(&value))
        },
    }
}

/// `&amp; &quot; &#x27; &#39; &lt; &gt; &nbsp;` decoded, in that order.
pub open spec fn decode_html_spec(s: Seq<char>) -> Seq<char> {
    replace_all(
        replace_all(
            replace_all(
                replace_all(
                    replace_all(
                        replace_all(replace_all(s, "&amp;"@, "&"@), "&quot;"@, "\""@),
                        "&#x27;"@,
                        "'"@,
                    ),
                    "&#39;"@,
                    "'"@,
                ),
                "&lt;"@,
                "<"@,
            ),
            "&gt;"@,
            ">"@,
        ),
        "&nbsp;"@,
        " "@,
    )
}

/// No `&` in `s`: nothing there can start an entity.
pub open spec fn entity_free(s: Seq<char>) -> bool {
    forall|i: int| 0 <= i < s.len() ==> #[trigger] s[i] != '&'
}

pub(crate) proof fn lemma_replace_absent(s: Seq<char>, pat: Seq<char>, rep: Seq<char>)
    requires
        pat.len() > 0,
        forall|i: int| !occurs_at(s, pat, i),
    ensures
        replace_all(s, pat, rep) == s,
    decreases s.len(),
{
    if s.len() > 0 {
        assert forall|i: int| !occurs_at(s.drop_first(), pat, i) by {
            if occurs_at(s.drop_first(), pat, i) {
                assert(s.subrange(i + 1, i + 1 + pat.len()) =~= s.drop_first().subrange(i, i + pat.len()));
                assert(occurs_at(s, pat, i + 1));
            }
        }
        lemma_replace_absent(s.drop_first(), pat, rep);
        assert(seq![s[0]] + s.drop_first() =~= s);
    }
}

pub(crate) proof fn lemma_replace_entity_free(s: Seq<char>, pat: Seq<char>, rep: Seq<char>)
    requires
        pat.len() > 0,
        pat[0] == '&',
        entity_free(s),
    ensures
        replace_all(s, pat, rep) == s,
{
    assert forall|i: int| !occurs_at(s, pat, i) by {
        if occurs_at(s, pat, i) {
            assert(s.subrange(i, i + pat.len())[0] == s[i]);
        }
    }
    lemma_replace_absent(s, pat, rep);
}

/// Replacing in `x + y` where `x` holds no start of `pat` leaves `x` as it is.
pub(crate) proof fn lemma_replace_split(x: Seq<char>, y: Seq<char>, pat: Seq<char>, rep: Seq<char>)
    requires
        pat.len() > 0,
        forall|i: int| 0 <= i < x.len() ==> #[trigger] x[i] != pat[0],
    ensures
        replace_all(x + y, pat, rep) == x + replace_all(y, pat, rep),
    decreases x.len(),
{
    if x.len() > 0 {
        let s = x + y;
        if occurs_at(s, pat, 0) {
            assert(s.subrange(0, pat.len() as int)[0] == s[0]);
        }
        assert(!occurs_at(s, pat, 0));
        assert(s.drop_first() =~= x.drop_first() + y);
        lemma_replace_split(x.drop_first(), y, pat, rep);
        assert(seq![x[0]] + x.drop_first() =~= x);
        assert(seq![s[0]] + (x.drop_first() + replace_all(y, pat, rep)) =~= x + replace_all(y, pat, rep));
    }
}

pub(crate) proof fn lemma_replace_head(y: Seq<char>, pat: Seq<char>, rep: Seq<char>)
    requires
        pat.len() > 0,
    ensures
        replace_all(pat + y, pat, rep) == rep + replace_all(y, pat, rep),
{
    assert((pat + y).subrange(0, pat.len() as int) =~= pat);
    assert((pat + y).skip(pat.len() as int) =~= y);
}

/// `pat` does not start `h`: they differ at `k`.
pub(crate) proof fn lemma_not_at_start(h: Seq<char>, pat: Seq<char>, k: int)
    requires
        0 <= k < pat.len(),
        k < h.len(),
        h[k] != pat[k],
    ensures
        !occurs_at(h, pat, 0),
{
    if occurs_at(h, pat, 0) {
        assert(h.subrange(0, pat.len() as int)[k] == h[k]);
    }
}

/// An entity `e` between entity-free text is untouched by the replacement of
/// another entity `p` that does not start it.
pub(crate) proof fn lemma_other_entity(a: Seq<char>, e: Seq<char>, b: Seq<char>, p: Seq<char>, r: Seq<char>)
    requires
        entity_free(a),
        entity_free(b),
        e.len() >= 2,
        e[0] == '&',
        entity_free(e.drop_first()),
        p.len() > 0,
        p[0] == '&',
        !occurs_at(e + b, p, 0),
    ensures
        replace_all(a + e + b, p, r) == a + e + b,
{
    assert(a + e + b =~= a + (e + b));
    lemma_replace_split(a, e + b, p, r);
    let eb = e + b;
    assert(eb.drop_first() =~= e.drop_first() + b);
    assert(eb.len() > 0);
    lemma_replace_split(e.drop_first(), b, p, r);
    lemma_replace_entity_free(b, p, r);
    assert(seq![eb[0]] + eb.drop_first() =~= eb);
}

/// Each entity the page reader decodes, standing alone between text without
/// entities, becomes its character; text without entities is unchanged.
/// (`&amp;` becomes `&` when no `;` follows it that could make a new entity.)
#[verifier::rlimit(50)]
pub proof fn lemma_entities_decoded(a: Seq<char>, b: Seq<char>)
    requires
        entity_free(a),
        entity_free(b),
    ensures
        decode_html_spec(a) == a,

        decode_html_spec(a + "&quot;"@ + b) == a + "\""@ + b,
        decode_html_spec(a + "&#x27;"@ + b) == a + "'"@ + b,
        decode_html_spec(a + "&#39;"@ + b) == a + "'"@ + b,
        decode_html_spec(a + "&lt;"@ + b) == a + "<"@ + b,
        decode_html_spec(a + "&gt;"@ + b) == a + ">"@ + b,
        decode_html_spec(a + "&nbsp;"@ + b) == a + " "@ + b,
        (forall|i: int| 0 <= i < b.len() ==> b[i] != ';') ==> decode_html_spec(a + "&amp;"@ + b) == a + "&"@ + b,
{
    reveal_strlit("&amp;");
    reveal_strlit("&");
    reveal_strlit("&quot;");
    reveal_strlit("\"");
    reveal_strlit("&#x27;");
    reveal_strlit("'");
    reveal_strlit("&#39;");
    reveal_strlit("'");
    reveal_strlit("&lt;");
    reveal_strlit("<");
    reveal_strlit("&gt;");
    reveal_strlit(">");
    reveal_strlit("&nbsp;");
    reveal_strlit(" ");
    lemma_replace_entity_free(a, "&amp;"@, "&"@);
    lemma_replace_entity_free(a, "&quot;"@, "\""@);
    lemma_replace_entity_free(a, "&#x27;"@, "'"@);
    lemma_replace_entity_free(a, "&#39;"@, "'"@);
    lemma_replace_entity_free(a, "&lt;"@, "<"@);
    lemma_replace_entity_free(a, "&gt;"@, ">"@);
    lemma_replace_entity_free(a, "&nbsp;"@, " "@);
    {
        let e = "&amp;"@;
        assert(entity_free(e.drop_first()));
        let s0 = a + e + b;
        assert(a + e + b =~= a + (e + b));
        if forall|i: int| 0 <= i < b.len() ==> b[i] != ';' {
            lemma_replace_split(a, e + b, e, "&"@);
            lemma_replace_head(b, e, "&"@);
            lemma_replace_entity_free(b, e, "&"@);
            let s1 = a + "&"@ + b;
            assert(a + ("&"@ + b) =~= s1);
            assert(s1 =~= a + ("&"@ + b));
            lemma_replace_split(a, "&"@ + b, "&quot;"@, "\""@);
            if occurs_at("&"@ + b, "&quot;"@, 0) {
                assert(("&"@ + b).subrange(0, "&quot;"@.len() as int)[5] == b[4]);
            }
            assert(("&"@ + b).drop_first() =~= b);
            lemma_replace_entity_free(b, "&quot;"@, "\""@);
            assert(seq!['&'] + b =~= "&"@ + b);
            assert(s1 =~= a + ("&"@ + b));
            lemma_replace_split(a, "&"@ + b, "&#x27;"@, "'"@);
            if occurs_at("&"@ + b, "&#x27;"@, 0) {
                assert(("&"@ + b).subrange(0, "&#x27;"@.len() as int)[5] == b[4]);
            }
            assert(("&"@ + b).drop_first() =~= b);
            lemma_replace_entity_free(b, "&#x27;"@, "'"@);
            assert(seq!['&'] + b =~= "&"@ + b);
            assert(s1 =~= a + ("&"@ + b));
            lemma_replace_split(a, "&"@ + b, "&#39;"@, "'"@);
            if occurs_at("&"@ + b, "&#39;"@, 0) {
                assert(("&"@ + b).subrange(0, "&#39;"@.len() as int)[4] == b[3]);
            }
            assert(("&"@ + b).drop_first() =~= b);
            lemma_replace_entity_free(b, "&#39;"@, "'"@);
            assert(seq!['&'] + b =~= "&"@ + b);
            assert(s1 =~= a + ("&"@ + b));
            lemma_replace_split(a, "&"@ + b, "&lt;"@, "<"@);
            if occurs_at("&"@ + b, "&lt;"@, 0) {
                assert(("&"@ + b).subrange(0, "&lt;"@.len() as int)[3] == b[2]);
            }
            assert(("&"@ + b).drop_first() =~= b);
            lemma_replace_entity_free(b, "&lt;"@, "<"@);
            assert(seq!['&'] + b =~= "&"@ + b);
            assert(s1 =~= a + ("&"@ + b));
            lemma_replace_split(a, "&"@ + b, "&gt;"@, ">"@);
            if occurs_at("&"@ + b, "&gt;"@, 0) {
                assert(("&"@ + b).subrange(0, "&gt;"@.len() as int)[3] == b[2]);
            }
            assert(("&"@ + b).drop_first() =~= b);
            lemma_replace_entity_free(b, "&gt;"@, ">"@);
            assert(seq!['&'] + b =~= "&"@ + b);
            assert(s1 =~= a + ("&"@ + b));
            lemma_replace_split(a, "&"@ + b, "&nbsp;"@, " "@);
            if occurs_at("&"@ + b, "&nbsp;"@, 0) {
                assert(("&"@ + b).subrange(0, "&nbsp;"@.len() as int)[5] == b[4]);
            }
            assert(("&"@ + b).drop_first() =~= b);
            lemma_replace_entity_free(b, "&nbsp;"@, " "@);
            assert(seq!['&'] + b =~= "&"@ + b);
        }
    }
    {
        let e = "&quot;"@;
        assert(entity_free(e.drop_first()));
        let s0 = a + e + b;
        assert(a + e + b =~= a + (e + b));
        lemma_not_at_start(e + b, "&amp;"@, 1);
        lemma_other_entity(a, e, b, "&amp;"@, "&"@);
        lemma_replace_split(a, e + b, e, "\""@);
        lemma_replace_head(b, e, "\""@);
        lemma_replace_entity_free(b, e, "\""@);
        let s1 = a + "\""@ + b;
        assert(a + ("\""@ + b) =~= s1);
        assert(entity_free(s1));
        lemma_replace_entity_free(s1, "&#x27;"@, "'"@);
        lemma_replace_entity_free(s1, "&#39;"@, "'"@);
        lemma_replace_entity_free(s1, "&lt;"@, "<"@);
        lemma_replace_entity_free(s1, "&gt;"@, ">"@);
        lemma_replace_entity_free(s1, "&nbsp;"@, " "@);
    }
    {
        let e = "&#x27;"@;
        assert(entity_free(e.drop_first()));
        let s0 = a + e + b;
        assert(a + e + b =~= a + (e + b));
        lemma_not_at_start(e + b, "&amp;"@, 1);
        lemma_other_entity(a, e, b, "&amp;"@, "&"@);
        lemma_not_at_start(e + b, "&quot;"@, 1);
        lemma_other_entity(a, e, b, "&quot;"@, "\""@);
        lemma_replace_split(a, e + b, e, "'"@);
        lemma_replace_head(b, e, "'"@);
        lemma_replace_entity_free(b, e, "'"@);
        let s1 = a + "'"@ + b;
        assert(a + ("'"@ + b) =~= s1);
        assert(entity_free(s1));
        lemma_replace_entity_free(s1, "&#39;"@, "'"@);
        lemma_replace_entity_free(s1, "&lt;"@, "<"@);
        lemma_replace_entity_free(s1, "&gt;"@, ">"@);
        lemma_replace_entity_free(s1, "&nbsp;"@, " "@);
    }
    {
        let e = "&#39;"@;
        assert(entity_free(e.drop_first()));
        let s0 = a + e + b;
        assert(a + e + b =~= a + (e + b));
        lemma_not_at_start(e + b, "&amp;"@, 1);
        lemma_other_entity(a, e, b, "&amp;"@, "&"@);
        lemma_not_at_start(e + b, "&quot;"@, 1);
        lemma_other_entity(a, e, b, "&quot;"@, "\""@);
        lemma_not_at_start(e + b, "&#x27;"@, 2);
        lemma_other_entity(a, e, b, "&#x27;"@, "'"@);
        lemma_replace_split(a, e + b, e, "'"@);
        lemma_replace_head(b, e, "'"@);
        lemma_replace_entity_free(b, e, "'"@);
        let s1 = a + "'"@ + b;
        assert(a + ("'"@ + b) =~= s1);
        assert(entity_free(s1));
        lemma_replace_entity_free(s1, "&lt;"@, "<"@);
        lemma_replace_entity_free(s1, "&gt;"@, ">"@);
        lemma_replace_entity_free(s1, "&nbsp;"@, " "@);
    }
    {
        let e = "&lt;"@;
        assert(entity_free(e.drop_first()));
        let s0 = a + e + b;
        assert(a + e + b =~= a + (e + b));
        lemma_not_at_start(e + b, "&amp;"@, 1);
        lemma_other_entity(a, e, b, "&amp;"@, "&"@);
        lemma_not_at_start(e + b, "&quot;"@, 1);
        lemma_other_entity(a, e, b, "&quot;"@, "\""@);
        lemma_not_at_start(e + b, "&#x27;"@, 1);
        lemma_other_entity(a, e, b, "&#x27;"@, "'"@);
        lemma_not_at_start(e + b, "&#39;"@, 1);
        lemma_other_entity(a, e, b, "&#39;"@, "'"@);
        lemma_replace_split(a, e + b, e, "<"@);
        lemma_replace_head(b, e, "<"@);
        lemma_replace_entity_free(b, e, "<"@);
        let s1 = a + "<"@ + b;
        assert(a + ("<"@ + b) =~= s1);
        assert(entity_free(s1));
        lemma_replace_entity_free(s1, "&gt;"@, ">"@);
        lemma_replace_entity_free(s1, "&nbsp;"@, " "@);
    }
    {
        let e = "&gt;"@;
        assert(entity_free(e.drop_first()));
        let s0 = a + e + b;
        assert(a + e + b =~= a + (e + b));
        lemma_not_at_start(e + b, "&amp;"@, 1);
        lemma_other_entity(a, e, b, "&amp;"@, "&"@);
        lemma_not_at_start(e + b, "&quot;"@, 1);
        lemma_other_entity(a, e, b, "&quot;"@, "\""@);
        lemma_not_at_start(e + b, "&#x27;"@, 1);
        lemma_other_entity(a, e, b, "&#x27;"@, "'"@);
        lemma_not_at_start(e + b, "&#39;"@, 1);
        lemma_other_entity(a, e, b, "&#39;"@, "'"@);
        lemma_not_at_start(e + b, "&lt;"@, 1);
        lemma_other_entity(a, e, b, "&lt;"@, "<"@);
        lemma_replace_split(a, e + b, e, ">"@);
        lemma_replace_head(b, e, ">"@);
        lemma_replace_entity_free(b, e, ">"@);
        let s1 = a + ">"@ + b;
        assert(a + (">"@ + b) =~= s1);
        assert(entity_free(s1));
        lemma_replace_entity_free(s1, "&nbsp;"@, " "@);
    }
    {
        let e = "&nbsp;"@;
        assert(entity_free(e.drop_first()));
        let s0 = a + e + b;
        assert(a + e + b =~= a + (e + b));
        lemma_not_at_start(e + b, "&amp;"@, 1);
        lemma_other_entity(a, e, b, "&amp;"@, "&"@);
        lemma_not_at_start(e + b, "&quot;"@, 1);
        lemma_other_entity(a, e, b, "&quot;"@, "\""@);
        lemma_not_at_start(e + b, "&#x27;"@, 1);
        lemma_other_entity(a, e, b, "&#x27;"@, "'"@);
        lemma_not_at_start(e + b, "&#39;"@, 1);
        lemma_other_entity(a, e, b, "&#39;"@, "'"@);
        lemma_not_at_start(e + b, "&lt;"@, 1);
        lemma_other_entity(a, e, b, "&lt;"@, "<"@);
        lemma_not_at_start(e + b, "&gt;"@, 1);
        lemma_other_entity(a, e, b, "&gt;"@, ">"@);
        lemma_replace_split(a, e + b, e, " "@);
        lemma_replace_head(b, e, " "@);
        lemma_replace_entity_free(b, e, " "@);
        let s1 = a + " "@ + b;
        assert(a + (" "@ + b) =~= s1);
        assert(entity_free(s1));
    }
}


/// A result title reads as its words with the entities decoded: plain words
/// (no markup, whitespace or `&`) around one of `&quot;`, `&#x27;`, `&#39;`,
/// `&lt;`, `&gt;`, `&nbsp;` come out with that entity replaced by its
/// character, and plain words come out as they are.
pub proof fn lemma_title_text(a: Seq<char>, b: Seq<char>)
    requires
        crate::web::unmarked(a),
        crate::web::unmarked(b),
        entity_free(a),
        entity_free(b),
    ensures
        html_text_spec(a) == a,
        html_text_spec(a + "&quot;"@ + b) == a + "\""@ + b,
        html_text_spec(a + "&#x27;"@ + b) == a + "'"@ + b,
        html_text_spec(a + "&#39;"@ + b) == a + "'"@ + b,
        html_text_spec(a + "&lt;"@ + b) == a + "<"@ + b,
        html_text_spec(a + "&gt;"@ + b) == a + ">"@ + b,
        html_text_spec(a + "&nbsp;"@ + b) == a + " "@ + b,
{
    lemma_entities_decoded(a, b);
    crate::web::lemma_unmarked_strip(a);
    crate::web::lemma_unmarked_collapse(a);
    if a.len() > 0 {
        assert(!is_ws(a.last()));
    }
    {
        reveal_strlit("&quot;");
        let s = a + "&quot;"@ + b;
        let e = "&quot;"@;
        assert(crate::web::unmarked(s)) by {
            assert forall|i: int| 0 <= i < s.len() implies #[trigger] s[i] != '<' && s[i] != '>' && !is_ws(s[i]) by {
                if i < a.len() {
                } else if i < a.len() + e.len() {
                    assert(s[i] == e[i - a.len()]);
                } else {
                    assert(s[i] == b[i - a.len() - e.len()]);
                }
            }
        }
        crate::web::lemma_unmarked_strip(s);
        crate::web::lemma_unmarked_collapse(s);
        assert(!is_ws(s.last()));
    }
    {
        reveal_strlit("&#x27;");
        let s = a + "&#x27;"@ + b;
        let e = "&#x27;"@;
        assert(crate::web::unmarked(s)) by {
            assert forall|i: int| 0 <= i < s.len() implies #[trigger] s[i] != '<' && s[i] != '>' && !is_ws(s[i]) by {
                if i < a.len() {
                } else if i < a.len() + e.len() {
                    assert(s[i] == e[i - a.len()]);
                } else {
                    assert(s[i] == b[i - a.len() - e.len()]);
                }
            }
        }
        crate::web::lemma_unmarked_strip(s);
        crate::web::lemma_unmarked_collapse(s);
        assert(!is_ws(s.last()));
    }
    {
        reveal_strlit("&#39;");
        let s = a + "&#39;"@ + b;
        let e = "&#39;"@;
        assert(crate::web::unmarked(s)) by {
            assert forall|i: int| 0 <= i < s.len() implies #[trigger] s[i] != '<' && s[i] != '>' && !is_ws(s[i]) by {
                if i < a.len() {
                } else if i < a.len() + e.len() {
                    assert(s[i] == e[i - a.len()]);
                } else {
                    assert(s[i] == b[i - a.len() - e.len()]);
                }
            }
        }
        crate::web::lemma_unmarked_strip(s);
        crate::web::lemma_unmarked_collapse(s);
        assert(!is_ws(s.last()));
    }
    {
        reveal_strlit("&lt;");
        let s = a + "&lt;"@ + b;
        let e = "&lt;"@;
        assert(crate::web::unmarked(s)) by {
            assert forall|i: int| 0 <= i < s.len() implies #[trigger] s[i] != '<' && s[i] != '>' && !is_ws(s[i]) by {
                if i < a.len() {
                } else if i < a.len() + e.len() {
                    assert(s[i] == e[i - a.len()]);
                } else {
                    assert(s[i] == b[i - a.len() - e.len()]);
                }
            }
        }
        crate::web::lemma_unmarked_strip(s);
        crate::web::lemma_unmarked_collapse(s);
        assert(!is_ws(s.last()));
    }
    {
        reveal_strlit("&gt;");
        let s = a + "&gt;"@ + b;
        let e = "&gt;"@;
        assert(crate::web::unmarked(s)) by {
            assert forall|i: int| 0 <= i < s.len() implies #[trigger] s[i] != '<' && s[i] != '>' && !is_ws(s[i]) by {
                if i < a.len() {
                } else if i < a.len() + e.len() {
                    assert(s[i] == e[i - a.len()]);
                } else {
                    assert(s[i] == b[i - a.len() - e.len()]);
                }
            }
        }
        crate::web::lemma_unmarked_strip(s);
        crate::web::lemma_unmarked_collapse(s);
        assert(!is_ws(s.last()));
    }
    {
        reveal_strlit("&nbsp;");
        let s = a + "&nbsp;"@ + b;
        let e = "&nbsp;"@;
        assert(crate::web::unmarked(s)) by {
            assert forall|i: int| 0 <= i < s.len() implies #[trigger] s[i] != '<' && s[i] != '>' && !is_ws(s[i]) by {
                if i < a.len() {
                } else if i < a.len() + e.len() {
                    assert(s[i] == e[i - a.len()]);
                } else {
                    assert(s[i] == b[i - a.len() - e.len()]);
                }
            }
        }
        crate::web::lemma_unmarked_strip(s);
        crate::web::lemma_unmarked_collapse(s);
        assert(!is_ws(s.last()));
    }
}

fn replace_str(s: &Vec<char>, pat: &str, rep: &str) -> (r: Vec<char>)
    requires
        pat@.len() > 0,
    ensures
        r@ == replace_all(s@, pat@, rep@),
{
    replace(s, &chars_of(pat), &chars_of(rep))
}

fn decode_html_chars(s: &Vec<char>) -> (r: Vec<char>)
    ensures
        r@ == decode_html_spec(s@),
{
    proof {
        reveal_strlit("&amp;");
        reveal_strlit("&quot;");
        reveal_strlit("&#x27;");
        reveal_strlit("&#39;");
        reveal_strlit("&lt;");
        reveal_strlit("&gt;");
        reveal_strlit("&nbsp;");
    }
    let a = replace_str(s, "&amp;", "&");
    let b = replace_str(&a, "&quot;", "\"");
    let c = replace_str(&b, "&#x27;", "'");
    let d = replace_str(&c, "&#39;", "'");
    let e = replace_str(&d, "&lt;", "<");
    let f = replace_str(&e, "&gt;", ">");
    replace_str(&f, "&nbsp;", " ")
}

pub fn decode_html(value: &str) -> (r: String)
    ensures
        r@ == decode_html_spec(value@),
{
    string_of(&decode_html_chars(&chars_of(value)))
}

/// Visible text of an HTML fragment: tags become spaces, whitespace is
/// collapsed, entities are decoded.
pub open spec fn html_text_spec(s: Seq<char>) -> Seq<char> {
    decode_html_spec(collapse_ws(strip_markup(s)))
}

fn html_text_chars(s: &Vec<char>) -> (r: Vec<char>)
    ensures
        r@ == html_text_spec(s@),
{
    decode_html_chars(&collapse_whitespace(&strip_markup_exec(s)))
}

pub fn html_text(value: &str) -> (r: String)
    ensures
        r@ == html_text_spec(value@),
{
    string_of(&html_text_chars(&chars_of(value)))
}

pub open spec fn is_web_scheme(scheme: Seq<char>) -> bool {
    scheme == "http"@ || scheme == "https"@
}

pub open spec fn is_web_link(s: Seq<char>) -> bool {
    starts_with(s, "https://"@) || starts_with(s, "http://"@)
}

/// The value of the first query pair whose key is `key`.
pub open spec fn first_query_value(q: Seq<(Seq<char>, Seq<char>)>, key: Seq<char>) -> Option<Seq<char>>
    decreases q.len(),
{
    if q.len() == 0 {
        None
    } else if q[0].0 == key {
        Some(q[0].1)
    } else {
        first_query_value(q.drop_first(), key)
    }
}

pub open spec fn is_ddg_host(host: Option<Seq<char>>) -> bool {
    match host {
        Some(h) => ends_with(h, "duckduckgo.com"@),
        None => false,
    }
}

/// Where a search result link leads: a DuckDuckGo redirect (any http(s) host
/// ending in `duckduckgo.com`) is replaced by its `uddg` target when that is an
/// http(s) link; any other http(s) link is kept as written.
pub open spec fn clean_parsed(absolute: Seq<char>, parsed: Option<UrlView>) -> Option<Seq<char>> {
    match parsed {
        None => None,
        Some(u) => if is_web_scheme(u.scheme) && is_ddg_host(u.host) {
            match first_query_value(u.query, "uddg"@) {
                Some(target) => if is_web_link(target) {
                    Some(target)
                } else {
                    None
                },
                None => None,
            }
        } else if is_web_scheme(u.scheme) {
            Some(absolute)
        } else {
            None
        },
    }
}

/// A protocol-relative `//...` link is read as `https:`.
pub open spec fn absolute_link(value: Seq<char>) -> Seq<char> {
    if starts_with(value, "//"@) {
        "https:"@ + value
    } else {
        value
    }
}

pub open spec fn clean_search_url_spec(value: Seq<char>) -> Option<Seq<char>> {
    clean_parsed(absolute_link(value), parsed_url(absolute_link(value)))
}

fn str_is(s: &String, lit: &str) -> (r: bool)
    ensures
        r == (s@ == lit@),
{
    vec_eq(&chars_of(s.as_str()), &chars_of(lit))
}

pub open spec fn query_view(q: Seq<(String, String)>) -> Seq<(Seq<char>, Seq<char>)> {
    q.map_values(|p: (String, String)| (p.0@, p.1@))
}

/// The `uddg` value of a query when it is an http(s) link.
fn uddg_target(query: &Vec<(String, String)>) -> (r: Option<String>)
    ensures
        opt_chars(r) == match first_query_value(query_view(query@), "uddg"@) {
            Some(t) => if is_web_link(t) {
                Some(t)
            } else {
                None
            },
            None => None,
        },
{
    let ghost qv = query_view(query@);
    let mut i: usize = 0;
    assert(qv.skip(0) =~= qv);
    while i < query.len()
        invariant
            i <= query.len(),
            qv == query_view(query@),
            first_query_value(qv, "uddg"@) == first_query_value(qv.skip(i as int), "uddg"@),
        decreases query.len() - i,
    {
        assert(qv.skip(i as int).drop_first() =~= qv.skip(i + 1));
        assert(qv.skip(i as int)[0] == (query@[i as int].0@, query@[i as int].1@));
        if str_is(&query[i].0, "uddg") {
            let target = query[i].1.clone();
            if str_has_prefix(target.as_str(), "https://") || str_has_prefix(
                target.as_str(),
                "http://",
            ) {
                return Some(target);
            }
            return None;
        }
        i += 1;
    }
    None
}

/// Applies `clean_parsed` to the parse of `absolute`.
pub fn clean_parsed_url(absolute: &str, parsed: Option<UrlParts>) -> (r: Option<String>)
    ensures
        opt_chars(r) == clean_parsed(
            absolute@,
            match parsed {
                Some(p) => Some(p@),
                None => None,
            },
        ),
{
    let parts = match parsed {
        None => return None,
        Some(p) => p,
    };
    let web = str_is(&parts.scheme, "http") || str_is(&parts.scheme, "https");
    let ddg = match &parts.host {
        Some(h) => has_suffix(&chars_of(h.as_str()), &chars_of("duckduckgo.com")),
        None => false,
    };
    if web && ddg {
        uddg_target(&parts.query)
    } else if web {
        Some(owned(absolute))
    } else {
        None
    }
}

/// Resolves a search result `href` (see `clean_parsed` and `absolute_link`).
pub fn clean_search_url(value: &str) -> (r: Option<String>)
    ensures
        opt_chars(r) == clean_search_url_spec(value@),
{
    let absolute = if str_has_prefix(value, "//") {
        let mut v = chars_of("https:");
        extend(&mut v, &chars_of(value));
        string_of(&v)
    } else {
        owned(value)
    };
    let parsed = parse_url(absolute.as_str());
    clean_parsed_url(absolute.as_str(), parsed)
}

// ---------------------------------------------------------------- result pages

/// One search result: title, destination and a short description.
#[derive(Clone, Debug)]
pub struct WebSearchSource {
    pub title: String,
    pub url: String,
    pub snippet: String,
}

pub struct SourceView {
    pub title: Seq<char>,
    pub url: Seq<char>,
    pub snippet: Seq<char>,
}

impl View for WebSearchSource {
    type V = SourceView;

    open spec fn view(&self) -> SourceView {
        SourceView { title: self.title@, url: self.url@, snippet: self.snippet@ }
    }
}

pub open spec fn sources_view(s: Seq<WebSearchSource>) -> Seq<SourceView> {
    s.map_values(|x: WebSearchSource| x@)
}

/// Characters kept of a result title and of a snippet.
pub const TITLE_LIMIT: usize = 220;

pub const SNIPPET_LIMIT: usize = 500;

/// The text of the first `result__snippet` element after a result: from the
/// first `>` after the marker to the first `</` after the marker; empty when
/// either is missing. `None` when that `</` comes before the `>`, a range the
/// reader cannot cut.
pub open spec fn snippet_after(rest: Seq<char>) -> Option<Seq<char>> {
    match find_first(rest, "result__snippet"@, 0) {
        None => Some(Seq::empty()),
        Some(m) => {
            let cand = rest.skip(m);
            match find_first(cand, ">"@, 0) {
                None => Some(Seq::empty()),
                Some(p) => match find_first(cand, "</"@, 0) {
                    None => Some(Seq::empty()),
                    Some(e) => if p + 1 > e {
                        None
                    } else {
                        Some(html_text_spec(cand.subrange(p + 1, e)))
                    },
                },
            }
        },
    }
}

/// Destination of a result anchor: its `href`, cleaned.
pub open spec fn href_target(tag: Seq<char>) -> Option<Seq<char>> {
    match html_attribute_spec(tag, "href"@) {
        None => None,
        Some(h) => clean_search_url_spec(h),
    }
}

pub open spec fn url_listed(acc: Seq<SourceView>, url: Seq<char>) -> bool {
    exists|i: int| 0 <= i < acc.len() && (#[trigger] acc[i]).url == url
}

/// Reads result anchors (`<a ...result__a...>title</a>`) left to right until
/// `limit` results are collected. An anchor is skipped when its tag lacks
/// `result__a`, its destination is unusable, its title is empty or its
/// destination is already listed. `None` marks a snippet range that cannot be
/// cut (see `snippet_after`).
pub open spec fn scan_results(rem: Seq<char>, limit: int, acc: Seq<SourceView>) -> Option<Seq<SourceView>>
    decreases rem.len(),
{
    if acc.len() >= limit {
        Some(acc)
    } else {
        match find_first(rem, "<a"@, 0) {
            None => Some(acc),
            Some(a) => {
                let r1 = rem.skip(a);
                match find_first(r1, ">"@, 0) {
                    None => Some(acc),
                    Some(t) => {
                        proof {
                            reveal_strlit("<a");
                            reveal_strlit(">");
                            reveal_strlit("</a>");
                            lemma_find_first(rem, "<a"@, 0);
                            lemma_find_first(r1, ">"@, 0);
                        }
                        let tag = r1.take(t + 1);
                        let after = r1.skip(t + 1);
                        match find_first(after, "</a>"@, 0) {
                            None => scan_results(after, limit, acc),
                            Some(e) => {
                                proof {
                                    lemma_find_first(after, "</a>"@, 0);
                                }
                                let content = after.take(e);
                                let rest = after.skip(e + 4);
                                if !contains_seq(tag, "result__a"@) {
                                    scan_results(rest, limit, acc)
                                } else {
                                    match href_target(tag) {
                                        None => scan_results(rest, limit, acc),
                                        Some(url) => {
                                            let title = html_text_spec(content);
                                            if title.len() == 0 || url_listed(acc, url) {
                                                scan_results(rest, limit, acc)
                                            } else {
                                                match snippet_after(rest) {
                                                    None => None,
                                                    Some(sn) => scan_results(
                                                        rest,
                                                        limit,
                                                        acc.push(
                                                            SourceView {
                                                                title: take_chars(
                                                                    title,
                                                                    TITLE_LIMIT as int,
                                                                ),
                                                                url,
                                                                snippet: take_chars(
                                                                    sn,
                                                                    SNIPPET_LIMIT as int,
                                                                ),
                                                            },
                                                        ),
                                                    ),
                                                }
                                            }
                                        },
                                    }
                                }
                            },
                        }
                    },
                }
            },
        }
    }
}

fn snippet_after_exec(rest: &Vec<char>) -> (r: Option<Vec<char>>)
    ensures
        match snippet_after(rest@) {
            Some(sn) => r matches Some(v) && v@ == sn,
            None => r is None,
        },
{
    let marker = chars_of("result__snippet");
    match find_from(rest, &marker, 0) {
        None => Some(Vec::new()),
        Some(m) => {
            proof {
                lemma_find_first(rest@, marker@, 0);
            }
            let cand = slice_vec(rest, m, rest.len());
            assert(cand@ =~= rest@.skip(m as int));
            match find_from(&cand, &chars_of(">"), 0) {
                None => Some(Vec::new()),
                Some(p) => {
                    proof {
                        reveal_strlit(">");
                        lemma_find_first(cand@, ">"@, 0);
                    }
                    match find_from(&cand, &chars_of("</"), 0) {
                        None => Some(Vec::new()),
                        Some(e) => {
                            proof {
                                reveal_strlit("</");
                                lemma_find_first(cand@, "</"@, 0);
                            }
                            if p + 1 > e {
                                None
                            } else {
                                Some(html_text_chars(&slice_vec(&cand, p + 1, e)))
                            }
                        },
                    }
                },
            }
        },
    }
}

fn url_listed_exec(sources: &Vec<WebSearchSource>, url: &String) -> (r: bool)
    ensures
        r == url_listed(sources_view(sources@), url@),
{
    let u = chars_of(url.as_str());
    let mut i: usize = 0;
    while i < sources.len()
        invariant
            i <= sources.len(),
            u@ == url@,
            forall|k: int| 0 <= k < i ==> (#[trigger] sources@[k]).url@ != url@,
        decreases sources.len() - i,
    {
        if vec_eq(&chars_of(sources[i].url.as_str()), &u) {
            assert(sources_view(sources@)[i as int].url == url@);
            return true;
        }
        i += 1;
    }
    assert forall|k: int| 0 <= k < sources_view(sources@).len() implies (#[trigger] sources_view(
        sources@,
    )[k]).url != url@ by {
        assert(sources_view(sources@)[k] == sources@[k]@);
    }
    false
}

/// The results of a search page, or `None` where a snippet range cannot be
/// cut (see `scan_results`).
pub fn scan_search_results(html: &str, limit: usize) -> (r: Option<Vec<WebSearchSource>>)
    ensures
        match scan_results(html@, limit as int, Seq::empty()) {
            Some(v) => r matches Some(s) && sources_view(s@) == v,
            None => r is None,
        },
{
    let mut sources: Vec<WebSearchSource> = Vec::new();
    let mut rem = chars_of(html);
    let open = chars_of("<a");
    let gt = chars_of(">");
    let close = chars_of("</a>");
    proof {
        reveal_strlit("</a>");
        reveal_strlit("<a");
        reveal_strlit(">");
        assert(sources_view(sources@) =~= Seq::<SourceView>::empty());
    }
    loop
        invariant
            open@ == "<a"@,
            gt@ == ">"@,
            gt@.len() == 1,
            close@ == "</a>"@,
            close@.len() == 4,
            scan_results(rem@, limit as int, sources_view(sources@)) == scan_results(
                html@,
                limit as int,
                Seq::empty(),
            ),
        decreases rem.len(),
    {
        let ghost acc = sources_view(sources@);
        if sources.len() >= limit {
            return Some(sources);
        }
        let a = match find_from(&rem, &open, 0) {
            None => return Some(sources),
            Some(a) => a,
        };
        proof {
            lemma_find_first(rem@, open@, 0);
        }
        let r1 = slice_vec(&rem, a, rem.len());
        assert(r1@ =~= rem@.skip(a as int));
        let t = match find_from(&r1, &gt, 0) {
            None => return Some(sources),
            Some(t) => t,
        };
        proof {
            lemma_find_first(r1@, gt@, 0);
        }
        let tag = slice_vec(&r1, 0, t + 1);
        let after = slice_vec(&r1, t + 1, r1.len());
        assert(tag@ =~= r1@.take(t + 1));
        assert(after@ =~= r1@.skip(t + 1));
        let e = match find_from(&after, &close, 0) {
            None => {
                rem = after;
                continue;
            },
            Some(e) => e,
        };
        proof {
            lemma_find_first(after@, close@, 0);
        }
        let content = slice_vec(&after, 0, e);
        let rest = slice_vec(&after, e + 4, after.len());
        assert(content@ =~= after@.take(e as int));
        assert(rest@ =~= after@.skip(e + 4));
        rem = rest;
        if !crate::text::contains(&tag, &chars_of("result__a")) {
            continue;
        }
        let href = html_attribute(string_of(&tag).as_str(), "href");
        let url = match href {
            None => continue,
            Some(h) => match clean_search_url(h.as_str()) {
                None => continue,
                Some(u) => u,
            },
        };
        let title = html_text_chars(&content);
        if title.len() == 0 || url_listed_exec(&sources, &url) {
            continue;
        }
        let snippet = match snippet_after_exec(&rem) {
            None => return None,
            Some(sn) => sn,
        };
        let source = WebSearchSource {
            title: string_of(&truncate_chars(&title, TITLE_LIMIT)),
            url,
            snippet: string_of(&truncate_chars(&snippet, SNIPPET_LIMIT)),
        };
        sources.push(source);
        assert(sources_view(sources@) =~= acc.push(source@));
    }
}

/// The results of a search page, at most `limit` of them (see `scan_results`).
pub fn parse_web_search_results(html: &str, limit: usize) -> (r: Vec<WebSearchSource>)
    requires
        scan_results(html@, limit as int, Seq::empty()) is Some,
    ensures
        sources_view(r@) == scan_results(html@, limit as int, Seq::empty())->0,
{
    scan_search_results(html, limit).unwrap()
}


// ---------------------------------------------------------------- requests

/// A question for the web, with how many results are wanted.
#[derive(Clone, Debug)]
pub struct WebSearchRequest {
    pub query: String,
    pub max_results: Option<usize>,
}

/// The query as it was searched, and what was found.
#[derive(Clone, Debug)]
pub struct WebSearchResult {
    pub query: String,
    pub sources: Vec<WebSearchSource>,
}

/// What a search request asks for.
#[derive(Clone, Debug)]
pub enum SearchPlan {
    /// The query holds a link: read that page.
    ReadLink { query: String, link: String },
    /// Ask the search engine at `url` and keep at most `max_results` results.
    Search { query: String, url: String, max_results: usize },
}

pub enum PlanView {
    ReadLink(Seq<char>, Seq<char>),
    Search(Seq<char>, Seq<char>, usize),
}

impl View for SearchPlan {
    type V = PlanView;

    open spec fn view(&self) -> PlanView {
        match self {
            SearchPlan::ReadLink { query, link } => PlanView::ReadLink(query@, link@),
            SearchPlan::Search { query, url, max_results } => PlanView::Search(
                query@,
                url@,
                *max_results,
            ),
        }
    }
}

pub open spec fn invalid_search() -> DiagnosticView {
    diag(
        "INVALID_REQUEST"@,
        "Búsqueda no válida"@,
        "La búsqueda debe tener entre 1 y 600 caracteres."@,
        "La consulta estaba vacía o era demasiado larga."@,
        "Escribe una pregunta más breve y vuelve a intentarlo."@,
        false,
    )
}

/// The number of results kept: 4 unless asked, never fewer than 1 nor more
/// than 6.
pub open spec fn result_limit(asked: Option<usize>) -> usize {
    let n = match asked {
        Some(n) => n,
        None => 4,
    };
    if n < 1 {
        1
    } else if n > 6 {
        6
    } else {
        n
    }
}

/// The pieces of `s` between whitespace characters, empty pieces included
/// (`str::split(char::is_whitespace)`).
pub open spec fn ws_pieces(s: Seq<char>) -> Seq<Seq<char>>
    decreases s.len(),
{
    if s.len() == 0 {
        seq![Seq::empty()]
    } else {
        let p = ws_pieces(s.drop_last());
        if is_ws(s.last()) {
            p.push(Seq::empty())
        } else {
            p.update(p.len() - 1, p.last().push(s.last()))
        }
    }
}

proof fn lemma_ws_pieces_nonempty(s: Seq<char>)
    ensures
        ws_pieces(s).len() >= 1,
    decreases s.len(),
{
    if s.len() > 0 {
        lemma_ws_pieces_nonempty(s.drop_last());
    }
}

pub open spec fn is_link(w: Seq<char>) -> bool {
    starts_with(w, "https://"@) || starts_with(w, "http://"@)
}

/// The first of `ps` that is a link. Empty pieces are never links, so this is
/// also the first link among the words of a text.
pub open spec fn first_link_in(ps: Seq<Seq<char>>) -> Option<Seq<char>>
    decreases ps.len(),
{
    if ps.len() == 0 {
        None
    } else if is_link(ps[0]) {
        Some(ps[0])
    } else {
        first_link_in(ps.drop_first())
    }
}

proof fn lemma_first_link_push(ps: Seq<Seq<char>>, x: Seq<char>)
    ensures
        first_link_in(ps.push(x)) == match first_link_in(ps) {
            Some(l) => Some(l),
            None => if is_link(x) {
                Some(x)
            } else {
                None
            },
        },
    decreases ps.len(),
{
    let qs = ps.push(x);
    if ps.len() > 0 {
        assert(qs[0] == ps[0]);
        assert(qs.drop_first() =~= ps.drop_first().push(x));
        lemma_first_link_push(ps.drop_first(), x);
        if !is_link(ps[0]) {
            assert(first_link_in(qs) == first_link_in(qs.drop_first()));
            assert(first_link_in(ps) == first_link_in(ps.drop_first()));
        }
    } else {
        assert(qs[0] == x);
        assert(qs.drop_first() =~= Seq::<Seq<char>>::empty());
        assert(first_link_in(qs.drop_first()) is None);
        assert(first_link_in(ps) is None);
    }
}

pub open spec fn link_punctuation(c: char) -> bool {
    c == ')' || c == ']' || c == ',' || c == '.'
}

/// `w` without the closing brackets, commas and full stops at its end.
pub open spec fn strip_link_end(w: Seq<char>) -> Seq<char>
    decreases w.len(),
{
    if w.len() > 0 && link_punctuation(w.last()) {
        strip_link_end(w.drop_last())
    } else {
        w
    }
}

/// The first word of the query that starts with `https://` or `http://`,
/// without trailing punctuation.
pub open spec fn query_link(q: Seq<char>) -> Option<Seq<char>> {
    match first_link_in(ws_pieces(q)) {
        Some(w) => Some(strip_link_end(w)),
        None => None,
    }
}

/// The address of DuckDuckGo's HTML results for `q`.
pub open spec fn search_url(q: Seq<char>) -> Seq<char> {
    "https://html.duckduckgo.com/html/?q="@ + form_encode(encode_utf8(q))
}

/// What a search request asks for: the trimmed query must hold 1 to 600
/// characters; a query with a link reads that page, any other is searched.
pub open spec fn search_plan_spec(r: WebSearchRequest) -> Result<PlanView, DiagnosticView> {
    let q = trim(r.query@);
    if q.len() == 0 || q.len() > 600 {
        Err(invalid_search())
    } else {
        match query_link(q) {
            Some(l) => Ok(PlanView::ReadLink(q, l)),
            None => Ok(PlanView::Search(q, search_url(q), result_limit(r.max_results))),
        }
    }
}

fn is_link_exec(w: &Vec<char>) -> (r: bool)
    ensures
        r == is_link(w@),
{
    has_prefix(w, &chars_of("https://")) || has_prefix(w, &chars_of("http://"))
}

fn strip_link_end_exec(w: &Vec<char>) -> (r: Vec<char>)
    ensures
        r@ == strip_link_end(w@),
{
    let mut end: usize = w.len();
    assert(w@.take(end as int) =~= w@);
    while end > 0 && (w[end - 1] == ')' || w[end - 1] == ']' || w[end - 1] == ',' || w[end - 1]
        == '.')
        invariant
            end <= w.len(),
            strip_link_end(w@.take(end as int)) == strip_link_end(w@),
        decreases end,
    {
        assert(w@.take(end as int).drop_last() =~= w@.take(end - 1));
        end -= 1;
    }
    let r = slice_vec(w, 0, end);
    assert(r@ =~= w@.take(end as int));
    r
}

/// The link a query carries, if any (see `query_link`).
fn find_query_link(q: &Vec<char>) -> (r: Option<Vec<char>>)
    ensures
        match r {
            Some(l) => query_link(q@) == Some(l@),
            None => query_link(q@) is None,
        },
{
    let mut cur: Vec<char> = Vec::new();
    let mut i: usize = 0;
    assert(q@.take(0) =~= Seq::<char>::empty());
    while i < q.len()
        invariant
            i <= q.len(),
            first_link_in(ws_pieces(q@.take(i as int)).drop_last()) is None,
            cur@ == ws_pieces(q@.take(i as int)).last(),
        decreases q.len() - i,
    {
        let ghost before = q@.take(i as int);
        let ghost p = ws_pieces(before);
        proof {
            lemma_ws_pieces_nonempty(before);
            assert(q@.take(i + 1).drop_last() =~= before);
            assert(q@.take(i + 1).last() == q@[i as int]);
        }
        let c = q[i];
        if is_ws_exec(c) {
            if is_link_exec(&cur) {
                proof {
                    lemma_link_found(q@, i as int);
                }
                return Some(strip_link_end_exec(&cur));
            }
            cur = Vec::new();
            proof {
                let np = ws_pieces(q@.take(i + 1));
                assert(np == p.push(Seq::empty()));
                assert(np.drop_last() =~= p);
                assert(p =~= p.drop_last().push(p.last()));
                lemma_first_link_push(p.drop_last(), p.last());
            }
        } else {
            cur.push(c);
            proof {
                let np = ws_pieces(q@.take(i + 1));
                assert(np == p.update(p.len() - 1, p.last().push(c)));
                assert(np.drop_last() =~= p.drop_last());
            }
        }
        i += 1;
    }
    proof {
        assert(q@.take(q.len() as int) =~= q@);
        let p = ws_pieces(q@);
        lemma_ws_pieces_nonempty(q@);
        assert(p =~= p.drop_last().push(p.last()));
        lemma_first_link_push(p.drop_last(), p.last());
    }
    if is_link_exec(&cur) {
        Some(strip_link_end_exec(&cur))
    } else {
        None
    }
}

/// Where the piece that ends at a whitespace character at `i` is a link and no
/// earlier piece is, it is the first link of the whole text.
proof fn lemma_link_found(q: Seq<char>, i: int)
    requires
        0 <= i < q.len(),
        is_ws(q[i]),
        first_link_in(ws_pieces(q.take(i)).drop_last()) is None,
        ws_pieces(q.take(i)).len() >= 1,
        is_link(ws_pieces(q.take(i)).last()),
    ensures
        first_link_in(ws_pieces(q)) == Some(ws_pieces(q.take(i)).last()),
    decreases q.len() - i,
{
    let p = ws_pieces(q.take(i));
    assert(p =~= p.drop_last().push(p.last()));
    lemma_first_link_push(p.drop_last(), p.last());
    assert(q.take(i + 1).drop_last() =~= q.take(i));
    assert(q.take(i + 1).last() == q[i]);
    assert(ws_pieces(q.take(i + 1)) == p.push(Seq::empty()));
    assert(ws_pieces(q.take(i + 1)).drop_last() =~= p);
    lemma_first_link_prefix(q, i + 1);
}

/// Once the pieces of a prefix hold a link, the first link of the whole text
/// is that one.
proof fn lemma_first_link_prefix(q: Seq<char>, n: int)
    requires
        0 <= n <= q.len(),
        first_link_in(ws_pieces(q.take(n)).drop_last()) is Some,
    ensures
        first_link_in(ws_pieces(q)) == first_link_in(ws_pieces(q.take(n)).drop_last()),
    decreases q.len() - n,
{
    if n < q.len() {
        let p = ws_pieces(q.take(n));
        lemma_ws_pieces_nonempty(q.take(n));
        assert(q.take(n + 1).drop_last() =~= q.take(n));
        assert(q.take(n + 1).last() == q[n]);
        let np = ws_pieces(q.take(n + 1));
        if is_ws(q[n]) {
            assert(np.drop_last() =~= p);
            assert(p =~= p.drop_last().push(p.last()));
            lemma_first_link_push(p.drop_last(), p.last());
        } else {
            assert(np.drop_last() =~= p.drop_last());
        }
        lemma_first_link_prefix(q, n + 1);
    } else {
        assert(q.take(n) =~= q);
        let p = ws_pieces(q);
        lemma_ws_pieces_nonempty(q);
        assert(p =~= p.drop_last().push(p.last()));
        lemma_first_link_push(p.drop_last(), p.last());
    }
}

/// What a search request asks for (see `search_plan_spec`).
pub fn plan_web_search(request: &WebSearchRequest) -> (r: Result<SearchPlan, Diagnostic>)
    ensures
        match r {
            Ok(p) => search_plan_spec(*request) == Ok::<_, DiagnosticView>(p@),
            Err(d) => search_plan_spec(*request) == Err::<PlanView, _>(d@),
        },
{
    let q = trim_vec(&chars_of(request.query.as_str()));
    if q.len() == 0 || q.len() > 600 {
        return Err(
            Diagnostic::new(
                "INVALID_REQUEST",
                "Búsqueda no válida",
                "La búsqueda debe tener entre 1 y 600 caracteres.",
                "La consulta estaba vacía o era demasiado larga.",
                "Escribe una pregunta más breve y vuelve a intentarlo.",
                false,
            ),
        );
    }
    let query = string_of(&q);
    match find_query_link(&q) {
        Some(link) => Ok(SearchPlan::ReadLink { query, link: string_of(&link) }),
        None => {
            let asked = match request.max_results {
                Some(n) => n,
                None => 4,
            };
            let max_results = if asked < 1 {
                1
            } else if asked > 6 {
                6
            } else {
                asked
            };
            let encoded = encode_query(query.as_str());
            let mut url = chars_of("https://html.duckduckgo.com/html/?q=");
            extend(&mut url, &chars_of(encoded.as_str()));
            Ok(SearchPlan::Search { query, url: string_of(&url), max_results })
        },
    }
}

pub open spec fn read_failed(error: Seq<char>) -> DiagnosticView {
    diag(
        "WEB_READ_FAILED"@,
        "No se pudo leer el enlace"@,
        error,
        "La página no está disponible para lectura."@,
        "Comprueba el enlace o prueba otra fuente."@,
        true,
    )
}

/// The answer to a query that links to a page: the page's text as the only
/// source, titled by the link; or why the page could not be read.
pub fn link_result(query: String, link: String, page: Result<String, String>) -> (r: Result<
    WebSearchResult,
    Diagnostic,
>)
    ensures
        match page {
            Ok(text) => r matches Ok(res) && res.query@ == query@ && sources_view(res.sources@) == seq![
                SourceView { title: link@, url: link@, snippet: text@ },
            ],
            Err(e) => r matches Err(d) && d@ == read_failed(e@),
        },
{
    match page {
        Ok(text) => {
            let sources = vec![WebSearchSource { title: link.clone(), url: link, snippet: text }];
            assert(sources_view(sources@) =~= seq![
                SourceView { title: sources@[0].title@, url: sources@[0].url@, snippet: sources@[0].snippet@ },
            ]);
            Ok(WebSearchResult { query, sources })
        },
        Err(e) => Err(
            Diagnostic::new(
                "WEB_READ_FAILED",
                "No se pudo leer el enlace",
                e.as_str(),
                "La página no está disponible para lectura.",
                "Comprueba el enlace o prueba otra fuente.",
                true,
            ),
        ),
    }
}

/// The addresses of the results whose pages are read to replace their
/// snippets: the first two.
pub fn pages_to_read(sources: &Vec<WebSearchSource>) -> (r: Vec<String>)
    ensures
        r@.len() == if sources@.len() < 2 {
            sources@.len()
        } else {
            2
        },
        forall|i: int| 0 <= i < r@.len() ==> r@[i]@ == sources@[i].url@,
{
    let mut out: Vec<String> = Vec::new();
    let mut i: usize = 0;
    while i < sources.len() && i < 2
        invariant
            i <= sources.len(),
            i <= 2,
            out@.len() == i,
            forall|k: int| 0 <= k < i ==> out@[k]@ == sources@[k].url@,
        decreases sources.len() - i,
    {
        out.push(sources[i].url.clone());
        i += 1;
    }
    out
}

/// The results of a search: each source whose page could be read gets that
/// page's text as its snippet (`pages` answers the sources in order); the
/// others keep theirs.
pub fn search_result(query: String, sources: Vec<WebSearchSource>, pages: Vec<Result<String, String>>) -> (r:
    WebSearchResult)
    ensures
        r.query@ == query@,
        r.sources@.len() == sources@.len(),
        forall|i: int|
            0 <= i < sources@.len() ==> {
                let s = #[trigger] r.sources@[i];
                &&& s.title@ == sources@[i].title@
                &&& s.url@ == sources@[i].url@
                &&& s.snippet@ == if i < pages@.len() && pages@[i] is Ok {
                    pages@[i]->Ok_0@
                } else {
                    sources@[i].snippet@
                }
            },
{
    let mut out: Vec<WebSearchSource> = Vec::new();
    let mut i: usize = 0;
    while i < sources.len()
        invariant
            i <= sources.len(),
            out@.len() == i,
            forall|k: int|
                0 <= k < i ==> {
                    let s = #[trigger] out@[k];
                    &&& s.title@ == sources@[k].title@
                    &&& s.url@ == sources@[k].url@
                    &&& s.snippet@ == if k < pages@.len() && pages@[k] is Ok {
                        pages@[k]->Ok_0@
                    } else {
                        sources@[k].snippet@
                    }
                },
        decreases sources.len() - i,
    {
        let snippet = if i < pages.len() {
            match &pages[i] {
                Ok(text) => text.clone(),
                Err(_) => sources[i].snippet.clone(),
            }
        } else {
            sources[i].snippet.clone()
        };
        out.push(
            WebSearchSource {
                title: sources[i].title.clone(),
                url: sources[i].url.clone(),
                snippet,
            },
        );
        i += 1;
    }
    WebSearchResult { query, sources: out }
}


// ---------------------------------------------------------------- laws

/// Results with non-empty titles and pairwise different destinations.
pub open spec fn well_listed(s: Seq<SourceView>) -> bool {
    &&& forall|i: int| 0 <= i < s.len() ==> (#[trigger] s[i]).title.len() > 0
    &&& forall|i: int, j: int| 0 <= i < j < s.len() ==> (#[trigger] s[i]).url != (#[trigger] s[j]).url
}

/// A result page never yields more than `limit` results, each with a title,
/// and never the same destination twice; what was collected before stays
/// first.
pub proof fn lemma_results_well_listed(rem: Seq<char>, limit: int, acc: Seq<SourceView>)
    requires
        acc.len() <= limit,
        well_listed(acc),
    ensures
        scan_results(rem, limit, acc) matches Some(r) ==> {
            &&& acc.len() <= r.len() <= limit
            &&& well_listed(r)
            &&& r.take(acc.len() as int) == acc
        },
    decreases rem.len(),
{
    if acc.len() >= limit {
        assert(acc.take(acc.len() as int) =~= acc);
    } else {
        match find_first(rem, "<a"@, 0) {
            None => {
                assert(acc.take(acc.len() as int) =~= acc);
            },
            Some(a) => {
                let r1 = rem.skip(a);
                match find_first(r1, ">"@, 0) {
                    None => {
                        assert(acc.take(acc.len() as int) =~= acc);
                    },
                    Some(t) => {
                        reveal_strlit("<a");
                        reveal_strlit(">");
                        reveal_strlit("</a>");
                        lemma_find_first(rem, "<a"@, 0);
                        lemma_find_first(r1, ">"@, 0);
                        let tag = r1.take(t + 1);
                        let after = r1.skip(t + 1);
                        match find_first(after, "</a>"@, 0) {
                            None => {
                                lemma_results_well_listed(after, limit, acc);
                            },
                            Some(e) => {
                                lemma_find_first(after, "</a>"@, 0);
                                let content = after.take(e);
                                let rest = after.skip(e + 4);
                                if !contains_seq(tag, "result__a"@) {
                                    lemma_results_well_listed(rest, limit, acc);
                                } else {
                                    match href_target(tag) {
                                        None => {
                                            lemma_results_well_listed(rest, limit, acc);
                                        },
                                        Some(url) => {
                                            let title = html_text_spec(content);
                                            if title.len() == 0 || url_listed(acc, url) {
                                                lemma_results_well_listed(rest, limit, acc);
                                            } else {
                                                match snippet_after(rest) {
                                                    None => {},
                                                    Some(sn) => {
                                                        let item = SourceView {
                                                            title: take_chars(title, TITLE_LIMIT as int),
                                                            url,
                                                            snippet: take_chars(sn, SNIPPET_LIMIT as int),
                                                        };
                                                        let next = acc.push(item);
                                                        assert forall|i: int, j: int|
                                                            0 <= i < j < next.len() implies (#[trigger] next[i]).url
                                                            != (#[trigger] next[j]).url by {
                                                            if j == acc.len() {
                                                                assert(next[i] == acc[i]);
                                                            } else {
                                                                assert(next[i] == acc[i]);
                                                                assert(next[j] == acc[j]);
                                                            }
                                                        }
                                                        assert(well_listed(next));
                                                        lemma_results_well_listed(rest, limit, next);
                                                        match scan_results(rest, limit, next) {
                                                            Some(r) => {
                                                                assert(r.take(acc.len() as int) =~= r.take(
                                                                    next.len() as int,
                                                                ).take(acc.len() as int));
                                                                assert(next.take(acc.len() as int) =~= acc);
                                                            },
                                                            None => {},
                                                        }
                                                    },
                                                }
                                            }
                                        },
                                    }
                                }
                            },
                        }
                    },
                }
            },
        }
    }
}

/// Results as a search keeps them: no two share a destination, every title
/// is non-empty and at most 220 characters, every snippet at most 500.
pub open spec fn well_kept(v: Seq<SourceView>) -> bool {
    &&& forall|i: int, j: int| 0 <= i < j < v.len() ==> (#[trigger] v[i]).url != (#[trigger] v[j]).url
    &&& forall|i: int| 0 <= i < v.len() ==> 0 < (#[trigger] v[i]).title.len() <= 220 && v[i].snippet.len() <= 500
}

proof fn lemma_take_chars_len(s: Seq<char>, n: int)
    requires
        n >= 0,
    ensures
        take_chars(s, n).len() <= n,
        s.len() > 0 && n > 0 ==> take_chars(s, n).len() > 0,
{
}

/// A search result page yields at most `limit` results, none repeating a
/// destination, with non-empty titles of at most 220 characters and
/// snippets of at most 500, whatever the page holds.
pub proof fn lemma_scan_bounded(rem: Seq<char>, limit: int, acc: Seq<SourceView>)
    requires
        acc.len() <= limit,
        well_kept(acc),
    ensures
        scan_results(rem, limit, acc) matches Some(v) ==> v.len() <= limit && well_kept(v),
    decreases rem.len(),
{
    if acc.len() >= limit {
    } else {
        match find_first(rem, "<a"@, 0) {
            None => {},
            Some(a) => {
                lemma_find_first(rem, "<a"@, 0);
                reveal_strlit("<a");
                reveal_strlit(">");
                reveal_strlit("</a>");
                let r1 = rem.skip(a);
                match find_first(r1, ">"@, 0) {
                    None => {},
                    Some(t) => {
                        lemma_find_first(r1, ">"@, 0);
                        let tag = r1.take(t + 1);
                        let after = r1.skip(t + 1);
                        match find_first(after, "</a>"@, 0) {
                            None => {
                                lemma_scan_bounded(after, limit, acc);
                            },
                            Some(e) => {
                                lemma_find_first(after, "</a>"@, 0);
                                let content = after.take(e);
                                let rest = after.skip(e + 4);
                                lemma_scan_bounded(rest, limit, acc);
                                if contains_seq(tag, "result__a"@) {
                                    if let Some(url) = href_target(tag) {
                                        let title = html_text_spec(content);
                                        if !(title.len() == 0 || url_listed(acc, url)) {
                                            if let Some(sn) = snippet_after(rest) {
                                                let item = SourceView {
                                                    title: take_chars(title, TITLE_LIMIT as int),
                                                    url,
                                                    snippet: take_chars(sn, SNIPPET_LIMIT as int),
                                                };
                                                lemma_take_chars_len(title, TITLE_LIMIT as int);
                                                lemma_take_chars_len(sn, SNIPPET_LIMIT as int);
                                                let next = acc.push(item);
                                                assert forall|i: int, j: int| 0 <= i < j < next.len() implies (
                                                #[trigger] next[i]).url != (#[trigger] next[j]).url by {
                                                    if j == acc.len() {
                                                        assert(next[i] == acc[i]);
                                                        if acc[i].url == url {
                                                            assert(url_listed(acc, url));
                                                        }
                                                    } else {
                                                        assert(next[i] == acc[i] && next[j] == acc[j]);
                                                    }
                                                }
                                                assert forall|i: int| 0 <= i < next.len() implies 0 < (
                                                #[trigger] next[i]).title.len() <= 220 && next[i].snippet.len() <= 500 by {
                                                    if i < acc.len() {
                                                        assert(next[i] == acc[i]);
                                                    }
                                                }
                                                lemma_scan_bounded(rest, limit, next);
                                            }
                                        }
                                    }
                                }
                            },
                        }
                    },
                }
            },
        }
    }
}

/// What was fetched for a search: the page a query links to, or the result
/// page of the search engine with the pages read for its first results (see
/// `pages_to_read`), in order.
pub enum SearchFetched {
    Page(Result<String, String>),
    Results { html: String, pages: Vec<Result<String, String>> },
}

/// The answer to a search request from what was fetched for it. `None` when
/// what was fetched does not belong to the request's plan, or when the result
/// page holds a snippet range that cannot be cut (see `scan_results`).
pub fn search_answer(request: &WebSearchRequest, fetched: SearchFetched) -> (r: Option<
    Result<WebSearchResult, Diagnostic>,
>)
    ensures
        match search_plan_spec(*request) {
            Err(d) => r matches Some(Err(e)) && e@ == d,
            Ok(PlanView::ReadLink(q, l)) => match fetched {
                SearchFetched::Page(Ok(text)) => r matches Some(Ok(res)) && res.query@ == q
                    && sources_view(res.sources@) == seq![
                    SourceView { title: l, url: l, snippet: text@ },
                ],
                SearchFetched::Page(Err(e)) => r matches Some(Err(d)) && d@ == read_failed(e@),
                SearchFetched::Results { .. } => r is None,
            },
            Ok(PlanView::Search(q, _, n)) => match fetched {
                SearchFetched::Page(_) => r is None,
                SearchFetched::Results { html, pages } => match scan_results(html@, n as int, Seq::empty()) {
                    None => r is None,
                    Some(v) => r matches Some(Ok(res)) && res.query@ == q && res.sources@.len() == v.len()
                        && forall|i: int|
                        0 <= i < v.len() ==> {
                            let s = #[trigger] res.sources@[i];
                            &&& s.title@ == v[i].title
                            &&& s.url@ == v[i].url
                            &&& s.snippet@ == if i < pages@.len() && pages@[i] is Ok {
                                pages@[i]->Ok_0@
                            } else {
                                v[i].snippet
                            }
                        },
                },
            },
        },
        r matches Some(Ok(res)) ==> res.query@ == trim(request.query@) && res.sources@.len()
            <= result_limit(request.max_results),
{
    let plan = match plan_web_search(request) {
        Err(d) => return Some(Err(d)),
        Ok(p) => p,
    };
    proof {
        assert(result_limit(request.max_results) >= 1);
    }
    match (plan, fetched) {
        (SearchPlan::ReadLink { query, link }, SearchFetched::Page(page)) => {
            let answer = link_result(query, link, page);
            proof {
                if answer is Ok {
                    assert(sources_view(answer->Ok_0.sources@).len() == answer->Ok_0.sources@.len());
                }
            }
            Some(answer)
        },
        (SearchPlan::Search { query, max_results, .. }, SearchFetched::Results { html, pages }) => {
            match scan_search_results(html.as_str(), max_results) {
                None => None,
                Some(sources) => {
                    proof {
                        lemma_scan_bounded(html@, max_results as int, Seq::empty());
                        assert(sources@.len() == sources_view(sources@).len());
                        assert(max_results == result_limit(request.max_results));
                        assert(sources@.len() <= result_limit(request.max_results));
                    }
                    let res = search_result(query, sources, pages);
                    proof {
                        let v = sources_view(sources@);
                        assert forall|i: int| 0 <= i < v.len() implies v[i] == sources@[i]@ by {}
                    }
                    Some(Ok(res))
                },
            }
        },
        (_, _) => None,
    }
}

} // verus!
