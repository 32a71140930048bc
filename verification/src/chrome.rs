//! Chrome Web Store extraction.
//!
//! The store page embeds a no-script fallback; the user count is shown only
//! inside the first `<noscript>` ... last `</noscript>` region of the page.
//! Within that region, the count lives in a `span` whose `title` attribute
//! repeats its visible text exactly and whose text splits into exactly two
//! whitespace tokens, the first being the decimal count (`"3021 users"`).
//!
//! A page without both markers is a fatal condition for a whole batch run:
//! it is reported as an error, never as a quiet "no count".

use vstd::prelude::*;
use vstd::string::StrSliceExecFns;
use crate::text::{
    find_first, find_last, has_match, is_first_match, is_last_match, match_at, parse_u32,
    parse_u32_chars, split_ws_tokens, ws_tokens,
};

verus! {

/// The `title` attribute (if any) and the visible text of one `span` element,
/// in document order, for every `span` of a parsed HTML fragment.
pub uninterp spec fn chrome_spans_of(html: Seq<char>) -> Seq<(Option<Seq<char>>, Seq<char>)>;

/// Relies on `select::document::Document`: parsing HTML and walking its nodes
/// is a function of the input text alone. Each `span` element contributes its
/// `title` attribute and its visible text, in document order.
#[verifier::external_body]
fn chrome_span_nodes(html: &str) -> (r: Vec<(Option<String>, String)>)
    ensures
        r.deep_view() == chrome_spans_of(html@),
{
    let document = select::document::Document::from(html);
    let mut spans = Vec::new();
    for node in document.find(select::predicate::Name("span")) {
        spans.push((node.attr("title").map(str::to_string), node.text()));
    }
    spans
}

/// The opening marker of the no-script region.
pub open spec fn nos_open() -> Seq<char> {
    "<noscript>"@
}

/// The closing marker of the no-script region.
pub open spec fn nos_close() -> Seq<char> {
    "</noscript>"@
}

/// A span decides the scan when its `title` equals its text and that text
/// splits into exactly two whitespace tokens.
pub open spec fn chrome_span_decides(sp: (Option<Seq<char>>, Seq<char>)) -> bool {
    sp.0 matches Some(t) && t == sp.1 && ws_tokens(sp.1).len() == 2
}

/// The count carried by a deciding span: its first token, parsed.
pub open spec fn chrome_span_value(sp: (Option<Seq<char>>, Seq<char>)) -> Option<u32> {
    parse_u32(ws_tokens(sp.1)[0])
}

/// The result of scanning the spans in order: the first deciding span's
/// parsed count (`None` if its first token does not parse), else no count.
pub open spec fn users_from_chrome_spans_spec(spans: Seq<(Option<Seq<char>>, Seq<char>)>) -> Option<
    u32,
>
    decreases spans.len(),
{
    if spans.len() == 0 {
        None
    } else if chrome_span_decides(spans[0]) {
        chrome_span_value(spans[0])
    } else {
        users_from_chrome_spans_spec(spans.drop_first())
    }
}

/// Scans span candidates for the user count, as the store page shows it.
pub fn users_from_chrome_spans(spans: &Vec<(Option<String>, String)>) -> (r: Option<u32>)
    ensures
        r == users_from_chrome_spans_spec(spans.deep_view()),
{
    let ghost full = spans.deep_view();
    proof {
        assert(full.skip(0) =~= full);
    }
    let mut i: usize = 0;
    while i < spans.len()
        invariant
            i <= spans@.len(),
            full == spans.deep_view(),
            users_from_chrome_spans_spec(full) == users_from_chrome_spans_spec(
                full.skip(i as int),
            ),
        decreases spans@.len() - i,
    {
        proof {
            assert(full.skip(i as int)[0] == full[i as int]);
            assert(full[i as int] == (spans@[i as int].0.deep_view(), spans@[i as int].1@));
        }
        let sp = &spans[i];
        if let Some(title) = &sp.0 {
            if *title == sp.1 {
                let tokens = split_ws_tokens(title.as_str());
                if tokens.len() == 2 {
                    proof {
                        assert(chrome_span_decides(full[i as int]));
                        assert(tokens.deep_view()[0] == tokens@[0]@);
                    }
                    let r = parse_u32_chars(&tokens[0]);
                    proof {
                        assert(users_from_chrome_spans_spec(full.skip(i as int))
                            == chrome_span_value(full[i as int]));
                    }
                    return r;
                }
                proof {
                    assert(!chrome_span_decides(full[i as int]));
                }
            }
        }
        proof {
            assert(!chrome_span_decides(full[i as int]));
            assert(full.skip(i as int).drop_first() =~= full.skip(i + 1));
        }
        i += 1;
    }
    proof {
        assert(full.skip(spans@.len() as int).len() == 0);
    }
    None
}

/// Law: if position `i` holds the first deciding span (its `title` equals its
/// text and splits into exactly two tokens) and its first token parses as
/// `n`, then the scan over the spans returns exactly `n`.
pub proof fn lemma_chrome_first_candidate(
    spans: Seq<(Option<Seq<char>>, Seq<char>)>,
    i: int,
    n: u32,
)
    requires
        0 <= i < spans.len(),
        chrome_span_decides(spans[i]),
        parse_u32(ws_tokens(spans[i].1)[0]) == Some(n),
        forall|j: int| 0 <= j < i ==> !chrome_span_decides(spans[j]),
    ensures
        users_from_chrome_spans_spec(spans) == Some(n),
    decreases i,
{
    if i > 0 {
        let rest = spans.drop_first();
        assert forall|j: int| 0 <= j < i - 1 implies !chrome_span_decides(rest[j]) by {
            assert(rest[j] == spans[j + 1]);
        }
        assert(rest[i - 1] == spans[i]);
        lemma_chrome_first_candidate(rest, i - 1, n);
    }
}

/// The fatal condition: the page has no `<noscript>` or no `</noscript>`.
pub open spec fn chrome_fatal(html: Seq<char>) -> bool {
    !(has_match(html, nos_open()) && has_match(html, nos_close()))
}

/// Law: a page lacking either no-script marker is the fatal condition, on
/// which extraction reports the batch-aborting error, never a quiet
/// "no count".
pub proof fn lemma_missing_noscript_is_fatal(html: Seq<char>)
    requires
        !has_match(html, nos_open()) || !has_match(html, nos_close()),
    ensures
        chrome_fatal(html),
{
}

/// The region between the markers at `a` (first opening) and `b` (last
/// closing); empty when the markers do not enclose anything.
pub open spec fn noscript_inner(html: Seq<char>, a: int, b: int) -> Seq<char> {
    if a + nos_open().len() <= b {
        html.subrange(a + nos_open().len(), b)
    } else {
        Seq::empty()
    }
}

/// The count extracted from a page on which the markers are present.
pub open spec fn chrome_users_of_html(html: Seq<char>) -> Option<u32> {
    let a = choose|a: int| is_first_match(html, nos_open(), a);
    let b = choose|b: int| is_last_match(html, nos_close(), b);
    users_from_chrome_spans_spec(chrome_spans_of(noscript_inner(html, a, b)))
}

/// The fatal, batch-aborting condition of the Chrome extractor.
#[derive(Clone, Copy, Debug, PartialEq, Eq)]
pub enum ExtractFatal {
    NoscriptMissing,
}

/// Extracts the user count from a Chrome Web Store page: the spans of the
/// no-script region are scanned in order. A page without both no-script
/// markers is the fatal error; anything else merely yields no count.
pub fn extract_chrome_webstore_users(page_contents: &str) -> (r: Result<Option<u32>, ExtractFatal>)
    ensures
        (chrome_fatal(page_contents@) ==> r == Err::<Option<u32>, ExtractFatal>(
            ExtractFatal::NoscriptMissing,
        )),
        (!chrome_fatal(page_contents@) ==> r == Ok::<Option<u32>, ExtractFatal>(
            chrome_users_of_html(page_contents@),
        )),
{
    let n = page_contents.unicode_len();
    let noscript_start = find_first(page_contents, "<noscript>");
    let noscript_end = find_last(page_contents, "</noscript>");
    proof {
        reveal_strlit("<noscript>");
        reveal_strlit("</noscript>");
    }
    match (noscript_start, noscript_end) {
        (Some(a), Some(b)) => {
            proof {
                let a2 = choose|x: int| is_first_match(page_contents@, nos_open(), x);
                if a2 != a as int {
                    assert(match_at(page_contents@, nos_open(), a2));
                    assert(match_at(page_contents@, nos_open(), a as int));
                }
                assert(a2 == a as int);
                let b2 = choose|x: int| is_last_match(page_contents@, nos_close(), x);
                if b2 != b as int {
                    assert(match_at(page_contents@, nos_close(), b2));
                    assert(match_at(page_contents@, nos_close(), b as int));
                }
                assert(b2 == b as int);
            }
            proof {
                assert(a + 10 <= n);
            }
            let inner: &str = if a + 10 <= b {
                page_contents.substring_char(a + 10, b)
            } else {
                ""
            };
            proof {
                reveal_strlit("");
                assert(inner@ =~= noscript_inner(page_contents@, a as int, b as int));
            }
            let spans = chrome_span_nodes(inner);
            let r = users_from_chrome_spans(&spans);
            Ok(r)
        },
        _ => Err(ExtractFatal::NoscriptMissing),
    }
}

} // verus!
