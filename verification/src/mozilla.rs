//! Mozilla add-on site extraction.
//!
//! The add-on page renders a metadata card as a description list: `dt` title
//! cells paired with `dd` value cells. The user count is the text of the
//! first `dd` sibling of a title cell reading exactly "Users" (surrounding
//! whitespace tolerated). A title cell without such a sibling does not end
//! the scan; an unparsable value does, with no count.

use vstd::prelude::*;
use select::predicate::{And, Class, Name, Predicate};
use crate::text::{parse_u32, parse_u32_chars, str_chars, str_eq, trim_ws, trimmed_eq};

verus! {

/// For every title cell of a metadata-card list, in document order: its
/// visible text, and for each child of its parent element the child's
/// element name (if any) and visible text.
pub uninterp spec fn mozilla_rows_of(html: Seq<char>) -> Seq<
    (Seq<char>, Seq<(Option<Seq<char>>, Seq<char>)>),
>;

/// Relies on `select::document::Document`: parsing HTML and walking its nodes
/// is a function of the input text alone. Each `dt.MetadataCard-title` under a
/// `dl.MetadataCard-list` contributes its text and its parent's children.
#[verifier::external_body]
fn mozilla_card_rows(html: &str) -> (r: Vec<(String, Vec<(Option<String>, String)>)>)
    ensures
        r.deep_view() == mozilla_rows_of(html@),
{
    let document = select::document::Document::from(html);
    let titles = And(Name("dl"), Class("MetadataCard-list")).descendant(
        And(Name("dt"), Class("MetadataCard-title")),
    );
    let mut rows = Vec::new();
    for node in document.find(titles) {
        let mut cells = Vec::new();
        for child in node.parent().iter().flat_map(|p| p.children()) {
            cells.push((child.name().map(str::to_string), child.text()));
        }
        rows.push((node.text(), cells));
    }
    rows
}

/// The label that marks the user-count row.
pub open spec fn users_label() -> Seq<char> {
    "Users"@
}

/// A title cell reads "Users" once trimmed of surrounding whitespace.
pub open spec fn row_is_users(row: (Seq<char>, Seq<(Option<Seq<char>>, Seq<char>)>)) -> bool {
    trim_ws(row.0) == users_label()
}

/// The text of the first sibling cell whose element name is `dd`, if any.
pub open spec fn first_dd_text(cells: Seq<(Option<Seq<char>>, Seq<char>)>) -> Option<Seq<char>>
    decreases cells.len(),
{
    if cells.len() == 0 {
        None
    } else if cells[0].0 == Some("dd"@) {
        Some(cells[0].1)
    } else {
        first_dd_text(cells.drop_first())
    }
}

/// The result of scanning the title cells in order: at the first "Users"
/// row with a `dd` sibling, that sibling's text parsed as a count (`None`
/// if it does not parse); a "Users" row without a `dd` sibling is skipped.
pub open spec fn users_from_mozilla_rows_spec(
    rows: Seq<(Seq<char>, Seq<(Option<Seq<char>>, Seq<char>)>)>,
) -> Option<u32>
    decreases rows.len(),
{
    if rows.len() == 0 {
        None
    } else if row_is_users(rows[0]) {
        match first_dd_text(rows[0].1) {
            Some(txt) => parse_u32(txt),
            None => users_from_mozilla_rows_spec(rows.drop_first()),
        }
    } else {
        users_from_mozilla_rows_spec(rows.drop_first())
    }
}

/// Law: if position `i` holds the first "Users" row that has a `dd` sibling
/// (whitespace around the label tolerated), and that sibling's text parses as
/// `n`, then the scan over the rows returns exactly `n`.
pub proof fn lemma_mozilla_first_users_row(
    rows: Seq<(Seq<char>, Seq<(Option<Seq<char>>, Seq<char>)>)>,
    i: int,
    txt: Seq<char>,
    n: u32,
)
    requires
        0 <= i < rows.len(),
        row_is_users(rows[i]),
        first_dd_text(rows[i].1) == Some(txt),
        parse_u32(txt) == Some(n),
        forall|j: int| 0 <= j < i ==> (row_is_users(rows[j]) ==> first_dd_text(rows[j].1) is None),
    ensures
        users_from_mozilla_rows_spec(rows) == Some(n),
    decreases i,
{
    if i > 0 {
        let rest = rows.drop_first();
        assert forall|j: int| 0 <= j < i - 1 implies (row_is_users(rest[j]) ==> first_dd_text(
            rest[j].1,
        ) is None) by {
            assert(rest[j] == rows[j + 1]);
        }
        assert(rest[i - 1] == rows[i]);
        lemma_mozilla_first_users_row(rest, i - 1, txt, n);
    }
}

proof fn lemma_mozilla_no_value_rows(rows: Seq<(Seq<char>, Seq<(Option<Seq<char>>, Seq<char>)>)>)
    requires
        forall|j: int| 0 <= j < rows.len() ==> (row_is_users(rows[j]) ==> first_dd_text(
            rows[j].1,
        ) is None),
    ensures
        users_from_mozilla_rows_spec(rows) is None,
    decreases rows.len(),
{
    if rows.len() > 0 {
        let rest = rows.drop_first();
        assert forall|j: int| 0 <= j < rest.len() implies (row_is_users(rest[j])
            ==> first_dd_text(rest[j].1) is None) by {
            assert(rest[j] == rows[j + 1]);
        }
        lemma_mozilla_no_value_rows(rest);
    }
}

/// Law: when a "Users" row exists but no "Users" row has a `dd` sibling, the
/// scan returns no count; it is not an error.
pub proof fn lemma_mozilla_users_without_value(
    rows: Seq<(Seq<char>, Seq<(Option<Seq<char>>, Seq<char>)>)>,
)
    requires
        exists|j: int| 0 <= j < rows.len() && row_is_users(rows[j]),
        forall|j: int| 0 <= j < rows.len() ==> (row_is_users(rows[j]) ==> first_dd_text(
            rows[j].1,
        ) is None),
    ensures
        users_from_mozilla_rows_spec(rows) is None,
{
    lemma_mozilla_no_value_rows(rows);
}

/// The index of the first `dd` cell, with its text pinned by [`first_dd_text`].
fn first_dd_index(cells: &Vec<(Option<String>, String)>) -> (r: Option<usize>)
    ensures
        (r matches Some(k) ==> k < cells@.len() && first_dd_text(cells.deep_view()) == Some(
            cells@[k as int].1@,
        )),
        (r is None ==> first_dd_text(cells.deep_view()) is None),
{
    let ghost full = cells.deep_view();
    proof {
        assert(full.skip(0) =~= full);
    }
    let mut i: usize = 0;
    while i < cells.len()
        invariant
            i <= cells@.len(),
            full == cells.deep_view(),
            first_dd_text(full) == first_dd_text(full.skip(i as int)),
        decreases cells@.len() - i,
    {
        proof {
            assert(full.skip(i as int)[0] == full[i as int]);
            assert(full[i as int] == (cells@[i as int].0.deep_view(), cells@[i as int].1@));
        }
        let is_dd = match &cells[i].0 {
            Some(name) => str_eq(name.as_str(), "dd"),
            None => false,
        };
        if is_dd {
            return Some(i);
        }
        proof {
            assert(full[i as int].0 != Some("dd"@));
            assert(full.skip(i as int).drop_first() =~= full.skip(i + 1));
        }
        i += 1;
    }
    proof {
        assert(full.skip(cells@.len() as int).len() == 0);
    }
    None
}

/// Scans the metadata-card rows for the user count, as the add-on page
/// shows it.
pub fn users_from_mozilla_rows(rows: &Vec<(String, Vec<(Option<String>, String)>)>) -> (r: Option<
    u32,
>)
    ensures
        r == users_from_mozilla_rows_spec(rows.deep_view()),
{
    let ghost full = rows.deep_view();
    proof {
        assert(full.skip(0) =~= full);
    }
    let mut i: usize = 0;
    while i < rows.len()
        invariant
            i <= rows@.len(),
            full == rows.deep_view(),
            users_from_mozilla_rows_spec(full) == users_from_mozilla_rows_spec(
                full.skip(i as int),
            ),
        decreases rows@.len() - i,
    {
        proof {
            assert(full.skip(i as int)[0] == full[i as int]);
            assert(full[i as int] == (rows@[i as int].0@, rows@[i as int].1.deep_view()));
        }
        let row = &rows[i];
        if trimmed_eq(row.0.as_str(), "Users") {
            match first_dd_index(&row.1) {
                Some(k) => {
                    let token: Vec<char> = str_chars(row.1[k].1.as_str());
                    let r = parse_u32_chars(&token);
                    proof {
                        assert(users_from_mozilla_rows_spec(full.skip(i as int)) == parse_u32(
                            rows@[i as int].1@[k as int].1@,
                        ));
                    }
                    return r;
                },
                None => {},
            }
        }
        proof {
            assert(full.skip(i as int).drop_first() =~= full.skip(i + 1));
        }
        i += 1;
    }
    proof {
        assert(full.skip(rows@.len() as int).len() == 0);
    }
    None
}

/// Extracts the user count from a Mozilla add-on page by scanning the
/// metadata card for a "Users" row.
pub fn extract_mozilla_addon_users(page_contents: &str) -> (r: Option<u32>)
    ensures
        r == users_from_mozilla_rows_spec(mozilla_rows_of(page_contents@)),
{
    let rows = mozilla_card_rows(page_contents);
    users_from_mozilla_rows(&rows)
}

} // verus!
