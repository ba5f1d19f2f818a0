//! Putting rendered pieces together: fragments into a document, columns
//! into a row.

use vstd::prelude::*;
use vstd::string::*;

verus! {

/// The `parts` in order, with `separator` between each two.
pub open spec fn joined(parts: Seq<Seq<char>>, separator: Seq<char>) -> Seq<char>
    decreases parts.len(),
{
    if parts.len() == 0 {
        Seq::empty()
    } else if parts.len() == 1 {
        parts[0]
    } else {
        joined(parts.drop_last(), separator) + separator + parts.last()
    }
}

/// Joins `parts` in order, with `separator` between each two.
pub fn join(parts: &Vec<String>, separator: &str) -> (out: String)
    ensures
        out@ == joined(parts.deep_view(), separator@),
{
    let mut out = String::new();
    let mut i: usize = 0;
    while i < parts.len()
        invariant
            i <= parts.len(),
            out@ == joined(parts.deep_view().take(i as int), separator@),
        decreases parts.len() - i,
    {
        proof {
            let done = parts.deep_view().take(i as int + 1);
            assert(done.drop_last() == parts.deep_view().take(i as int));
            assert(done.last() == parts[i as int]@);
        }
        if i > 0 {
            out.append(separator);
        }
        out.append(parts[i].as_str());
        i = i + 1;
    }
    proof {
        assert(parts.deep_view().take(parts.len() as int) == parts.deep_view());
    }
    out
}

/// One rendered column in its `<div>`.
pub open spec fn column_html(content: Seq<char>) -> Seq<char> {
    "<div style=\"margin: 0 16px\">"@ + content + "</div>"@
}

/// Each of the rendered `columns` in its `<div>`.
pub open spec fn column_boxes(columns: Seq<Seq<char>>) -> Seq<Seq<char>> {
    Seq::new(columns.len(), |i: int| column_html(columns[i]))
}

/// The HTML of a column list whose columns rendered to `columns`: a flex
/// row around the columns, one per line.
pub open spec fn column_list_html(columns: Seq<Seq<char>>) -> Seq<char> {
    "<div style=\"display: flex;\">"@ + joined(column_boxes(columns), "\n"@) + "</div>"@
}

/// Lays out the rendered `columns` of a column list side by side: each in
/// a `<div>` with a side margin, all of them in one flex row.
pub fn convert_columns(columns: &Vec<String>) -> (out: String)
    ensures
        out@ == column_list_html(columns.deep_view()),
{
    let mut boxes: Vec<String> = Vec::new();
    let mut i: usize = 0;
    while i < columns.len()
        invariant
            i <= columns.len(),
            boxes.deep_view() == column_boxes(columns.deep_view().take(i as int)),
        decreases columns.len() - i,
    {
        let mut one = String::from_str("<div style=\"margin: 0 16px\">");
        one.append(columns[i].as_str());
        one.append("</div>");
        let ghost before = boxes.deep_view();
        boxes.push(one);
        proof {
            assert(boxes.deep_view() =~= before.push(one@));
            assert(boxes.deep_view() =~= column_boxes(columns.deep_view().take(i as int + 1)));
        }
        i = i + 1;
    }
    proof {
        assert(columns.deep_view().take(columns.len() as int) == columns.deep_view());
    }
    let mut out = String::from_str("<div style=\"display: flex;\">");
    let row = join(&boxes, "\n");
    out.append(row.as_str());
    out.append("</div>");
    out
}

} // verus!
