//! Rendering of one entry as a Markdown document.
use vstd::prelude::*;
use crate::record::{BibRecord, RecordView, strings_view, pairs_view};
use crate::text::{joined, join_with};

verus! {

/// Why an entry could not be rendered.
pub enum RenderError {
    /// The entry with this key has no `title` field.
    MissingTitle { key: String },
}

/// The author segment of the heading: the names joined by ` and `, or
/// `Unknown` when the entry has no author list.
pub open spec fn author_segment(authors: Option<Seq<Seq<char>>>) -> Seq<char> {
    match authors {
        Some(names) => joined(names, " and "@),
        None => "Unknown"@,
    }
}

/// One line of the field list.
pub open spec fn field_line(name: Seq<char>, value: Seq<char>) -> Seq<char> {
    "- "@ + name + ": "@ + value + "\n"@
}

/// The field list: one line per field, in the given order.
pub open spec fn field_lines(fields: Seq<(Seq<char>, Seq<char>)>) -> Seq<char>
    decreases fields.len(),
{
    if fields.len() == 0 {
        Seq::empty()
    } else {
        field_lines(fields.drop_last()) + field_line(fields.last().0, fields.last().1)
    }
}

/// The document of an entry with the given title.
pub open spec fn document(r: RecordView, title: Seq<char>) -> Seq<char> {
    "# "@ + r.key + "\n\n"@ + "## "@ + author_segment(r.authors) + ": "@ + title + "\n\n"@
        + field_lines(r.fields)
}

/// Joins the authors' display names with ` and `.
pub fn format_authors(authors: &Vec<String>) -> (r: String)
    ensures
        r@ == joined(strings_view(authors@), " and "@),
{
    join_with(authors, " and ")
}

/// The author segment of an entry's heading.
pub fn get_author_string(entry: &BibRecord) -> (r: String)
    ensures
        r@ == author_segment(entry@.authors),
{
    match &entry.authors {
        Some(names) => format_authors(names),
        None => String::from_str("Unknown"),
    }
}

/// Appends the field list of `fields` to `out`.
fn push_field_lines(out: &mut String, fields: &Vec<(String, String)>)
    ensures
        final(out)@ == old(out)@ + field_lines(pairs_view(fields@)),
{
    let ghost views = pairs_view(fields@);
    let ghost start = out@;
    let mut i: usize = 0;
    while i < fields.len()
        invariant
            i <= fields.len(),
            views == pairs_view(fields@),
            out@ == start + field_lines(views.take(i as int)),
        decreases fields.len() - i,
    {
        let pair = &fields[i];
        out.append("- ");
        out.append(pair.0.as_str());
        out.append(": ");
        out.append(pair.1.as_str());
        out.append("\n");
        proof {
            let t = views.take(i as int + 1);
            assert(t.drop_last() =~= views.take(i as int));
            assert(t.last() == (pair.0@, pair.1@));
            assert(out@ =~= start + field_lines(t));
        }
        i = i + 1;
    }
    proof {
        assert(views.take(fields.len() as int) =~= views);
    }
}

/// Renders an entry as a Markdown document: a level-one heading with the
/// key, a level-two heading with authors and title, then every field.
/// Fails exactly when the entry has no title.
pub fn entry_to_markdown(entry: &BibRecord) -> (r: Result<String, RenderError>)
    ensures
        entry@.title is None <==> r is Err,
        r matches Ok(doc) ==> doc@ == document(entry@, entry@.title->0),
        r matches Err(RenderError::MissingTitle { key }) ==> key@ == entry@.key,
{
    let title = match &entry.title {
        Some(t) => t,
        None => {
            return Err(RenderError::MissingTitle { key: entry.key.clone() });
        },
    };
    let mut md = String::from_str("# ");
    md.append(entry.key.as_str());
    md.append("\n\n");
    md.append("## ");
    let authors = get_author_string(entry);
    md.append(authors.as_str());
    md.append(": ");
    md.append(title.as_str());
    md.append("\n\n");
    push_field_lines(&mut md, &entry.fields);
    Ok(md)
}

} // verus!
