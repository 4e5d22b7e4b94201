//! A bibliography entry held as plain values.
use vstd::prelude::*;

verus! {

/// One bibliographic entry: its citation key, its fields in the order they
/// were written in the source (values already formatted verbatim), the verbatim
/// title if the entry has one, and the display names of its authors if the
/// entry has an `author` field.
pub struct BibRecord {
    pub key: String,
    pub title: Option<String>,
    pub authors: Option<Vec<String>>,
    pub fields: Vec<(String, String)>,
}

/// The mathematical value of a [`BibRecord`].
pub ghost struct RecordView {
    pub key: Seq<char>,
    pub title: Option<Seq<char>>,
    pub authors: Option<Seq<Seq<char>>>,
    pub fields: Seq<(Seq<char>, Seq<char>)>,
}

pub open spec fn strings_view(v: Seq<String>) -> Seq<Seq<char>> {
    v.map_values(|s: String| s@)
}

pub open spec fn pairs_view(v: Seq<(String, String)>) -> Seq<(Seq<char>, Seq<char>)> {
    v.map_values(|p: (String, String)| (p.0@, p.1@))
}

impl View for BibRecord {
    type V = RecordView;

    open spec fn view(&self) -> RecordView {
        RecordView {
            key: self.key@,
            title: match self.title {
                Some(t) => Some(t@),
                None => None,
            },
            authors: match self.authors {
                Some(a) => Some(strings_view(a@)),
                None => None,
            },
            fields: pairs_view(self.fields@),
        }
    }
}

impl BibRecord {
    /// Builds a record from its parts.
    pub fn new(
        key: String,
        title: Option<String>,
        authors: Option<Vec<String>>,
        fields: Vec<(String, String)>,
    ) -> (r: BibRecord)
        ensures
            r.key == key,
            r.title == title,
            r.authors == authors,
            r.fields == fields,
    {
        BibRecord { key, title, authors, fields }
    }
}

} // verus!
