//! The structured parsing strategy: the bibliography is parsed by the
//! `biblatex` crate and each of its entries is turned into a [`BibRecord`].
use vstd::prelude::*;
use biblatex::{Bibliography, Chunk, ChunksExt, Entry, ParseError, Person, RawBibliography, RawChunk, Spanned};
use crate::record::{BibRecord, strings_view};

verus! {

#[verifier::external_type_specification]
#[verifier::external_body]
pub struct ExEntry(Entry);

#[verifier::external_type_specification]
#[verifier::external_body]
pub struct ExParseError(ParseError);

#[verifier::external_type_specification]
#[verifier::external_body]
pub struct ExPerson(Person);

#[verifier::external_type_specification]
#[verifier::external_body]
pub struct ExChunk(Chunk);

#[verifier::external_type_specification]
#[verifier::external_body]
#[verifier::reject_recursive_types(T)]
pub struct ExSpanned<T>(Spanned<T>);

/// The source text is not a syntactically valid bibliography, one of its
/// entries carries a cross-reference (`crossref` or `xdata`), or one of its
/// abbreviations is defined through another; this library resolves neither.
pub struct ParseFailure;

/// When `src` is syntactically valid: the field names of each entry as written,
/// in source order, and for each `@string` abbreviation, which parts of its
/// value name another abbreviation.
pub uninterp spec fn raw_shape_of(src: Seq<char>) -> Option<(Seq<Seq<Seq<char>>>, Seq<Seq<bool>>)>;

/// The field names of each entry of a syntactically valid `src`.
pub open spec fn raw_field_names_of(src: Seq<char>) -> Seq<Seq<Seq<char>>> {
    let (names, _refs) = raw_shape_of(src)->0;
    names
}

/// For each abbreviation of a syntactically valid `src`, which parts of its
/// value name another abbreviation.
pub open spec fn raw_abbreviation_refs_of(src: Seq<char>) -> Seq<Seq<bool>> {
    let (_names, refs) = raw_shape_of(src)->0;
    refs
}

/// Some abbreviation's value names another abbreviation.
pub open spec fn has_chained_abbreviation(refs: Seq<Seq<bool>>) -> bool {
    exists|i: int, j: int| 0 <= i < refs.len() && 0 <= j < refs[i].len() && #[trigger] refs[i][j]
}

/// Whether the full parser accepts `src`.
pub uninterp spec fn bib_accepts(src: Seq<char>) -> bool;

/// `c` with an ASCII upper-case letter turned into lower case.
pub open spec fn ascii_lower_char(c: char) -> char {
    if 'A' <= c && c <= 'Z' {
        ((c as u32) + 32) as u32 as char
    } else {
        c
    }
}

pub open spec fn ascii_lower(s: Seq<char>) -> Seq<char> {
    s.map_values(|c: char| ascii_lower_char(c))
}

/// Some field name, in any ASCII case, is `crossref` or `xdata`.
pub open spec fn has_cross_link(names: Seq<Seq<Seq<char>>>) -> bool {
    exists|i: int, j: int|
        0 <= i < names.len() && 0 <= j < names[i].len() && is_link_name(#[trigger] names[i][j])
}

pub open spec fn is_link_name(name: Seq<char>) -> bool {
    ascii_lower(name) == "crossref"@ || ascii_lower(name) == "xdata"@
}

/// The text is free of what the full parser would resolve without end:
/// cross-references between entries and abbreviations defined by others.
pub open spec fn resolvable(src: Seq<char>) -> bool {
    &&& raw_shape_of(src) is Some
    &&& !has_cross_link(raw_field_names_of(src))
    &&& !has_chained_abbreviation(raw_abbreviation_refs_of(src))
}

/// The text is accepted: syntactically valid, resolvable, and accepted by the
/// full parser.
pub open spec fn accepted(src: Seq<char>) -> bool {
    resolvable(src) && bib_accepts(src)
}

/// The number of entries of an accepted text.
pub open spec fn entry_count(src: Seq<char>) -> nat {
    raw_field_names_of(src).len()
}

pub open spec fn flags_view(v: Seq<Vec<bool>>) -> Seq<Seq<bool>> {
    v.map_values(|e: Vec<bool>| e@)
}

pub open spec fn nested_view(v: Seq<Vec<String>>) -> Seq<Seq<Seq<char>>> {
    v.map_values(|e: Vec<String>| strings_view(e@))
}

/// Relies on `RawBibliography::parse`, which resolves nothing: the field names
/// of each entry as written, in source order, and for each abbreviation whether
/// each part of its value is itself an abbreviation.
#[verifier::external_body]
fn raw_shape(src: &str) -> (r: Option<(Vec<Vec<String>>, Vec<Vec<bool>>)>)
    ensures
        r is Some <==> raw_shape_of(src@) is Some,
        r matches Some(v) ==> raw_shape_of(src@)->0 == (nested_view(v.0@), flags_view(v.1@)),
{
    RawBibliography::parse(src).ok().map(|b| {
        let names = b.entries.iter().map(|e| e.v.fields.iter().map(|f| f.key.v.to_string()).collect()).collect();
        let refs = b.abbreviations.iter().map(|p| p.value.v.iter().map(|c| match c.v {
            RawChunk::Abbreviation(_) => true,
            RawChunk::Normal(_) => false,
        }).collect()).collect();
        (names, refs)
    })
}

/// Relies on `Bibliography::parse` and `Bibliography::into_vec`: the entries in
/// source order, one for each raw entry. On resolvable text the parser follows
/// no chain of references, so it returns.
#[verifier::external_body]
fn parse_entries(src: &str) -> (r: Result<Vec<Entry>, ParseError>)
    requires
        resolvable(src@),
    ensures
        r is Ok <==> bib_accepts(src@),
        r matches Ok(v) ==> v.len() == raw_field_names_of(src@).len(),
{
    Bibliography::parse(src).map(|b| b.into_vec())
}

/// Relies on `str::to_ascii_lowercase`: ASCII letters lowered, all else kept.
#[verifier::external_body]
fn to_ascii_lower(s: &str) -> (r: String)
    ensures
        r@ == ascii_lower(s@),
{
    s.to_ascii_lowercase()
}

/// Relies on the public field `Entry::key`: the citation key.
#[verifier::external_body]
fn entry_key(e: &Entry) -> String {
    e.key.clone()
}

/// Relies on `Entry::get`: the chunks of the field named `name`, if present.
#[verifier::external_body]
fn entry_get<'a>(e: &'a Entry, name: &str) -> Option<&'a [Spanned<Chunk>]> {
    e.get(name)
}

/// Relies on `Entry::title`: the chunks of the `title` field, if present.
#[verifier::external_body]
fn entry_title<'a>(e: &'a Entry) -> Option<&'a [Spanned<Chunk>]> {
    e.title().ok()
}

/// Relies on `Entry::author`: the persons of the `author` field, if present.
#[verifier::external_body]
fn entry_authors(e: &Entry) -> Option<Vec<Person>> {
    e.author().ok()
}

/// Relies on `ChunksExt::format_verbatim`: the chunks as plain text.
#[verifier::external_body]
fn format_verbatim(c: &[Spanned<Chunk>]) -> String {
    c.format_verbatim()
}

/// Relies on `Person`'s `Display`: the display name of a person.
#[verifier::external_body]
fn person_name(p: &Person) -> String {
    p.to_string()
}

/// Whether the name is `crossref` or `xdata` in any ASCII case.
fn is_link(name: &String) -> (r: bool)
    ensures
        r == is_link_name(name@),
{
    let lower = to_ascii_lower(name.as_str());
    let crossref = String::from_str("crossref");
    let xdata = String::from_str("xdata");
    lower == crossref || lower == xdata
}

/// Whether some entry carries a cross-reference field.
fn any_cross_link(names: &Vec<Vec<String>>) -> (r: bool)
    ensures
        r == has_cross_link(nested_view(names@)),
{
    let ghost nv = nested_view(names@);
    let mut i: usize = 0;
    while i < names.len()
        invariant
            i <= names.len(),
            nv == nested_view(names@),
            forall|a: int, b: int| 0 <= a < i && 0 <= b < nv[a].len() ==> !is_link_name(#[trigger] nv[a][b]),
        decreases names.len() - i,
    {
        let fields = &names[i];
        let mut j: usize = 0;
        while j < fields.len()
            invariant
                i < names.len(),
                fields == names@[i as int],
                j <= fields.len(),
                nv == nested_view(names@),
                forall|a: int, b: int| 0 <= a < i && 0 <= b < nv[a].len() ==> !is_link_name(#[trigger] nv[a][b]),
                forall|b: int| 0 <= b < j ==> !is_link_name(#[trigger] nv[i as int][b]),
            decreases fields.len() - j,
        {
            if is_link(&fields[j]) {
                assert(is_link_name(nv[i as int][j as int]));
                return true;
            }
            j = j + 1;
        }
        i = i + 1;
    }
    false
}

/// Whether some abbreviation's value names another abbreviation.
fn any_chained(refs: &Vec<Vec<bool>>) -> (r: bool)
    ensures
        r == has_chained_abbreviation(flags_view(refs@)),
{
    let ghost fv = flags_view(refs@);
    let mut i: usize = 0;
    while i < refs.len()
        invariant
            i <= refs.len(),
            fv == flags_view(refs@),
            forall|a: int, b: int| 0 <= a < i && 0 <= b < fv[a].len() ==> !(#[trigger] fv[a][b]),
        decreases refs.len() - i,
    {
        let parts = &refs[i];
        let mut j: usize = 0;
        while j < parts.len()
            invariant
                i < refs.len(),
                parts == refs@[i as int],
                j <= parts.len(),
                fv == flags_view(refs@),
                forall|a: int, b: int| 0 <= a < i && 0 <= b < fv[a].len() ==> !(#[trigger] fv[a][b]),
                forall|b: int| 0 <= b < j ==> !(#[trigger] fv[i as int][b]),
            decreases parts.len() - j,
        {
            if parts[j] {
                assert(fv[i as int][j as int]);
                return true;
            }
            j = j + 1;
        }
        i = i + 1;
    }
    false
}

/// Whether `seen` holds `name`.
fn contains_name(seen: &Vec<String>, name: &String) -> (r: bool)
    ensures
        r == strings_view(seen@).contains(name@),
{
    let mut i: usize = 0;
    while i < seen.len()
        invariant
            i <= seen.len(),
            forall|k: int| 0 <= k < i ==> seen@[k]@ != name@,
        decreases seen.len() - i,
    {
        if seen[i] == *name {
            assert(strings_view(seen@)[i as int] == name@);
            return true;
        }
        i = i + 1;
    }
    proof {
        if strings_view(seen@).contains(name@) {
            let k = choose|k: int| 0 <= k < seen.len() && strings_view(seen@)[k] == name@;
            assert(seen@[k]@ == name@);
        }
    }
    false
}

/// The display names of `persons`, in order.
fn person_names(persons: &Vec<Person>) -> (r: Vec<String>)
    ensures
        r.len() == persons.len(),
{
    let mut names: Vec<String> = Vec::new();
    let mut i: usize = 0;
    while i < persons.len()
        invariant
            i <= persons.len(),
            names.len() == i,
        decreases persons.len() - i,
    {
        names.push(person_name(&persons[i]));
        i = i + 1;
    }
    names
}

/// The plain-value record of a parsed entry whose fields were written with the
/// names `written`: its key, its verbatim title, its authors' display names, and
/// its fields in the order they were written, each once, under its lower-case
/// name and in verbatim form.
fn record_of_entry(e: &Entry, written: &Vec<String>) -> (r: BibRecord)
    ensures
        r.fields.len() <= written.len(),
{
    let mut seen: Vec<String> = Vec::new();
    let mut fields: Vec<(String, String)> = Vec::new();
    let mut i: usize = 0;
    while i < written.len()
        invariant
            i <= written.len(),
            fields.len() <= i,
        decreases written.len() - i,
    {
        let name = to_ascii_lower(written[i].as_str());
        if !contains_name(&seen, &name) {
            seen.push(name.clone());
            match entry_get(e, name.as_str()) {
                Some(chunks) => {
                    let value = format_verbatim(chunks);
                    fields.push((name, value));
                },
                None => {},
            }
        }
        i = i + 1;
    }
    let title = match entry_title(e) {
        Some(t) => Some(format_verbatim(t)),
        None => None,
    };
    let authors = match entry_authors(e) {
        Some(ps) => Some(person_names(&ps)),
        None => None,
    };
    BibRecord::new(entry_key(e), title, authors, fields)
}

/// Parses a bibliography and returns its entries as records, in source order.
/// Fails when the text is not a valid bibliography, some entry carries a
/// `crossref` or `xdata` field, or an abbreviation is defined through another;
/// then nothing is rendered.
pub fn parse_records(src: &str) -> (r: Result<Vec<BibRecord>, ParseFailure>)
    ensures
        r is Ok <==> accepted(src@),
        r matches Ok(rs) ==> rs.len() == entry_count(src@),
{
    let (names, refs) = match raw_shape(src) {
        Some(shape) => shape,
        None => {
            return Err(ParseFailure);
        },
    };
    if any_cross_link(&names) || any_chained(&refs) {
        return Err(ParseFailure);
    }
    let entries = match parse_entries(src) {
        Ok(v) => v,
        Err(_) => {
            return Err(ParseFailure);
        },
    };
    let mut records: Vec<BibRecord> = Vec::new();
    let mut i: usize = 0;
    while i < entries.len()
        invariant
            i <= entries.len(),
            entries.len() == names.len(),
            records.len() == i,
        decreases entries.len() - i,
    {
        records.push(record_of_entry(&entries[i], &names[i]));
        i = i + 1;
    }
    Ok(records)
}

} // verus!
