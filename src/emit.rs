//! What a run writes: one file per entry, named after the entry, under the
//! output directory.
use vstd::prelude::*;
use crate::markdown::{document, entry_to_markdown, RenderError};
use crate::laws::lemma_one_block_per_break;
use crate::naive::{breaks_from, raw_blocks, raw_document, raw_entry_stem, raw_entry_to_markdown, raw_stem, split_raw_entries};
use crate::record::{BibRecord, RecordView, strings_view};

verus! {

/// A document to be written, and where.
pub struct OutputFile {
    pub path: String,
    pub contents: String,
}

/// The path of the file with stem `stem` in directory `dir`.
pub open spec fn output_path(dir: Seq<char>, stem: Seq<char>) -> Seq<char> {
    dir + "/"@ + stem + ".md"@
}

/// Path and contents of each file.
pub open spec fn files_view(v: Seq<OutputFile>) -> Seq<(Seq<char>, Seq<char>)> {
    v.map_values(|f: OutputFile| (f.path@, f.contents@))
}

pub open spec fn records_view(v: Seq<BibRecord>) -> Seq<RecordView> {
    v.map_values(|r: BibRecord| r@)
}

/// Every record has a title.
pub open spec fn all_titled(rs: Seq<RecordView>) -> bool {
    forall|i: int| 0 <= i < rs.len() ==> (#[trigger] rs[i]).title is Some
}

/// Record `i` is the first one without a title.
pub open spec fn first_untitled(rs: Seq<RecordView>, i: int) -> bool {
    &&& 0 <= i < rs.len()
    &&& rs[i].title is None
    &&& all_titled(rs.take(i))
}

/// The file of a record that has a title.
pub open spec fn record_file(dir: Seq<char>, r: RecordView) -> (Seq<char>, Seq<char>) {
    (output_path(dir, r.key), document(r, r.title->0))
}

/// The files of a run over records that all have titles, in record order.
pub open spec fn planned_files(dir: Seq<char>, rs: Seq<RecordView>) -> Seq<(Seq<char>, Seq<char>)> {
    rs.map_values(|r: RecordView| record_file(dir, r))
}

/// The files of a run in the naive mode, in block order.
pub open spec fn planned_raw_files(dir: Seq<char>, text: Seq<char>) -> Seq<(Seq<char>, Seq<char>)> {
    raw_blocks(text).map(|i: int, b: Seq<char>| (output_path(dir, raw_stem((i + 1) as nat)), raw_document(b)))
}

/// `<dir>/<stem>.md`.
pub fn output_file_path(dir: &str, stem: &str) -> (r: String)
    ensures
        r@ == output_path(dir@, stem@),
{
    let mut p = String::from_str(dir);
    p.append("/");
    p.append(stem);
    p.append(".md");
    p
}

/// The file of one entry, or the error of an entry without a title.
pub fn output_for(dir: &str, entry: &BibRecord) -> (r: Result<OutputFile, RenderError>)
    ensures
        entry@.title is None <==> r is Err,
        r matches Ok(f) ==> (f.path@, f.contents@) == record_file(dir@, entry@),
        r matches Err(RenderError::MissingTitle { key }) ==> key@ == entry@.key,
{
    let contents = entry_to_markdown(entry)?;
    let path = output_file_path(dir, entry.key.as_str());
    Ok(OutputFile { path, contents })
}

/// The files of a whole run, in entry order; fails, naming the entry, at the
/// first entry without a title.
pub fn plan_outputs(dir: &str, entries: &Vec<BibRecord>) -> (r: Result<Vec<OutputFile>, RenderError>)
    ensures
        r is Ok <==> all_titled(records_view(entries@)),
        r matches Ok(files) ==> files_view(files@) == planned_files(dir@, records_view(entries@)),
        r matches Err(RenderError::MissingTitle { key }) ==> exists|i: int|
            first_untitled(records_view(entries@), i) && key@ == entries@[i]@.key,
{
    let ghost rs = records_view(entries@);
    let mut files: Vec<OutputFile> = Vec::new();
    let mut i: usize = 0;
    while i < entries.len()
        invariant
            i <= entries.len(),
            rs == records_view(entries@),
            all_titled(rs.take(i as int)),
            files_view(files@) == planned_files(dir@, rs.take(i as int)),
        decreases entries.len() - i,
    {
        match output_for(dir, &entries[i]) {
            Ok(f) => {
                proof {
                    assert(files_view(files@.push(f)) =~= files_view(files@).push((f.path@, f.contents@)));
                    assert(planned_files(dir@, rs.take(i + 1)) =~=
                        planned_files(dir@, rs.take(i as int)).push(record_file(dir@, rs[i as int])));
                    assert(all_titled(rs.take(i + 1)));
                }
                files.push(f);
            },
            Err(e) => {
                proof {
                    assert(first_untitled(rs, i as int));
                    assert(!all_titled(rs));
                }
                return Err(e);
            },
        }
        i = i + 1;
    }
    proof {
        assert(rs.take(entries.len() as int) =~= rs);
    }
    Ok(files)
}

/// The files of a run in the naive mode: block `n` (from 1) of `text` goes to
/// `<dir>/entry_<n>.md`.
pub fn plan_raw_outputs(dir: &str, text: &str) -> (r: Vec<OutputFile>)
    ensures
        files_view(r@) == planned_raw_files(dir@, text@),
        r.len() == breaks_from(text@, 0),
{
    let blocks = split_raw_entries(text);
    let ghost bv = strings_view(blocks@);
    let ghost want = planned_raw_files(dir@, text@);
    let mut files: Vec<OutputFile> = Vec::new();
    let mut i: usize = 0;
    while i < blocks.len()
        invariant
            i <= blocks.len(),
            bv == strings_view(blocks@),
            bv == raw_blocks(text@),
            want == planned_raw_files(dir@, text@),
            files_view(files@) == want.take(i as int),
        decreases blocks.len() - i,
    {
        let stem = raw_entry_stem(i + 1);
        let path = output_file_path(dir, stem.as_str());
        let contents = raw_entry_to_markdown(blocks[i].as_str());
        let f = OutputFile { path, contents };
        proof {
            assert(files_view(files@.push(f)) =~= files_view(files@).push((f.path@, f.contents@)));
            assert(want.take(i + 1) =~= want.take(i as int).push(want[i as int]));
        }
        files.push(f);
        i = i + 1;
    }
    proof {
        assert(want.take(blocks.len() as int) =~= want);
        lemma_one_block_per_break(dir@, text@);
    }
    files
}

} // verus!
