//! Properties of a whole run, stated over a model of the output directory as
//! a map from path to contents.
use vstd::prelude::*;
use crate::emit::{all_titled, output_path, planned_files, planned_raw_files, record_file};
use crate::markdown::{author_segment, document, field_lines};
use crate::naive::{breaks_from, raw_blocks, segments_from};
use crate::record::RecordView;

verus! {

/// The directory `d` after writing `files` in order, each write replacing
/// whatever stood at its path.
pub open spec fn apply_writes(
    d: Map<Seq<char>, Seq<char>>,
    files: Seq<(Seq<char>, Seq<char>)>,
) -> Map<Seq<char>, Seq<char>>
    decreases files.len(),
{
    if files.len() == 0 {
        d
    } else {
        apply_writes(d, files.drop_last()).insert(files.last().0, files.last().1)
    }
}

/// Some file of `files` is written to `p`.
pub open spec fn writes_to(files: Seq<(Seq<char>, Seq<char>)>, p: Seq<char>) -> bool {
    exists|i: int| 0 <= i < files.len() && (#[trigger] files[i]).0 == p
}

/// A path that no file is written to keeps what it held.
pub proof fn lemma_untouched(d: Map<Seq<char>, Seq<char>>, files: Seq<(Seq<char>, Seq<char>)>, p: Seq<char>)
    requires
        !writes_to(files, p),
    ensures
        apply_writes(d, files).contains_key(p) == d.contains_key(p),
        apply_writes(d, files)[p] == d[p],
    decreases files.len(),
{
    if files.len() > 0 {
        let init = files.drop_last();
        assert(files[files.len() - 1].0 != p);
        assert(!writes_to(init, p)) by {
            if writes_to(init, p) {
                let i = choose|i: int| 0 <= i < init.len() && (#[trigger] init[i]).0 == p;
                assert(files[i].0 == p);
            }
        }
        lemma_untouched(d, init, p);
    }
}

/// What a path that some file is written to holds afterwards does not depend
/// on what the directory held before.
pub proof fn lemma_written(
    d1: Map<Seq<char>, Seq<char>>,
    d2: Map<Seq<char>, Seq<char>>,
    files: Seq<(Seq<char>, Seq<char>)>,
    p: Seq<char>,
)
    requires
        writes_to(files, p),
    ensures
        apply_writes(d1, files).contains_key(p),
        apply_writes(d2, files).contains_key(p),
        apply_writes(d1, files)[p] == apply_writes(d2, files)[p],
    decreases files.len(),
{
    let init = files.drop_last();
    if files.last().0 != p {
        let i = choose|i: int| 0 <= i < files.len() && (#[trigger] files[i]).0 == p;
        assert(init[i].0 == p);
        lemma_written(d1, d2, init, p);
    }
}

/// Writing the same files twice leaves the directory as writing them once.
pub proof fn lemma_write_twice(d: Map<Seq<char>, Seq<char>>, files: Seq<(Seq<char>, Seq<char>)>)
    ensures
        apply_writes(apply_writes(d, files), files) == apply_writes(d, files),
{
    let once = apply_writes(d, files);
    let twice = apply_writes(once, files);
    assert forall|p: Seq<char>| #[trigger] twice.contains_key(p) == once.contains_key(p)
        && (once.contains_key(p) ==> twice[p] == once[p]) by {
        if writes_to(files, p) {
            lemma_written(once, d, files, p);
        } else {
            lemma_untouched(once, files, p);
        }
    }
    assert(twice =~= once);
}

/// Two runs over the same entries into the same directory leave the same
/// files as one run: every file is rewritten with identical contents.
pub proof fn lemma_rerun_is_idempotent(d: Map<Seq<char>, Seq<char>>, dir: Seq<char>, entries: Seq<RecordView>)
    ensures
        apply_writes(apply_writes(d, planned_files(dir, entries)), planned_files(dir, entries))
            == apply_writes(d, planned_files(dir, entries)),
{
    lemma_write_twice(d, planned_files(dir, entries));
}

/// Different stems give different paths in one directory.
pub proof fn lemma_output_path_injective(dir: Seq<char>, a: Seq<char>, b: Seq<char>)
    requires
        output_path(dir, a) == output_path(dir, b),
    ensures
        a == b,
{
    reveal_strlit("/");
    reveal_strlit(".md");
    let pa = output_path(dir, a);
    assert(pa.len() == dir.len() + 1 + a.len() + 3);
    let start: int = dir.len() as int + 1;
    assert(b.len() == a.len());
    assert(a =~= pa.subrange(start, start + a.len()));
    assert(b =~= pa.subrange(start, start + b.len()));
}

/// The path that the run writes for an entry's key is written by that entry
/// alone, and a path of a stem that is no entry's key is not written.
proof fn lemma_writes_to_stem(dir: Seq<char>, entries: Seq<RecordView>, stem: Seq<char>)
    ensures
        writes_to(planned_files(dir, entries), output_path(dir, stem))
            <==> exists|i: int| 0 <= i < entries.len() && (#[trigger] entries[i]).key == stem,
{
    let files = planned_files(dir, entries);
    let p = output_path(dir, stem);
    if writes_to(files, p) {
        let i = choose|i: int| 0 <= i < files.len() && (#[trigger] files[i]).0 == p;
        assert(files[i] == record_file(dir, entries[i]));
        lemma_output_path_injective(dir, entries[i].key, stem);
    }
    if exists|i: int| 0 <= i < entries.len() && (#[trigger] entries[i]).key == stem {
        let i = choose|i: int| 0 <= i < entries.len() && (#[trigger] entries[i]).key == stem;
        assert(files[i] == record_file(dir, entries[i]));
    }
}

/// A run over entries with distinct keys, all with titles, into an empty
/// directory leaves exactly one file per entry, at `<dir>/<key>.md`, and no
/// other file.
pub proof fn lemma_one_file_per_entry(dir: Seq<char>, entries: Seq<RecordView>)
    requires
        all_titled(entries),
        forall|i: int, j: int|
            0 <= i < entries.len() && 0 <= j < entries.len() && i != j
                ==> (#[trigger] entries[i]).key != (#[trigger] entries[j]).key,
    ensures
        planned_files(dir, entries).len() == entries.len(),
        apply_writes(Map::empty(), planned_files(dir, entries)).dom()
            == entries.map_values(|r: RecordView| output_path(dir, r.key)).to_set(),
        apply_writes(Map::empty(), planned_files(dir, entries)).dom().len() == entries.len(),
{
    let files = planned_files(dir, entries);
    let paths = entries.map_values(|r: RecordView| output_path(dir, r.key));
    let out = apply_writes(Map::<Seq<char>, Seq<char>>::empty(), files);
    assert forall|p: Seq<char>| #[trigger] out.contains_key(p) == paths.contains(p) by {
        if writes_to(files, p) {
            lemma_written(Map::empty(), Map::empty(), files, p);
            let i = choose|i: int| 0 <= i < files.len() && (#[trigger] files[i]).0 == p;
            assert(files[i] == record_file(dir, entries[i]));
            assert(paths[i] == p);
        } else {
            lemma_untouched(Map::empty(), files, p);
            if paths.contains(p) {
                let i = choose|i: int| 0 <= i < paths.len() && paths[i] == p;
                assert(files[i] == record_file(dir, entries[i]));
            }
        }
    }
    assert(out.dom() =~= paths.to_set());
    assert forall|i: int, j: int| 0 <= i < paths.len() && 0 <= j < paths.len() && i != j
        implies paths[i] != paths[j] by {
        if paths[i] == paths[j] {
            lemma_output_path_injective(dir, entries[i].key, entries[j].key);
        }
    }
    assert(paths.no_duplicates());
    paths.unique_seq_to_set();
}

/// A file in the output directory whose stem is no entry's key keeps its
/// contents through a run.
pub proof fn lemma_unrelated_file_kept(
    d: Map<Seq<char>, Seq<char>>,
    dir: Seq<char>,
    entries: Seq<RecordView>,
    stem: Seq<char>,
)
    requires
        forall|i: int| 0 <= i < entries.len() ==> (#[trigger] entries[i]).key != stem,
    ensures
        apply_writes(d, planned_files(dir, entries)).contains_key(output_path(dir, stem))
            == d.contains_key(output_path(dir, stem)),
        apply_writes(d, planned_files(dir, entries))[output_path(dir, stem)] == d[output_path(dir, stem)],
{
    lemma_writes_to_stem(dir, entries, stem);
    lemma_untouched(d, planned_files(dir, entries), output_path(dir, stem));
}

/// An entry without authors gets `Unknown` as the author segment of its heading.
pub proof fn lemma_missing_author_reads_unknown(entry: RecordView, title: Seq<char>)
    requires
        entry.authors is None,
    ensures
        author_segment(entry.authors) == "Unknown"@,
        document(entry, title) == "# "@ + entry.key + "\n\n"@ + "## "@ + "Unknown"@ + ": "@ + title
            + "\n\n"@ + field_lines(entry.fields),
{
}

proof fn lemma_segment_count(s: Seq<char>, i: int, cur: Seq<char>)
    ensures
        segments_from(s, i, cur).len() == breaks_from(s, i) + 1,
    decreases s.len() - i,
{
    if i >= s.len() {
    } else if crate::naive::is_break(s, i) {
        lemma_segment_count(s, i + 2, Seq::empty());
    } else {
        lemma_segment_count(s, i + 1, cur.push(s[i]));
    }
}

/// The naive mode yields one block, and writes one file, for every newline
/// directly followed by `@`, wherever it stands, also inside a field value.
pub proof fn lemma_one_block_per_break(dir: Seq<char>, text: Seq<char>)
    ensures
        raw_blocks(text).len() == breaks_from(text, 0),
        planned_raw_files(dir, text).len() == breaks_from(text, 0),
{
    lemma_segment_count(text, 0, Seq::empty());
}

} // verus!
