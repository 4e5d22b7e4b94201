use bib2md::emit::{output_file_path, output_for, plan_outputs, plan_raw_outputs, OutputFile};
use bib2md::markdown::{entry_to_markdown, format_authors, get_author_string, RenderError};
use bib2md::naive::{raw_entry_stem, raw_entry_to_markdown, split_raw_entries, split_segments};
use bib2md::record::BibRecord;
use bib2md::structured::parse_records;
use bib2md::text::{join_with, push_decimal};

fn s(x: &str) -> String {
    x.to_string()
}

fn record(key: &str, title: Option<&str>, authors: Option<Vec<&str>>, fields: Vec<(&str, &str)>) -> BibRecord {
    BibRecord::new(
        s(key),
        title.map(s),
        authors.map(|a| a.into_iter().map(s).collect()),
        fields.into_iter().map(|(k, v)| (s(k), s(v))).collect(),
    )
}

fn paths(files: &[OutputFile]) -> Vec<String> {
    files.iter().map(|f| f.path.clone()).collect()
}

#[test]
fn heading_strips_protecting_braces() {
    let recs = parse_records("@article{doe, author = {Jane Doe}, title = {{A Title}}}").ok().unwrap();
    assert_eq!(recs.len(), 1);
    let doc = entry_to_markdown(&recs[0]).ok().unwrap();
    let lines: Vec<&str> = doc.lines().filter(|l| !l.is_empty()).collect();
    assert_eq!(lines[0], "# doe");
    assert_eq!(lines[1], "## Jane Doe: A Title");
}

#[test]
fn full_document_lists_every_field_in_source_order() {
    let recs = parse_records("@book{k1, title = {{A Title}}, author = {Jane Doe}, year = {2001}}").ok().unwrap();
    let doc = entry_to_markdown(&recs[0]).ok().unwrap();
    assert_eq!(
        doc,
        "# k1\n\n## Jane Doe: A Title\n\n- title: A Title\n- author: Jane Doe\n- year: 2001\n"
    );
}

#[test]
fn person_display_names_are_joined_with_and() {
    let recs = parse_records("@article{k, author = {Doe, Jane and John Smith}, title = {T}}").ok().unwrap();
    assert_eq!(get_author_string(&recs[0]), "Jane Doe and John Smith");
}

#[test]
fn missing_author_reads_unknown() {
    let recs = parse_records("@misc{anon, title = {Nameless}}").ok().unwrap();
    assert!(recs[0].authors.is_none());
    let doc = entry_to_markdown(&recs[0]).ok().unwrap();
    assert_eq!(doc, "# anon\n\n## Unknown: Nameless\n\n- title: Nameless\n");
}

#[test]
fn missing_title_fails_the_run() {
    let recs = parse_records("@misc{a, title = {One}}\n@misc{b, author = {X Y}}\n@misc{c, note = {z}}").ok().unwrap();
    assert_eq!(recs.len(), 3);
    match plan_outputs("out", &recs) {
        Err(RenderError::MissingTitle { key }) => assert_eq!(key, "b"),
        Ok(_) => panic!("a run over an entry without title must fail"),
    }
    assert!(matches!(entry_to_markdown(&recs[2]), Err(RenderError::MissingTitle { .. })));
}

#[test]
fn invalid_input_is_a_parse_failure() {
    assert!(parse_records("@article{broken, title = {Unclosed").is_err());
}

#[test]
fn one_file_per_entry_named_after_its_key() {
    let src = "@book{alpha, title = {A}}\n@article{beta, title = {B}, author = {Ann Lee}}\n";
    let recs = parse_records(src).ok().unwrap();
    let files = plan_outputs("out", &recs).ok().unwrap();
    assert_eq!(paths(&files), vec![s("out/alpha.md"), s("out/beta.md")]);
}

#[test]
fn rerun_produces_identical_files() {
    let src = "@book{alpha, title = {A}}\n@article{beta, title = {B}, author = {Ann Lee}}\n";
    let first = plan_outputs("out", &parse_records(src).ok().unwrap()).ok().unwrap();
    let second = plan_outputs("out", &parse_records(src).ok().unwrap()).ok().unwrap();
    assert_eq!(first.len(), second.len());
    for (a, b) in first.iter().zip(second.iter()) {
        assert_eq!(a.path, b.path);
        assert_eq!(a.contents, b.contents);
    }
}

#[test]
fn unrelated_file_is_not_a_target() {
    let recs = parse_records("@book{alpha, title = {A}}\n@book{beta, title = {B}}").ok().unwrap();
    let files = plan_outputs("out", &recs).ok().unwrap();
    assert!(!paths(&files).contains(&s("out/existing.md")));
}

#[test]
fn duplicate_keys_are_rejected_by_the_parser() {
    assert!(parse_records("@book{same, title = {A}}\n@book{same, title = {B}}").is_err());
}

#[test]
fn output_for_builds_path_and_document() {
    let r = record("k", Some("T"), Some(vec!["A B"]), vec![("title", "T")]);
    let f = output_for("dir/sub", &r).ok().unwrap();
    assert_eq!(f.path, "dir/sub/k.md");
    assert_eq!(f.contents, "# k\n\n## A B: T\n\n- title: T\n");
}

#[test]
fn empty_author_list_gives_empty_segment() {
    let r = record("k", Some("T"), Some(vec![]), vec![]);
    assert_eq!(entry_to_markdown(&r).ok().unwrap(), "# k\n\n## : T\n\n");
}

#[test]
fn format_authors_joins_in_order() {
    assert_eq!(format_authors(&vec![s("A"), s("B"), s("C")]), "A and B and C");
    assert_eq!(format_authors(&vec![s("Solo")]), "Solo");
    assert_eq!(format_authors(&vec![]), "");
}

#[test]
fn join_with_custom_separator() {
    assert_eq!(join_with(&vec![s("x"), s("y")], ", "), "x, y");
}

#[test]
fn decimal_notation() {
    let mut out = s("n=");
    push_decimal(&mut out, 0);
    assert_eq!(out, "n=0");
    let mut out = String::new();
    push_decimal(&mut out, 1207);
    assert_eq!(out, "1207");
}

#[test]
fn output_file_path_joins_dir_and_stem() {
    assert_eq!(output_file_path("o", "x"), "o/x.md");
}

#[test]
fn naive_split_drops_the_header() {
    let text = "% header\n@book{a,\n title={A}}\n@misc{b}";
    assert_eq!(split_segments(text), vec![s("% header"), s("book{a,\n title={A}}"), s("misc{b}")]);
    assert_eq!(split_raw_entries(text), vec![s("@book{a,\n title={A}}"), s("@misc{b}")]);
}

#[test]
fn naive_split_of_text_without_entries() {
    assert_eq!(split_segments(""), vec![s("")]);
    assert!(split_raw_entries("no entries here").is_empty());
}

#[test]
fn naive_split_cuts_inside_a_field_value() {
    let text = "% header\n@article{a,\n abstract = {first line\n@ second line},\n title = {T}}\n@book{b, title = {B}}";
    let files = plan_raw_outputs("out", text);
    assert_eq!(paths(&files), vec![s("out/entry_1.md"), s("out/entry_2.md"), s("out/entry_3.md")]);
}

#[test]
fn raw_document_wraps_block_in_fence() {
    assert_eq!(raw_entry_to_markdown("@misc{b}"), "# BibTeX Entry\n\n```bibtex\n@misc{b}\n```\n");
    let files = plan_raw_outputs("d", "x\n@misc{b}");
    assert_eq!(files[0].contents, "# BibTeX Entry\n\n```bibtex\n@misc{b}\n```\n");
}

#[test]
fn raw_stems_count_from_one() {
    assert_eq!(raw_entry_stem(1), "entry_1");
    assert_eq!(raw_entry_stem(42), "entry_42");
}

#[test]
fn naive_split_treats_a_leading_entry_as_header() {
    let blocks = split_raw_entries("@misc{a}\n@misc{b}");
    assert_eq!(blocks, vec![s("@misc{b}")]);
}

#[test]
fn field_names_are_lowered_and_listed_once() {
    let recs = parse_records("@misc{k, YEAR = {1999}, Title = {T}, note = {a}, NOTE = {b}}").ok().unwrap();
    let doc = entry_to_markdown(&recs[0]).ok().unwrap();
    assert_eq!(doc, "# k\n\n## Unknown: T\n\n- year: 1999\n- title: T\n- note: b\n");
}

#[test]
fn self_crossref_is_rejected() {
    assert!(parse_records("@book{a, title = {T}, crossref = {a}}").is_err());
}

#[test]
fn mutual_crossref_is_rejected() {
    let src = "@book{a, title = {T}, CrossRef = {b}}\n@book{b, title = {U}, crossref = {a}}";
    assert!(parse_records(src).is_err());
}

#[test]
fn xdata_is_rejected() {
    assert!(parse_records("@xdata{x, publisher = {P}}\n@book{a, title = {T}, xdata = {x}}").is_err());
}

#[test]
fn empty_bibliography_has_no_records() {
    assert_eq!(parse_records("").ok().unwrap().len(), 0);
}

#[test]
fn abbreviations_are_expanded() {
    let recs = parse_records("@string{pub = \"Press\"}\n@book{k, title = {T}, publisher = pub}").ok().unwrap();
    assert_eq!(recs.len(), 1);
    assert_eq!(entry_to_markdown(&recs[0]).ok().unwrap(), "# k\n\n## Unknown: T\n\n- title: T\n- publisher: Press\n");
}

#[test]
fn self_defined_abbreviation_is_rejected() {
    assert!(parse_records("@string{x = x}\n@book{k, title = x}").is_err());
}

#[test]
fn chained_abbreviation_is_rejected() {
    assert!(parse_records("@string{a = \"A\"}\n@string{b = a # \"B\"}\n@book{k, title = b}").is_err());
}
