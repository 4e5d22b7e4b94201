//! The opt-in naive parsing strategy: the text is cut at every newline that
//! is directly followed by `@`, with no regard for braces or quotes.
use vstd::prelude::*;
use crate::record::strings_view;
use crate::text::{decimal, push_char, push_decimal};

verus! {

/// Whether a newline followed by `@` starts at position `i` of `s`.
pub open spec fn is_break(s: Seq<char>, i: int) -> bool {
    0 <= i && i + 1 < s.len() && s[i] == '\n' && s[i + 1] == '@'
}

/// The segments of `s` from position `i` on, where `cur` is the part of the
/// current segment that was read before `i`.
pub open spec fn segments_from(s: Seq<char>, i: int, cur: Seq<char>) -> Seq<Seq<char>>
    decreases s.len() - i,
{
    if i >= s.len() {
        seq![cur]
    } else if is_break(s, i) {
        seq![cur] + segments_from(s, i + 2, Seq::empty())
    } else {
        segments_from(s, i + 1, cur.push(s[i]))
    }
}

/// The pieces of `s` between the non-overlapping occurrences of `"\n@"`,
/// read from left to right; the first piece is what precedes the first entry.
pub open spec fn segments(s: Seq<char>) -> Seq<Seq<char>> {
    segments_from(s, 0, Seq::empty())
}

/// The raw entry blocks of `s`: every segment but the first, with its `@`
/// put back in front.
pub open spec fn raw_blocks(s: Seq<char>) -> Seq<Seq<char>> {
    segments(s).drop_first().map_values(|b: Seq<char>| seq!['@'] + b)
}

/// The number of breaks in `s` from position `i` on.
pub open spec fn breaks_from(s: Seq<char>, i: int) -> nat
    decreases s.len() - i,
{
    if i >= s.len() {
        0
    } else if is_break(s, i) {
        1 + breaks_from(s, i + 2)
    } else {
        breaks_from(s, i + 1)
    }
}

/// The document of a raw block: the block inside a fenced `bibtex` code block.
pub open spec fn raw_document(block: Seq<char>) -> Seq<char> {
    "# BibTeX Entry\n\n```bibtex\n"@ + block + "\n```\n"@
}

/// The file stem of the raw block with 1-based position `n`.
pub open spec fn raw_stem(n: nat) -> Seq<char> {
    "entry_"@ + decimal(n)
}

/// There is always at least one segment.
pub proof fn lemma_segments_nonempty(s: Seq<char>, i: int, cur: Seq<char>)
    ensures
        segments_from(s, i, cur).len() >= 1,
    decreases s.len() - i,
{
    if i >= s.len() {
    } else if is_break(s, i) {
        lemma_segments_nonempty(s, i + 2, Seq::empty());
    } else {
        lemma_segments_nonempty(s, i + 1, cur.push(s[i]));
    }
}

/// The characters of `s`, in order.
fn chars_of(s: &str) -> (r: Vec<char>)
    ensures
        r@ == s@,
{
    let mut out: Vec<char> = Vec::new();
    for c in it: s.chars()
        invariant
            out@ == it.seq().take(it.index() as int),
    {
        out.push(c);
    }
    out
}

/// Cuts `text` at every newline directly followed by `@`.
pub fn split_segments(text: &str) -> (r: Vec<String>)
    ensures
        strings_view(r@) == segments(text@),
{
    let cs = chars_of(text);
    let ghost s = text@;
    let mut done: Vec<String> = Vec::new();
    let mut cur = String::new();
    let mut i: usize = 0;
    while i < cs.len()
        invariant
            cs@ == s,
            i <= cs.len() + 1,
            strings_view(done@) + segments_from(s, i as int, cur@) == segments(s),
        decreases cs.len() + 1 - i,
    {
        if i + 1 < cs.len() && cs[i] == '\n' && cs[i + 1] == '@' {
            proof {
                assert(strings_view(done@.push(cur)) =~= strings_view(done@) + seq![cur@]);
            }
            done.push(cur);
            cur = String::new();
            i = i + 2;
        } else {
            push_char(&mut cur, cs[i]);
            i = i + 1;
        }
    }
    proof {
        assert(strings_view(done@.push(cur)) =~= strings_view(done@) + seq![cur@]);
    }
    done.push(cur);
    done
}

/// The raw entry blocks of `text`, each starting with `@`.
pub fn split_raw_entries(text: &str) -> (r: Vec<String>)
    ensures
        strings_view(r@) == raw_blocks(text@),
{
    let segs = split_segments(text);
    let ghost sv = strings_view(segs@);
    let mut out: Vec<String> = Vec::new();
    let mut i: usize = 1;
    proof {
        lemma_segments_nonempty(text@, 0, Seq::empty());
    }
    let ghost blocks = sv.drop_first().map_values(|b: Seq<char>| seq!['@'] + b);
    while i < segs.len()
        invariant
            1 <= i <= segs.len(),
            sv == strings_view(segs@),
            blocks == sv.drop_first().map_values(|b: Seq<char>| seq!['@'] + b),
            strings_view(out@) == blocks.take(i - 1),
        decreases segs.len() - i,
    {
        let mut block = String::from_str("@");
        block.append(segs[i].as_str());
        proof {
            reveal_strlit("@");
            assert(block@ =~= seq!['@'] + sv[i as int]);
            assert(blocks[i - 1] == seq!['@'] + sv[i as int]);
            assert(strings_view(out@.push(block)) =~= strings_view(out@).push(block@));
            assert(blocks.take(i - 1).push(blocks[i - 1]) =~= blocks.take(i as int));
        }
        out.push(block);
        i = i + 1;
    }
    proof {
        assert(blocks.take(i - 1) =~= raw_blocks(text@));
    }
    out
}

/// Wraps a raw block in a fenced `bibtex` code block under a fixed heading.
pub fn raw_entry_to_markdown(block: &str) -> (r: String)
    ensures
        r@ == raw_document(block@),
{
    let mut md = String::from_str("# BibTeX Entry\n\n```bibtex\n");
    md.append(block);
    md.append("\n```\n");
    md
}

/// The file stem `entry_<n>` of the raw block with 1-based position `n`.
pub fn raw_entry_stem(n: usize) -> (r: String)
    ensures
        r@ == raw_stem(n as nat),
{
    let mut stem = String::from_str("entry_");
    push_decimal(&mut stem, n);
    stem
}

} // verus!
