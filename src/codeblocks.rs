//! Finding the Lua code of a message: fenced Lua blocks are passed over,
//! the remaining lines are classified and labelled.
use vstd::prelude::*;
use crate::recognizers::{classification, RecognizerSet};
use crate::segmenter::{label_lines, scan_lines, scanned, segmentation, Classification};

verus! {

/// Each line with its class.
pub open spec fn classified(lines: Seq<String>) -> Seq<(String, Classification)> {
    lines.map_values(|l: String| (l, classification(l@)))
}

/// The labelled lines of a message, or nothing when it holds no code.
pub open spec fn codeblocks(lines: Seq<String>) -> Seq<(String, bool)> {
    segmentation(classified(scanned(lines)))
}

/// The symbol shown beside a line when reporting its class: a green tick
/// for code, a yellow question mark for an ambiguous line, a red cross
/// otherwise.
pub open spec fn status_symbol(ok: bool, unsure: bool) -> Seq<char> {
    if ok {
        "\x1b[32m✔\x1b[m"@
    } else if unsure {
        "\x1b[33m?\x1b[m"@
    } else {
        "\x1b[31m✘\x1b[m"@
    }
}

/// The report symbol for a line that is code (`ok`) or ambiguous (`unsure`).
pub fn get_status_symbol(ok: bool, unsure: bool) -> (r: &'static str)
    ensures
        r@ == status_symbol(ok, unsure),
{
    if ok {
        "\x1b[32m✔\x1b[m"
    } else if unsure {
        "\x1b[33m?\x1b[m"
    } else {
        "\x1b[31m✘\x1b[m"
    }
}

/// The lines of a message that reach classification, each with its class.
pub fn classify_lines(set: &RecognizerSet, lines: &Vec<String>) -> (r: Vec<(String, Classification)>)
    requires
        set.wf(),
    ensures
        r@ == classified(scanned(lines@)),
{
    let kept = scan_lines(lines);
    let mut out: Vec<(String, Classification)> = Vec::new();
    for i in 0..kept.len()
        invariant
            set.wf(),
            kept@ == scanned(lines@),
            out@ == classified(kept@.take(i as int)),
    {
        let class = set.classify(kept[i].as_str());
        out.push((kept[i].clone(), class));
        assert(classified(kept@.take(i + 1)) =~= classified(kept@.take(i as int)).push(
            (kept@[i as int], class),
        ));
    }
    assert(kept@.take(kept@.len() as int) =~= kept@);
    out
}

/// Labels the lines of a message: lines inside a fenced Lua block and fence
/// markers are left out; the others come back in order, each labelled as
/// code or not, or nothing comes back when no line is code.
pub fn extract_codeblocks(set: &RecognizerSet, lines: Vec<String>) -> (r: Vec<(String, bool)>)
    requires
        set.wf(),
    ensures
        r@ == codeblocks(lines@),
{
    label_lines(classify_lines(set, &lines))
}

} // verus!
