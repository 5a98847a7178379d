//! Properties of the labelling that hold for every message.
use vstd::prelude::*;
use crate::codeblocks::codeblocks;
use crate::recognizers::{classification, confident_shape};
use crate::segmenter::{
    classes_of, label, labels, lemma_labels_len, scanned, segmentation, Classification,
};

verus! {

/// A message without lines has no code.
pub proof fn empty_message_has_no_code()
    ensures
        codeblocks(Seq::empty()) == Seq::<(String, bool)>::empty(),
{
    let classified = crate::codeblocks::classified(scanned(Seq::empty()));
    assert(classified =~= Seq::empty());
    assert(classes_of(classified) =~= Seq::empty());
    assert(!labels(Seq::<Classification>::empty()).contains(true));
}

/// A line that a confident pattern matches is code, whatever the label of
/// the line before it.
pub proof fn confident_line_is_code(line: Seq<char>, previous: bool)
    requires
        confident_shape(line),
    ensures
        label(classification(line), previous),
{
}

/// Without a confident line no line is labelled code: a label can only be
/// carried forward from a confident line.
pub proof fn lemma_code_needs_confident(classes: Seq<Classification>)
    requires
        forall|i: int| 0 <= i < classes.len() ==> classes[i] != Classification::Confident,
    ensures
        !labels(classes).contains(true),
    decreases classes.len(),
{
    if classes.len() > 0 {
        lemma_code_needs_confident(classes.drop_last());
        lemma_labels_len(classes.drop_last());
        let before = labels(classes.drop_last());
        assert(labels(classes) == before.push(label(classes.last(), crate::segmenter::last_label(before))));
        if labels(classes).contains(true) {
            let k = choose|k: int| 0 <= k < labels(classes).len() && labels(classes)[k];
            if k < before.len() {
                assert(before[k]);
            }
        }
    }
}

/// Lines that are all blank, or otherwise all without a confident match,
/// yield nothing: no line was ever labelled code.
pub proof fn no_confident_line_yields_nothing(classified: Seq<(String, Classification)>)
    requires
        forall|i: int| 0 <= i < classified.len() ==> classified[i].1 != Classification::Confident,
    ensures
        segmentation(classified) == Seq::<(String, bool)>::empty(),
{
    let classes = classes_of(classified);
    assert forall|i: int| 0 <= i < classes.len() implies classes[i] != Classification::Confident by {
        assert(classes[i] == classified[i].1);
    }
    lemma_code_needs_confident(classes);
}

/// A message in which no line outside a fenced Lua block has a confident
/// match yields nothing.
pub proof fn message_without_confident_line_yields_nothing(lines: Seq<String>)
    requires
        forall|i: int| 0 <= i < scanned(lines).len() ==> !confident_shape(#[trigger] scanned(lines)[i]@),
    ensures
        codeblocks(lines) == Seq::<(String, bool)>::empty(),
{
    let classified = crate::codeblocks::classified(scanned(lines));
    assert forall|i: int| 0 <= i < classified.len() implies classified[i].1 != Classification::Confident by {
        assert(classified[i].1 == classification(scanned(lines)[i]@));
    }
    no_confident_line_yields_nothing(classified);
}

/// A message of ambiguous lines alone, such as blank ones, yields nothing.
pub proof fn ambiguous_lines_yield_nothing(classified: Seq<(String, Classification)>)
    requires
        forall|i: int| 0 <= i < classified.len() ==> classified[i].1 == Classification::Ambiguous,
    ensures
        segmentation(classified) == Seq::<(String, bool)>::empty(),
{
    no_confident_line_yields_nothing(classified);
}

} // verus!
