//! Fence tracking and the carry-forward labelling of classified lines.
use vstd::prelude::*;

verus! {

/// How a recognizer set judged a single line.
#[derive(Clone, Copy, Debug, PartialEq, Eq, Structural)]
pub enum Classification {
    /// The line's shape strongly suggests a Lua statement.
    Confident,
    /// The line is blank: its status follows the line before it.
    Ambiguous,
    /// Nothing suggests code.
    NotCode,
}

/// Whether the scan is inside a Lua block that the message fenced itself.
#[derive(Clone, Copy, Debug, PartialEq, Eq, Structural)]
pub enum FenceState {
    Outside,
    SkippingForeignFence,
}

/// `pat` occurs in `s` starting at position `i`.
pub open spec fn occurs_at(s: Seq<char>, pat: Seq<char>, i: int) -> bool {
    0 <= i && i + pat.len() <= s.len() && s.subrange(i, i + pat.len()) == pat
}

pub open spec fn occurs_in(s: Seq<char>, pat: Seq<char>) -> bool {
    exists|i: int| occurs_at(s, pat, i)
}

/// A bare fence delimiter.
pub open spec fn fence_delimiter() -> Seq<char> {
    seq!['`', '`', '`']
}

/// A fence delimiter that opens a Lua block.
pub open spec fn lua_fence_delimiter() -> Seq<char> {
    seq!['`', '`', '`', 'l', 'u', 'a']
}

pub open spec fn opens_lua_fence(line: Seq<char>) -> bool {
    occurs_in(line, lua_fence_delimiter())
}

/// A line with a fence delimiter that does not open a Lua block closes one.
pub open spec fn closes_fence(line: Seq<char>) -> bool {
    occurs_in(line, fence_delimiter()) && !opens_lua_fence(line)
}

/// The fence state after reading `line` in `state`.
pub open spec fn next_state(state: FenceState, line: Seq<char>) -> FenceState {
    match state {
        FenceState::Outside => if opens_lua_fence(line) {
            FenceState::SkippingForeignFence
        } else {
            FenceState::Outside
        },
        FenceState::SkippingForeignFence => if closes_fence(line) {
            FenceState::Outside
        } else {
            FenceState::SkippingForeignFence
        },
    }
}

/// A line read in `state` reaches classification: it is outside any Lua
/// fence and is no fence marker itself.
pub open spec fn reaches_classification(state: FenceState, line: Seq<char>) -> bool {
    state == FenceState::Outside && !opens_lua_fence(line) && !closes_fence(line)
}

/// The fence state after reading all of `lines` from the start of a message.
pub open spec fn state_after(lines: Seq<String>) -> FenceState
    decreases lines.len(),
{
    if lines.len() == 0 {
        FenceState::Outside
    } else {
        next_state(state_after(lines.drop_last()), lines.last()@)
    }
}

/// The lines of a message that reach classification, in order.
pub open spec fn scanned(lines: Seq<String>) -> Seq<String>
    decreases lines.len(),
{
    if lines.len() == 0 {
        Seq::empty()
    } else {
        let before = scanned(lines.drop_last());
        if reaches_classification(state_after(lines.drop_last()), lines.last()@) {
            before.push(lines.last())
        } else {
            before
        }
    }
}

/// The label of a line of class `class` whose predecessor was labelled
/// `previous`: a blank line carries the label forward.
pub open spec fn label(class: Classification, previous: bool) -> bool {
    match class {
        Classification::Confident => true,
        Classification::Ambiguous => previous,
        Classification::NotCode => false,
    }
}

/// The label of the last line, or `false` before the first.
pub open spec fn last_label(labels: Seq<bool>) -> bool {
    labels.len() > 0 && labels.last()
}

/// The labels of a sequence of classified lines, each from its class and
/// the label before it.
pub open spec fn labels(classes: Seq<Classification>) -> Seq<bool>
    decreases classes.len(),
{
    if classes.len() == 0 {
        Seq::empty()
    } else {
        let before = labels(classes.drop_last());
        before.push(label(classes.last(), last_label(before)))
    }
}

pub open spec fn classes_of(classified: Seq<(String, Classification)>) -> Seq<Classification> {
    classified.map_values(|p: (String, Classification)| p.1)
}

/// Every classified line with its label, or nothing when no line is code.
pub open spec fn segmentation(classified: Seq<(String, Classification)>) -> Seq<(String, bool)> {
    let ls = labels(classes_of(classified));
    if ls.contains(true) {
        Seq::new(classified.len(), |i: int| (classified[i].0, ls[i]))
    } else {
        Seq::empty()
    }
}

pub proof fn lemma_labels_len(classes: Seq<Classification>)
    ensures
        labels(classes).len() == classes.len(),
    decreases classes.len(),
{
    if classes.len() > 0 {
        lemma_labels_len(classes.drop_last());
    }
}

/// Each label depends only on the classes up to its line.
pub proof fn lemma_labels_prefix(classes: Seq<Classification>, n: int)
    requires
        0 <= n <= classes.len(),
    ensures
        labels(classes.take(n)) == labels(classes).take(n),
    decreases classes.len(),
{
    lemma_labels_len(classes);
    if n < classes.len() {
        assert(classes.take(n) =~= classes.drop_last().take(n));
        lemma_labels_prefix(classes.drop_last(), n);
        lemma_labels_len(classes.drop_last());
        assert(labels(classes).take(n) =~= labels(classes.drop_last()).take(n));
    } else {
        assert(classes.take(n) =~= classes);
        assert(labels(classes).take(n) =~= labels(classes));
    }
}

/// The label of a line of class `class` after a line labelled `previous`.
pub fn carry_forward(class: Classification, previous: bool) -> (r: bool)
    ensures
        r == label(class, previous),
{
    match class {
        Classification::Confident => true,
        Classification::Ambiguous => previous,
        Classification::NotCode => false,
    }
}

/// Labels classified lines in order; returns them all with their labels if
/// any is code, and nothing otherwise.
pub fn label_lines(classified: Vec<(String, Classification)>) -> (r: Vec<(String, bool)>)
    ensures
        r@ == segmentation(classified@),
{
    let ghost classes = classes_of(classified@);
    let mut out: Vec<(String, bool)> = Vec::new();
    let mut previous = false;
    let mut any_code = false;
    let mut i: usize = 0;
    proof {
        lemma_labels_len(classes);
    }
    while i < classified.len()
        invariant
            i <= classified@.len(),
            classes == classes_of(classified@),
            labels(classes).len() == classes.len(),
            out@.len() == i,
            forall|k: int| 0 <= k < i ==> #[trigger] out@[k] == (classified@[k].0, labels(classes)[k]),
            previous == last_label(labels(classes).take(i as int)),
            any_code == labels(classes).take(i as int).contains(true),
        decreases classified@.len() - i,
    {
        let (line, class) = (classified[i].0.clone(), classified[i].1);
        let is_code = carry_forward(class, previous);
        proof {
            lemma_labels_prefix(classes, i + 1);
            lemma_labels_prefix(classes, i as int);
            assert(classes.take(i + 1).drop_last() =~= classes.take(i as int));
            assert(labels(classes).take(i + 1) =~= labels(classes).take(i as int).push(is_code));
            assert(labels(classes).take(i + 1)[i as int] == is_code);
            assert(labels(classes)[i as int] == is_code);
        }
        out.push((line, is_code));
        previous = is_code;
        any_code = any_code || is_code;
        i = i + 1;
    }
    assert(labels(classes).take(i as int) =~= labels(classes));
    if any_code {
        assert(out@ =~= segmentation(classified@));
        out
    } else {
        assert(Seq::<(String, bool)>::empty() =~= segmentation(classified@));
        Vec::new()
    }
}

/// The characters of `s`, one element each.
fn chars_of(s: &str) -> (r: Vec<char>)
    ensures
        r@ == s@,
{
    let mut r: Vec<char> = Vec::new();
    let n = s.unicode_len();
    for i in 0..n
        invariant
            n == s@.len(),
            r@ == s@.take(i as int),
    {
        r.push(s.get_char(i));
        assert(r@ =~= s@.take(i + 1));
    }
    assert(r@ =~= s@);
    r
}

/// Whether `pat` occurs in `text`.
fn occurs(text: &Vec<char>, pat: &Vec<char>) -> (r: bool)
    ensures
        r == occurs_in(text@, pat@),
{
    if pat.len() > text.len() {
        return false;
    }
    if pat.len() == 0 {
        assert(text@.subrange(0, 0) =~= pat@);
        assert(occurs_at(text@, pat@, 0));
        return true;
    }
    let last = text.len() - pat.len();
    let mut i: usize = 0;
    while i <= last
        invariant
            last == text@.len() - pat@.len(),
            last < text@.len() <= usize::MAX,
            forall|k: int| 0 <= k < i ==> !occurs_at(text@, pat@, k),
        decreases last + 1 - i,
    {
        let mut j: usize = 0;
        let mut same = true;
        while j < pat.len() && same
            invariant
                i <= last,
                last == text@.len() - pat@.len(),
                text@.len() <= usize::MAX,
                j <= pat@.len(),
                same == (forall|m: int| 0 <= m < j ==> text@[i + m] == pat@[m]),
            decreases pat@.len() - j,
        {
            same = text[i + j] == pat[j];
            j = j + 1;
        }
        if same {
            assert(text@.subrange(i as int, i + pat@.len()) =~= pat@);
            assert(occurs_at(text@, pat@, i as int));
            return true;
        }
        assert(!occurs_at(text@, pat@, i as int)) by {
            let m = j - 1;
            assert(text@.subrange(i as int, i + pat@.len())[m] == text@[i + m]);
        }
        i = i + 1;
    }
    assert forall|k: int| !occurs_at(text@, pat@, k) by {
        if 0 <= k && k + pat@.len() <= text@.len() {
            assert(k < i);
        }
    }
    false
}

/// Reads `line` in fence state `state`: returns the next state and whether
/// the line reaches classification.
pub fn advance(state: FenceState, line: &str) -> (r: (FenceState, bool))
    ensures
        r.0 == next_state(state, line@),
        r.1 == reaches_classification(state, line@),
{
    let text = chars_of(line);
    let lua_marker = chars_of("```lua");
    let marker = chars_of("```");
    proof {
        reveal_strlit("```lua");
        reveal_strlit("```");
    }
    assert(lua_marker@ =~= lua_fence_delimiter());
    assert(marker@ =~= fence_delimiter());
    let opens = occurs(&text, &lua_marker);
    let closes = !opens && occurs(&text, &marker);
    match state {
        FenceState::Outside => if opens {
            (FenceState::SkippingForeignFence, false)
        } else {
            (FenceState::Outside, !closes)
        },
        FenceState::SkippingForeignFence => if closes {
            (FenceState::Outside, false)
        } else {
            (FenceState::SkippingForeignFence, false)
        },
    }
}

/// The lines of a message that are neither fence markers nor inside a
/// fenced Lua block, in order.
pub fn scan_lines(lines: &Vec<String>) -> (r: Vec<String>)
    ensures
        r@ == scanned(lines@),
{
    let mut out: Vec<String> = Vec::new();
    let mut state = FenceState::Outside;
    for i in 0..lines.len()
        invariant
            state == state_after(lines@.take(i as int)),
            out@ == scanned(lines@.take(i as int)),
    {
        let (next, kept) = advance(state, lines[i].as_str());
        assert(lines@.take(i + 1).drop_last() =~= lines@.take(i as int));
        if kept {
            out.push(lines[i].clone());
        }
        state = next;
    }
    assert(lines@.take(lines@.len() as int) =~= lines@);
    out
}

} // verus!
