//! Turning a chat message into the reply that re-posts it with its Lua code
//! fenced.
use vstd::prelude::*;
use serenity::utils::MessageBuilder;
use crate::codeblocks::{classified, classify_lines, codeblocks};
use crate::recognizers::RecognizerSet;
use crate::segmenter::{label_lines, scanned, segmentation, Classification};

verus! {

/// The pieces of `s` between line feeds, in order; an empty text is one
/// empty line.
pub open spec fn split_lines(s: Seq<char>) -> Seq<Seq<char>>
    decreases s.len(),
{
    if s.len() == 0 {
        seq![Seq::empty()]
    } else {
        let before = split_lines(s.drop_last());
        if s.last() == '\n' {
            before.push(Seq::empty())
        } else {
            before.update(before.len() - 1, before.last().push(s.last()))
        }
    }
}

pub proof fn lemma_split_nonempty(s: Seq<char>)
    ensures
        split_lines(s).len() >= 1,
    decreases s.len(),
{
    if s.len() > 0 {
        lemma_split_nonempty(s.drop_last());
    }
}

/// Splits a message body at its line feeds.
pub fn lines_of(content: &str) -> (r: Vec<String>)
    ensures
        r@.map_values(|l: String| l@) == split_lines(content@),
{
    let n = content.unicode_len();
    let mut out: Vec<String> = Vec::new();
    let mut start: usize = 0;
    assert(content@.take(0) =~= Seq::<char>::empty());
    assert(out@.map_values(|l: String| l@).push(content@.subrange(0, 0)) =~= seq![
        Seq::<char>::empty(),
    ]);
    for i in 0..n
        invariant
            n == content@.len(),
            start <= i,
            out@.map_values(|l: String| l@).push(content@.subrange(start as int, i as int))
                == split_lines(content@.take(i as int)),
    {
        let c = content.get_char(i);
        proof {
            assert(content@.take(i + 1).drop_last() =~= content@.take(i as int));
            lemma_split_nonempty(content@.take(i as int));
        }
        if c == '\n' {
            let ghost before = out@;
            out.push(String::from_str(content.substring_char(start, i)));
            assert(out@.map_values(|l: String| l@) =~= before.map_values(|l: String| l@).push(
                content@.subrange(start as int, i as int),
            ));
            assert(content@.subrange(i + 1, i + 1) =~= Seq::<char>::empty());
            start = i + 1;
        } else {
            assert(content@.subrange(start as int, i + 1) =~= content@.subrange(
                start as int,
                i as int,
            ).push(c));
            assert(out@.map_values(|l: String| l@).push(content@.subrange(start as int, i + 1))
                =~= split_lines(content@.take(i + 1)));
        }
    }
    let ghost before = out@;
    out.push(String::from_str(content.substring_char(start, n)));
    assert(content@.take(n as int) =~= content@);
    assert(out@.map_values(|l: String| l@) =~= before.map_values(|l: String| l@).push(
        content@.subrange(start as int, n as int),
    ));
    out
}

/// The fence written between a line labelled `previous` and one labelled
/// `current`: an opening Lua fence where code starts, a closing fence where
/// it stops.
pub open spec fn fence_between(previous: bool, current: bool) -> Seq<char> {
    if current && !previous {
        "```lua\n"@
    } else if !current && previous {
        "```\n"@
    } else {
        Seq::empty()
    }
}

/// The label of the last line, or `false` before the first.
pub open spec fn ends_in_code(blocks: Seq<(String, bool)>) -> bool {
    blocks.len() > 0 && blocks.last().1
}

/// The labelled lines, each followed by a line feed, with fences where the
/// label changes.
pub open spec fn fenced_lines(blocks: Seq<(String, bool)>) -> Seq<char>
    decreases blocks.len(),
{
    if blocks.len() == 0 {
        Seq::empty()
    } else {
        let before = blocks.drop_last();
        fenced_lines(before) + fence_between(ends_in_code(before), blocks.last().1)
            + blocks.last().0@ + seq!['\n']
    }
}

/// The labelled lines with every run of code fenced as Lua.
pub open spec fn fenced(blocks: Seq<(String, bool)>) -> Seq<char> {
    fenced_lines(blocks) + fence_between(ends_in_code(blocks), false)
}

/// Writes the labelled lines, fencing every run of code as Lua.
pub fn fence_blocks(blocks: &Vec<(String, bool)>) -> (r: String)
    ensures
        r@ == fenced(blocks@),
{
    let mut buffer = String::new();
    let mut in_code = false;
    for i in 0..blocks.len()
        invariant
            buffer@ == fenced_lines(blocks@.take(i as int)),
            in_code == ends_in_code(blocks@.take(i as int)),
    {
        let is_code = blocks[i].1;
        assert(blocks@.take(i + 1).drop_last() =~= blocks@.take(i as int));
        if is_code && !in_code {
            buffer.append("```lua\n");
        } else if !is_code && in_code {
            buffer.append("```\n");
        }
        buffer.append(blocks[i].0.as_str());
        buffer.append("\n");
        proof {
            reveal_strlit("\n");
        }
        assert(buffer@ =~= fenced_lines(blocks@.take(i + 1)));
        in_code = is_code;
    }
    assert(blocks@.take(blocks@.len() as int) =~= blocks@);
    if in_code {
        buffer.append("```\n");
    }
    assert(buffer@ =~= fenced(blocks@));
    buffer
}

/// The text that serenity's `MessageBuilder::push_bold_safe` writes between
/// the bold markers for `name`: the name with its markdown neutralised.
pub uninterp spec fn bold_inner_of(name: Seq<char>) -> Seq<char>;

/// Relies on serenity::utils::MessageBuilder::push_bold_safe, read back
/// with `build`: `**`, the neutralised name, which depends on `name` alone,
/// and `**`.
#[verifier::external_body]
fn bold_safe(name: &str) -> (r: String)
    ensures
        r@ == "**"@ + bold_inner_of(name@) + "**"@,
{
    MessageBuilder::new().push_bold_safe(name).build()
}

/// The first lines of a reply, naming the author of the message in bold.
pub open spec fn attribution(author: Seq<char>) -> Seq<char> {
    "**"@ + bold_inner_of(author) + "**"@ + " doesn't know how to format.\n"@
        + "But don't worry, I am here !\n\n"@
}

/// The reply to a message whose labelled lines are `blocks`.
pub open spec fn reply_text(author: Seq<char>, blocks: Seq<(String, bool)>) -> Seq<char> {
    attribution(author) + fenced(blocks)
}

/// The reply to a message by `author` whose classified lines are
/// `classified`: none when no line is code.
pub fn reply_from_classified(author: &str, classified: Vec<(String, Classification)>) -> (r: Option<
    String,
>)
    ensures
        match r {
            None => segmentation(classified@).len() == 0,
            Some(text) => segmentation(classified@).len() > 0 && text@ == reply_text(
                author@,
                segmentation(classified@),
            ),
        },
{
    let blocks = label_lines(classified);
    if blocks.len() == 0 {
        return None;
    }
    let mut text = bold_safe(author);
    text.append(" doesn't know how to format.\n");
    text.append("But don't worry, I am here !\n\n");
    let body = fence_blocks(&blocks);
    text.append(body.as_str());
    assert(text@ =~= reply_text(author@, blocks@));
    Some(text)
}

/// The reply that re-posts a message with its Lua code fenced: none for a
/// message from a bot, nor for one without code.
pub fn reply_for(set: &RecognizerSet, from_bot: bool, author: &str, content: &str) -> (r: Option<
    String,
>)
    requires
        set.wf(),
    ensures
        from_bot ==> r is None,
        !from_bot ==> exists|lines: Seq<String>|
            #![trigger codeblocks(lines)]
            lines.map_values(|l: String| l@) == split_lines(content@) && match r {
                None => codeblocks(lines).len() == 0,
                Some(text) => codeblocks(lines).len() > 0 && text@ == reply_text(
                    author@,
                    codeblocks(lines),
                ),
            },
{
    if from_bot {
        return None;
    }
    let lines = lines_of(content);
    let ghost line_seq = lines@;
    let with_classes = classify_lines(set, &lines);
    let r = reply_from_classified(author, with_classes);
    assert(codeblocks(line_seq) == segmentation(classified(scanned(line_seq))));
    r
}

} // verus!
