use luaformat::codeblocks::{classify_lines, extract_codeblocks, get_status_symbol};
use luaformat::recognizers::RecognizerSet;
use luaformat::reply::{fence_blocks, lines_of, reply_for, reply_from_classified};
use luaformat::segmenter::{advance, carry_forward, label_lines, scan_lines, Classification, FenceState};

fn set() -> RecognizerSet {
    RecognizerSet::new().expect("built-in patterns compile")
}

fn strings(lines: &[&str]) -> Vec<String> {
    lines.iter().map(|l| l.to_string()).collect()
}

fn labels(blocks: &[(String, bool)]) -> Vec<bool> {
    blocks.iter().map(|b| b.1).collect()
}

#[test]
fn empty_input_gives_empty_output() {
    assert!(extract_codeblocks(&set(), Vec::new()).is_empty());
}

#[test]
fn blank_lines_only_give_empty_output() {
    let blocks = extract_codeblocks(&set(), strings(&["", "   ", "\t", " \t "]));
    assert!(blocks.is_empty());
}

#[test]
fn confident_line_is_code_after_non_code() {
    let blocks = extract_codeblocks(&set(), strings(&["hello", "x = 1"]));
    assert_eq!(labels(&blocks), vec![false, true]);
    assert!(carry_forward(Classification::Confident, false));
    assert!(carry_forward(Classification::Confident, true));
}

#[test]
fn interior_blank_carries_code_forward() {
    let blocks = extract_codeblocks(&set(), strings(&["x = 1", "", "y = 2"]));
    assert_eq!(
        blocks,
        vec![("x = 1".to_string(), true), ("".to_string(), true), ("y = 2".to_string(), true)]
    );
}

#[test]
fn leading_blank_is_not_code() {
    let blocks = extract_codeblocks(&set(), strings(&["", "x = 1"]));
    assert_eq!(labels(&blocks), vec![false, true]);
}

#[test]
fn lua_fence_is_skipped() {
    let lines = strings(&["```lua", "this is not real code", "```", "x = 1"]);
    let blocks = extract_codeblocks(&set(), lines);
    assert_eq!(blocks, vec![("x = 1".to_string(), true)]);
}

#[test]
fn stray_closing_fence_is_dropped() {
    let kept = scan_lines(&strings(&["hello", "```", "x = 1"]));
    assert_eq!(kept, strings(&["hello", "x = 1"]));
}

#[test]
fn fence_states() {
    assert_eq!(advance(FenceState::Outside, "```lua"), (FenceState::SkippingForeignFence, false));
    assert_eq!(advance(FenceState::Outside, "x = 1"), (FenceState::Outside, true));
    assert_eq!(advance(FenceState::Outside, "```"), (FenceState::Outside, false));
    assert_eq!(advance(FenceState::SkippingForeignFence, "x = 1"), (FenceState::SkippingForeignFence, false));
    assert_eq!(advance(FenceState::SkippingForeignFence, "```"), (FenceState::Outside, false));
    assert_eq!(
        advance(FenceState::SkippingForeignFence, "```lua"),
        (FenceState::SkippingForeignFence, false)
    );
}

#[test]
fn transition_scenario_labels() {
    let lines = strings(&["hello everyone", "local x = 5", "print(x)", "thanks!"]);
    let blocks = extract_codeblocks(&set(), lines);
    assert_eq!(labels(&blocks), vec![false, true, true, false]);
    assert_eq!(
        fence_blocks(&blocks),
        "hello everyone\n```lua\nlocal x = 5\nprint(x)\n```\nthanks!\n"
    );
}

#[test]
fn transition_scenario_reply() {
    let content = "hello everyone\nlocal x = 5\nprint(x)\nthanks!";
    let reply = reply_for(&set(), false, "alice", content).expect("code was found");
    assert_eq!(
        reply,
        "**alice** doesn't know how to format.\nBut don't worry, I am here !\n\n\
         hello everyone\n```lua\nlocal x = 5\nprint(x)\n```\nthanks!\n"
    );
}

#[test]
fn non_code_only_gives_nothing() {
    assert!(extract_codeblocks(&set(), strings(&["hello", "how are you"])).is_empty());
    assert_eq!(reply_for(&set(), false, "bob", "hello\nhow are you"), None);
}

#[test]
fn bot_messages_get_no_reply() {
    assert_eq!(reply_for(&set(), true, "bot", "x = 1"), None);
}

#[test]
fn code_at_end_is_closed() {
    let blocks = vec![("hi".to_string(), false), ("end".to_string(), true)];
    assert_eq!(fence_blocks(&blocks), "hi\n```lua\nend\n```\n");
}

#[test]
fn recognizer_shapes() {
    let s = set();
    for line in [
        "x = 1",
        "local a, b = 1, 2",
        "local t",
        "a, b = b, a",
        "count += 1",
        "obj.field = 3",
        "  end",
        "local function f(a, b)",
        "function M:method()",
        "if x > 1 then",
        "elseif y then",
        "else",
        "print(\"hi\")",
        "obj:call(1) ",
        "return",
        "return x + 1",
        "for i = 1, 10 do",
        "while true do",
        "repeat",
        "until done",
        "-- a comment",
    ] {
        assert!(s.matches_confidently(line), "{line:?} should be code");
    }
    for line in ["hello everyone", "thanks!", "how are you", ""] {
        assert!(!s.matches_confidently(line), "{line:?} should not be code");
    }
    assert!(s.matches_ambiguously(""));
    assert!(s.matches_ambiguously(" \t "));
    assert!(!s.matches_ambiguously("x"));
    assert_eq!(s.classify("   "), Classification::Ambiguous);
    assert_eq!(s.classify("x = 1"), Classification::Confident);
    assert_eq!(s.classify("hello"), Classification::NotCode);
}

#[test]
fn classified_lines_skip_fences() {
    let classified = classify_lines(&set(), &strings(&["hi", "```lua", "x = 1", "```", ""]));
    assert_eq!(
        classified,
        vec![("hi".to_string(), Classification::NotCode), ("".to_string(), Classification::Ambiguous)]
    );
}

#[test]
fn labels_from_classes() {
    let classified = vec![
        ("a".to_string(), Classification::Ambiguous),
        ("b".to_string(), Classification::Confident),
        ("c".to_string(), Classification::Ambiguous),
        ("d".to_string(), Classification::NotCode),
        ("e".to_string(), Classification::Ambiguous),
    ];
    assert_eq!(labels(&label_lines(classified)), vec![false, true, true, false, false]);
    let none = vec![("a".to_string(), Classification::Ambiguous), ("b".to_string(), Classification::NotCode)];
    assert!(label_lines(none).is_empty());
}

#[test]
fn splitting_lines() {
    assert_eq!(lines_of(""), strings(&[""]));
    assert_eq!(lines_of("a\nb"), strings(&["a", "b"]));
    assert_eq!(lines_of("a\n\nb\n"), strings(&["a", "", "b", ""]));
    assert_eq!(lines_of("é\nü"), strings(&["é", "ü"]));
}

#[test]
fn status_symbols() {
    assert_eq!(get_status_symbol(true, true), "\x1b[32m✔\x1b[m");
    assert_eq!(get_status_symbol(false, true), "\x1b[33m?\x1b[m");
    assert_eq!(get_status_symbol(false, false), "\x1b[31m✘\x1b[m");
}

#[test]
fn bold_name_is_escaped() {
    let reply = reply_for(&set(), false, "a**b", "x = 1").expect("code was found");
    assert!(reply.starts_with("**a b**"));
}

#[test]
fn end_with_surrounding_whitespace_is_code() {
    let s = set();
    assert!(s.matches_confidently("end"));
    assert!(s.matches_confidently("  end  "));
    assert!(s.matches_confidently("end\t"));
    assert!(!s.matches_confidently("end of story"));
}

#[test]
fn reply_from_classified_lines() {
    let classified = vec![
        ("look:".to_string(), Classification::NotCode),
        ("end".to_string(), Classification::Confident),
    ];
    assert_eq!(
        reply_from_classified("carol", classified),
        Some(
            "**carol** doesn't know how to format.\nBut don't worry, I am here !\n\n\
             look:\n```lua\nend\n```\n"
                .to_string()
        )
    );
    let none = vec![("look:".to_string(), Classification::NotCode)];
    assert_eq!(reply_from_classified("carol", none), None);
}
