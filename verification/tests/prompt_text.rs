//! Prompt handling on concrete values: text assembly from content
//! blocks and script extraction.

use rhaicp::prompt::{extract_rhai_script, extract_text_from_prompt, ContentBlock};

#[test]
fn text_blocks_join_with_single_spaces() {
    let blocks = vec![
        ContentBlock::Text("Hello".to_string()),
        ContentBlock::Other,
        ContentBlock::Text("World".to_string()),
    ];
    assert_eq!(extract_text_from_prompt(&blocks), "Hello World");
}

#[test]
fn no_text_blocks_give_empty_text() {
    let blocks = vec![ContentBlock::Other, ContentBlock::Other];
    assert_eq!(extract_text_from_prompt(&blocks), "");
    assert_eq!(extract_text_from_prompt(&Vec::new()), "");
}

#[test]
fn single_text_block_stays_as_is() {
    let blocks = vec![ContentBlock::Text("say(1)".to_string())];
    assert_eq!(extract_text_from_prompt(&blocks), "say(1)");
}

#[test]
fn untagged_prompt_runs_whole_trimmed() {
    assert_eq!(extract_rhai_script("  say(1);  "), "say(1);");
    assert_eq!(extract_rhai_script("say(1)"), "say(1)");
}

#[test]
fn tagged_prompt_extracts_inner_script() {
    assert_eq!(
        extract_rhai_script("A <userRequest> say(\"hi\") </userRequest> B"),
        "say(\"hi\")"
    );
}

#[test]
fn tagged_extraction_ignores_surrounding_text() {
    assert_eq!(
        extract_rhai_script(
            "Some preamble text <userRequest>say(\"Extracted!\")</userRequest> some trailing text"
        ),
        "say(\"Extracted!\")"
    );
}

#[test]
fn missing_close_tag_runs_whole_prompt() {
    assert_eq!(
        extract_rhai_script(" <userRequest>say(1) "),
        "<userRequest>say(1)"
    );
}

#[test]
fn missing_open_tag_runs_whole_prompt() {
    assert_eq!(
        extract_rhai_script("say(1)</userRequest>"),
        "say(1)</userRequest>"
    );
}

#[test]
fn close_tag_before_open_tag_runs_whole_prompt() {
    let p = "</userRequest>x<userRequest>";
    assert_eq!(extract_rhai_script(p), p);
}

#[test]
fn empty_tagged_content_runs_whole_prompt() {
    let p = "<userRequest></userRequest>";
    assert_eq!(extract_rhai_script(p), p);
}

#[test]
fn first_tag_pair_wins() {
    assert_eq!(
        extract_rhai_script("<userRequest>a</userRequest><userRequest>b</userRequest>"),
        "a"
    );
}

#[test]
fn trimming_covers_unicode_whitespace() {
    assert_eq!(extract_rhai_script("\u{a0}\u{2003}say(1)\u{3000}\t\n"), "say(1)");
}
