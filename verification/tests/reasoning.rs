use scut_ai_proxy::reasoning::clean_reasoning;

#[test]
fn removes_complete_think_block() {
    assert_eq!(clean_reasoning("<think>hidden</think>答案"), "答案");
}

#[test]
fn handles_only_open_tag() {
    assert_eq!(clean_reasoning("<think>"), "");
}

#[test]
fn keeps_plain_text() {
    assert_eq!(clean_reasoning("答案"), "答案");
}

#[test]
fn drops_everything_between_the_tags() {
    assert_eq!(clean_reasoning("a<think>x</think>b<think>y</think>c"), "abc");
    assert_eq!(clean_reasoning("  <think>x</think>\n b \n"), "b");
}

#[test]
fn falls_back_on_the_text_without_tags() {
    assert_eq!(clean_reasoning("<think>only thoughts</think>"), "only thoughts");
    assert_eq!(clean_reasoning("<think>never closed"), "never closed");
}

#[test]
fn keeps_a_closing_tag_where_no_block_begins() {
    assert_eq!(clean_reasoning("x</think>y"), "x</think>y");
    assert_eq!(clean_reasoning("</think>"), "");
    assert_eq!(clean_reasoning("<think>a</think>x</think>y"), "xy");
}

#[test]
fn cleans_to_a_trimmed_text() {
    for raw in ["", " ", "\u{3000}a\u{a0}", "<think> </think>", "a <think>b"] {
        let cleaned = clean_reasoning(raw);
        assert_eq!(cleaned.trim(), cleaned);
    }
}
