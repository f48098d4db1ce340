//! Taking the reasoning of a model out of its answer.

use crate::text;
use vstd::prelude::*;

verus! {

/// What stands outside the reasoning blocks. A block that is not closed
/// reaches to the end.
pub open spec fn outside_blocks(raw: Seq<char>) -> Seq<char>
    decreases raw.len(),
{
    match text::find(raw, "<think>"@) {
        Some(start) => {
            let after = raw.skip(start + 7);
            match text::find(after, "</think>"@) {
                Some(end) => if 0 <= start && start + 7 <= raw.len() && 0 <= end && end + 8
                    <= after.len() {
                    raw.take(start) + outside_blocks(after.skip(end + 8))
                } else {
                    raw.take(start)
                },
                None => raw.take(start),
            }
        },
        None => raw,
    }
}

/// The visible text without stray closing tags, trimmed.
pub open spec fn visible_text(raw: Seq<char>) -> Seq<char> {
    text::trim(text::remove_all(outside_blocks(raw), "</think>"@))
}

/// The answer without its reasoning. Where nothing else is left of a text that
/// is not blank, the text with only the tags taken out; where no block begins,
/// the text as it is; each of them trimmed.
pub open spec fn cleaned(raw: Seq<char>) -> Seq<char> {
    if visible_text(raw).len() == 0 && text::trim(raw).len() > 0 {
        text::trim(text::remove_all(text::remove_all(raw, "<think>"@), "</think>"@))
    } else if text::find(raw, "<think>"@) is Some {
        visible_text(raw)
    } else {
        text::trim(raw)
    }
}

/// Takes the reasoning out of an answer.
pub fn clean_reasoning(raw: &str) -> (result: String)
    ensures
        result@ == cleaned(raw@),
{
    proof {
        reveal_strlit("<think>");
        reveal_strlit("</think>");
    }
    let chars = text::chars_of(raw);
    let open = text::chars_of("<think>");
    let close = text::chars_of("</think>");
    let end: usize = chars.len();
    let mut output = String::new();
    let mut from: usize = 0;
    let mut removed_any = false;
    assert(raw@.skip(0) =~= raw@);
    loop
        invariant_except_break
            from <= end,
            output@ + outside_blocks(raw@.skip(from as int)) == outside_blocks(raw@),
            removed_any ==> text::find(raw@, "<think>"@) is Some,
            !removed_any ==> from == 0,
        invariant
            chars@ == raw@,
            open@ == "<think>"@,
            close@ == "</think>"@,
            open@.len() == 7,
            close@.len() == 8,
            end == chars@.len(),
        ensures
            output@ == outside_blocks(raw@),
            removed_any == (text::find(raw@, "<think>"@) is Some),
        decreases end - from,
    {
        let ghost rest = raw@.skip(from as int);
        proof {
            text::lemma_find_skip(raw@, open@, from as int);
            text::lemma_find_from(raw@, open@, from as int);
        }
        match text::position_from(chars.as_slice(), open.as_slice(), from) {
            None => {
                assert(rest =~= raw@.subrange(from as int, end as int));
                output.append(text::text_of(chars.as_slice(), from, end).as_str());
                break;
            },
            Some(start) => {
                assert(text::occurs_at(raw@, open@, start as int));
                output.append(text::text_of(chars.as_slice(), from, start).as_str());
                assert(rest.take(start - from) =~= raw@.subrange(from as int, start as int));
                removed_any = true;
                let after: usize = start + 7;
                assert(rest.skip(start - from + 7) =~= raw@.skip(after as int));
                proof {
                    text::lemma_find_skip(raw@, close@, after as int);
                    text::lemma_find_from(raw@, close@, after as int);
                }
                match text::position_from(chars.as_slice(), close.as_slice(), after) {
                    Some(stop) => {
                        assert(text::occurs_at(raw@, close@, stop as int));
                        assert(raw@.skip(after as int).skip(stop - after + 8) =~= raw@.skip(
                            stop + 8,
                        ));
                        from = stop + 8;
                    },
                    None => {
                        break;
                    },
                }
            },
        }
    }
    let visible = text::trimmed(text::without_text(output.as_str(), "</think>").as_str());
    let whole = text::trimmed(raw);
    if visible.as_str().is_empty() && !whole.as_str().is_empty() {
        let without_open = text::without_text(raw, "<think>");
        let without_both = text::without_text(without_open.as_str(), "</think>");
        text::trimmed(without_both.as_str())
    } else if removed_any {
        visible
    } else {
        whole
    }
}

// ---------------------------------------------------------------------------
// Laws
// ---------------------------------------------------------------------------

/// A cleaned answer neither begins nor ends with white space.
pub proof fn law_cleaned_is_trimmed(raw: Seq<char>)
    ensures
        text::trim(cleaned(raw)) == cleaned(raw),
{
    text::lemma_trim_idempotent(text::remove_all(outside_blocks(raw), "</think>"@));
    text::lemma_trim_idempotent(
        text::remove_all(text::remove_all(raw, "<think>"@), "</think>"@),
    );
    text::lemma_trim_idempotent(raw);
}

/// An answer without tags is kept, but for the white space around it.
pub proof fn law_plain_text_is_kept(raw: Seq<char>)
    requires
        !text::contains_text(raw, "<think>"@),
        !text::contains_text(raw, "</think>"@),
    ensures
        cleaned(raw) == text::trim(raw),
{
    text::lemma_find_contains(raw, "<think>"@);
    text::lemma_find_contains(raw, "</think>"@);
}

/// The tag begins with the only `<` in it, so an occurrence cannot begin
/// within `before` and reach into a tag behind it.
proof fn lemma_tag_found_behind(before: Seq<char>, tag: Seq<char>, behind: Seq<char>)
    requires
        tag.len() > 0,
        tag[0] == '<',
        forall|i: int| 0 < i < tag.len() ==> tag[i] != '<',
        !text::contains_text(before, tag),
    ensures
        text::find(before + tag + behind, tag) == Some(before.len() as int),
{
    let whole = before + tag + behind;
    let at = before.len() as int;
    assert(whole.subrange(at, at + tag.len()) =~= tag);
    assert forall|j: int| 0 <= j < at implies !text::occurs_at(whole, tag, j) by {
        if text::occurs_at(whole, tag, j) {
            if j + tag.len() <= at {
                assert(before.subrange(j, j + tag.len()) =~= whole.subrange(j, j + tag.len()));
                assert(text::occurs_at(before, tag, j));
            } else {
                assert(whole.subrange(j, j + tag.len())[at - j] == whole[at]);
                assert(whole[at] == tag[0]);
            }
        }
    }
    text::lemma_find_is(whole, tag, at);
}

/// A reasoning block is taken out together with its tags, wherever the next
/// one stands; what stands before it stays.
pub proof fn law_first_block_is_dropped(before: Seq<char>, thought: Seq<char>, behind: Seq<char>)
    requires
        !text::contains_text(before, "<think>"@),
        !text::contains_text(thought, "</think>"@),
    ensures
        outside_blocks(before + "<think>"@ + thought + "</think>"@ + behind) == before
            + outside_blocks(behind),
{
    reveal_strlit("<think>");
    reveal_strlit("</think>");
    let open = "<think>"@;
    let close = "</think>"@;
    let raw = before + open + thought + close + behind;
    let after = thought + close + behind;
    assert(raw =~= before + open + after);
    lemma_tag_found_behind(before, open, after);
    let start = before.len() as int;
    assert(raw.take(start) =~= before);
    assert(raw.skip(start + 7) =~= after);
    lemma_tag_found_behind(thought, close, behind);
    assert(after.skip(thought.len() as int + 8) =~= behind);
}

/// A closed reasoning block is taken out together with its tags, and what
/// stands before and behind it stays, as long as that is not blank.
pub proof fn law_block_is_removed(before: Seq<char>, thought: Seq<char>, behind: Seq<char>)
    requires
        !text::contains_text(before, "<think>"@),
        !text::contains_text(thought, "</think>"@),
        !text::contains_text(behind, "<think>"@),
        !text::contains_text(before + behind, "</think>"@),
        text::trim(before + behind).len() > 0,
    ensures
        cleaned(before + "<think>"@ + thought + "</think>"@ + behind) == text::trim(
            before + behind,
        ),
{
    reveal_strlit("<think>");
    let rest = thought + "</think>"@ + behind;
    assert(before + "<think>"@ + thought + "</think>"@ + behind =~= before + "<think>"@ + rest);
    lemma_tag_found_behind(before, "<think>"@, rest);
    law_first_block_is_dropped(before, thought, behind);
    text::lemma_find_contains(behind, "<think>"@);
    text::lemma_find_contains(before + behind, "</think>"@);
}

/// Where no block begins everything is outside; where one begins that is not
/// closed, only what stands before it is.
pub proof fn law_open_block_hides_the_rest(before: Seq<char>, rest: Seq<char>)
    requires
        !text::contains_text(before, "<think>"@),
        !text::contains_text(rest, "</think>"@),
    ensures
        outside_blocks(before) == before,
        outside_blocks(before + "<think>"@ + rest) == before,
{
    reveal_strlit("<think>");
    text::lemma_find_contains(before, "<think>"@);
    lemma_tag_found_behind(before, "<think>"@, rest);
    let raw = before + "<think>"@ + rest;
    assert(raw.take(before.len() as int) =~= before);
    assert(raw.skip(before.len() as int + 7) =~= rest);
    text::lemma_find_contains(rest, "</think>"@);
}

/// Where a block begins and something besides white space and closing tags
/// stands outside the blocks, the answer is what stands there, without the
/// closing tags and trimmed.
pub proof fn law_answer_is_what_stands_outside(before: Seq<char>, behind: Seq<char>)
    requires
        text::trim(
            text::remove_all(outside_blocks(before + "<think>"@ + behind), "</think>"@),
        ).len() > 0,
    ensures
        cleaned(before + "<think>"@ + behind) == text::trim(
            text::remove_all(outside_blocks(before + "<think>"@ + behind), "</think>"@),
        ),
{
    let raw = before + "<think>"@ + behind;
    text::law_contained_text_has_two_sides(raw, "<think>"@);
    assert(text::contains_text(raw, "<think>"@));
    text::lemma_find_contains(raw, "<think>"@);
}

/// An answer in which no block begins, and which is more than closing tags,
/// is only trimmed.
pub proof fn law_answer_without_blocks_is_trimmed(raw: Seq<char>)
    requires
        !text::contains_text(raw, "<think>"@),
        text::trim(text::remove_all(raw, "</think>"@)).len() > 0,
    ensures
        cleaned(raw) == text::trim(raw),
{
    text::lemma_find_contains(raw, "<think>"@);
}

/// An answer that is nothing but one thought is answered with the thought,
/// whether the block is closed or not.
pub proof fn law_lone_thought_is_told(thought: Seq<char>)
    requires
        !text::contains_text(thought, "<think>"@),
        !text::contains_text(thought, "</think>"@),
    ensures
        cleaned("<think>"@ + thought + "</think>"@) == text::trim(thought),
        cleaned("<think>"@ + thought) == text::trim(thought),
{
    reveal_strlit("<think>");
    reveal_strlit("</think>");
    let open = "<think>"@;
    let close = "</think>"@;
    let nothing = Seq::<char>::empty();
    if text::contains_text(nothing, open) || text::contains_text(nothing, close) {
        assert(false);
    }
    text::law_removal_keeps_the_rest(nothing, close);
    assert(text::trim(nothing) =~= nothing);
    assert(!text::is_blank('<'));
    let closed = open + thought + close;
    assert(closed =~= nothing + open + thought + close + nothing);
    law_first_block_is_dropped(nothing, thought, nothing);
    law_open_block_hides_the_rest(nothing, thought);
    assert(outside_blocks(closed) =~= nothing);
    let opened = open + thought;
    assert(opened =~= nothing + open + thought);
    assert(outside_blocks(opened) =~= nothing);
    assert(closed[0] == '<' && opened[0] == '<');
    text::lemma_trim_around(nothing, open, thought + close);
    text::lemma_trim_around(nothing, open, thought);
    assert(nothing + open + (thought + close) =~= closed);
    assert(nothing + open + thought =~= opened);
    // Without the opening tag.
    lemma_tag_found_behind(nothing, open, thought + close);
    text::law_removal_goes_from_the_front(nothing, open, thought + close);
    lemma_tag_found_behind(nothing, open, thought);
    text::law_removal_goes_from_the_front(nothing, open, thought);
    text::law_removal_keeps_the_rest(thought, open);
    lemma_no_open_tag_before_a_close(thought);
    text::law_removal_keeps_the_rest(thought + close, open);
    assert(nothing + (thought + close) =~= thought + close);
    assert(nothing + thought =~= thought);
    // Without the closing tag.
    lemma_tag_found_behind(thought, close, nothing);
    text::law_removal_goes_from_the_front(thought, close, nothing);
    assert(thought + close + nothing =~= thought + close);
    assert(thought + nothing =~= thought);
    text::law_removal_keeps_the_rest(thought, close);
}

proof fn lemma_no_open_tag_before_a_close(thought: Seq<char>)
    requires
        !text::contains_text(thought, "<think>"@),
    ensures
        !text::contains_text(thought + "</think>"@, "<think>"@),
{
    reveal_strlit("<think>");
    reveal_strlit("</think>");
    let open = "<think>"@;
    let whole = thought + "</think>"@;
    if text::contains_text(whole, open) {
        let at = choose|at: int| text::occurs_at(whole, open, at);
        let n = thought.len() as int;
        let part = whole.subrange(at, at + 7);
        assert(part == open);
        assert(part[0] == whole[at] && part[1] == whole[at + 1]);
        if at + 7 <= n {
            assert(thought.subrange(at, at + 7) =~= part);
            assert(text::occurs_at(thought, open, at));
        } else if at < n {
            assert(part[n - at] == whole[n]);
            assert(whole[n] == '<');
        } else {
            assert(whole[at] == "</think>"@[at - n]);
            assert(whole[at + 1] == "</think>"@[at - n + 1]);
        }
    }
}

/// An answer that is all white space is answered with nothing.
pub proof fn law_blank_answer_is_empty(raw: Seq<char>)
    requires
        text::trim(raw).len() == 0,
    ensures
        cleaned(raw).len() == 0,
{
    reveal_strlit("<think>");
    if text::contains_text(raw, "<think>"@) {
        let at = choose|at: int| text::occurs_at(raw, "<think>"@, at);
        text::law_trim_takes_only_white_space(raw);
        let (lo, hi) = choose|lo: int, hi: int| #[trigger]
            text::is_trimmed_part(raw, lo, hi) && text::trim(raw) == raw.subrange(lo, hi);
        assert(raw.subrange(at, at + 7)[0] == raw[at]);
        assert(text::is_blank(raw[at]));
        assert(!text::is_blank('<'));
    }
    text::lemma_find_contains(raw, "<think>"@);
}

/// An answer of which nothing stands outside the blocks is told in full, only
/// without the tags and trimmed.
pub proof fn law_hidden_answer_loses_only_its_tags(raw: Seq<char>)
    requires
        text::trim(text::remove_all(outside_blocks(raw), "</think>"@)).len() == 0,
        text::trim(raw).len() > 0,
    ensures
        cleaned(raw) == text::trim(
            text::remove_all(text::remove_all(raw, "<think>"@), "</think>"@),
        ),
{
}

} // verus!
