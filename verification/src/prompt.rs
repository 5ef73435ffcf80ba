//! Prompt handling: pulling the textual content out of a prompt's content
//! blocks and extracting the script to run from that text.

use vstd::prelude::*;
use crate::text::{
    find_sub, first_occurrence, first_occurrence_index, lemma_first_occurrence_exists,
    lemma_first_occurrence_unique, occurs_at, occurs_in, trim_spec, trim_str,
};

verus! {

/// One content block of a prompt, as the library sees it: a text block
/// carries its text; every other block kind is ignored.
#[derive(Debug)]
pub enum ContentBlock {
    Text(String),
    Other,
}

/// The texts of the text blocks, in order.
pub open spec fn text_parts(blocks: Seq<ContentBlock>) -> Seq<Seq<char>>
    decreases blocks.len(),
{
    if blocks.len() == 0 {
        Seq::empty()
    } else {
        let rest = text_parts(blocks.drop_first());
        match blocks[0] {
            ContentBlock::Text(t) => seq![t@] + rest,
            ContentBlock::Other => rest,
        }
    }
}

/// The parts joined with single spaces between them.
pub open spec fn join_spaced(parts: Seq<Seq<char>>) -> Seq<char>
    decreases parts.len(),
{
    if parts.len() == 0 {
        Seq::empty()
    } else if parts.len() == 1 {
        parts[0]
    } else {
        parts[0] + seq![' '] + join_spaced(parts.drop_first())
    }
}

/// What one more block adds to the text parts.
pub open spec fn part_of(b: ContentBlock) -> Seq<Seq<char>> {
    match b {
        ContentBlock::Text(t) => seq![t@],
        ContentBlock::Other => Seq::empty(),
    }
}

proof fn lemma_text_parts_snoc(blocks: Seq<ContentBlock>, b: ContentBlock)
    ensures
        text_parts(blocks.push(b)) == text_parts(blocks) + part_of(b),
    decreases blocks.len(),
{
    let whole = blocks.push(b);
    if blocks.len() == 0 {
        assert(whole.drop_first() =~= Seq::<ContentBlock>::empty());
        assert(text_parts(Seq::<ContentBlock>::empty()) == Seq::<Seq<char>>::empty());
        assert(text_parts(whole) =~= text_parts(blocks) + part_of(b));
    } else {
        assert(whole[0] == blocks[0]);
        assert(whole.drop_first() =~= blocks.drop_first().push(b));
        lemma_text_parts_snoc(blocks.drop_first(), b);
        assert(text_parts(whole) =~= text_parts(blocks) + part_of(b));
    }
}

proof fn lemma_join_spaced_snoc(parts: Seq<Seq<char>>, p: Seq<char>)
    ensures
        parts.len() == 0 ==> join_spaced(parts.push(p)) == p,
        parts.len() > 0 ==> join_spaced(parts.push(p)) == join_spaced(parts) + seq![' '] + p,
    decreases parts.len(),
{
    let whole = parts.push(p);
    if parts.len() == 0 {
        assert(whole.len() == 1);
        assert(whole[0] == p);
    } else if parts.len() == 1 {
        assert(whole[0] == parts[0]);
        assert(whole.drop_first() =~= seq![p]);
        assert(join_spaced(whole.drop_first()) == p);
    } else {
        assert(whole[0] == parts[0]);
        assert(whole.drop_first() =~= parts.drop_first().push(p));
        lemma_join_spaced_snoc(parts.drop_first(), p);
        assert(join_spaced(whole) =~= join_spaced(parts) + seq![' '] + p);
    }
}

/// Concatenate the texts of the prompt's text blocks, separated by single
/// spaces, skipping every non-text block.
pub fn extract_text_from_prompt(blocks: &Vec<ContentBlock>) -> (r: String)
    ensures
        r@ == join_spaced(text_parts(blocks@)),
{
    let mut out = String::new();
    let mut any = false;
    let mut i: usize = 0;
    while i < blocks.len()
        invariant
            i <= blocks@.len(),
            out@ == join_spaced(text_parts(blocks@.take(i as int))),
            any == (text_parts(blocks@.take(i as int)).len() > 0),
        decreases blocks@.len() - i,
    {
        let ghost prefix = blocks@.take(i as int);
        proof {
            assert(blocks@.take(i + 1) =~= prefix.push(blocks@[i as int]));
            lemma_text_parts_snoc(prefix, blocks@[i as int]);
        }
        match &blocks[i] {
            ContentBlock::Text(t) => {
                proof {
                    lemma_join_spaced_snoc(text_parts(prefix), t@);
                    reveal_strlit(" ");
                }
                if any {
                    out.append(" ");
                    proof {
                        assert(" "@ =~= seq![' ']);
                    }
                }
                out.append(t.as_str());
                any = true;
                proof {
                    assert(text_parts(prefix) + part_of(blocks@[i as int]) =~= text_parts(
                        prefix,
                    ).push(t@));
                }
            },
            ContentBlock::Other => {
                proof {
                    assert(text_parts(prefix) + part_of(blocks@[i as int]) =~= text_parts(prefix));
                }
            },
        }
        i = i + 1;
    }
    proof {
        assert(blocks@.take(blocks@.len() as int) =~= blocks@);
    }
    out
}

/// The tag that opens an embedded script request.
pub open spec fn open_tag() -> Seq<char> {
    "<userRequest>"@
}

/// The tag that closes an embedded script request.
pub open spec fn close_tag() -> Seq<char> {
    "</userRequest>"@
}

/// The script embedded in the prompt text: if both tags occur and the
/// content between the first opening tag and the first closing tag is
/// nonempty, that content, trimmed; otherwise the whole text, trimmed.
pub open spec fn spec_extract_script(s: Seq<char>) -> Seq<char> {
    if occurs_in(s, open_tag()) && occurs_in(s, close_tag()) {
        let st = first_occurrence_index(s, open_tag());
        let en = first_occurrence_index(s, close_tag());
        if st + open_tag().len() < en {
            trim_spec(s.subrange(st + open_tag().len(), en))
        } else {
            trim_spec(s)
        }
    } else {
        trim_spec(s)
    }
}

/// Extract the script to run from the prompt text.
///
/// If the text contains an opening and a closing script tag in that
/// order, the script is what stands strictly between the first of each,
/// trimmed; otherwise the whole text, trimmed.
pub fn extract_rhai_script(input: &str) -> (r: String)
    ensures
        r@ == spec_extract_script(input@),
{
    let open_pos = find_sub(input, "<userRequest>");
    let close_pos = find_sub(input, "</userRequest>");
    match (open_pos, close_pos) {
        (Some(st), Some(en)) => {
            proof {
                crate::text::lemma_first_occurrence_exists(input@, open_tag());
                crate::text::lemma_first_occurrence_exists(input@, close_tag());
                lemma_first_occurrence_unique(
                    input@,
                    open_tag(),
                    st as int,
                    first_occurrence_index(input@, open_tag()),
                );
                lemma_first_occurrence_unique(
                    input@,
                    close_tag(),
                    en as int,
                    first_occurrence_index(input@, close_tag()),
                );
            }
            let _length_bound = input.unicode_len();
            let tag_len = "<userRequest>".unicode_len();
            let content_start = st + tag_len;
            if content_start < en {
                let inner = input.substring_char(content_start, en);
                trim_str(inner)
            } else {
                trim_str(input)
            }
        },
        _ => trim_str(input),
    }
}


/// A prompt that lacks one of the tags runs whole: the script is the
/// full prompt text, trimmed.
pub proof fn lemma_untagged_prompt(p: Seq<char>)
    requires
        !occurs_in(p, open_tag()) || !occurs_in(p, close_tag()),
    ensures
        spec_extract_script(p) == trim_spec(p),
{
}

/// For a prompt built around one tagged, nonempty script, the extracted
/// script is the embedded text, trimmed, whatever stands before and
/// after the tags — provided nothing earlier in the prompt starts an
/// opening tag, and nothing before the embedded text's end starts a
/// closing tag.
pub proof fn lemma_tagged_prompt_extraction(a: Seq<char>, s: Seq<char>, b: Seq<char>)
    requires
        s.len() > 0,
        forall|i: int|
            0 <= i < a.len() ==> !occurs_at(a + open_tag() + s + close_tag() + b, open_tag(), i),
        forall|i: int|
            0 <= i < a.len() + open_tag().len() + s.len() ==> !occurs_at(
                a + open_tag() + s + close_tag() + b,
                close_tag(),
                i,
            ),
    ensures
        spec_extract_script(a + open_tag() + s + close_tag() + b) == trim_spec(s),
{
    reveal_strlit("<userRequest>");
    reveal_strlit("</userRequest>");
    let p = a + open_tag() + s + close_tag() + b;
    let ot = open_tag();
    let ct = close_tag();
    let st = a.len() as int;
    let ce = a.len() + ot.len() + s.len() as int;
    assert(p.subrange(st, st + ot.len()) =~= ot);
    assert(occurs_at(p, ot, st));
    assert(first_occurrence(p, ot, st));
    assert(p.subrange(ce, ce + ct.len()) =~= ct);
    assert(occurs_at(p, ct, ce));
    assert(first_occurrence(p, ct, ce));
    assert(occurs_in(p, ot));
    assert(occurs_in(p, ct));
    lemma_first_occurrence_exists(p, ot);
    lemma_first_occurrence_exists(p, ct);
    lemma_first_occurrence_unique(p, ot, st, first_occurrence_index(p, ot));
    lemma_first_occurrence_unique(p, ct, ce, first_occurrence_index(p, ct));
    assert(p.subrange(st + ot.len(), ce) =~= s);
}

} // verus!
