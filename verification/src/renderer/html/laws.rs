//! What holds of every token stream that the tokenizer gives.

use crate::renderer::html::attribute::AttributeView;
use crate::renderer::html::token::initial;
use crate::renderer::html::token::keep_first_names;
use crate::renderer::html::token::lemma_stream_ends_with_single_eof;
use crate::renderer::html::token::name_occurs;
use crate::renderer::html::token::token_stream;
use crate::renderer::html::token::HtmlTokenView;
use vstd::prelude::*;

verus! {

/// Whatever the input, tokenization comes to an end, and the tokens of
/// the input end with `Eof`, which occurs nowhere else among them.
pub proof fn lemma_tokens_of_input_end_with_single_eof(input: Seq<char>)
    ensures
        token_stream(initial(input)).len() >= 1,
        token_stream(initial(input)).last() == HtmlTokenView::Eof,
        forall|i: int|
            0 <= i < token_stream(initial(input)).len() - 1 ==> token_stream(initial(input))[i]
                != HtmlTokenView::Eof,
{
    lemma_stream_ends_with_single_eof(initial(input));
}

/// Of attributes with one name the first is kept and no other: no two
/// of the kept attributes have the same name, every kept attribute is
/// one of the given ones, and every given attribute whose name no earlier
/// one has is kept.
pub proof fn lemma_keep_first_names(attrs: Seq<AttributeView>)
    ensures
        keep_first_names(attrs).len() <= attrs.len(),
        forall|i: int, j: int|
            0 <= i < j < keep_first_names(attrs).len() ==> (#[trigger] keep_first_names(
                attrs,
            )[i]).name != (#[trigger] keep_first_names(attrs)[j]).name,
        forall|i: int|
            0 <= i < keep_first_names(attrs).len() ==> attrs.contains(
                #[trigger] keep_first_names(attrs)[i],
            ),
        forall|k: int|
            0 <= k < attrs.len() && !name_occurs(attrs.take(k), (#[trigger] attrs[k]).name)
                ==> keep_first_names(attrs).contains(attrs[k]),
    decreases attrs.len(),
{
    if attrs.len() > 0 {
        let init = attrs.drop_last();
        let last = attrs.last();
        let kept = keep_first_names(attrs);
        let before = keep_first_names(init);
        lemma_keep_first_names(init);
        assert forall|i: int| 0 <= i < before.len() implies attrs.contains(
            #[trigger] before[i],
        ) by {
            assert(init.contains(before[i]));
            let k = choose|k: int| 0 <= k < init.len() && init[k] == before[i];
            assert(attrs[k] == before[i]);
        }
        assert forall|k: int|
            0 <= k < init.len() && !name_occurs(
                attrs.take(k),
                (#[trigger] attrs[k]).name,
            ) implies before.contains(attrs[k]) by {
            assert(attrs.take(k) =~= init.take(k));
            assert(attrs[k] == init[k]);
        }
        assert(attrs.take(attrs.len() - 1) =~= init);
        if name_occurs(init, last.name) {
            assert(kept == before);
        } else {
            assert(kept == before.push(last));
            assert forall|i: int, j: int| 0 <= i < j < kept.len() implies (#[trigger] kept[i]).name
                != (#[trigger] kept[j]).name by {
                if j == before.len() {
                    assert(kept[i] == before[i]);
                    assert(init.contains(before[i]));
                    let k = choose|k: int| 0 <= k < init.len() && init[k] == before[i];
                    assert(init[k].name != last.name);
                } else {
                    assert(kept[i] == before[i]);
                    assert(kept[j] == before[j]);
                }
            }
            assert forall|i: int| 0 <= i < kept.len() implies attrs.contains(
                #[trigger] kept[i],
            ) by {
                if i < before.len() {
                    assert(kept[i] == before[i]);
                } else {
                    assert(attrs[attrs.len() - 1] == kept[i]);
                }
            }
            assert forall|k: int|
                0 <= k < attrs.len() && !name_occurs(
                    attrs.take(k),
                    (#[trigger] attrs[k]).name,
                ) implies kept.contains(attrs[k]) by {
                if k < init.len() {
                    assert(before.contains(attrs[k]));
                    let m = choose|m: int| 0 <= m < before.len() && before[m] == attrs[k];
                    assert(kept[m] == attrs[k]);
                } else {
                    assert(kept[before.len() as int] == last);
                }
            }
        }
    }
}

} // verus!
