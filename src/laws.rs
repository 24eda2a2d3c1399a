use vstd::prelude::*;
use vstd::utf8::*;

use crate::stream::{advance_step, is_token_for, StreamView};

verus! {

broadcast use {encode_utf8_valid_utf8, encode_utf8_decode_utf8};

/// After `k` calls of `advance` on a fresh stream, the segments are unchanged
/// and the index is `k`, or the number of segments once `k` passes it.
proof fn lemma_index_after(states: Seq<StreamView>, results: Seq<bool>, k: int)
    requires
        states.len() == results.len() + 1,
        states[0].index == 0,
        forall|i: int|
            0 <= i < results.len() ==> advance_step(
                #[trigger] states[i],
                states[i + 1],
                results[i],
            ),
        0 <= k <= results.len(),
    ensures
        states[k].segments == states[0].segments,
        states[k].index == if k < states[0].segments.len() {
            k
        } else {
            states[0].segments.len() as int
        },
    decreases k,
{
    if k > 0 {
        lemma_index_after(states, results, k - 1);
        assert(advance_step(states[k - 1], states[k], results[k - 1]));
    }
}

/// Starting from a fresh stream, a run of `advance` calls returns true exactly
/// as many times as there are segments, and false on every call after that.
///
/// `states[i]` is the state before call `i` and `results[i]` what it returned.
pub proof fn lemma_advance_count(states: Seq<StreamView>, results: Seq<bool>)
    requires
        states.len() == results.len() + 1,
        states[0].index == 0,
        forall|i: int|
            0 <= i < results.len() ==> advance_step(
                #[trigger] states[i],
                states[i + 1],
                results[i],
            ),
    ensures
        forall|i: int| 0 <= i < results.len() ==> #[trigger] results[i] == (i < states[0].segments.len()),
{
    assert forall|i: int| 0 <= i < results.len() implies #[trigger] results[i] == (i
        < states[0].segments.len()) by {
        lemma_index_after(states, results, i);
        assert(advance_step(states[i], states[i + 1], results[i]));
    }
}

/// Every token that `advance` makes covers exactly the bytes of its segment:
/// its end offset is its start offset plus the byte length of its text, the
/// source sliced at its offsets is its text's bytes, its position is its start
/// offset and its position length is the byte length of its text.
pub proof fn lemma_token_covers_segment(pre: StreamView, post: StreamView)
    requires
        pre.wf(),
        advance_step(pre, post, true),
    ensures
        post.token.offset_to == post.token.offset_from + encode_utf8(post.token.text@).len(),
        post.source.subrange(post.token.offset_from as int, post.token.offset_to as int)
            == encode_utf8(post.token.text@),
        post.token.position == post.token.offset_from,
        post.token.position_length == encode_utf8(post.token.text@).len(),
        post.token.text@ == decode_utf8(
            post.source.subrange(post.token.offset_from as int, post.token.offset_to as int),
        ),
{
    let span = pre.segments[pre.index as int];
    assert(is_token_for(post.token, pre.source, span));
}

} // verus!
