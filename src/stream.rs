use vstd::prelude::*;
use vstd::string::*;
use vstd::utf8::*;

use crate::token::{is_unset, Token};

verus! {

broadcast use {encode_utf8_valid_utf8, encode_utf8_decode_utf8};

/// Whether `span`, a byte range `(from, to)`, is a segment of the UTF-8 text
/// `bytes`: it lies inside the text and starts and ends on character boundaries.
pub open spec fn is_segment_of(bytes: Seq<u8>, span: (usize, usize)) -> bool {
    &&& span.0 <= span.1 <= bytes.len()
    &&& is_char_boundary(bytes, span.0 as int)
    &&& is_char_boundary(bytes, span.1 as int)
}

/// Whether `t` is the token made from segment `span` of the text `bytes`:
/// its offsets are the segment's bounds, its position is its start offset,
/// its position length is its length in bytes, and its text encodes to exactly
/// the segment's bytes.
pub open spec fn is_token_for(t: Token, bytes: Seq<u8>, span: (usize, usize)) -> bool {
    &&& t.offset_from == span.0
    &&& t.offset_to == span.1
    &&& t.position == span.0
    &&& t.position_length == span.1 - span.0
    &&& encode_utf8(t.text@) == bytes.subrange(span.0 as int, span.1 as int)
}

/// Splitting a valid UTF-8 text at one character boundary keeps every later
/// boundary a boundary of the suffix.
proof fn lemma_boundary_in_suffix(bytes: Seq<u8>, i: int, j: int)
    requires
        valid_utf8(bytes),
        0 <= i <= j,
        is_char_boundary(bytes, i),
        is_char_boundary(bytes, j),
    ensures
        is_char_boundary(bytes.subrange(i, bytes.len() as int), j - i),
    decreases bytes.len(),
{
    if i == 0 {
        assert(bytes.subrange(0, bytes.len() as int) =~= bytes);
    } else {
        let l = length_of_first_scalar(bytes);
        let rest = pop_first_scalar(bytes);
        assert(is_char_boundary(rest, i - l));
        lemma_boundary_in_suffix(rest, i - l, j - l);
        assert(rest.subrange(i - l, rest.len() as int) =~= bytes.subrange(i, bytes.len() as int));
    }
}

/// Copies segment `span` of `src` out as an owned string.
fn copy_segment(src: &str, span: (usize, usize)) -> (r: String)
    requires
        is_segment_of(src.spec_bytes(), span),
    ensures
        encode_utf8(r@) == src.spec_bytes().subrange(span.0 as int, span.1 as int),
{
    let (from, to) = span;
    proof {
        lemma_boundary_in_suffix(src.spec_bytes(), from as int, to as int);
    }
    let (_, rest) = src.split_at(from);
    let (word, _) = rest.split_at(to - from);
    assert(word.spec_bytes() =~= src.spec_bytes().subrange(from as int, to as int));
    word.to_owned()
}

/// The abstract state of a token stream.
pub struct StreamView {
    /// The UTF-8 bytes of the source text.
    pub source: Seq<u8>,
    /// The segments, in the order in which they are turned into tokens.
    pub segments: Seq<(usize, usize)>,
    /// How many segments have been turned into tokens so far.
    pub index: nat,
    /// The current token: the one made by the last successful `advance`, as a
    /// later stage may have rewritten it since through `token_mut`.
    pub token: Token,
}

impl StreamView {
    /// Every segment lies in the source and the index has not run past the end.
    pub open spec fn wf(self) -> bool {
        &&& valid_utf8(self.source)
        &&& self.index <= self.segments.len()
        &&& forall|k: int| 0 <= k < self.segments.len() ==> is_segment_of(self.source, #[trigger] self.segments[k])
    }

    /// Whether segments remain to be turned into tokens.
    pub open spec fn has_next(self) -> bool {
        self.index < self.segments.len()
    }
}

/// What one call of `advance` does: when a segment remains, it returns true,
/// moves the index on by one and makes the token of that segment; otherwise it
/// returns false and changes nothing.
pub open spec fn advance_step(pre: StreamView, post: StreamView, r: bool) -> bool {
    &&& r == pre.has_next()
    &&& post.source == pre.source
    &&& post.segments == pre.segments
    &&& if r {
        &&& post.index == pre.index + 1
        &&& is_token_for(post.token, pre.source, pre.segments[pre.index as int])
    } else {
        post == pre
    }
}

/// A pull-based stream of tokens over segments of a source text.
///
/// Each segment is a byte range `(from, to)` of the source that starts and
/// ends on character boundaries; segments may overlap and need not be sorted.
pub struct CangjieTokenStream<'a> {
    src: &'a str,
    result: Vec<(usize, usize)>,
    index: usize,
    token: Token,
}

impl<'a> View for CangjieTokenStream<'a> {
    type V = StreamView;

    closed spec fn view(&self) -> StreamView {
        StreamView {
            source: self.src.spec_bytes(),
            segments: self.result@,
            index: self.index as nat,
            token: self.token,
        }
    }
}

impl<'a> CangjieTokenStream<'a> {
    /// Makes a stream over `result`, the segments of `src`, in their order.
    /// No token has been made yet: the current token is the unset one.
    pub fn new(src: &'a str, result: Vec<(usize, usize)>) -> (r: Self)
        requires
            forall|k: int| 0 <= k < result@.len() ==> is_segment_of(src.spec_bytes(), #[trigger] result@[k]),
        ensures
            r@.wf(),
            r@.source == src.spec_bytes(),
            r@.segments == result@,
            r@.index == 0,
            is_unset(r@.token),
    {
        CangjieTokenStream { src, result, index: 0, token: Token::default() }
    }

    /// Turns the next segment into the current token. Returns false, changing
    /// nothing, once every segment has been turned into a token.
    pub fn advance(&mut self) -> (r: bool)
        requires
            old(self)@.wf(),
        ensures
            final(self)@.wf(),
            advance_step(old(self)@, final(self)@, r),
    {
        if self.index < self.result.len() {
            let span = self.result[self.index];
            let text = copy_segment(self.src, span);
            let (offset_from, offset_to) = span;
            self.token = Token {
                offset_from,
                offset_to,
                position: offset_from,
                text,
                position_length: offset_to - offset_from,
            };
            self.index = self.index + 1;
            true
        } else {
            false
        }
    }

    /// The current token: the one made by the last successful `advance`, or
    /// the unset token before any.
    pub fn token(&self) -> (r: &Token)
        ensures
            *r == self@.token,
    {
        &self.token
    }

    /// The current token, to be rewritten in place by a later stage. Nothing
    /// else of the stream changes.
    pub fn token_mut(&mut self) -> (r: &mut Token)
        ensures
            *r == old(self)@.token,
            final(self)@ == (StreamView { token: *final(r), ..old(self)@ }),
    {
        &mut self.token
    }
}

} // verus!
