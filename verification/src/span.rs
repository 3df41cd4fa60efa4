//! Classified text spans: the pieces of a round's target, tagged by how they
//! should be displayed (pending text, correctly typed text, missed text).

use vstd::prelude::*;

verus! {

/// How a piece of the target text is classified for display.
#[derive(Debug, Clone, Copy, PartialEq, Eq, Structural)]
pub enum SpanType {
    DEFAULT,
    HIT,
    MISS,
}

impl Default for SpanType {
    fn default() -> (r: Self)
        ensures
            r == SpanType::DEFAULT,
    {
        SpanType::DEFAULT
    }
}

/// A run of characters together with its display classification.
#[derive(Debug)]
pub struct TextSpan {
    pub span_type: SpanType,
    pub text: String,
}

impl Default for TextSpan {
    fn default() -> (r: Self)
        ensures
            r.span_type == SpanType::DEFAULT,
            r.text@ == Seq::<char>::empty(),
    {
        TextSpan { span_type: SpanType::DEFAULT, text: String::new() }
    }
}

impl TextSpan {
    pub fn new(span_type: SpanType, text: String) -> (r: Self)
        ensures
            r.span_type == span_type,
            r.text == text,
    {
        TextSpan { span_type, text }
    }

    pub fn default_with_text(text: String) -> (r: Self)
        ensures
            r.span_type == SpanType::DEFAULT,
            r.text == text,
    {
        TextSpan { span_type: SpanType::DEFAULT, text }
    }

    pub fn hit(value: String) -> (r: Self)
        ensures
            r.span_type == SpanType::HIT,
            r.text == value,
    {
        TextSpan { span_type: SpanType::HIT, text: value }
    }

    pub fn miss(value: String) -> (r: Self)
        ensures
            r.span_type == SpanType::MISS,
            r.text == value,
    {
        TextSpan { span_type: SpanType::MISS, text: value }
    }
}

} // verus!
