//! The events of a parsed document, as far as the highlighting pass reads them.

use vstd::prelude::*;

verus! {

/// How a code block was written in the document.
#[derive(Debug, PartialEq, Eq)]
pub enum CodeBlockKind {
    /// Between fences, with the language token that follows the opening fence.
    Fenced(String),
    /// By indentation, with no word on its language.
    Indented,
}

/// One event of a parsed document.
///
/// The pass interprets the first three variants and writes the fourth.
/// Whatever else the document's parser produces travels in `Other`, which the
/// pass forwards without looking inside.
#[derive(Debug, PartialEq, Eq)]
pub enum Event<T> {
    /// A code block opens.
    StartCodeBlock(CodeBlockKind),
    /// The open code block closes.
    EndCodeBlock,
    /// A run of text.
    Text(String),
    /// A fragment of finished markup.
    Html(String),
    /// Any other event.
    Other(T),
}

/// A code block's kind as a mathematical value.
pub enum KindView {
    Fenced(Seq<char>),
    Indented,
}

/// An event as a mathematical value: strings are sequences of characters.
pub enum EventView<T> {
    StartCodeBlock(KindView),
    EndCodeBlock,
    Text(Seq<char>),
    Html(Seq<char>),
    Other(T),
}

impl View for CodeBlockKind {
    type V = KindView;

    open spec fn view(&self) -> KindView {
        match self {
            CodeBlockKind::Fenced(token) => KindView::Fenced(token@),
            CodeBlockKind::Indented => KindView::Indented,
        }
    }
}

impl<T> View for Event<T> {
    type V = EventView<T>;

    open spec fn view(&self) -> EventView<T> {
        match self {
            Event::StartCodeBlock(kind) => EventView::StartCodeBlock(kind@),
            Event::EndCodeBlock => EventView::EndCodeBlock,
            Event::Text(text) => EventView::Text(text@),
            Event::Html(markup) => EventView::Html(markup@),
            Event::Other(payload) => EventView::Other(*payload),
        }
    }
}

impl Clone for CodeBlockKind {
    /// A copy that is equal to the original.
    fn clone(&self) -> (copy: CodeBlockKind)
        ensures
            copy == *self,
    {
        match self {
            CodeBlockKind::Fenced(token) => CodeBlockKind::Fenced(token.clone()),
            CodeBlockKind::Indented => CodeBlockKind::Indented,
        }
    }
}

impl<T: Clone> Clone for Event<T> {
    /// A copy that is equal to the original, but for what `Other` carries:
    /// that is whatever its own `clone` makes of it.
    fn clone(&self) -> (copy: Event<T>)
        ensures
            match *self {
                Event::Other(payload) => copy matches Event::Other(copied) && cloned(
                    payload,
                    copied,
                ),
                _ => copy == *self,
            },
    {
        match self {
            Event::StartCodeBlock(kind) => Event::StartCodeBlock(kind.clone()),
            Event::EndCodeBlock => Event::EndCodeBlock,
            Event::Text(text) => Event::Text(text.clone()),
            Event::Html(markup) => Event::Html(markup.clone()),
            Event::Other(payload) => Event::Other(payload.clone()),
        }
    }
}

/// A sequence of events as the sequence of their views.
pub open spec fn views<T>(events: Seq<Event<T>>) -> Seq<EventView<T>> {
    events.map_values(|event: Event<T>| event@)
}

impl<T> EventView<T> {
    /// Whether the event opens or closes a code block.
    pub open spec fn delimits(self) -> bool {
        self is StartCodeBlock || self is EndCodeBlock
    }
}

} // verus!
