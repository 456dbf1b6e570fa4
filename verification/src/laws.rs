//! What holds of every pass, stated over the model that the executable pass
//! is proved to compute.

use crate::engine::{plain_text_syntax, rendered_html, syntax_for_token};
use crate::event::{EventView, KindView};
use crate::lemmas::{
    lemma_block_matched, lemma_matched_concat, lemma_open_agrees, lemma_output_grows,
    lemma_output_delimits_nothing, lemma_run_block, lemma_run_concat, lemma_run_next, lemma_run_forwards,
    lemma_written, lemma_written_grows,
};
use crate::model::{
    code_block, ends_matched, forwards, highlighted, joined, no_code_blocks, position, resolves, run,
    select, start, Pass,
};
use syntect::highlighting::Theme;
use syntect::parsing::{SyntaxReference, SyntaxSet};
use syntect::Error as EngineError;
use vstd::prelude::*;

verus! {

/// A document without code blocks comes back as it went in: the same events
/// in the same order, and the engine is never asked.
pub proof fn passthrough<T>(set: SyntaxSet, theme: Theme, events: Seq<EventView<T>>)
    requires
        no_code_blocks(events),
    ensures
        ends_matched(events),
        highlighted(set, theme, events) == Ok::<Seq<EventView<T>>, EngineError>(events),
{
    lemma_run_forwards(set, theme, start::<T>(set), events);
    assert(start::<T>(set).output + events == events);
}

/// Whatever the document, the pass writes no start and no end of a code
/// block: what it writes is text, markup and events it did not interpret.
pub proof fn delimiters_consumed<T>(set: SyntaxSet, theme: Theme, events: Seq<EventView<T>>)
    requires
        highlighted(set, theme, events) is Ok,
    ensures
        no_code_blocks(highlighted(set, theme, events)->Ok_0),
{
    lemma_output_delimits_nothing(set, theme, start::<T>(set), events);
}

/// The document in which one page of markup stands where a code block stood.
pub open spec fn with_page<T>(
    before: Seq<EventView<T>>,
    page: Seq<char>,
    after: Seq<EventView<T>>,
) -> Seq<EventView<T>> {
    before.push(EventView::Html(page)) + after
}

/// In a document with one code block, the block's start, text and end give
/// way to exactly one `Html` event. It holds what the engine renders of the
/// block's text fragments, joined in order, under the syntax definition that
/// the block selects from the registry's plain-text definition. Where the
/// engine fails, so does the pass, with the same failure.
pub proof fn substitution<T>(
    set: SyntaxSet,
    theme: Theme,
    before: Seq<EventView<T>>,
    kind: KindView,
    fragments: Seq<Seq<char>>,
    after: Seq<EventView<T>>,
)
    requires
        no_code_blocks(before),
        no_code_blocks(after),
    ensures
        ends_matched(before + code_block::<T>(kind, fragments) + after),
        highlighted(set, theme, before + code_block::<T>(kind, fragments) + after)
            == match rendered_html(
            joined(fragments),
            set,
            select(set, plain_text_syntax(set), kind),
            theme,
        ) {
            Ok(page) => Ok::<Seq<EventView<T>>, EngineError>(with_page(before, page, after)),
            Err(failure) => Err(failure),
        },
{
    let block = code_block::<T>(kind, fragments);
    let first = start::<T>(set);
    lemma_block_matched::<T>(kind, fragments);
    lemma_matched_concat(before, block);
    lemma_matched_concat(before + block, after);

    lemma_run_concat(set, theme, first, before + block, after);
    lemma_run_concat(set, theme, first, before, block);
    lemma_run_forwards(set, theme, first, before);
    let reached = Pass { output: first.output + before, ..first };
    lemma_run_block(set, theme, reached, kind, fragments);
    assert(reached.buffer + joined(fragments) == joined(fragments));
    assert(first.output + before == before);
    match rendered_html(joined(fragments), set, select(set, plain_text_syntax(set), kind), theme) {
        Ok(page) => {
            let closed = run(set, theme, first, before + block)->Ok_0;
            lemma_run_forwards(set, theme, closed, after);
        },
        Err(_) => {},
    }
}

/// A fenced code block whose token the registry does not know is no failure:
/// the block is rendered under the registry's plain-text definition.
pub proof fn fallback<T>(
    set: SyntaxSet,
    theme: Theme,
    before: Seq<EventView<T>>,
    token: Seq<char>,
    fragments: Seq<Seq<char>>,
    after: Seq<EventView<T>>,
)
    requires
        no_code_blocks(before),
        no_code_blocks(after),
        syntax_for_token(set, token) is None,
    ensures
        highlighted(
            set,
            theme,
            before + code_block::<T>(KindView::Fenced(token), fragments) + after,
        ) == match rendered_html(joined(fragments), set, plain_text_syntax(set), theme) {
            Ok(page) => Ok::<Seq<EventView<T>>, EngineError>(with_page(before, page, after)),
            Err(failure) => Err(failure),
        },
{
    substitution(set, theme, before, KindView::Fenced(token), fragments, after);
}

/// Events that the pass forwards keep their order: of two such events, the
/// earlier one stands in the output before the later one, each as it came.
pub proof fn order_preserved<T>(
    set: SyntaxSet,
    theme: Theme,
    events: Seq<EventView<T>>,
    i: int,
    j: int,
)
    requires
        highlighted(set, theme, events) is Ok,
        0 <= i < j < events.len(),
        forwards(events, i),
        forwards(events, j),
    ensures
        position(events, i) < position(events, j) < highlighted(set, theme, events)->Ok_0.len(),
        highlighted(set, theme, events)->Ok_0[position(events, i) as int] == events[i],
        highlighted(set, theme, events)->Ok_0[position(events, j) as int] == events[j],
{
    forwarded_in_place(set, theme, events, i);
    forwarded_in_place(set, theme, events, j);
    lemma_written_grows(events, i + 1, j);
    assert(events.take(i + 1).drop_last() == events.take(i));
    assert(events.take(i + 1).take(i) == events.take(i));
}

/// An event that the pass forwards stands in the output at its position.
pub proof fn forwarded_in_place<T>(set: SyntaxSet, theme: Theme, events: Seq<EventView<T>>, i: int)
    requires
        highlighted(set, theme, events) is Ok,
        0 <= i < events.len(),
        forwards(events, i),
    ensures
        position(events, i) < highlighted(set, theme, events)->Ok_0.len(),
        highlighted(set, theme, events)->Ok_0[position(events, i) as int] == events[i],
{
    let first = start::<T>(set);
    let out = highlighted(set, theme, events)->Ok_0;
    lemma_output_grows(set, theme, first, events, i);
    lemma_output_grows(set, theme, first, events, i + 1);
    lemma_run_next(set, theme, first, events, i);
    lemma_written(set, theme, first, events.take(i));
    lemma_open_agrees(set, theme, first, events.take(i));
    let earlier = run(set, theme, first, events.take(i))->Ok_0;
    let later = run(set, theme, first, events.take(i + 1))->Ok_0;
    assert(later.output == earlier.output.push(events[i]));
    assert(later.output[earlier.output.len() as int] == events[i]);
}

/// What the pass makes of a document with two code blocks, given the syntax
/// definition that each of them is rendered under.
pub open spec fn two_pages<T>(
    set: SyntaxSet,
    theme: Theme,
    before: Seq<EventView<T>>,
    first: (SyntaxReference, Seq<Seq<char>>),
    between: Seq<EventView<T>>,
    second: (SyntaxReference, Seq<Seq<char>>),
    after: Seq<EventView<T>>,
) -> Result<Seq<EventView<T>>, EngineError> {
    match rendered_html(joined(first.1), set, first.0, theme) {
        Ok(page) => match rendered_html(joined(second.1), set, second.0, theme) {
            Ok(next) => Ok(with_page(before, page, between) + with_page(Seq::empty(), next, after)),
            Err(failure) => Err(failure),
        },
        Err(failure) => Err(failure),
    }
}

/// In a document with two code blocks, one after the other, each block gives
/// way to one page that holds its own text and nothing of the other's. The
/// first block selects its syntax definition from the registry's plain-text
/// definition; the second selects from what the first has selected, so a
/// second block that the registry finds nothing for is rendered as the first
/// was.
pub proof fn two_blocks<T>(
    set: SyntaxSet,
    theme: Theme,
    before: Seq<EventView<T>>,
    first: (KindView, Seq<Seq<char>>),
    between: Seq<EventView<T>>,
    second: (KindView, Seq<Seq<char>>),
    after: Seq<EventView<T>>,
)
    requires
        no_code_blocks(before),
        no_code_blocks(between),
        no_code_blocks(after),
    ensures
        ends_matched(
            before + code_block::<T>(first.0, first.1) + between + code_block::<T>(
                second.0,
                second.1,
            ) + after,
        ),
        highlighted(
            set,
            theme,
            before + code_block::<T>(first.0, first.1) + between + code_block::<T>(
                second.0,
                second.1,
            ) + after,
        ) == two_pages(
            set,
            theme,
            before,
            (select(set, plain_text_syntax(set), first.0), first.1),
            between,
            (select(set, select(set, plain_text_syntax(set), first.0), second.0), second.1),
            after,
        ),
{
    let head = before + code_block::<T>(first.0, first.1) + between;
    let block = code_block::<T>(second.0, second.1);
    let origin = start::<T>(set);
    let chosen = select(set, plain_text_syntax(set), first.0);
    substitution(set, theme, before, first.0, first.1, between);
    lemma_block_matched::<T>(second.0, second.1);
    lemma_matched_concat(head, block);
    passthrough(set, theme, after);
    lemma_matched_concat(head + block, after);

    lemma_run_concat(set, theme, origin, head + block, after);
    lemma_run_concat(set, theme, origin, head, block);
    lemma_run_concat(set, theme, origin, before + code_block::<T>(first.0, first.1), between);
    lemma_run_concat(set, theme, origin, before, code_block::<T>(first.0, first.1));
    lemma_run_forwards(set, theme, origin, before);
    let reached = Pass { output: origin.output + before, ..origin };
    lemma_run_block(set, theme, reached, first.0, first.1);
    assert(reached.buffer + joined(first.1) == joined(first.1));
    assert(origin.output + before == before);
    match rendered_html(joined(first.1), set, chosen, theme) {
        Ok(page) => {
            let closed = run(set, theme, origin, before + code_block::<T>(first.0, first.1))->Ok_0;
            lemma_run_forwards(set, theme, closed, between);
            let middle = run(set, theme, origin, head)->Ok_0;
            assert(middle.output == with_page(before, page, between));
            lemma_run_block(set, theme, middle, second.0, second.1);
            assert(middle.buffer + joined(second.1) == joined(second.1));
            match rendered_html(joined(second.1), set, select(set, chosen, second.0), theme) {
                Ok(next) => {
                    let done = run(set, theme, origin, head + block)->Ok_0;
                    lemma_run_forwards(set, theme, done, after);
                    assert(middle.output.push(EventView::Html(next)) + after == with_page(
                        before,
                        page,
                        between,
                    ) + with_page(Seq::empty(), next, after));
                },
                Err(_) => {},
            }
        },
        Err(_) => {},
    }
}

/// Two code blocks, one after the other, are highlighted independently: each
/// under the syntax definition that it alone selects from the registry's
/// plain-text definition. This holds where the registry finds a definition
/// for the second block, or the first block has left the plain-text
/// definition selected.
pub proof fn independence<T>(
    set: SyntaxSet,
    theme: Theme,
    before: Seq<EventView<T>>,
    first: (KindView, Seq<Seq<char>>),
    between: Seq<EventView<T>>,
    second: (KindView, Seq<Seq<char>>),
    after: Seq<EventView<T>>,
)
    requires
        no_code_blocks(before),
        no_code_blocks(between),
        no_code_blocks(after),
        resolves(set, second.0) || select(set, plain_text_syntax(set), first.0)
            == plain_text_syntax(set),
    ensures
        highlighted(
            set,
            theme,
            before + code_block::<T>(first.0, first.1) + between + code_block::<T>(
                second.0,
                second.1,
            ) + after,
        ) == two_pages(
            set,
            theme,
            before,
            (select(set, plain_text_syntax(set), first.0), first.1),
            between,
            (select(set, plain_text_syntax(set), second.0), second.1),
            after,
        ),
{
    two_blocks(set, theme, before, first, between, second, after);
}

} // verus!
