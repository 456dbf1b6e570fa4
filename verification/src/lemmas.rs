//! Facts about runs of the pass that the proofs elsewhere rest on.

use crate::engine::rendered_html;
use crate::event::{EventView, KindView};
use crate::model::{
    block_open, code_block, ends_matched, forwards, joined, no_code_blocks, run, select, step, text_events,
    written, Pass,
};
use syntect::Error as EngineError;
use syntect::highlighting::Theme;
use syntect::parsing::SyntaxSet;
use vstd::prelude::*;

verus! {

/// Going one event further is one more step.
pub proof fn lemma_run_next<T>(
    set: SyntaxSet,
    theme: Theme,
    from: Pass<T>,
    events: Seq<EventView<T>>,
    i: int,
)
    requires
        0 <= i < events.len(),
    ensures
        run(set, theme, from, events.take(i + 1)) == match run(set, theme, from, events.take(i)) {
            Ok(pass) => step(set, theme, pass, events[i]),
            Err(failure) => Err(failure),
        },
{
    assert(events.take(i + 1).drop_last() == events.take(i));
}

/// A failure, once met, is the outcome of every longer run.
pub proof fn lemma_failure_stays<T>(
    set: SyntaxSet,
    theme: Theme,
    from: Pass<T>,
    events: Seq<EventView<T>>,
    i: int,
)
    requires
        0 <= i <= events.len(),
        run(set, theme, from, events.take(i)) is Err,
    ensures
        run(set, theme, from, events) == run(set, theme, from, events.take(i)),
    decreases events.len() - i,
{
    if i == events.len() {
        assert(events.take(i) == events);
    } else {
        lemma_run_next(set, theme, from, events, i);
        lemma_failure_stays(set, theme, from, events, i + 1);
    }
}

/// A run that starts with no block open ends with one open exactly where the
/// events say so.
pub proof fn lemma_open_agrees<T>(
    set: SyntaxSet,
    theme: Theme,
    from: Pass<T>,
    events: Seq<EventView<T>>,
)
    requires
        !from.in_code_block,
        run(set, theme, from, events) is Ok,
    ensures
        run(set, theme, from, events)->Ok_0.in_code_block == block_open(events),
    decreases events.len(),
{
    if events.len() > 0 {
        lemma_open_agrees(set, theme, from, events.drop_last());
    }
}

/// A run over two sequences, one after the other, is a run over the first
/// and, from where that ends, a run over the second.
pub proof fn lemma_run_concat<T>(
    set: SyntaxSet,
    theme: Theme,
    from: Pass<T>,
    xs: Seq<EventView<T>>,
    ys: Seq<EventView<T>>,
)
    ensures
        run(set, theme, from, xs + ys) == match run(set, theme, from, xs) {
            Ok(pass) => run(set, theme, pass, ys),
            Err(failure) => Err(failure),
        },
    decreases ys.len(),
{
    if ys.len() == 0 {
        assert(xs + ys == xs);
    } else {
        assert((xs + ys).drop_last() == xs + ys.drop_last());
        lemma_run_concat(set, theme, from, xs, ys.drop_last());
    }
}

/// With no block open, events that neither open nor close one are written as
/// they came and leave the rest of the state alone.
pub proof fn lemma_run_forwards<T>(set: SyntaxSet, theme: Theme, from: Pass<T>, events: Seq<EventView<T>>)
    requires
        !from.in_code_block,
        no_code_blocks(events),
    ensures
        run(set, theme, from, events) == Ok::<Pass<T>, EngineError>(
            Pass { output: from.output + events, ..from },
        ),
    decreases events.len(),
{
    if events.len() == 0 {
        assert(from.output + events == from.output);
    } else {
        let shorter = events.drop_last();
        assert forall|i: int| 0 <= i < shorter.len() implies !(#[trigger] shorter[i]).delimits() by {
            assert(shorter[i] == events[i]);
        }
        lemma_run_forwards(set, theme, from, shorter);
        assert(!events[events.len() - 1].delimits());
        assert((from.output + shorter).push(events.last()) == from.output + events);
    }
}

/// Inside a code block, text events add their text to what is gathered and
/// leave the rest of the state alone.
pub proof fn lemma_run_texts<T>(
    set: SyntaxSet,
    theme: Theme,
    from: Pass<T>,
    fragments: Seq<Seq<char>>,
)
    requires
        from.in_code_block,
    ensures
        run(set, theme, from, text_events::<T>(fragments)) == Ok::<Pass<T>, EngineError>(
            Pass { buffer: from.buffer + joined(fragments), ..from },
        ),
    decreases fragments.len(),
{
    if fragments.len() == 0 {
        assert(from.buffer + joined(fragments) == from.buffer);
    } else {
        lemma_run_texts(set, theme, from, fragments.drop_last());
        assert(text_events::<T>(fragments).drop_last() == text_events::<T>(fragments.drop_last()));
        assert((from.buffer + joined(fragments.drop_last())) + fragments.last() == from.buffer
            + joined(fragments));
    }
}

/// A whole code block renders what was gathered before it together with its
/// own text, under the syntax definition that its start selects, and writes
/// the page as one event.
pub proof fn lemma_run_block<T>(
    set: SyntaxSet,
    theme: Theme,
    from: Pass<T>,
    kind: KindView,
    fragments: Seq<Seq<char>>,
)
    ensures
        run(set, theme, from, code_block::<T>(kind, fragments)) == match rendered_html(
            from.buffer + joined(fragments),
            set,
            select(set, from.syntax, kind),
            theme,
        ) {
            Ok(page) => Ok::<Pass<T>, EngineError>(
                Pass {
                    in_code_block: false,
                    syntax: select(set, from.syntax, kind),
                    buffer: Seq::empty(),
                    output: from.output.push(EventView::Html(page)),
                },
            ),
            Err(failure) => Err(failure),
        },
{
    let opening = seq![EventView::<T>::StartCodeBlock(kind)];
    let closing = seq![EventView::<T>::EndCodeBlock];
    let opened = Pass { in_code_block: true, syntax: select(set, from.syntax, kind), ..from };
    assert(run(set, theme, from, opening) == Ok::<Pass<T>, EngineError>(opened)) by {
        assert(opening.drop_last().len() == 0);
        assert(run(set, theme, from, opening.drop_last()) == Ok::<Pass<T>, EngineError>(from));
    }
    lemma_run_concat(set, theme, from, opening, text_events::<T>(fragments));
    lemma_run_texts(set, theme, opened, fragments);
    lemma_run_concat(set, theme, from, opening + text_events::<T>(fragments), closing);
    let gathered = Pass { buffer: from.buffer + joined(fragments), ..opened };
    assert(run(set, theme, gathered, closing) == step(set, theme, gathered, EventView::EndCodeBlock))
        by {
        assert(closing.drop_last().len() == 0);
        assert(run(set, theme, gathered, closing.drop_last()) == Ok::<Pass<T>, EngineError>(
            gathered,
        ));
    }
}

/// Events that neither open nor close a code block leave it open or closed
/// as it was.
pub proof fn lemma_open_unchanged<T>(xs: Seq<EventView<T>>, ys: Seq<EventView<T>>)
    requires
        no_code_blocks(ys),
    ensures
        block_open(xs + ys) == block_open(xs),
    decreases ys.len(),
{
    if ys.len() == 0 {
        assert(xs + ys == xs);
    } else {
        let shorter = ys.drop_last();
        assert forall|i: int| 0 <= i < shorter.len() implies !(#[trigger] shorter[i]).delimits() by {
            assert(shorter[i] == ys[i]);
        }
        assert((xs + ys).drop_last() == xs + shorter);
        assert(!ys[ys.len() - 1].delimits());
        lemma_open_unchanged(xs, shorter);
    }
}

/// A block that the later events open is open whatever came before them.
pub proof fn lemma_open_suffix<T>(xs: Seq<EventView<T>>, ys: Seq<EventView<T>>)
    requires
        block_open(ys),
    ensures
        block_open(xs + ys),
    decreases ys.len(),
{
    if ys.len() > 0 {
        assert((xs + ys).drop_last() == xs + ys.drop_last());
        if !ys.last().delimits() {
            lemma_open_suffix(xs, ys.drop_last());
        }
    }
}

/// Two documents whose ends are matched make, one after the other, a
/// document whose ends are matched.
pub proof fn lemma_matched_concat<T>(xs: Seq<EventView<T>>, ys: Seq<EventView<T>>)
    requires
        ends_matched(xs),
        ends_matched(ys),
    ensures
        ends_matched(xs + ys),
{
    let all = xs + ys;
    assert forall|i: int| 0 <= i < all.len() && all[i] is EndCodeBlock implies #[trigger] block_open(
        all.take(i),
    ) by {
        if i < xs.len() {
            assert(all.take(i) == xs.take(i));
            assert(xs[i] is EndCodeBlock);
        } else {
            let j = i - xs.len();
            assert(all.take(i) == xs + ys.take(j));
            assert(ys[j] is EndCodeBlock);
            lemma_open_suffix(xs, ys.take(j));
        }
    }
}

/// Text events neither open nor close a code block.
pub proof fn lemma_texts_delimit_nothing<T>(fragments: Seq<Seq<char>>)
    ensures
        no_code_blocks(text_events::<T>(fragments)),
{
}

/// A code block on its own is a document whose ends are matched, and leaves
/// no block open.
pub proof fn lemma_block_matched<T>(kind: KindView, fragments: Seq<Seq<char>>)
    ensures
        ends_matched(code_block::<T>(kind, fragments)),
        !block_open(code_block::<T>(kind, fragments)),
{
    let block = code_block::<T>(kind, fragments);
    let opening = seq![EventView::<T>::StartCodeBlock(kind)];
    let last = block.len() - 1;
    assert(block.take(last) == opening + text_events::<T>(fragments));
    lemma_texts_delimit_nothing::<T>(fragments);
    lemma_open_unchanged(opening, text_events::<T>(fragments));
    assert(block_open(opening));
    assert forall|i: int| 0 <= i < block.len() && block[i] is EndCodeBlock implies #[trigger] block_open(
        block.take(i),
    ) by {
        if i < last {
            if i > 0 {
                assert(block[i] == text_events::<T>(fragments)[i - 1]);
            }
        }
    }
}

/// A run that starts with no block open and does not fail has written as
/// many events more as the count says.
pub proof fn lemma_written<T>(set: SyntaxSet, theme: Theme, from: Pass<T>, events: Seq<EventView<T>>)
    requires
        !from.in_code_block,
        run(set, theme, from, events) is Ok,
    ensures
        run(set, theme, from, events)->Ok_0.output.len() == from.output.len() + written(events),
    decreases events.len(),
{
    if events.len() > 0 {
        let shorter = events.drop_last();
        lemma_written(set, theme, from, shorter);
        lemma_open_agrees(set, theme, from, shorter);
        assert(events.take(events.len() - 1) == shorter);
    }
}

/// What a run has written stays where it is while the run goes on.
pub proof fn lemma_output_grows<T>(
    set: SyntaxSet,
    theme: Theme,
    from: Pass<T>,
    events: Seq<EventView<T>>,
    k: int,
)
    requires
        0 <= k <= events.len(),
        run(set, theme, from, events) is Ok,
    ensures
        run(set, theme, from, events.take(k)) is Ok,
        run(set, theme, from, events.take(k))->Ok_0.output.is_prefix_of(
            run(set, theme, from, events)->Ok_0.output,
        ),
    decreases events.len() - k,
{
    if k == events.len() {
        assert(events.take(k) == events);
    } else {
        lemma_output_grows(set, theme, from, events, k + 1);
        lemma_run_next(set, theme, from, events, k);
    }
}

/// The count of written events does not go down as the document goes on.
pub proof fn lemma_written_grows<T>(events: Seq<EventView<T>>, i: int, j: int)
    requires
        0 <= i <= j <= events.len(),
    ensures
        written(events.take(i)) <= written(events.take(j)),
    decreases j - i,
{
    if i < j {
        lemma_written_grows(events, i, j - 1);
        assert(events.take(j).drop_last() == events.take(j - 1));
    }
}

/// A run writes no event that opens or closes a code block.
pub proof fn lemma_output_delimits_nothing<T>(set: SyntaxSet, theme: Theme, from: Pass<T>, events: Seq<EventView<T>>)
    requires
        no_code_blocks(from.output),
        run(set, theme, from, events) is Ok,
    ensures
        no_code_blocks(run(set, theme, from, events)->Ok_0.output),
    decreases events.len(),
{
    if events.len() > 0 {
        lemma_output_delimits_nothing(set, theme, from, events.drop_last());
        let earlier = run(set, theme, from, events.drop_last())->Ok_0.output;
        let later = run(set, theme, from, events)->Ok_0.output;
        assert forall|i: int| 0 <= i < later.len() implies !(#[trigger] later[i]).delimits() by {
            if i < earlier.len() {
                assert(later[i] == earlier[i]);
            }
        }
    }
}

} // verus!
