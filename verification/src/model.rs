//! The highlighting pass as a mathematical function.
//!
//! The pass reads the events from first to last and keeps a small state: is a
//! code block open, which syntax definition is selected, what text the open
//! block has gathered, and what has been written so far. Everything here is
//! specification; the executable pass is proved to compute it.

use crate::engine::{plain_text_syntax, rendered_html, syntax_for_token};
use crate::event::{EventView, KindView};
use syntect::highlighting::Theme;
use syntect::parsing::{SyntaxReference, SyntaxSet};
use syntect::Error as EngineError;
use vstd::prelude::*;

verus! {

/// The state of a pass between two events.
pub struct Pass<T> {
    /// A code block has been opened and not yet closed.
    pub in_code_block: bool,
    /// The syntax definition that the next rendering will use.
    pub syntax: SyntaxReference,
    /// The text gathered since the last rendering.
    pub buffer: Seq<char>,
    /// The events written so far.
    pub output: Seq<EventView<T>>,
}

/// The state in which every pass starts: no block open, the registry's
/// plain-text definition selected, nothing gathered and nothing written.
pub open spec fn start<T>(set: SyntaxSet) -> Pass<T> {
    Pass {
        in_code_block: false,
        syntax: plain_text_syntax(set),
        buffer: Seq::empty(),
        output: Seq::empty(),
    }
}

/// The syntax definition selected once a block of the given kind has opened:
/// the one that the registry finds for a fence's token, and otherwise the one
/// that was selected before.
pub open spec fn select(set: SyntaxSet, current: SyntaxReference, kind: KindView) -> SyntaxReference {
    match kind {
        KindView::Fenced(token) => match syntax_for_token(set, token) {
            Some(found) => found,
            None => current,
        },
        KindView::Indented => current,
    }
}

/// The state after one more event, or the engine's failure where the event
/// closes a block whose text the engine cannot render. An end that finds no
/// block open is not for the pass to see; here it counts like any other end.
pub open spec fn step<T>(set: SyntaxSet, theme: Theme, pass: Pass<T>, event: EventView<T>) -> Result<
    Pass<T>,
    EngineError,
> {
    match event {
        EventView::StartCodeBlock(kind) => Ok(
            Pass { in_code_block: true, syntax: select(set, pass.syntax, kind), ..pass },
        ),
        EventView::EndCodeBlock => match rendered_html(pass.buffer, set, pass.syntax, theme) {
            Ok(page) => Ok(
                Pass {
                    in_code_block: false,
                    buffer: Seq::empty(),
                    output: pass.output.push(EventView::Html(page)),
                    ..pass
                },
            ),
            Err(failure) => Err(failure),
        },
        EventView::Text(text) => if pass.in_code_block {
            Ok(Pass { buffer: pass.buffer + text, ..pass })
        } else {
            Ok(Pass { output: pass.output.push(event), ..pass })
        },
        _ => Ok(Pass { output: pass.output.push(event), ..pass }),
    }
}

/// The state after all the given events, taken in order from the given state,
/// or the first failure met on the way.
pub open spec fn run<T>(set: SyntaxSet, theme: Theme, from: Pass<T>, events: Seq<EventView<T>>) -> Result<
    Pass<T>,
    EngineError,
>
    decreases events.len(),
{
    if events.len() == 0 {
        Ok(from)
    } else {
        match run(set, theme, from, events.drop_last()) {
            Ok(pass) => step(set, theme, pass, events.last()),
            Err(failure) => Err(failure),
        }
    }
}

/// What the pass makes of a whole document: the events it writes, or the
/// first failure of the engine.
pub open spec fn highlighted<T>(set: SyntaxSet, theme: Theme, events: Seq<EventView<T>>) -> Result<
    Seq<EventView<T>>,
    EngineError,
> {
    match run(set, theme, start(set), events) {
        Ok(pass) => Ok(pass.output),
        Err(failure) => Err(failure),
    }
}

/// Whether a code block is open after the given events, going by the events
/// alone: the last one that opens or closes a block decides.
pub open spec fn block_open<T>(events: Seq<EventView<T>>) -> bool
    decreases events.len(),
{
    if events.len() == 0 {
        false
    } else {
        match events.last() {
            EventView::StartCodeBlock(_) => true,
            EventView::EndCodeBlock => false,
            _ => block_open(events.drop_last()),
        }
    }
}

/// Whether every event that closes a code block finds one open.
pub open spec fn ends_matched<T>(events: Seq<EventView<T>>) -> bool {
    forall|i: int|
        0 <= i < events.len() && events[i] is EndCodeBlock ==> #[trigger] block_open(
            events.take(i),
        )
}

/// The text events that carry the given fragments, in order.
pub open spec fn text_events<T>(fragments: Seq<Seq<char>>) -> Seq<EventView<T>> {
    fragments.map_values(|fragment: Seq<char>| EventView::<T>::Text(fragment))
}

/// The given fragments, one after the other, as one text.
pub open spec fn joined(fragments: Seq<Seq<char>>) -> Seq<char>
    decreases fragments.len(),
{
    if fragments.len() == 0 {
        Seq::empty()
    } else {
        joined(fragments.drop_last()) + fragments.last()
    }
}

/// A code block of the given kind whose text arrives in the given fragments:
/// its start, one text event for each fragment, and its end.
pub open spec fn code_block<T>(kind: KindView, fragments: Seq<Seq<char>>) -> Seq<EventView<T>> {
    seq![EventView::<T>::StartCodeBlock(kind)] + text_events::<T>(fragments)
        + seq![EventView::<T>::EndCodeBlock]
}

/// Whether no event of the sequence opens or closes a code block.
pub open spec fn no_code_blocks<T>(events: Seq<EventView<T>>) -> bool {
    forall|i: int| 0 <= i < events.len() ==> !(#[trigger] events[i]).delimits()
}

/// Whether the pass writes the event at the given place as it came: it does
/// unless the event opens or closes a code block, or is text inside one.
pub open spec fn forwards<T>(events: Seq<EventView<T>>, i: int) -> bool
    recommends
        0 <= i < events.len(),
{
    !events[i].delimits() && (events[i] is Text ==> !block_open(events.take(i)))
}

/// How many events a pass that does not fail writes for the given events: one
/// for each that it forwards and one for each end of a code block.
pub open spec fn written<T>(events: Seq<EventView<T>>) -> nat
    decreases events.len(),
{
    if events.len() == 0 {
        0
    } else if forwards(events, events.len() - 1) || events.last() is EndCodeBlock {
        written(events.drop_last()) + 1
    } else {
        written(events.drop_last())
    }
}

/// Where in the output the pass writes what it makes of the event at the
/// given place: behind all that it has written for the events before it.
pub open spec fn position<T>(events: Seq<EventView<T>>, i: int) -> nat
    recommends
        0 <= i < events.len(),
{
    written(events.take(i))
}

/// Whether the registry finds a syntax definition for a block of this kind.
pub open spec fn resolves(set: SyntaxSet, kind: KindView) -> bool {
    kind matches KindView::Fenced(token) && syntax_for_token(set, token) is Some
}

} // verus!
