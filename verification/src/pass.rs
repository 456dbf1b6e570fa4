//! The executable pass.

use crate::engine::{
    find_by_name, find_by_token, find_plain_text, holds_plain_text, render_html, syntaxes,
    well_built,
};
use crate::error::Error;
use crate::event::{views, CodeBlockKind, Event, EventView};
use crate::lemmas::{lemma_failure_stays, lemma_open_agrees, lemma_run_next};
use crate::model::{block_open, ends_matched, highlighted, run, start, Pass};
use crate::registry::Registry;
use syntect::highlighting::Theme;
use syntect::parsing::{SyntaxReference, SyntaxSet};
use syntect::Error as EngineError;
use vstd::prelude::*;
use vstd::string::StringExecFns;

verus! {

/// Whether a pass returned the given outcome: the same events view for view,
/// or the same failure of the engine, wrapped as [`Error::HighlightError`].
pub open spec fn is_outcome<T>(
    result: Result<Vec<Event<T>>, Error>,
    outcome: Result<Seq<EventView<T>>, EngineError>,
) -> bool {
    match result {
        Ok(written) => outcome == Ok::<Seq<EventView<T>>, EngineError>(views(written@)),
        Err(error) => error matches Error::HighlightError(failure) && outcome == Err::<
            Seq<EventView<T>>,
            EngineError,
        >(failure),
    }
}

/// Replaces every code block of a document by its highlighted markup.
///
/// The events are read once, in order. The text between the start and the end
/// of a code block is gathered and handed to the engine when the block
/// closes; the page that comes back is written as one `Html` event in the
/// block's place. A fenced block selects the syntax definition that the
/// registry finds for its token; where it finds none, and for an indented
/// block, the definition selected before stays, which at first is the
/// registry's plain-text definition. Every other event is written as it came.
///
/// If the engine fails on a block, its failure is returned and no events are.
///
/// The registry has to be well built, which a [`Registry`] is, and to hold a
/// plain-text definition; and no end of a code block may come while none is
/// open. [`try_highlight`] asks for nothing and tests what can be tested.
pub fn highlight<T>(syntax_set: &SyntaxSet, theme: &Theme, events: Vec<Event<T>>) -> (result: Result<
    Vec<Event<T>>,
    Error,
>)
    requires
        well_built(*syntax_set),
        holds_plain_text(*syntax_set),
        ends_matched(views(events@)),
    ensures
        is_outcome(result, highlighted(*syntax_set, *theme, views(events@))),
{
    let mut in_code_block = false;
    let mut syntax: &SyntaxReference = find_plain_text(syntax_set);
    let mut to_highlight = String::new();
    let mut out_events: Vec<Event<T>> = Vec::new();
    let ghost all = views(events@);
    let ghost first = start::<T>(*syntax_set);
    proof {
        assert(views(out_events@) == first.output);
        assert(all.take(0).len() == 0);
    }

    for event in iter: events
        invariant
            views(iter.seq()) == all,
            ends_matched(all),
            well_built(*syntax_set),
            first == start::<T>(*syntax_set),
            syntaxes(*syntax_set).contains(*syntax),
            run(*syntax_set, *theme, first, all.take(iter.index())) == Ok::<Pass<T>, EngineError>(
                Pass {
                    in_code_block,
                    syntax: *syntax,
                    buffer: to_highlight@,
                    output: views(out_events@),
                },
            ),
    {
        let ghost at = iter.index();
        let ghost before = Pass {
            in_code_block,
            syntax: *syntax,
            buffer: to_highlight@,
            output: views(out_events@),
        };
        proof {
            assert(all[at] == event@);
            lemma_run_next(*syntax_set, *theme, first, all, at);
        }
        match event {
            Event::StartCodeBlock(kind) => {
                match kind {
                    CodeBlockKind::Fenced(lang) => {
                        match find_by_token(syntax_set, lang.as_str()) {
                            Some(found) => {
                                syntax = found;
                            },
                            None => {},
                        }
                    },
                    CodeBlockKind::Indented => {},
                }
                in_code_block = true;
            },
            Event::EndCodeBlock => {
                proof {
                    lemma_open_agrees(*syntax_set, *theme, first, all.take(at));
                }
                assert(in_code_block);
                match render_html(to_highlight.as_str(), syntax_set, syntax, theme) {
                    Ok(html) => {
                        to_highlight = String::new();
                        in_code_block = false;
                        out_events.push(Event::Html(html));
                        assert(views(out_events@) == before.output.push(EventView::Html(html@)));
                    },
                    Err(failure) => {
                        proof {
                            lemma_failure_stays(*syntax_set, *theme, first, all, at + 1);
                        }
                        return Err(Error::from(failure));
                    },
                }
            },
            Event::Text(t) => {
                if in_code_block {
                    to_highlight.append(t.as_str());
                } else {
                    out_events.push(Event::Text(t));
                    assert(views(out_events@) == before.output.push(EventView::Text(t@)));
                }
            },
            e => {
                let ghost forwarded = e@;
                out_events.push(e);
                assert(views(out_events@) == before.output.push(forwarded));
            },
        }
    }
    proof {
        assert(all.take(all.len() as int) == all);
    }
    Ok(out_events)
}

/// Whether the registry holds a plain-text definition, which every pass
/// starts from.
pub fn has_plain_text(syntax_set: &SyntaxSet) -> (held: bool)
    ensures
        held == holds_plain_text(*syntax_set),
{
    find_by_name(syntax_set, "Plain Text").is_some()
}

/// The place of the first end of a code block that finds no block open, if
/// there is one. The events before that place make a document that
/// [`highlight`] takes; so does the whole document where there is none.
pub fn first_unmatched_end<T>(events: &Vec<Event<T>>) -> (found: Option<usize>)
    ensures
        match found {
            Some(at) => {
                &&& at < events.len()
                &&& events[at as int]@ is EndCodeBlock
                &&& !block_open(views(events@).take(at as int))
                &&& ends_matched(views(events@).take(at as int))
            },
            None => ends_matched(views(events@)),
        },
{
    let ghost all = views(events@);
    let mut open = false;
    let mut i: usize = 0;
    while i < events.len()
        invariant
            i <= events.len(),
            all == views(events@),
            open == block_open(all.take(i as int)),
            ends_matched(all.take(i as int)),
        decreases events.len() - i,
    {
        let ghost seen = all.take(i as int);
        let ghost next = all.take(i + 1);
        proof {
            assert(next.drop_last() == seen);
            assert(all[i as int] == events[i as int]@);
        }
        match &events[i] {
            Event::StartCodeBlock(_) => {
                open = true;
            },
            Event::EndCodeBlock => {
                if !open {
                    return Some(i);
                }
                open = false;
            },
            _ => {},
        }
        proof {
            assert forall|j: int| 0 <= j < next.len() && next[j] is EndCodeBlock implies #[trigger] block_open(
                next.take(j),
            ) by {
                assert(next.take(j) == seen.take(j));
                if j < i {
                    assert(seen[j] is EndCodeBlock);
                }
            }
        }
        i += 1;
    }
    proof {
        assert(all.take(i as int) == all);
    }
    None
}

/// [`highlight`] for a caller who has established nothing: `None` where the
/// registry holds no plain-text definition or an end of a code block comes
/// while none is open, and otherwise what [`highlight`] returns.
pub fn try_highlight<T>(registry: &Registry, theme: &Theme, events: Vec<Event<T>>) -> (result: Option<
    Result<Vec<Event<T>>, Error>,
>)
    ensures
        result is Some <==> holds_plain_text(registry.syntax_set()) && ends_matched(
            views(events@),
        ),
        result matches Some(returned) ==> is_outcome(
            returned,
            highlighted(registry.syntax_set(), *theme, views(events@)),
        ),
{
    let syntax_set = registry.as_syntax_set();
    if has_plain_text(syntax_set) && first_unmatched_end(&events).is_none() {
        Some(highlight(syntax_set, theme, events))
    } else {
        None
    }
}

/// A registry and a theme, set up once and used for any number of documents.
pub struct PulldownHighlighter<'a> {
    syntaxset: SyntaxSet,
    theme: &'a Theme,
}

impl<'a> PulldownHighlighter<'a> {
    /// The registry that this highlighter looks syntax definitions up in.
    pub closed spec fn syntax_set(&self) -> SyntaxSet {
        self.syntaxset
    }

    /// The theme that this highlighter renders with.
    pub closed spec fn theme(&self) -> Theme {
        *self.theme
    }

    /// A highlighter that owns the registry and borrows the theme.
    pub fn new(syntaxset: SyntaxSet, theme: &'a Theme) -> (highlighter: PulldownHighlighter<'a>)
        ensures
            highlighter.syntax_set() == syntaxset,
            highlighter.theme() == *theme,
    {
        PulldownHighlighter { syntaxset, theme }
    }

    /// [`highlight`] with this highlighter's registry and theme.
    pub fn highlight<T>(&self, events: Vec<Event<T>>) -> (result: Result<Vec<Event<T>>, Error>)
        requires
            well_built(self.syntax_set()),
            holds_plain_text(self.syntax_set()),
            ends_matched(views(events@)),
        ensures
            is_outcome(result, highlighted(self.syntax_set(), self.theme(), views(events@))),
    {
        highlight(&self.syntaxset, self.theme, events)
    }
}

} // verus!
