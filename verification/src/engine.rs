//! The highlighting engine: `syntect`, seen through a handful of contracts.
//!
//! Nothing in this file is proved. The types are opaque, the spec functions
//! without a body name what the engine returns or holds, and each function
//! makes exactly one call into the engine, under a contract that is taken on
//! trust.
//!
//! The engine panics, or does not come back, on a registry that is not well
//! built, so rendering asks for one that is. Only the two constructors here
//! vouch for that: one makes a registry with nothing in it, the other unpacks
//! the definitions that the engine ships. Of those one thing is assumed and
//! not shown, and the constructor says which.

use syntect::highlighting::Theme;
use syntect::parsing::{SyntaxReference, SyntaxSet};
use syntect::Error as EngineError;
use vstd::prelude::*;

verus! {

/// `syntect::parsing::SyntaxSet`: the registry of syntax definitions.
#[verifier::external_type_specification]
#[verifier::external_body]
pub struct ExSyntaxSet(syntect::parsing::SyntaxSet);

/// `syntect::parsing::SyntaxReference`: one syntax definition of a registry.
#[verifier::external_type_specification]
#[verifier::external_body]
pub struct ExSyntaxReference(syntect::parsing::SyntaxReference);

/// `syntect::highlighting::Theme`: the colours and styles of a rendering.
#[verifier::external_type_specification]
#[verifier::external_body]
pub struct ExTheme(syntect::highlighting::Theme);

/// `syntect::Error`: why the engine could not render a text.
#[verifier::external_type_specification]
#[verifier::external_body]
pub struct ExEngineError(EngineError);

/// Whether a registry is well built, so that the engine can parse with any
/// definition in it: every definition has the start context that a parse
/// begins in, every pattern compiles, also with the text that a
/// back-reference puts into it, the contexts it has stored read back as they
/// were written, and its grammars let every parse come to an end.
pub uninterp spec fn well_built(set: SyntaxSet) -> bool;

/// The syntax definitions that a registry holds.
pub uninterp spec fn syntaxes(set: SyntaxSet) -> Set<SyntaxReference>;

/// What `SyntaxSet::find_syntax_by_name` returns for a registry and a name.
pub uninterp spec fn syntax_named(set: SyntaxSet, name: Seq<char>) -> Option<SyntaxReference>;

/// What `SyntaxSet::find_syntax_by_token` returns for a registry and a
/// language token.
pub uninterp spec fn syntax_for_token(set: SyntaxSet, token: Seq<char>) -> Option<SyntaxReference>;

/// What `syntect::html::highlighted_html_for_string` returns for a text, a
/// registry, one of its syntax definitions and a theme.
pub uninterp spec fn rendered_html(
    text: Seq<char>,
    set: SyntaxSet,
    syntax: SyntaxReference,
    theme: Theme,
) -> Result<Seq<char>, EngineError>;

/// The name under which the engine keeps its plain-text definition.
pub open spec fn plain_text_name() -> Seq<char> {
    "Plain Text"@
}

/// Whether a registry holds a plain-text definition.
pub open spec fn holds_plain_text(set: SyntaxSet) -> bool {
    syntax_named(set, plain_text_name()) is Some
}

/// The plain-text definition of a registry that holds one.
pub open spec fn plain_text_syntax(set: SyntaxSet) -> SyntaxReference
    recommends
        holds_plain_text(set),
{
    syntax_named(set, plain_text_name())->Some_0
}

/// Calls `SyntaxSet::new`, which makes a registry without any definition.
/// Trusted: it is well built, there being nothing in it that could fail to be.
#[verifier::external_body]
pub(crate) fn empty_syntaxes() -> (set: SyntaxSet)
    ensures
        well_built(set),
{
    SyntaxSet::new()
}

/// Calls `SyntaxSet::load_defaults_newlines`, which unpacks the definitions
/// that come with the engine, for text whose lines end in a newline.
/// Trusted: the registry is well built. The engine's documentation has these
/// definitions packed by its own loader and builder, which give every
/// definition its start context and compile every pattern once. Two things
/// are assumed of them and not shown. That their grammars let every parse
/// come to an end: the engine stops a push and a pop that consume nothing
/// from following each other without end, not contexts that replace one
/// another. And that a pattern still compiles with the text that a
/// back-reference puts into it: the loader tries it with a stand-in.
#[verifier::external_body]
pub(crate) fn default_syntaxes_newlines() -> (set: SyntaxSet)
    ensures
        well_built(set),
{
    SyntaxSet::load_defaults_newlines()
}

/// Calls `SyntaxSet::find_syntax_by_name`. Trusted: the result is the named
/// one, and a definition that is found is one of the registry's own.
#[verifier::external_body]
pub(crate) fn find_by_name<'a>(set: &'a SyntaxSet, name: &str) -> (found: Option<&'a SyntaxReference>)
    ensures
        match found {
            Some(syntax) => syntax_named(*set, name@) == Some(*syntax) && syntaxes(*set).contains(
                *syntax,
            ),
            None => syntax_named(*set, name@) is None,
        },
{
    set.find_syntax_by_name(name)
}

/// Calls `SyntaxSet::find_syntax_plain_text`, which looks up the name
/// "Plain Text" and panics where no definition has it: hence the `requires`.
/// Trusted: the result is what the lookup by that name finds.
#[verifier::external_body]
pub(crate) fn find_plain_text<'a>(set: &'a SyntaxSet) -> (plain: &'a SyntaxReference)
    requires
        holds_plain_text(*set),
    ensures
        *plain == plain_text_syntax(*set),
        syntaxes(*set).contains(*plain),
{
    set.find_syntax_plain_text()
}

/// Calls `SyntaxSet::find_syntax_by_token`. Trusted: the result is the named
/// one, and a definition that is found is one of the registry's own.
#[verifier::external_body]
pub(crate) fn find_by_token<'a>(set: &'a SyntaxSet, token: &str) -> (found: Option<
    &'a SyntaxReference,
>)
    ensures
        match found {
            Some(syntax) => syntax_for_token(*set, token@) == Some(*syntax) && syntaxes(
                *set,
            ).contains(*syntax),
            None => syntax_for_token(*set, token@) is None,
        },
{
    set.find_syntax_by_token(token)
}

/// Calls `syntect::html::highlighted_html_for_string`. The engine panics on
/// a definition without its start context and on a pattern that does not
/// compile, does not come back where contexts replace one another without
/// end, and asks that the definition come from the registry it is used with:
/// hence the `requires`. Trusted: the result, page or failure, is the named
/// one.
#[verifier::external_body]
pub(crate) fn render_html(
    text: &str,
    set: &SyntaxSet,
    syntax: &SyntaxReference,
    theme: &Theme,
) -> (html: Result<String, EngineError>)
    requires
        well_built(*set),
        syntaxes(*set).contains(*syntax),
    ensures
        match html {
            Ok(page) => rendered_html(text@, *set, *syntax, *theme) == Ok::<
                Seq<char>,
                EngineError,
            >(page@),
            Err(failure) => rendered_html(text@, *set, *syntax, *theme) == Err::<
                Seq<char>,
                EngineError,
            >(failure),
        },
{
    syntect::html::highlighted_html_for_string(text, set, syntax, theme)
}

} // verus!
