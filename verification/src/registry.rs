//! Registries that the pass can rely on.

use crate::engine::{default_syntaxes_newlines, empty_syntaxes, well_built};
use syntect::parsing::SyntaxSet;
use vstd::prelude::*;

verus! {

/// A registry of syntax definitions that is well built, so that the engine
/// neither panics nor goes on for ever when it parses with one of them. It
/// is so because it can only be made here, in the ways that make such a one.
pub struct Registry {
    set: SyntaxSet,
}

impl Registry {
    #[verifier::type_invariant]
    spec fn sound(self) -> bool {
        well_built(self.set)
    }

    /// The registry inside.
    pub closed spec fn syntax_set(self) -> SyntaxSet {
        self.set
    }

    /// A registry without any definition. It holds no plain-text definition
    /// either, so no document can be highlighted with it.
    pub fn new() -> (registry: Registry)
        ensures
            well_built(registry.syntax_set()),
    {
        Registry { set: empty_syntaxes() }
    }

    /// The registry of the definitions that come with the engine, for text
    /// whose lines end in a newline.
    pub fn load_defaults_newlines() -> (registry: Registry)
        ensures
            well_built(registry.syntax_set()),
    {
        Registry { set: default_syntaxes_newlines() }
    }

    /// The registry inside, which is well built.
    pub fn as_syntax_set(&self) -> (set: &SyntaxSet)
        ensures
            *set == self.syntax_set(),
            well_built(*set),
    {
        proof {
            use_type_invariant(self);
        }
        &self.set
    }

    /// The registry inside, which is well built.
    pub fn into_syntax_set(self) -> (set: SyntaxSet)
        ensures
            set == self.syntax_set(),
            well_built(set),
    {
        proof {
            use_type_invariant(&self);
        }
        self.set
    }
}

} // verus!
