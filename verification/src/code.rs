//! Code blocks attached to functions.
//!
//! After parsing, a function's body is a token tree together with the
//! declared effect of the body.  Only what the engine's surroundings read
//! from these values is modeled here: the effect decides whether the body
//! may reach a suspension point (and so whether `check_await` calls are
//! possible at all), and a token tree knows which file it came from.

use vstd::prelude::*;

verus! {

/// The declared effect of a function body: a plain body evaluates
/// synchronously, an `async` body may suspend, which makes the engine's
/// await checks reachable.
#[derive(Clone, Copy, Debug, PartialEq, Eq, Hash, Structural)]
pub enum Effect {
    Default,
    Async,
}

/// An interned file name.
#[derive(Clone, Copy, Debug, PartialEq, Eq, Hash, Structural)]
pub struct Filename {
    pub word: u64,
}

/// A tree of tokens from one source file; the file it came from is all
/// the engine's surroundings ever ask of it.
#[derive(Clone, Copy, Debug, PartialEq, Eq, Hash, Structural)]
pub struct TokenTree {
    pub filename: Filename,
}

/// A block of code attached to a function: its declared effect, the
/// tokens of its parameter list (once parsed), and the tokens of its
/// body.
#[derive(Clone, Copy, Debug, PartialEq, Eq, Hash, Structural)]
pub struct Code {
    /// Declared effect for the function body -- an `async fn` has
    /// `Async` here.  This can affect validation and code generation.
    pub effect: Effect,

    /// Tokens for the parameter list, present once the syntax tree has
    /// been generated.
    pub parameter_tokens: Option<TokenTree>,

    /// Tokens for the body.
    pub body_tokens: TokenTree,
}

impl Code {
    pub fn new(effect: Effect, parameter_tokens: Option<TokenTree>, body_tokens: TokenTree) -> (c:
        Code)
        ensures
            c == (Code { effect, parameter_tokens, body_tokens }),
    {
        Code { effect, parameter_tokens, body_tokens }
    }

    /// The file this code was parsed from: the body's file.
    pub fn filename(self) -> (f: Filename)
        ensures
            f == self.body_tokens.filename,
    {
        self.body_tokens.filename
    }
}

} // verus!
