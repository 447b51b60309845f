//! The token-stream protocol: a lookahead cursor over a finalized token
//! sequence.
//!
//! The read discipline is part of the contracts: `read` consumes exactly one
//! token on success and none on failure; `conditional_read` consumes exactly
//! one token when it answers `true` and none when it answers `false`; `peek`
//! takes the receiver by shared reference, so no number of calls can move
//! the cursor.

use vstd::prelude::*;

use crate::error::{ErrorKind, TokenizationError};
use crate::token::{clone_token, token_discriminant_equal, token_variant_eq, Token};

verus! {

/// A cursor over a fully-lexed token sequence with unlimited lookahead.
pub struct TokenStream {
    pub tokens: Vec<Token>,
    pub pos: usize,
}

impl TokenStream {
    /// The cursor never stands past the end of the sequence.
    pub open spec fn wf(self) -> bool {
        self.pos <= self.tokens.len()
    }

    /// A stream at the start of the given tokens.
    pub fn new(tokens: Vec<Token>) -> (r: TokenStream)
        ensures
            r.tokens == tokens,
            r.pos == 0,
            r.wf(),
    {
        TokenStream { tokens, pos: 0 }
    }

    /// How many tokens are left to read.
    pub fn remaining(&self) -> (r: usize)
        requires
            self.wf(),
        ensures
            r == self.tokens.len() - self.pos,
    {
        self.tokens.len() - self.pos
    }

    /// A read-only look at the next token, `None` at the end of the stream.
    /// The receiver is shared, so peeking cannot advance the cursor.
    pub fn peek(&self) -> (r: Option<&Token>)
        requires
            self.wf(),
        ensures
            r matches Some(t) ==> self.pos < self.tokens.len() && *t == self.tokens@[
                self.pos as int
            ],
            r is None <==> self.pos == self.tokens.len(),
    {
        if self.pos < self.tokens.len() {
            Some(&self.tokens[self.pos])
        } else {
            None
        }
    }

    /// Step over the next token unconditionally.
    pub fn advance(&mut self)
        requires
            old(self).wf(),
            old(self).pos < old(self).tokens.len(),
        ensures
            final(self).tokens == old(self).tokens,
            final(self).pos == old(self).pos + 1,
            final(self).wf(),
    {
        self.pos += 1;
    }

    /// Consume and return the next token exactly when it matches `pattern`
    /// by variant identity; otherwise consume nothing and fail with a
    /// syntax error (an out-of-tokens error at the end of the stream).
    pub fn read(&mut self, pattern: &Token) -> (r: Result<Token, TokenizationError>)
        requires
            old(self).wf(),
        ensures
            final(self).tokens == old(self).tokens,
            final(self).wf(),
            r is Ok <==> old(self).pos < old(self).tokens.len() && token_variant_eq(
                old(self).tokens@[old(self).pos as int],
                *pattern,
            ),
            r matches Ok(t) ==> t@ == old(self).tokens@[old(self).pos as int]@ && final(self).pos
                == old(self).pos + 1,
            r is Err ==> final(self).pos == old(self).pos,
            r matches Err(e) ==> e.kind == ErrorKind::Syntax,
    {
        if self.pos < self.tokens.len() {
            if token_discriminant_equal(&self.tokens[self.pos], pattern) {
                let t = clone_token(&self.tokens[self.pos]);
                self.pos += 1;
                Ok(t)
            } else {
                Err(TokenizationError::of_kind(ErrorKind::Syntax, "unexpected token"))
            }
        } else {
            Err(TokenizationError::of_kind(ErrorKind::Syntax, "out of tokens"))
        }
    }

    /// Consume the next token and answer `true` exactly when it matches
    /// `pattern` by variant identity; otherwise leave the stream untouched
    /// and answer `false`.
    pub fn conditional_read(&mut self, pattern: &Token) -> (r: bool)
        requires
            old(self).wf(),
        ensures
            final(self).tokens == old(self).tokens,
            final(self).wf(),
            r == (old(self).pos < old(self).tokens.len() && token_variant_eq(
                old(self).tokens@[old(self).pos as int],
                *pattern,
            )),
            r ==> final(self).pos == old(self).pos + 1,
            !r ==> final(self).pos == old(self).pos,
    {
        if self.pos < self.tokens.len() {
            if token_discriminant_equal(&self.tokens[self.pos], pattern) {
                self.pos += 1;
                true
            } else {
                false
            }
        } else {
            false
        }
    }
}

} // verus!
