use std::collections::VecDeque;

use vstd::prelude::*;

use super::token::{eof_token, eof_token_spec, RawToken, Token, TokenKind};
use super::token_text::kind_text;
use crate::common::error::{AiScriptBasicError, AiScriptBasicErrorKind, EngineResult};
use crate::common::position::Position;

verus! {

/// The token under the cursor: the first one left, or end of input.
pub open spec fn current_token(ts: Seq<Token>) -> Token {
    if ts.len() == 0 {
        eof_token_spec()
    } else {
        ts[0]
    }
}

/// The tokens left after the cursor moves on by one.
pub open spec fn advance(ts: Seq<Token>) -> Seq<Token> {
    if ts.len() == 0 {
        ts
    } else {
        ts.drop_first()
    }
}

/// The token `offset` places after the cursor, or end of input.
pub open spec fn token_at(ts: Seq<Token>, offset: int) -> Token {
    if 0 <= offset < ts.len() {
        ts[offset]
    } else {
        eof_token_spec()
    }
}

/// Whether the variant number `tag` is that of one of `kinds`.
pub open spec fn tag_in(tag: u8, kinds: Seq<TokenKind>) -> bool {
    exists|i: int| 0 <= i < kinds.len() && #[trigger] kinds[i].tag_spec() == tag
}

/// The tokens left once all leading tokens of the given kinds are skipped.
pub open spec fn skip_spec(ts: Seq<Token>, kinds: Seq<TokenKind>) -> Seq<Token>
    decreases ts.len(),
{
    if ts.len() > 0 && tag_in(ts[0].kind.tag_spec(), kinds) {
        skip_spec(ts.drop_first(), kinds)
    } else {
        ts
    }
}

/// Skipping never lengthens the tokens left, and shortens them when the first is skipped.
pub proof fn lemma_skip_spec_len(ts: Seq<Token>, kinds: Seq<TokenKind>)
    requires
        !tag_in(TokenKind::EOF.tag_spec(), kinds),
    ensures
        skip_spec(ts, kinds).len() <= ts.len(),
        tag_in(current_token(ts).kind.tag_spec(), kinds) ==> skip_spec(ts, kinds).len() < ts.len(),
    decreases ts.len(),
{
    if ts.len() > 0 {
        lemma_skip_spec_len(ts.drop_first(), kinds);
    }
}

/// Skipping stops on a token of none of the kinds skipped.
pub proof fn lemma_skip_spec_stops(ts: Seq<Token>, kinds: Seq<TokenKind>)
    requires
        !tag_in(TokenKind::EOF.tag_spec(), kinds),
    ensures
        !tag_in(current_token(skip_spec(ts, kinds)).kind.tag_spec(), kinds),
    decreases ts.len(),
{
    if ts.len() > 0 && tag_in(ts[0].kind.tag_spec(), kinds) {
        lemma_skip_spec_stops(ts.drop_first(), kinds);
    }
}

/// Whether the cursor is on a token of the same kind as `kind`.
pub open spec fn at_kind(ts: Seq<Token>, kind: TokenKind) -> bool {
    current_token(ts).kind.tag_spec() == kind.tag_spec()
}

/// The text of the error for an unexpected token of kind `kind`.
pub open spec fn unexpected_message(kind: TokenKind) -> Seq<char> {
    "unexpected token: "@ + kind_text(kind)
}

/// The text of the error for an unexpected token of kind `kind`.
pub fn unexpected_token_message(kind: &TokenKind) -> (r: String)
    ensures
        r@ == unexpected_message(*kind),
{
    let mut r = "unexpected token: ".to_owned();
    r.append(kind.debug_text().as_str());
    r
}

/// Whether the kind of `kind` is one of `kinds`.
pub fn kind_in(kind: &TokenKind, kinds: &[TokenKind]) -> (r: bool)
    ensures
        r == tag_in(kind.tag_spec(), kinds@),
{
    let mut i: usize = 0;
    while i < kinds.len()
        invariant
            i <= kinds@.len(),
            forall|j: int| 0 <= j < i ==> kinds@[j].tag_spec() != kind.tag_spec(),
        decreases kinds@.len() - i,
    {
        if kinds[i].same_kind(kind) {
            return true;
        }
        i = i + 1;
    }
    false
}

/// Reading tokens: a cursor over a sequence of tokens.
pub trait ITokenStream {
    /// The tokens from the cursor on.
    spec fn remaining(&self) -> Seq<Token>;

    /// Whether taking a token from the stream cannot fail (a stream over tokens already
    /// read cannot; one that reads them from a source may).
    spec fn reliable(&self) -> bool;

    /// The token under the cursor.
    fn get_token(&self) -> (r: &Token)
        ensures
            *r == current_token(self.remaining()),
    ;

    /// Takes the token under the cursor and moves the cursor to the next one.
    fn next(&mut self) -> (r: EngineResult<Token>)
        ensures
            r matches Ok(t) ==> {
                &&& t == current_token(old(self).remaining())
                &&& final(self).remaining() == advance(old(self).remaining())
            },
            r is Err ==> final(self).remaining().len() <= old(self).remaining().len(),
            old(self).reliable() ==> r is Ok && final(self).reliable(),
    ;

    /// Looks ahead by `offset` tokens without moving the cursor.
    fn lookahead(&self, offset: usize) -> (r: &Token)
        ensures
            *r == token_at(self.remaining(), offset as int),
    ;

    /// The kind of the token under the cursor.
    fn get_token_kind(&self) -> (r: &TokenKind)
        ensures
            *r == current_token(self.remaining()).kind,
    {
        &self.get_token().kind
    }

    /// The position of the token under the cursor.
    fn get_pos(&self) -> (r: Position)
        ensures
            r == current_token(self.remaining()).pos,
    {
        self.get_token().pos
    }

    /// Moves the cursor on while the token under it is of one of `kinds`.
    fn skip_while(&mut self, kinds: &[TokenKind]) -> (r: EngineResult<()>)
        requires
            !tag_in(TokenKind::EOF.tag_spec(), kinds@),
        ensures
            r is Ok ==> final(self).remaining() == skip_spec(old(self).remaining(), kinds@),
            final(self).remaining().len() <= old(self).remaining().len(),
            r is Ok && tag_in(current_token(old(self).remaining()).kind.tag_spec(), kinds@)
                ==> final(self).remaining().len() < old(self).remaining().len(),
            old(self).reliable() ==> r is Ok && final(self).reliable(),
    {
        proof {
            lemma_skip_spec_len(self.remaining(), kinds@);
        }
        while kind_in(self.get_token_kind(), kinds)
            invariant
                !tag_in(TokenKind::EOF.tag_spec(), kinds@),
                skip_spec(self.remaining(), kinds@) == skip_spec(old(self).remaining(), kinds@),
                self.remaining().len() <= old(self).remaining().len(),
                old(self).reliable() ==> self.reliable(),
            decreases self.remaining().len(),
        {
            let ghost before = self.remaining();
            self.next()?;
            assert(before.len() > 0);
        }
        Ok(())
    }

    /// The error for the token under the cursor being unexpected.
    fn unexpected_token(&self) -> (r: AiScriptBasicError)
        ensures
            r.kind == AiScriptBasicErrorKind::Syntax,
            r.message@ == unexpected_message(current_token(self.remaining()).kind),
            r.pos == Some(current_token(self.remaining()).pos),
    {
        let token = self.get_token();
        AiScriptBasicError::new(
            AiScriptBasicErrorKind::Syntax,
            unexpected_token_message(&token.kind),
            Some(token.pos),
        )
    }

    /// Takes the token under the cursor if it is of the kind of `expected`;
    /// otherwise fails with an unexpected-token error.
    fn expect_and_next(&mut self, expected: &TokenKind) -> (r: EngineResult<Token>)
        ensures
            at_kind(old(self).remaining(), *expected) ==> {
                &&& r matches Ok(t) ==> {
                    &&& t == current_token(old(self).remaining())
                    &&& final(self).remaining() == advance(old(self).remaining())
                }
                &&& r is Err ==> final(self).remaining().len() <= old(self).remaining().len()
            },
            !at_kind(old(self).remaining(), *expected) ==> {
                &&& r matches Err(e) && e.kind == AiScriptBasicErrorKind::Syntax && e.message@
                    == unexpected_message(current_token(old(self).remaining()).kind) && e.pos
                    == Some(current_token(old(self).remaining()).pos)
                &&& final(self).remaining() == old(self).remaining()
            },
            old(self).reliable() ==> final(self).reliable() && (r is Ok <==> at_kind(
                old(self).remaining(),
                *expected,
            )),
    {
        if self.get_token_kind().same_kind(expected) {
            self.next()
        } else {
            Err(self.unexpected_token())
        }
    }

    /// Takes the token under the cursor if it is an identifier.
    fn optional_identifer(&mut self) -> (r: EngineResult<Option<RawToken>>)
        ensures
            current_token(old(self).remaining()).kind is Identifier ==> {
                &&& r matches Ok(o) ==> {
                    &&& o is Some
                    &&& current_token(old(self).remaining()).kind == TokenKind::Identifier(
                        o->0.raw,
                    )
                    &&& o->0.pos == current_token(old(self).remaining()).pos
                    &&& o->0.has_left_spacing == current_token(
                        old(self).remaining(),
                    ).has_left_spacing
                    &&& final(self).remaining() == advance(old(self).remaining())
                }
                &&& r is Err ==> final(self).remaining().len() <= old(self).remaining().len()
            },
            !(current_token(old(self).remaining()).kind is Identifier) ==> {
                &&& r matches Ok(o) && o is None
                &&& final(self).remaining() == old(self).remaining()
            },
            old(self).reliable() ==> r is Ok && final(self).reliable(),
    {
        if let TokenKind::Identifier(_) = self.get_token_kind() {
            let token = self.next()?;
            let Token { kind, pos, has_left_spacing } = token;
            match kind {
                TokenKind::Identifier(name) => Ok(Some(RawToken { raw: name, pos, has_left_spacing })),
                _ => {
                    assert(false);
                    Ok(None)
                },
            }
        } else {
            Ok(None)
        }
    }

    /// Takes the token under the cursor if it is an identifier; otherwise fails.
    fn expect_identifier_and_next(&mut self) -> (r: EngineResult<RawToken>)
        ensures
            current_token(old(self).remaining()).kind is Identifier ==> {
                &&& r matches Ok(raw) ==> {
                    &&& current_token(old(self).remaining()).kind == TokenKind::Identifier(raw.raw)
                    &&& raw.pos == current_token(old(self).remaining()).pos
                    &&& final(self).remaining() == advance(old(self).remaining())
                }
                &&& r is Err ==> final(self).remaining().len() <= old(self).remaining().len()
            },
            !(current_token(old(self).remaining()).kind is Identifier) ==> {
                &&& r matches Err(e) && e.kind == AiScriptBasicErrorKind::Syntax && e.message@
                    == unexpected_message(current_token(old(self).remaining()).kind) && e.pos
                    == Some(current_token(old(self).remaining()).pos)
                &&& final(self).remaining() == old(self).remaining()
            },
            old(self).reliable() ==> final(self).reliable() && (r is Ok <==> current_token(
                old(self).remaining(),
            ).kind is Identifier),
    {
        match self.optional_identifer()? {
            Some(raw) => Ok(raw),
            None => Err(self.unexpected_token()),
        }
    }

    /// Succeeds only at the end of input.
    fn expect_eof(&self) -> (r: EngineResult<()>)
        ensures
            r is Ok <==> current_token(self.remaining()).kind is EOF,
            r matches Err(e) ==> e.message@ == unexpected_message(
                current_token(self.remaining()).kind,
            ),
    {
        if let TokenKind::EOF = self.get_token_kind() {
            Ok(())
        } else {
            Err(self.unexpected_token())
        }
    }
}

/// The end-of-input token, kept so that a reference to it can be handed out.
struct EofToken {
    token: Token,
}

impl EofToken {
    #[verifier::type_invariant]
    spec fn is_eof(&self) -> bool {
        self.token == eof_token_spec()
    }

    fn new() -> (r: EofToken)
        ensures
            r.token == eof_token_spec(),
    {
        EofToken { token: eof_token() }
    }

    fn get(&self) -> (r: &Token)
        ensures
            *r == eof_token_spec(),
    {
        proof {
            use_type_invariant(self);
        }
        &self.token
    }
}

/// A token stream over a queue of tokens.
pub struct TokenStream {
    source: VecDeque<Token>,
    eof: EofToken,
}

impl TokenStream {
    /// A stream over `source`, its cursor on the first token.
    pub fn new(source: VecDeque<Token>) -> (r: TokenStream)
        ensures
            r.remaining() == source@,
    {
        TokenStream { source, eof: EofToken::new() }
    }

    /// Whether every token has been read.
    pub fn eof(&self) -> (r: bool)
        ensures
            r == (self.remaining().len() == 0),
    {
        self.source.len() == 0
    }

}

impl ITokenStream for TokenStream {
    closed spec fn remaining(&self) -> Seq<Token> {
        self.source@
    }

    /// Taking a token from a stream over a queue of tokens never fails.
    open spec fn reliable(&self) -> bool {
        true
    }

    fn get_token(&self) -> (r: &Token) {
        if self.source.len() > 0 {
            &self.source[0]
        } else {
            self.eof.get()
        }
    }

    fn next(&mut self) -> (r: EngineResult<Token>)
        ensures
            r is Ok,
    {
        match self.source.pop_front() {
            Some(token) => Ok(token),
            None => Ok(eof_token()),
        }
    }

    fn lookahead(&self, offset: usize) -> (r: &Token) {
        if offset < self.source.len() {
            &self.source[offset]
        } else {
            self.eof.get()
        }
    }
}

} // verus!
