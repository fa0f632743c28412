//! The tokenizer as a pull interface: a cursor over a text in memory that
//! hands out one token per call.

use vstd::prelude::*;
use crate::compile::grammar::{lemma_next_token_advances, next_token, tokens, trivia_len};
use crate::compile::scan::lex_at;
use crate::compile::token::{Token, TokenView};
use crate::text::chars_of;

verus! {

/// A source of tokens.
pub trait Lex {
    /// The text that has not been consumed yet.
    spec fn remaining(&self) -> Seq<char>;

    /// What the source needs to hold in order to work.
    spec fn well_formed(&self) -> bool;

    /// The next token, without consuming it.
    fn peek(&mut self) -> (t: Option<Token>)
        requires
            old(self).well_formed(),
        ensures
            final(self).well_formed(),
            final(self).remaining() == old(self).remaining(),
            match next_token(old(self).remaining()) {
                Some(l) => t matches Some(tok) && tok@ == l.token,
                None => t is None,
            },
    ;

    /// The next token, consumed with the whitespace and comments before it;
    /// or `None`, with all the text consumed, where no token is left. A
    /// token has at least one character, and less text is left behind it
    /// than there was.
    fn lex(&mut self) -> (t: Option<Token>)
        requires
            old(self).well_formed(),
        ensures
            final(self).well_formed(),
            match next_token(old(self).remaining()) {
                Some(l) => {
                    &&& t matches Some(tok)
                    &&& tok@ == l.token
                    &&& tok@.lexeme.len() > 0
                    &&& final(self).remaining() == l.rest
                    &&& final(self).remaining().len() < old(self).remaining().len()
                },
                None => t is None && final(self).remaining().len() == 0,
            },
    ;
}

/// A cursor over a text held in memory.
pub struct Cursor {
    chars: Vec<char>,
    pos: usize,
}

impl Cursor {
    /// The whole text, consumed or not.
    pub closed spec fn text(&self) -> Seq<char> {
        self.chars@
    }

    /// The number of characters consumed so far.
    pub closed spec fn offset(&self) -> int {
        self.pos as int
    }

    /// A cursor at the start of `text`.
    pub fn new(text: &str) -> (c: Self)
        ensures
            c.well_formed(),
            c.text() == text@,
            c.offset() == 0,
            c.remaining() == text@,
    {
        let chars = chars_of(text);
        assert(chars@.skip(0) =~= chars@);
        Cursor { chars, pos: 0 }
    }

    /// A cursor at the start of the text that `chars` spells.
    pub fn from_chars(chars: Vec<char>) -> (c: Self)
        ensures
            c.well_formed(),
            c.text() == chars@,
            c.offset() == 0,
            c.remaining() == chars@,
    {
        assert(chars@.skip(0) =~= chars@);
        Cursor { chars, pos: 0 }
    }

    /// The number of characters consumed so far.
    pub fn position(&self) -> (p: usize)
        ensures
            p == self.offset(),
    {
        self.pos
    }

    /// Whether all the text is consumed.
    pub fn is_end(&self) -> (b: bool)
        requires
            self.well_formed(),
        ensures
            b == (self.remaining().len() == 0),
    {
        self.pos >= self.chars.len()
    }

    /// The next token, consumed. The text stays what it was, and the cursor
    /// moves forward by the whitespace and comments before the token and by
    /// the token itself, never backward.
    pub fn advance(&mut self) -> (t: Option<Token>)
        requires
            old(self).well_formed(),
        ensures
            final(self).well_formed(),
            final(self).text() == old(self).text(),
            final(self).offset() >= old(self).offset(),
            match next_token(old(self).remaining()) {
                Some(l) => {
                    &&& t matches Some(tok)
                    &&& tok@ == l.token
                    &&& final(self).remaining() == l.rest
                    &&& final(self).offset() == old(self).offset() + trivia_len(
                        old(self).remaining(),
                    ) + l.token.lexeme.len()
                },
                None => {
                    &&& t is None
                    &&& final(self).remaining().len() == 0
                    &&& final(self).offset() == final(self).text().len()
                },
            },
    {
        let (t, e) = lex_at(&self.chars, self.pos);
        self.pos = e;
        t
    }
}

impl Lex for Cursor {
    closed spec fn remaining(&self) -> Seq<char> {
        self.chars@.skip(self.pos as int)
    }

    closed spec fn well_formed(&self) -> bool {
        self.pos <= self.chars.len()
    }

    fn peek(&mut self) -> (t: Option<Token>) {
        let (t, _e) = lex_at(&self.chars, self.pos);
        t
    }

    fn lex(&mut self) -> (t: Option<Token>) {
        proof {
            lemma_next_token_advances(self.remaining());
        }
        self.advance()
    }
}

/// The views of the tokens of `v`, in order.
pub open spec fn views(v: Seq<Token>) -> Seq<TokenView> {
    v.map_values(|t: Token| t@)
}

/// All the tokens of `text`, pulled one by one until none is left.
pub fn tokenize(text: &str) -> (v: Vec<Token>)
    ensures
        views(v@) == tokens(text@),
{
    let mut cursor = Cursor::new(text);
    let mut v: Vec<Token> = Vec::new();
    assert(views(v@) =~= Seq::<TokenView>::empty());
    loop
        invariant
            cursor.well_formed(),
            views(v@) + tokens(cursor.remaining()) == tokens(text@),
        decreases cursor.remaining().len(),
    {
        let ghost before = cursor.remaining();
        let ghost done = v@;
        proof {
            lemma_next_token_advances(before);
        }
        match cursor.lex() {
            Some(t) => {
                v.push(t);
                assert(views(v@) =~= views(done) + seq![t@]);
                assert(views(v@) + tokens(cursor.remaining()) =~= views(done) + tokens(before));
            },
            None => {
                assert(views(v@) + tokens(before) =~= views(v@));
                return v;
            },
        }
    }
}

} // verus!
