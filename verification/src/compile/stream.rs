//! The tokenizer over a text that arrives line by line: the lines are
//! handed in as they are read, and a token is handed out as soon as no
//! later line can change it. A line comes with its line feed; a text
//! without a line feed at its end is taken to be the last line.

use vstd::prelude::*;
use crate::compile::charclass::is_whitespace;
use crate::compile::grammar::{
    lemma_next_token_advances,
    lemma_trivia_len,
    next_token,
    scan_len,
    starts_block_comment,
    trivia_len,
    Lexed,
};
use crate::compile::laws::{
    lemma_scan_ends_in_no_whitespace,
    lemma_scan_kind,
    lemma_token_extends,
};
use crate::compile::scan::skip_trivia;
use crate::compile::scan::lex_at;
use crate::compile::token::{Token, TokenType};
use crate::text::chars_of;

verus! {

/// What a stream answers when it is asked for a token.
pub enum LexStep {
    /// The next token.
    Token(Token),
    /// The text at hand holds no token that can be handed out: another
    /// line is needed.
    NeedLine,
    /// The end of the text has been handed in, and no token is left.
    End,
}

/// A text settles its next token when it has one that is no open block
/// comment, when text is left behind that token, and when that text ends
/// with a whitespace character, as every whole line does.
pub open spec fn settled(p: Seq<char>) -> bool {
    match next_token(p) {
        Some(l) => {
            &&& l.token.kind != TokenType::BrokenLeftLongComment
            &&& l.rest.len() > 0
            &&& is_whitespace(p.last())
        },
        None => false,
    }
}

/// The next token of a text that settles it is the next token of every
/// text that goes on from there: a token that a stream hands out before the
/// text has ended is the token that one pass over the whole text finds.
pub proof fn lemma_settled_token_is_final(p: Seq<char>, more: Seq<char>)
    requires
        settled(p),
    ensures
        next_token(p + more) == Some(
            Lexed { token: next_token(p)->0.token, rest: next_token(p)->0.rest + more },
        ),
{
    let t = p.skip(trivia_len(p));
    lemma_trivia_len(p);
    lemma_next_token_advances(p);
    if starts_block_comment(t) {
    } else {
        let k = t.len() - 1;
        assert((t + more)[k] == t[k]);
        assert(t[k] == p[p.len() - 1]);
        lemma_token_extends(p, more, k);
    }
}

/// The next token of a whole line, one that ends with its line feed, is
/// settled unless it is an open block comment.
pub proof fn lemma_whole_line_settles(p: Seq<char>)
    requires
        next_token(p) is Some,
        next_token(p)->0.token.kind != TokenType::BrokenLeftLongComment,
        p.len() > 0,
        p.last() == '\n',
    ensures
        settled(p),
{
    let t = p.skip(trivia_len(p));
    lemma_trivia_len(p);
    lemma_next_token_advances(p);
    lemma_scan_ends_in_no_whitespace(t);
    if next_token(p)->0.rest.len() == 0 {
        assert(t[scan_len(t) - 1] == p[p.len() - 1]);
    }
}

/// Whether a stream hands out the next token of the text `p` that it has
/// at hand: always once the end of the text has been handed in; before
/// that, unless the token is an open block comment in a text that ends
/// with a line feed, which a later line may close.
pub open spec fn hands_out(p: Seq<char>, closed: bool) -> bool
    recommends
        next_token(p) is Some,
{
    ||| closed
    ||| next_token(p)->0.token.kind != TokenType::BrokenLeftLongComment
    ||| p.last() != '\n'
}

/// The smaller of two numbers.
pub open spec fn least(a: int, b: int) -> int {
    if a <= b {
        a
    } else {
        b
    }
}

/// The column that is reached from column `col` when `passed` characters
/// of whitespace and comments are passed over and a token of `taken`
/// characters is consumed, where the first `carried` characters of the
/// text at hand were handed in before the last line: what is passed over
/// of them does not count, the token counts in full.
pub open spec fn column_moved(col: int, carried: int, passed: int, taken: int) -> int {
    col + passed - least(carried, passed) + taken
}

/// A tokenizer over lines: the text handed in and not yet consumed, the
/// number of lines handed in, and the column reached in the last of them.
pub struct LexStream {
    line: u64,
    col: u64,
    eof: bool,
    closed: bool,
    linebuf: Vec<char>,
    pos: usize,
    carried: usize,
}

impl LexStream {
    /// The text handed in and not consumed yet.
    pub closed spec fn pending(&self) -> Seq<char> {
        self.linebuf@.skip(self.pos as int)
    }

    /// The number of reads handed in: every line, and the read that found
    /// the end of the text.
    pub closed spec fn spec_line(&self) -> u64 {
        self.line
    }

    /// The column reached: the number of characters consumed since the
    /// last read was handed in, those left out that were handed in before
    /// it and were passed over as whitespace or comments.
    pub closed spec fn spec_col(&self) -> u64 {
        self.col
    }

    /// How many characters at the start of the text at hand were handed in
    /// before the last read.
    pub closed spec fn spec_carried(&self) -> nat {
        self.carried as nat
    }

    /// Whether the end of the text has been answered.
    pub closed spec fn spec_eof(&self) -> bool {
        self.eof
    }

    /// Whether the end of the text has been handed in: a read that gave
    /// nothing.
    pub closed spec fn spec_closed(&self) -> bool {
        self.closed
    }

    /// What the stream needs to hold in order to work.
    pub closed spec fn well_formed(&self) -> bool {
        &&& self.pos <= self.linebuf.len()
        &&& self.carried <= self.linebuf.len() - self.pos
        &&& self.col + (self.linebuf.len() - self.pos) <= u64::MAX
        &&& self.eof ==> self.closed
    }

    /// A stream that has been handed nothing yet.
    pub fn new() -> (s: Self)
        ensures
            s.well_formed(),
            s.pending() == Seq::<char>::empty(),
            s.spec_line() == 0,
            s.spec_col() == 0,
            s.spec_carried() == 0,
            !s.spec_eof(),
            !s.spec_closed(),
    {
        let linebuf: Vec<char> = Vec::new();
        assert(linebuf@.skip(0) =~= Seq::<char>::empty());
        LexStream { line: 0, col: 0, eof: false, closed: false, linebuf, pos: 0, carried: 0 }
    }

    /// The number of reads handed in.
    pub fn line(&self) -> (n: u64)
        ensures
            n == self.spec_line(),
    {
        self.line
    }

    /// The column reached in the line.
    pub fn col(&self) -> (n: u64)
        ensures
            n == self.spec_col(),
    {
        self.col
    }

    /// Whether the end of the text has been answered: no token comes after
    /// that.
    pub fn is_eof(&self) -> (b: bool)
        ensures
            b == self.spec_eof(),
    {
        self.eof
    }

    /// Whether the end of the text has been handed in.
    pub fn is_closed(&self) -> (b: bool)
        ensures
            b == self.spec_closed(),
    {
        self.closed
    }

    /// Hands in what a read of the next line gave: the line with its line
    /// feed, the last line without one, or nothing where the text has
    /// ended. Every read is counted as a line and sets the column back to
    /// the start; a line is added behind the text at hand, and a read that
    /// gave nothing marks the end of the text. Once the end has been handed
    /// in, what is handed in after it changes nothing.
    pub fn new_line(&mut self, text: &str)
        requires
            old(self).well_formed(),
            !old(self).spec_closed() ==> old(self).spec_line() < u64::MAX,
        ensures
            final(self).well_formed(),
            final(self).spec_eof() == old(self).spec_eof(),
            if old(self).spec_closed() {
                &&& final(self).spec_closed()
                &&& final(self).pending() == old(self).pending()
                &&& final(self).spec_line() == old(self).spec_line()
                &&& final(self).spec_col() == old(self).spec_col()
                &&& final(self).spec_carried() == old(self).spec_carried()
            } else {
                &&& final(self).spec_closed() == (text@.len() == 0)
                &&& final(self).pending() == old(self).pending() + text@
                &&& final(self).spec_line() == old(self).spec_line() + 1
                &&& final(self).spec_col() == 0
                &&& final(self).spec_carried() == old(self).pending().len()
            },
    {
        if self.closed {
            return ;
        }
        let added = chars_of(text);
        let mut buf: Vec<char> = Vec::new();
        let mut i: usize = self.pos;
        while i < self.linebuf.len()
            invariant
                self.pos <= i <= self.linebuf.len(),
                buf@ == self.linebuf@.subrange(self.pos as int, i as int),
            decreases self.linebuf.len() - i,
        {
            buf.push(self.linebuf[i]);
            i += 1;
            assert(buf@ =~= self.linebuf@.subrange(self.pos as int, i as int));
        }
        assert(buf@ =~= self.linebuf@.skip(self.pos as int));
        let carried = buf.len();
        let mut j: usize = 0;
        while j < added.len()
            invariant
                j <= added.len(),
                buf@ == self.linebuf@.skip(self.pos as int) + added@.take(j as int),
            decreases added.len() - j,
        {
            buf.push(added[j]);
            j += 1;
            assert(buf@ =~= self.linebuf@.skip(self.pos as int) + added@.take(j as int));
        }
        assert(added@.take(added.len() as int) =~= added@);
        assert(buf@.skip(0) =~= buf@);
        if added.len() == 0 {
            self.closed = true;
        }
        self.linebuf = buf;
        self.pos = 0;
        self.carried = carried;
        self.line = self.line + 1;
        self.col = 0;
    }

    /// The next token of the text at hand, handed out or not, without
    /// consuming it.
    pub fn peek(&self) -> (t: Option<Token>)
        requires
            self.well_formed(),
        ensures
            match next_token(self.pending()) {
                Some(l) => t matches Some(tok) && tok@ == l.token,
                None => t is None,
            },
    {
        let (t, _e) = lex_at(&self.linebuf, self.pos);
        t
    }

    /// Consumes the text at hand up to the index `e` of the buffer, of
    /// which the part up to `a` is passed over and the rest is a token, and
    /// moves the column.
    fn move_to(&mut self, a: usize, e: usize)
        requires
            old(self).well_formed(),
            old(self).pos <= a <= e <= old(self).linebuf.len(),
        ensures
            final(self).well_formed(),
            final(self).linebuf == old(self).linebuf,
            final(self).pos == e,
            final(self).line == old(self).line,
            final(self).eof == old(self).eof,
            final(self).closed == old(self).closed,
            final(self).pending() == old(self).pending().skip(e - old(self).pos),
            final(self).col == column_moved(
                old(self).col as int,
                old(self).carried as int,
                a - old(self).pos,
                e - a,
            ),
            final(self).carried == old(self).carried - least(
                old(self).carried as int,
                e - old(self).pos,
            ),
    {
        let passed: usize = a - self.pos;
        let taken: usize = e - a;
        let counted: usize = if self.carried >= passed {
            taken
        } else {
            passed - self.carried + taken
        };
        let left: usize = if self.carried >= e - self.pos {
            self.carried - (e - self.pos)
        } else {
            0
        };
        proof {
            assert(self.pending().skip(e - self.pos) =~= self.linebuf@.skip(e as int));
        }
        self.col = self.col + counted as u64;
        self.carried = left;
        self.pos = e;
    }

    /// Asks for the next token.
    ///
    /// Once the end has been answered, it is answered again and nothing
    /// changes. Before that: the next token of the text at hand is handed
    /// out where `hands_out` says so, and is then consumed with the
    /// whitespace and comments before it; an open block comment that a
    /// later line may close is held back, another line is asked for, and
    /// nothing changes. Where the text at hand holds no token it is
    /// consumed; the end is answered if the end of the text has been handed
    /// in, else another line is asked for.
    ///
    /// The line stays, and the column never falls: behind a token it has
    /// moved on by the length of that token at least.
    pub fn lex(&mut self) -> (r: LexStep)
        requires
            old(self).well_formed(),
        ensures
            final(self).well_formed(),
            final(self).spec_closed() == old(self).spec_closed(),
            final(self).spec_line() == old(self).spec_line(),
            final(self).spec_eof() == (r is End),
            final(self).spec_col() >= old(self).spec_col(),
            r matches LexStep::Token(t) ==> final(self).spec_col() >= old(self).spec_col()
                + t@.lexeme.len(),
            if old(self).spec_eof() {
                &&& r is End
                &&& final(self).pending() == old(self).pending()
                &&& final(self).spec_col() == old(self).spec_col()
                &&& final(self).spec_carried() == old(self).spec_carried()
            } else {
                match next_token(old(self).pending()) {
                    Some(l) => if hands_out(old(self).pending(), old(self).spec_closed()) {
                        &&& r matches LexStep::Token(t)
                        &&& t@ == l.token
                        &&& final(self).pending() == l.rest
                        &&& final(self).spec_col() == column_moved(
                            old(self).spec_col() as int,
                            old(self).spec_carried() as int,
                            trivia_len(old(self).pending()),
                            l.token.lexeme.len() as int,
                        )
                        &&& final(self).spec_carried() == old(self).spec_carried() - least(
                            old(self).spec_carried() as int,
                            trivia_len(old(self).pending()) + l.token.lexeme.len(),
                        )
                    } else {
                        &&& r is NeedLine
                        &&& final(self).pending() == old(self).pending()
                        &&& final(self).spec_col() == old(self).spec_col()
                        &&& final(self).spec_carried() == old(self).spec_carried()
                    },
                    None => {
                        &&& r is End <==> old(self).spec_closed()
                        &&& r is NeedLine <==> !old(self).spec_closed()
                        &&& final(self).pending().len() == 0
                        &&& final(self).spec_col() == column_moved(
                            old(self).spec_col() as int,
                            old(self).spec_carried() as int,
                            old(self).pending().len() as int,
                            0,
                        )
                        &&& final(self).spec_carried() == 0
                    },
                }
            },
    {
        let ghost p = self.pending();
        if self.eof {
            return LexStep::End;
        }
        let len = self.linebuf.len();
        let a = skip_trivia(&self.linebuf, self.pos);
        let (t, e) = lex_at(&self.linebuf, self.pos);
        proof {
            lemma_next_token_advances(p);
            lemma_trivia_len(p);
            if len > self.pos {
                assert(p.last() == self.linebuf@[len - 1]);
            }
        }
        match t {
            Some(tok) => {
                proof {
                    let start = p.skip(trivia_len(p));
                    if !starts_block_comment(start) {
                        lemma_scan_kind(start);
                    }
                }
                let open = match tok.tp {
                    TokenType::BrokenLeftLongComment => true,
                    _ => false,
                };
                if self.closed || !open || self.linebuf[len - 1] != '\n' {
                    self.move_to(a, e);
                    LexStep::Token(tok)
                } else {
                    LexStep::NeedLine
                }
            },
            None => {
                self.move_to(e, e);
                if self.closed {
                    self.eof = true;
                    LexStep::End
                } else {
                    LexStep::NeedLine
                }
            },
        }
    }
}

} // verus!
