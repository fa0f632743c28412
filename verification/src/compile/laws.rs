//! What holds of the tokenizer whatever the text: the laws that its users
//! may rely on, each proved from the definition of the next token.

use vstd::prelude::*;
use crate::compile::charclass::{is_broken_stop, is_whitespace, is_word_char};
use crate::compile::grammar::{
    block_close,
    block_comment_len,
    first_equal,
    first_initial,
    first_prefix,
    in_broken_run,
    in_line_comment,
    in_word,
    lemma_block_close,
    lemma_first_equal,
    lemma_first_initial,
    lemma_first_prefix,
    lemma_next_token_advances,
    lemma_run_end,
    lemma_scan_token,
    lemma_trivia_len,
    line_comment_len,
    next_token,
    operator_match,
    run_end,
    scan_len,
    scan_token,
    starts_block_comment,
    starts_line_comment,
    starts_with,
    tokens,
    trivia_len,
    Lexed,
};
use crate::compile::tables::{
    is_punctuation,
    lemma_keywords,
    lemma_long_sp_operator,
    lemma_short_sp_operator,
};
use crate::compile::token::{keywords, long_sp_operator, short_sp_operator, TokenType, TokenView};

verus! {

/// Every character of `w` is whitespace.
pub open spec fn all_whitespace(w: Seq<char>) -> bool {
    forall|j: int| 0 <= j < w.len() ==> is_whitespace(#[trigger] w[j])
}

/// `text` is one token and nothing else: the token is the whole of it.
pub open spec fn is_single_token(text: Seq<char>, token: TokenView) -> bool {
    &&& next_token(text) == Some(Lexed { token, rest: Seq::empty() })
    &&& token.lexeme == text
}

/// A run that is known by what it passes and what stops it ends where that
/// says.
pub proof fn lemma_run_end_is(s: Seq<char>, from: int, e: int, keep: spec_fn(char) -> bool)
    requires
        0 <= from <= e <= s.len(),
        forall|j: int| from <= j < e ==> keep(#[trigger] s[j]),
        e < s.len() ==> !keep(s[e]),
    ensures
        run_end(s, from, keep) == e,
    decreases e - from,
{
    if from < e {
        lemma_run_end_is(s, from + 1, e, keep);
    }
}

/// A block comment that closes within a text closes at the same place when
/// more text follows.
pub proof fn lemma_block_close_extends(p: Seq<char>, more: Seq<char>, from: int)
    requires
        0 <= from,
        block_close(p, from) is Some,
    ensures
        block_close(p + more, from) == block_close(p, from),
    decreases p.len() - from,
{
    if from + 1 < p.len() {
        assert((p + more)[from] == p[from]);
        assert((p + more)[from + 1] == p[from + 1]);
        if !(p[from] == '*' && p[from + 1] == '/') {
            lemma_block_close_extends(p, more, from + 1);
        }
    }
}

/// Two texts that begin with the same entries of a table have the same first
/// such entry.
pub proof fn lemma_first_prefix_agrees(
    table: Seq<TokenView>,
    s1: Seq<char>,
    s2: Seq<char>,
    from: int,
)
    requires
        0 <= from,
        forall|i: int|
            from <= i < table.len() ==> starts_with(s1, (#[trigger] table[i]).lexeme)
                == starts_with(s2, table[i].lexeme),
    ensures
        first_prefix(table, s1, from) == first_prefix(table, s2, from),
    decreases table.len() - from,
{
    if from < table.len() {
        assert(starts_with(s1, table[from].lexeme) == starts_with(s2, table[from].lexeme));
        if !starts_with(s1, table[from].lexeme) {
            lemma_first_prefix_agrees(table, s1, s2, from + 1);
        }
    }
}

/// Whitespace before a text adds its length to what is passed over.
pub proof fn lemma_whitespace_prefix(w: Seq<char>, b: Seq<char>)
    requires
        all_whitespace(w),
    ensures
        trivia_len(w + b) == w.len() + trivia_len(b),
        (w + b).skip(trivia_len(w + b)) == b.skip(trivia_len(b)),
        next_token(w + b) == next_token(b),
        tokens(w + b) == tokens(b),
    decreases w.len(),
{
    lemma_trivia_len(b);
    if w.len() == 0 {
        assert(w + b =~= b);
    } else {
        assert((w + b)[0] == w[0]);
        assert(is_whitespace(w[0]));
        assert((w + b).skip(1) =~= w.skip(1) + b);
        assert(all_whitespace(w.skip(1))) by {
            assert forall|j: int| 0 <= j < w.skip(1).len() implies is_whitespace(
                #[trigger] w.skip(1)[j],
            ) by {
                assert(w.skip(1)[j] == w[j + 1]);
            }
        }
        lemma_whitespace_prefix(w.skip(1), b);
        assert((w + b).skip(trivia_len(w + b)) =~= b.skip(trivia_len(b)));
    }
}

/// What is passed over before a token stays the same when more text
/// follows, as long as the text with what follows begins no comment where
/// the token begins.
pub proof fn lemma_trivia_extends(p: Seq<char>, more: Seq<char>)
    requires
        p.skip(trivia_len(p)).len() > 0,
        !starts_block_comment(p.skip(trivia_len(p))),
        !starts_line_comment(p.skip(trivia_len(p)) + more),
        !starts_block_comment(p.skip(trivia_len(p)) + more),
    ensures
        trivia_len(p + more) == trivia_len(p),
        (p + more).skip(trivia_len(p)) == p.skip(trivia_len(p)) + more,
    decreases p.len(),
{
    let full = p + more;
    let t = p.skip(trivia_len(p));
    lemma_trivia_len(p);
    if p.len() == 0 {
    } else if is_whitespace(p[0]) {
        assert(full[0] == p[0]);
        assert(full.skip(1) =~= p.skip(1) + more);
        lemma_trivia_len(p.skip(1));
        assert(p.skip(1).skip(trivia_len(p.skip(1))) =~= t);
        lemma_trivia_extends(p.skip(1), more);
    } else if starts_line_comment(p) {
        assert(full[0] == p[0] && full[1] == p[1]);
        let e = run_end(p, 2, in_line_comment());
        lemma_run_end(p, 2, in_line_comment());
        if e < p.len() {
            assert forall|j: int| 2 <= j < e implies in_line_comment()(#[trigger] full[j]) by {
                assert(full[j] == p[j]);
            }
            assert(full[e] == p[e]);
            lemma_run_end_is(full, 2, e, in_line_comment());
            let n = e + 1;
            assert(full.skip(n) =~= p.skip(n) + more);
            lemma_trivia_len(p.skip(n));
            assert(p.skip(n).skip(trivia_len(p.skip(n))) =~= t);
            lemma_trivia_extends(p.skip(n), more);
        } else {
            assert(p.skip(p.len() as int) =~= Seq::<char>::empty());
            assert(trivia_len(p.skip(p.len() as int)) == 0);
            assert(false);
        }
    } else if starts_block_comment(p) {
        assert(full[0] == p[0] && full[1] == p[1]);
        match block_comment_len(p) {
            Some(n) => {
                lemma_block_close(p, 1);
                lemma_block_close_extends(p, more, 1);
                assert(full.skip(n) =~= p.skip(n) + more);
                lemma_trivia_len(p.skip(n));
                assert(p.skip(n).skip(trivia_len(p.skip(n))) =~= t);
                lemma_trivia_extends(p.skip(n), more);
            },
            None => {
                assert(t =~= p);
                assert(false);
            },
        }
    } else {
        assert(t =~= p);
        assert(full[0] == p[0]);
        assert(t + more =~= full);
    }
    assert(full.skip(trivia_len(p)) =~= t + more);
}

/// A scanned token stays the same when more text follows, as long as a
/// whitespace character stands behind the token, in the text or at the
/// start of what follows.
pub proof fn lemma_scan_extends(t: Seq<char>, more: Seq<char>, k: int)
    requires
        t.len() > 0,
        scan_len(t) <= k <= t.len(),
        k < t.len() + more.len(),
        is_whitespace((t + more)[k]),
    ensures
        scan_token(t + more) == (Lexed {
            token: scan_token(t).token,
            rest: scan_token(t).rest + more,
        }),
{
    let full = t + more;
    let n = scan_len(t);
    lemma_scan_token(t);
    assert(full[0] == t[0]);
    assert(full.take(n) =~= t.take(n));
    assert(full.skip(n) =~= t.skip(n) + more);
    if is_word_char(t[0]) {
        lemma_run_end(t, 0, in_word());
        assert forall|j: int| 0 <= j < n implies in_word()(#[trigger] full[j]) by {
            assert(full[j] == t[j]);
        }
        if n < t.len() {
            assert(full[n] == t[n]);
        }
        lemma_run_end_is(full, 0, n, in_word());
    } else {
        lemma_long_sp_operator();
        assert forall|i: int| 0 <= i < long_sp_operator().len() implies starts_with(
            full,
            (#[trigger] long_sp_operator()[i]).lexeme,
        ) == starts_with(t, long_sp_operator()[i].lexeme) by {
            let f = long_sp_operator()[i].lexeme;
            if f.len() <= t.len() {
                assert(full.take(f.len() as int) =~= t.take(f.len() as int));
            } else if starts_with(full, f) {
                assert(full.take(f.len() as int)[k] == full[k]);
                assert(is_punctuation(f[k]));
                assert(false);
            }
        }
        lemma_first_prefix_agrees(long_sp_operator(), full, t, 0);
        lemma_first_prefix(long_sp_operator(), t, 0);
        match first_prefix(long_sp_operator(), t, 0) {
            Some(i) => {},
            None => {
                lemma_first_initial(short_sp_operator(), t[0], 0);
                match first_initial(short_sp_operator(), t[0], 0) {
                    Some(i) => {
                        assert(full.take(1) =~= t.take(1));
                    },
                    None => {
                        lemma_run_end(t, 1, in_broken_run());
                        assert forall|j: int| 1 <= j < n implies in_broken_run()(
                            #[trigger] full[j],
                        ) by {
                            assert(full[j] == t[j]);
                        }
                        if n < t.len() {
                            assert(full[n] == t[n]);
                        }
                        lemma_run_end_is(full, 1, n, in_broken_run());
                    },
                }
            },
        }
    }
}

/// The next token of a text stays the same when more text follows, as long
/// as it is no open block comment and a whitespace character stands behind
/// it, in the text or at the start of what follows. What is left behind it
/// is then what was left, and what follows.
pub proof fn lemma_token_extends(p: Seq<char>, more: Seq<char>, k: int)
    requires
        next_token(p) is Some,
        !starts_block_comment(p.skip(trivia_len(p))),
        next_token(p)->0.token.lexeme.len() <= k <= p.len() - trivia_len(p),
        k < p.len() - trivia_len(p) + more.len(),
        is_whitespace((p.skip(trivia_len(p)) + more)[k]),
    ensures
        next_token(p + more) == Some(
            Lexed { token: next_token(p)->0.token, rest: next_token(p)->0.rest + more },
        ),
{
    let t = p.skip(trivia_len(p));
    let full = t + more;
    lemma_trivia_len(p);
    lemma_scan_token(t);
    assert(full[0] == t[0]);
    if t.len() >= 2 {
        assert(full[1] == t[1]);
    } else {
        assert(k == 1);
    }
    lemma_trivia_extends(p, more);
    lemma_scan_extends(t, more, k);
}

/// The same text gives the same tokens: what the tokenizer hands out
/// depends on nothing but the text that is left.
pub proof fn lemma_same_text_same_tokens(a: Seq<char>, b: Seq<char>)
    requires
        a == b,
    ensures
        next_token(a) == next_token(b),
        tokens(a) == tokens(b),
{
}

/// The tokens of a text are its next token and the tokens of what is left
/// behind that one: going on from where a token ended skips, repeats and
/// reorders nothing.
pub proof fn lemma_tokens_resume(s: Seq<char>)
    ensures
        tokens(s) == match next_token(s) {
            None => Seq::<TokenView>::empty(),
            Some(l) => seq![l.token] + tokens(l.rest),
        },
{
    lemma_next_token_advances(s);
}

/// A text that is one token, followed by whitespace and then by any text,
/// gives that token and then the tokens of the text behind the whitespace.
/// The one token that this does not hold of is the block comment that is
/// not closed, which takes in whatever follows.
pub proof fn lemma_token_then_text(a: Seq<char>, ta: TokenView, w: Seq<char>, b: Seq<char>)
    requires
        is_single_token(a, ta),
        ta.kind != TokenType::BrokenLeftLongComment,
        w.len() > 0,
        all_whitespace(w),
    ensures
        next_token(a + w + b) == Some(Lexed { token: ta, rest: w + b }),
        tokens(a + w + b) == seq![ta] + tokens(b),
{
    lemma_next_token_advances(a);
    lemma_trivia_len(a);
    assert(trivia_len(a) == 0);
    assert(a.skip(0) =~= a);
    let more = w + b;
    assert((a + more)[a.len() as int] == w[0]);
    lemma_token_extends(a, more, a.len() as int);
    assert(a + w + b =~= a + more);
    assert(Seq::<char>::empty() + more =~= more);
    lemma_whitespace_prefix(w, b);
    lemma_tokens_resume(a + w + b);
}

/// Two texts that are one token each, with whitespace between them, give
/// those two tokens and no third.
pub proof fn lemma_concatenation(
    a: Seq<char>,
    ta: TokenView,
    w: Seq<char>,
    b: Seq<char>,
    tb: TokenView,
)
    requires
        is_single_token(a, ta),
        is_single_token(b, tb),
        ta.kind != TokenType::BrokenLeftLongComment,
        w.len() > 0,
        all_whitespace(w),
    ensures
        tokens(a + w + b) == seq![ta, tb],
{
    lemma_token_then_text(a, ta, w, b);
    lemma_tokens_resume(b);
    lemma_tokens_resume(Seq::<char>::empty());
    assert(trivia_len(Seq::<char>::empty()) == 0);
    assert(seq![ta] + (seq![tb] + Seq::<TokenView>::empty()) =~= seq![ta, tb]);
}

/// A text of nothing but whitespace, blank lines among it, holds no token.
pub proof fn lemma_blank_text_has_no_token(s: Seq<char>)
    requires
        all_whitespace(s),
    ensures
        next_token(s) is None,
        tokens(s) == Seq::<TokenView>::empty(),
        trivia_len(s) == s.len(),
{
    lemma_whitespace_prefix(s, Seq::<char>::empty());
    assert(s + Seq::<char>::empty() =~= s);
    assert(trivia_len(Seq::<char>::empty()) == 0);
    lemma_tokens_resume(Seq::<char>::empty());
}

/// The kind of a scanned token is never that of an open block comment, and
/// it is `Broken` only where the text begins with no word and no operator.
pub proof fn lemma_scan_kind(s: Seq<char>)
    requires
        s.len() > 0,
    ensures
        scan_token(s).token.kind != TokenType::BrokenLeftLongComment,
        scan_token(s).token.kind == TokenType::Broken ==> !is_word_char(s[0]) && operator_match(
            s,
        ) is None,
{
    lemma_keywords();
    lemma_long_sp_operator();
    lemma_short_sp_operator();
    lemma_first_equal(keywords(), scan_token(s).token.lexeme, 0);
    lemma_first_prefix(long_sp_operator(), s, 0);
    lemma_first_initial(short_sp_operator(), s[0], 0);
}

/// A token of kind `Broken` is a run of unrecognized punctuation that could
/// not be longer: it begins where no word and no operator begins, none of
/// its characters behind the first would have stopped the run, and what is
/// left, if anything, begins with a character that stops it.
pub proof fn lemma_broken_is_maximal_run(s: Seq<char>)
    requires
        next_token(s) is Some,
        next_token(s)->0.token.kind == TokenType::Broken,
    ensures
        ({
            let t = s.skip(trivia_len(s));
            let l = next_token(s)->0;
            &&& !is_whitespace(t[0])
            &&& !is_word_char(t[0])
            &&& operator_match(t) is None
            &&& forall|j: int| 1 <= j < l.token.lexeme.len() ==> !is_broken_stop(l.token.lexeme[j])
            &&& l.rest.len() > 0 ==> is_broken_stop(l.rest[0])
        }),
{
    let t = s.skip(trivia_len(s));
    lemma_trivia_len(s);
    lemma_scan_token(t);
    lemma_scan_kind(t);
    lemma_run_end(t, 1, in_broken_run());
    let n = run_end(t, 1, in_broken_run());
    assert forall|j: int| 1 <= j < n implies !is_broken_stop(t.take(n)[j]) by {
        assert(in_broken_run()(t[j]));
    }
    if n < t.len() {
        assert(t.skip(n)[0] == t[n]);
    }
}

/// A text ends a line when it is empty or its last character is a line
/// feed.
pub open spec fn ends_line(p: Seq<char>) -> bool {
    p.len() == 0 || p.last() == '\n'
}

/// Whole lines of nothing but whitespace and comments add nothing to the
/// text behind them: the tokens of the two together are the tokens of the
/// text behind.
pub proof fn lemma_blank_lines_drop(p: Seq<char>, more: Seq<char>)
    requires
        next_token(p) is None,
        ends_line(p),
    ensures
        trivia_len(p + more) == p.len() + trivia_len(more),
        (p + more).skip(trivia_len(p + more)) == more.skip(trivia_len(more)),
        next_token(p + more) == next_token(more),
        tokens(p + more) == tokens(more),
    decreases p.len(),
{
    let full = p + more;
    lemma_next_token_advances(p);
    lemma_trivia_len(more);
    if p.len() == 0 {
        assert(full =~= more);
    } else {
        assert(full[0] == p[0]);
        let n = if is_whitespace(p[0]) {
            1
        } else if starts_line_comment(p) {
            line_comment_len(p)
        } else if starts_block_comment(p) && block_comment_len(p) is Some {
            block_comment_len(p)->0
        } else {
            0
        };
        if is_whitespace(p[0]) {
        } else if starts_line_comment(p) {
            assert(full[1] == p[1]);
            let e = run_end(p, 2, in_line_comment());
            lemma_run_end(p, 2, in_line_comment());
            if e < p.len() {
                assert forall|j: int| 2 <= j < e implies in_line_comment()(#[trigger] full[j]) by {
                    assert(full[j] == p[j]);
                }
                assert(full[e] == p[e]);
                lemma_run_end_is(full, 2, e, in_line_comment());
            } else {
                assert(p.len() > 2);
                assert(in_line_comment()(p[p.len() - 1]));
                assert(false);
            }
        } else if starts_block_comment(p) {
            assert(full[1] == p[1]);
            lemma_block_close(p, 1);
            if block_comment_len(p) is Some {
                lemma_block_close_extends(p, more, 1);
            }
        }
        assert(1 <= n <= p.len());
        assert(trivia_len(p) == n + trivia_len(p.skip(n)));
        assert(trivia_len(full) == n + trivia_len(full.skip(n)));
        assert(full.skip(n) =~= p.skip(n) + more);
        let q = p.skip(n);
        if q.len() > 0 {
            assert(q.last() == p.last());
        }
        assert(q.skip(q.len() as int) =~= Seq::<char>::empty());
        assert(q.skip(trivia_len(q)).len() == 0);
        lemma_blank_lines_drop(q, more);
        assert(full.skip(trivia_len(full)) =~= more.skip(trivia_len(more)));
    }
    lemma_tokens_resume(full);
    lemma_tokens_resume(more);
}

/// A token whose text is a keyword has the kind of that keyword, whatever
/// else its characters would make it.
pub proof fn lemma_keyword_overrides(s: Seq<char>, i: int)
    requires
        next_token(s) is Some,
        next_token(s)->0.token.kind != TokenType::BrokenLeftLongComment,
        first_equal(keywords(), next_token(s)->0.token.lexeme, 0) == Some(i),
    ensures
        next_token(s)->0.token.kind == keywords()[i].kind,
{
}

/// A block comment that is not closed is one token that takes all the text
/// from where it opens, and nothing is left behind it.
pub proof fn lemma_open_comment_takes_all(s: Seq<char>)
    requires
        next_token(s) is Some,
        next_token(s)->0.token.kind == TokenType::BrokenLeftLongComment,
    ensures
        next_token(s)->0.token.lexeme == s.skip(trivia_len(s)),
        starts_block_comment(next_token(s)->0.token.lexeme),
        block_comment_len(next_token(s)->0.token.lexeme) is None,
        next_token(s)->0.rest.len() == 0,
        next_token(next_token(s)->0.rest) is None,
{
    let t = s.skip(trivia_len(s));
    lemma_trivia_len(s);
    if !starts_block_comment(t) {
        lemma_scan_kind(t);
    }
    assert(trivia_len(Seq::<char>::empty()) == 0);
}

/// Among the long operators the first in table order wins: where a text
/// begins with an entry and with none before it, the scanned token is that
/// entry, whether a later and longer entry would match or not.
pub proof fn lemma_first_operator_wins(s: Seq<char>, i: int)
    requires
        0 <= i < long_sp_operator().len(),
        starts_with(s, long_sp_operator()[i].lexeme),
        forall|j: int| 0 <= j < i ==> !starts_with(s, #[trigger] long_sp_operator()[j].lexeme),
    ensures
        scan_token(s) == (Lexed {
            token: long_sp_operator()[i],
            rest: s.skip(long_sp_operator()[i].lexeme.len() as int),
        }),
{
    let f = long_sp_operator()[i].lexeme;
    lemma_long_sp_operator();
    lemma_keywords();
    lemma_first_prefix(long_sp_operator(), s, 0);
    assert(s.take(f.len() as int)[0] == s[0]);
    assert(is_punctuation(f[0]));
    lemma_first_equal(keywords(), f, 0);
    match first_equal(keywords(), f, 0) {
        Some(k) => {
            assert(keywords()[k].lexeme[0] == f[0]);
            assert(false);
        },
        None => {},
    }
}

/// The last character of a scanned token is no whitespace, where its first
/// is none.
pub proof fn lemma_scan_ends_in_no_whitespace(s: Seq<char>)
    requires
        s.len() > 0,
        !is_whitespace(s[0]),
    ensures
        !is_whitespace(s[scan_len(s) - 1]),
{
    let n = scan_len(s);
    lemma_scan_token(s);
    if is_word_char(s[0]) {
        lemma_run_end(s, 0, in_word());
        assert(in_word()(s[n - 1]));
    } else {
        lemma_long_sp_operator();
        lemma_first_prefix(long_sp_operator(), s, 0);
        match first_prefix(long_sp_operator(), s, 0) {
            Some(i) => {
                let f = long_sp_operator()[i].lexeme;
                assert(s.take(f.len() as int)[n - 1] == s[n - 1]);
                assert(is_punctuation(f[n - 1]));
            },
            None => {
                lemma_first_initial(short_sp_operator(), s[0], 0);
                match first_initial(short_sp_operator(), s[0], 0) {
                    Some(i) => {},
                    None => {
                        lemma_run_end(s, 1, in_broken_run());
                        if n > 1 {
                            assert(in_broken_run()(s[n - 1]));
                        }
                    },
                }
            },
        }
    }
}

} // verus!
