//! Scanning a buffer of characters: the executable steps of the tokenizer,
//! each held to the function of the text that it computes.

use vstd::prelude::*;
use vstd::string::StrSliceExecFns;
use crate::compile::charclass::{
    is_ascii_alphabetic,
    is_ascii_digit,
    ascii_alphabetic,
    ascii_digit,
    broken_stop,
    whitespace,
    word_char,
};
use crate::compile::grammar::{
    all_digits,
    all_letters,
    block_close,
    block_comment_len,
    classify,
    first_equal,
    first_initial,
    first_prefix,
    in_broken_run,
    in_line_comment,
    in_word,
    keyword_or,
    lemma_block_close,
    lemma_first_initial,
    lemma_first_prefix,
    lemma_next_token_advances,
    lemma_run_end,
    lemma_scan_token,
    line_comment_len,
    next_token,
    run_end,
    scan_len,
    scan_token,
    starts_block_comment,
    starts_line_comment,
    starts_with,
    trivia_len,
};
use crate::compile::tables::{lemma_keywords, lemma_long_sp_operator, lemma_short_sp_operator};
use crate::compile::token::{
    keywords,
    keywords_entry,
    long_sp_operator,
    long_sp_operator_entry,
    short_sp_operator,
    short_sp_operator_entry,
    Token,
    TokenType,
    KEYWORDS_LEN,
    LONG_SP_OPERATOR_LEN,
    SHORT_SP_OPERATOR_LEN,
};
use crate::text::string_of;

verus! {

/// Whether the text of `chars` from `base` on begins with `p`.
pub fn has_prefix(chars: &Vec<char>, base: usize, p: &str) -> (b: bool)
    requires
        base <= chars.len(),
    ensures
        b == starts_with(chars@.skip(base as int), p@),
{
    let ghost s = chars@.skip(base as int);
    let n = p.unicode_len();
    if n > chars.len() - base {
        return false;
    }
    let mut j: usize = 0;
    while j < n
        invariant
            base <= chars.len(),
            n == p@.len(),
            n <= chars.len() - base,
            j <= n,
            s == chars@.skip(base as int),
            forall|k: int| 0 <= k < j ==> s[k] == p@[k],
        decreases n - j,
    {
        if p.get_char(j) != chars[base + j] {
            assert(s.take(n as int)[j as int] != p@[j as int]);
            return false;
        }
        j += 1;
    }
    assert(s.take(n as int) =~= p@);
    true
}

/// The end of the line comment that begins at `base`.
pub fn line_comment_end(chars: &Vec<char>, base: usize) -> (e: usize)
    requires
        base + 2 <= chars.len(),
    ensures
        e == base + line_comment_len(chars@.skip(base as int)),
        base + 2 <= e <= chars.len(),
{
    let ghost s = chars@.skip(base as int);
    let mut k: usize = base + 2;
    proof {
        lemma_run_end(s, 2, in_line_comment());
    }
    while k < chars.len() && chars[k] != '\n'
        invariant
            base + 2 <= k <= chars.len(),
            s == chars@.skip(base as int),
            run_end(s, k - base, in_line_comment()) == run_end(s, 2, in_line_comment()),
        decreases chars.len() - k,
    {
        k += 1;
    }
    if k < chars.len() {
        k + 1
    } else {
        k
    }
}

/// The end of the block comment that begins at `base`, if it is closed.
pub fn block_comment_end(chars: &Vec<char>, base: usize) -> (e: Option<usize>)
    requires
        base + 2 <= chars.len(),
    ensures
        match block_comment_len(chars@.skip(base as int)) {
            Some(n) => e == Some((base + n) as usize) && base + 2 < base + n <= chars.len(),
            None => e is None,
        },
{
    let ghost s = chars@.skip(base as int);
    let mut k: usize = base + 1;
    proof {
        lemma_block_close(s, 1);
    }
    while k + 1 < chars.len()
        invariant
            base + 1 <= k < chars.len(),
            s == chars@.skip(base as int),
            block_close(s, k - base) == block_close(s, 1),
        decreases chars.len() - k,
    {
        if chars[k] == '*' && chars[k + 1] == '/' {
            return Some(k + 2);
        }
        k += 1;
    }
    None
}

/// The index behind the whitespace and the comments that begin at `start`.
pub fn skip_trivia(chars: &Vec<char>, start: usize) -> (i: usize)
    requires
        start <= chars.len(),
    ensures
        i == start + trivia_len(chars@.skip(start as int)),
        start <= i <= chars.len(),
{
    let ghost s = chars@;
    let mut i: usize = start;
    loop
        invariant
            start <= i <= chars.len(),
            s == chars@,
            i - start + trivia_len(s.skip(i as int)) == trivia_len(s.skip(start as int)),
        decreases chars.len() - i,
    {
        if i >= chars.len() {
            return i;
        }
        let c = chars[i];
        let ghost t = s.skip(i as int);
        assert(t[0] == c);
        if whitespace(c) {
            assert(t.skip(1) =~= s.skip(i + 1));
            i += 1;
        } else if c == '/' && i + 1 < chars.len() && chars[i + 1] == '/' {
            assert(t[1] == '/');
            let e = line_comment_end(chars, i);
            assert(t.skip(e - i) =~= s.skip(e as int));
            i = e;
        } else if c == '/' && i + 1 < chars.len() && chars[i + 1] == '*' {
            assert(t[1] == '*');
            match block_comment_end(chars, i) {
                Some(e) => {
                    assert(t.skip(e - i) =~= s.skip(e as int));
                    i = e;
                },
                None => {
                    return i;
                },
            }
        } else {
            assert(!starts_line_comment(t));
            assert(!starts_block_comment(t));
            return i;
        }
    }
}

/// The end of the word that begins at `base`.
pub fn word_end(chars: &Vec<char>, base: usize) -> (e: usize)
    requires
        base <= chars.len(),
    ensures
        e == base + run_end(chars@.skip(base as int), 0, in_word()),
        base <= e <= chars.len(),
{
    let ghost s = chars@.skip(base as int);
    let mut k: usize = base;
    proof {
        lemma_run_end(s, 0, in_word());
    }
    while k < chars.len() && word_char(chars[k])
        invariant
            base <= k <= chars.len(),
            s == chars@.skip(base as int),
            run_end(s, k - base, in_word()) == run_end(s, 0, in_word()),
        decreases chars.len() - k,
    {
        k += 1;
    }
    k
}

/// The end of the run of unrecognized punctuation that begins at `base`: its
/// first character belongs to it whatever it is.
pub fn broken_end(chars: &Vec<char>, base: usize) -> (e: usize)
    requires
        base < chars.len(),
    ensures
        e == base + run_end(chars@.skip(base as int), 1, in_broken_run()),
        base < e <= chars.len(),
{
    let ghost s = chars@.skip(base as int);
    let mut k: usize = base + 1;
    proof {
        lemma_run_end(s, 1, in_broken_run());
    }
    while k < chars.len() && !broken_stop(chars[k])
        invariant
            base + 1 <= k <= chars.len(),
            s == chars@.skip(base as int),
            run_end(s, k - base, in_broken_run()) == run_end(s, 1, in_broken_run()),
        decreases chars.len() - k,
    {
        k += 1;
    }
    k
}

/// The first long operator, in table order, that the text from `base` on
/// begins with.
pub fn match_long(chars: &Vec<char>, base: usize) -> (r: Option<usize>)
    requires
        base <= chars.len(),
    ensures
        r is Some <==> first_prefix(long_sp_operator(), chars@.skip(base as int), 0) is Some,
        r matches Some(i) ==> i < LONG_SP_OPERATOR_LEN && first_prefix(
            long_sp_operator(),
            chars@.skip(base as int),
            0,
        ) == Some(i as int),
{
    let ghost s = chars@.skip(base as int);
    let mut i: usize = 0;
    proof {
        lemma_long_sp_operator();
        lemma_first_prefix(long_sp_operator(), s, 0);
    }
    while i < LONG_SP_OPERATOR_LEN
        invariant
            base <= chars.len(),
            i <= LONG_SP_OPERATOR_LEN,
            long_sp_operator().len() == LONG_SP_OPERATOR_LEN,
            s == chars@.skip(base as int),
            first_prefix(long_sp_operator(), s, i as int) == first_prefix(long_sp_operator(), s, 0),
        decreases LONG_SP_OPERATOR_LEN - i,
    {
        let e = long_sp_operator_entry(i);
        if has_prefix(chars, base, e.s) {
            return Some(i);
        }
        i += 1;
    }
    None
}

/// The first short operator, in table order, that is the character `c`.
pub fn match_short(c: char) -> (r: Option<usize>)
    ensures
        r is Some <==> first_initial(short_sp_operator(), c, 0) is Some,
        r matches Some(i) ==> i < SHORT_SP_OPERATOR_LEN && first_initial(
            short_sp_operator(),
            c,
            0,
        ) == Some(i as int),
{
    let mut i: usize = 0;
    proof {
        lemma_short_sp_operator();
        lemma_first_initial(short_sp_operator(), c, 0);
    }
    while i < SHORT_SP_OPERATOR_LEN
        invariant
            i <= SHORT_SP_OPERATOR_LEN,
            short_sp_operator().len() == SHORT_SP_OPERATOR_LEN,
            forall|j: int|
                0 <= j < SHORT_SP_OPERATOR_LEN ==> (#[trigger] short_sp_operator()[j]).lexeme.len()
                    == 1,
            first_initial(short_sp_operator(), c, i as int) == first_initial(
                short_sp_operator(),
                c,
                0,
            ),
        decreases SHORT_SP_OPERATOR_LEN - i,
    {
        let e = short_sp_operator_entry(i);
        assert(short_sp_operator()[i as int].lexeme.len() == 1);
        if e.s.get_char(0) == c {
            return Some(i);
        }
        i += 1;
    }
    None
}

/// The kind of the keyword that the characters from `from` up to `to` spell,
/// or `kind` where they spell none.
pub fn keyword_kind(chars: &Vec<char>, from: usize, to: usize, kind: TokenType) -> (r: TokenType)
    requires
        from <= to <= chars.len(),
    ensures
        r == keyword_or(chars@.subrange(from as int, to as int), kind),
{
    let ghost lexeme = chars@.subrange(from as int, to as int);
    let ghost s = chars@.skip(from as int);
    let mut i: usize = 0;
    proof {
        lemma_keywords();
        assert(s.take(to - from) =~= lexeme);
    }
    while i < KEYWORDS_LEN
        invariant
            from <= to <= chars.len(),
            i <= KEYWORDS_LEN,
            keywords().len() == KEYWORDS_LEN,
            s == chars@.skip(from as int),
            lexeme == s.take(to - from),
            lexeme == chars@.subrange(from as int, to as int),
            first_equal(keywords(), lexeme, i as int) == first_equal(keywords(), lexeme, 0),
        decreases KEYWORDS_LEN - i,
    {
        let e = keywords_entry(i);
        if e.s.unicode_len() == to - from && has_prefix(chars, from, e.s) {
            assert(e@ == keywords()[i as int]);
            assert(keywords()[i as int].lexeme == lexeme);
            assert(first_equal(keywords(), lexeme, i as int) == Some(i as int));
            return e.tp;
        }
        i += 1;
    }
    kind
}

/// The kind of the word that the characters from `from` up to `to` spell.
pub fn classify_word(chars: &Vec<char>, from: usize, to: usize) -> (r: TokenType)
    requires
        from < to <= chars.len(),
    ensures
        r == classify(chars@.subrange(from as int, to as int)),
{
    let ghost lexeme = chars@.subrange(from as int, to as int);
    let mut number = true;
    let mut letters = true;
    let mut k: usize = from;
    while k < to
        invariant
            from <= k <= to <= chars.len(),
            lexeme == chars@.subrange(from as int, to as int),
            number == all_digits(lexeme.take(k - from)),
            letters == all_letters(lexeme.take(k - from)),
        decreases to - k,
    {
        let c = chars[k];
        proof {
            let before = lexeme.take(k - from);
            let after = lexeme.take(k - from + 1);
            assert(after[k - from] == c);
            assert forall|j: int| 0 <= j < before.len() implies before[j] == after[j] by {}
            if all_digits(after) {
                assert forall|j: int| 0 <= j < before.len() implies is_ascii_digit(
                    #[trigger] before[j],
                ) by {
                    assert(before[j] == after[j]);
                }
            }
            if all_letters(after) {
                assert forall|j: int| 0 <= j < before.len() implies is_ascii_alphabetic(
                    #[trigger] before[j],
                ) || before[j] == '_' by {
                    assert(before[j] == after[j]);
                }
            }
        }
        if !ascii_digit(c) {
            number = false;
        }
        if !ascii_alphabetic(c) && c != '_' {
            letters = false;
        }
        k += 1;
    }
    assert(lexeme.take(to - from) =~= lexeme);
    if number {
        TokenType::Number
    } else if letters && !ascii_digit(chars[from]) {
        TokenType::String
    } else {
        TokenType::Null
    }
}

/// The kind and the end of the token that begins at `base`, where neither
/// whitespace nor a comment begins there.
pub fn scan_at(chars: &Vec<char>, base: usize) -> (r: (TokenType, usize))
    requires
        base < chars.len(),
    ensures
        r.0 == scan_token(chars@.skip(base as int)).token.kind,
        r.1 == base + scan_len(chars@.skip(base as int)),
        base < r.1 <= chars.len(),
{
    let ghost s = chars@.skip(base as int);
    let c = chars[base];
    proof {
        lemma_scan_token(s);
        assert(s[0] == c);
    }
    if word_char(c) {
        let e = word_end(chars, base);
        assert(s.take(e - base) =~= chars@.subrange(base as int, e as int));
        let kind = classify_word(chars, base, e);
        (keyword_kind(chars, base, e, kind), e)
    } else {
        match match_long(chars, base) {
            Some(i) => {
                let d = long_sp_operator_entry(i);
                proof {
                    lemma_long_sp_operator();
                    lemma_first_prefix(long_sp_operator(), s, 0);
                }
                let e = base + d.s.unicode_len();
                assert(s.take(e - base) =~= chars@.subrange(base as int, e as int));
                (keyword_kind(chars, base, e, d.tp), e)
            },
            None => match match_short(c) {
                Some(i) => {
                    let d = short_sp_operator_entry(i);
                    let e = base + 1;
                    assert(s.take(1) =~= chars@.subrange(base as int, e as int));
                    assert(s.take(1).len() == 1);
                    (keyword_kind(chars, base, e, d.tp), e)
                },
                None => {
                    let e = broken_end(chars, base);
                    assert(s.take(e - base) =~= chars@.subrange(base as int, e as int));
                    (keyword_kind(chars, base, e, TokenType::Broken), e)
                },
            },
        }
    }
}

/// The next token of the text that begins at `start`, with the index behind
/// it; or no token, with the length of the buffer, where only whitespace and
/// comments are left.
pub fn lex_at(chars: &Vec<char>, start: usize) -> (r: (Option<Token>, usize))
    requires
        start <= chars.len(),
    ensures
        match next_token(chars@.skip(start as int)) {
            Some(l) => {
                &&& r.0 matches Some(t)
                &&& t@ == l.token
                &&& start < r.1 <= chars.len()
                &&& chars@.skip(r.1 as int) == l.rest
                &&& r.1 == start + trivia_len(chars@.skip(start as int)) + l.token.lexeme.len()
            },
            None => r.0 is None && r.1 == chars.len(),
        },
{
    let ghost s = chars@.skip(start as int);
    let i = skip_trivia(chars, start);
    let ghost t = s.skip(trivia_len(s));
    proof {
        lemma_next_token_advances(s);
        assert(t =~= chars@.skip(i as int));
    }
    if i >= chars.len() {
        return (None, i);
    }
    if chars[i] == '/' && i + 1 < chars.len() && chars[i + 1] == '*' {
        assert(starts_block_comment(t));
        let text = string_of(chars, i, chars.len());
        assert(chars@.subrange(i as int, chars.len() as int) =~= t);
        assert(chars@.skip(chars.len() as int) =~= Seq::<char>::empty());
        (Some(Token { s: text, tp: TokenType::BrokenLeftLongComment }), chars.len())
    } else {
        assert(!starts_block_comment(t));
        let (kind, e) = scan_at(chars, i);
        let text = string_of(chars, i, e);
        proof {
            lemma_scan_token(t);
            assert(chars@.subrange(i as int, e as int) =~= t.take(e - i));
            assert(chars@.skip(e as int) =~= t.skip(e - i));
        }
        (Some(Token { s: text, tp: kind }), e)
    }
}

} // verus!
