//! What tokenizing means: the next token of a text as a mathematical function
//! of that text.

use vstd::prelude::*;
use crate::compile::charclass::{
    is_ascii_alphabetic,
    is_ascii_digit,
    is_broken_stop,
    is_whitespace,
    is_word_char,
};
use crate::compile::tables::{lemma_long_sp_operator};
use crate::compile::token::{
    keywords,
    long_sp_operator,
    short_sp_operator,
    TokenType,
    TokenView,
};

verus! {

/// A token and the text that follows it.
pub struct Lexed {
    pub token: TokenView,
    pub rest: Seq<char>,
}

/// `s` begins with the characters of `p`.
pub open spec fn starts_with(s: Seq<char>, p: Seq<char>) -> bool {
    p.len() <= s.len() && s.take(p.len() as int) == p
}

/// The characters that a line comment runs over.
pub open spec fn in_line_comment() -> spec_fn(char) -> bool {
    |c: char| c != '\n'
}

/// The characters of a word.
pub open spec fn in_word() -> spec_fn(char) -> bool {
    |c: char| is_word_char(c)
}

/// The characters that a run of unrecognized punctuation goes on over.
pub open spec fn in_broken_run() -> spec_fn(char) -> bool {
    |c: char| !is_broken_stop(c)
}

/// Where the run of characters that `keep` accepts, entered at `from`, ends:
/// the first index at or after `from` that holds a character which `keep`
/// refuses, or the length of `s`.
pub open spec fn run_end(s: Seq<char>, from: int, keep: spec_fn(char) -> bool) -> int
    decreases s.len() - from,
{
    if 0 <= from < s.len() && keep(s[from]) {
        run_end(s, from + 1, keep)
    } else {
        from
    }
}

/// `s` opens a comment that runs to the end of its line.
pub open spec fn starts_line_comment(s: Seq<char>) -> bool {
    s.len() >= 2 && s[0] == '/' && s[1] == '/'
}

/// `s` opens a block comment.
pub open spec fn starts_block_comment(s: Seq<char>) -> bool {
    s.len() >= 2 && s[0] == '/' && s[1] == '*'
}

/// The length of the line comment that `s` opens: through the first line
/// feed, or all of `s` where there is none.
pub open spec fn line_comment_len(s: Seq<char>) -> int {
    let e = run_end(s, 2, in_line_comment());
    if e < s.len() {
        e + 1
    } else {
        s.len() as int
    }
}

/// The index just behind the first `*/` of `s` whose star stands at `from` or
/// later, if there is one.
pub open spec fn block_close(s: Seq<char>, from: int) -> Option<int>
    decreases s.len() - from,
{
    if from < 0 || from + 1 >= s.len() {
        None
    } else if s[from] == '*' && s[from + 1] == '/' {
        Some(from + 2)
    } else {
        block_close(s, from + 1)
    }
}

/// The length of the block comment that `s` opens, if it is closed. The star
/// that opens the comment may be the star that closes it: `/*/` is a whole
/// comment.
pub open spec fn block_comment_len(s: Seq<char>) -> Option<int> {
    block_close(s, 1)
}

/// The index of the first entry of `table`, at `from` or later, whose text
/// `s` begins with.
pub open spec fn first_prefix(table: Seq<TokenView>, s: Seq<char>, from: int) -> Option<int>
    decreases table.len() - from,
{
    if from < 0 || from >= table.len() {
        None
    } else if starts_with(s, table[from].lexeme) {
        Some(from)
    } else {
        first_prefix(table, s, from + 1)
    }
}

/// The index of the first entry of `table`, at `from` or later, whose text
/// begins with the character `c`.
pub open spec fn first_initial(table: Seq<TokenView>, c: char, from: int) -> Option<int>
    decreases table.len() - from,
{
    if from < 0 || from >= table.len() {
        None
    } else if table[from].lexeme.len() > 0 && table[from].lexeme[0] == c {
        Some(from)
    } else {
        first_initial(table, c, from + 1)
    }
}

/// The index of the first entry of `table`, at `from` or later, whose text is
/// `lexeme`.
pub open spec fn first_equal(table: Seq<TokenView>, lexeme: Seq<char>, from: int) -> Option<int>
    decreases table.len() - from,
{
    if from < 0 || from >= table.len() {
        None
    } else if table[from].lexeme == lexeme {
        Some(from)
    } else {
        first_equal(table, lexeme, from + 1)
    }
}

/// The operator that `s` begins with: the first long operator, in table
/// order, that `s` begins with; else the first short operator with the first
/// character of `s`, which then stands alone.
pub open spec fn operator_match(s: Seq<char>) -> Option<TokenView>
    recommends
        s.len() > 0,
{
    match first_prefix(long_sp_operator(), s, 0) {
        Some(i) => Some(long_sp_operator()[i]),
        None => match first_initial(short_sp_operator(), s[0], 0) {
            Some(i) => Some(TokenView { lexeme: s.take(1), kind: short_sp_operator()[i].kind }),
            None => None,
        },
    }
}

/// Every character of `lexeme` is a decimal digit.
pub open spec fn all_digits(lexeme: Seq<char>) -> bool {
    forall|j: int| 0 <= j < lexeme.len() ==> is_ascii_digit(#[trigger] lexeme[j])
}

/// Every character of `lexeme` is an ASCII letter or an underscore.
pub open spec fn all_letters(lexeme: Seq<char>) -> bool {
    forall|j: int|
        0 <= j < lexeme.len() ==> is_ascii_alphabetic(#[trigger] lexeme[j]) || lexeme[j] == '_'
}

/// The kind of a word by its characters: a number where all are digits; an
/// identifier where all are letters or underscores and the first is no
/// digit; no kind otherwise.
pub open spec fn classify(lexeme: Seq<char>) -> TokenType
    recommends
        lexeme.len() > 0,
{
    if all_digits(lexeme) {
        TokenType::Number
    } else if all_letters(lexeme) && !is_ascii_digit(lexeme[0]) {
        TokenType::String
    } else {
        TokenType::Null
    }
}

/// The kind of the keyword that `lexeme` equals, or `kind` where it equals
/// none.
pub open spec fn keyword_or(lexeme: Seq<char>, kind: TokenType) -> TokenType {
    match first_equal(keywords(), lexeme, 0) {
        Some(i) => keywords()[i].kind,
        None => kind,
    }
}

/// The token made of the first `n` characters of `s`, of kind `kind` unless
/// those characters are a keyword, and what follows it.
pub open spec fn cut(s: Seq<char>, n: int, kind: TokenType) -> Lexed {
    let lexeme = s.take(n);
    Lexed { token: TokenView { lexeme, kind: keyword_or(lexeme, kind) }, rest: s.skip(n) }
}

/// The token at the start of `s`, where `s` begins with a character that is
/// neither whitespace nor the start of a comment: a word as far as it runs;
/// else an operator; else the run of punctuation up to the next
/// alphanumeric character, underscore or whitespace, its first character
/// included whatever it is.
pub open spec fn scan_token(s: Seq<char>) -> Lexed
    recommends
        s.len() > 0,
{
    if is_word_char(s[0]) {
        let n = run_end(s, 0, in_word());
        cut(s, n, classify(s.take(n)))
    } else {
        match operator_match(s) {
            Some(t) => cut(s, t.lexeme.len() as int, t.kind),
            None => cut(s, run_end(s, 1, in_broken_run()), TokenType::Broken),
        }
    }
}

/// The number of characters at the start of `s` that belong to whitespace
/// and to comments that end within `s`.
///
/// A line comment is passed over through its line feed, or through the end
/// of `s` where no line feed follows; a closed block comment through its
/// `*/`. A block comment that is not closed is not passed over.
pub open spec fn trivia_len(s: Seq<char>) -> int
    decreases s.len(),
    via trivia_len_decreases
{
    if s.len() == 0 {
        0
    } else if is_whitespace(s[0]) {
        1 + trivia_len(s.skip(1))
    } else if starts_line_comment(s) {
        line_comment_len(s) + trivia_len(s.skip(line_comment_len(s)))
    } else if starts_block_comment(s) {
        match block_comment_len(s) {
            Some(n) => n + trivia_len(s.skip(n)),
            None => 0,
        }
    } else {
        0
    }
}

#[via_fn]
proof fn trivia_len_decreases(s: Seq<char>) {
    if s.len() > 0 && !is_whitespace(s[0]) {
        if starts_line_comment(s) {
            lemma_run_end(s, 2, in_line_comment());
        } else if starts_block_comment(s) {
            lemma_block_close(s, 1);
        }
    }
}

/// The token at the start of `s`, where `s` begins with no whitespace and no
/// comment that ends within it: a block comment that is not closed is one
/// token that takes all of `s`; anything else is scanned.
pub open spec fn leading_token(s: Seq<char>) -> Lexed
    recommends
        s.len() > 0,
{
    if starts_block_comment(s) {
        Lexed {
            token: TokenView { lexeme: s, kind: TokenType::BrokenLeftLongComment },
            rest: Seq::empty(),
        }
    } else {
        scan_token(s)
    }
}

/// The next token of `s` and the text behind it, or `None` where `s` holds
/// nothing but whitespace and comments.
pub open spec fn next_token(s: Seq<char>) -> Option<Lexed> {
    let t = s.skip(trivia_len(s));
    if t.len() == 0 {
        None
    } else {
        Some(leading_token(t))
    }
}

/// All the tokens of `s`, in order.
pub open spec fn tokens(s: Seq<char>) -> Seq<TokenView>
    decreases s.len(),
    via tokens_decreases
{
    match next_token(s) {
        None => Seq::empty(),
        Some(l) => seq![l.token] + tokens(l.rest),
    }
}

#[via_fn]
proof fn tokens_decreases(s: Seq<char>) {
    lemma_next_token_advances(s);
}

/// A run ends at or after its start and within the text; all that it passes
/// is kept, and what it stops at is not.
pub proof fn lemma_run_end(s: Seq<char>, from: int, keep: spec_fn(char) -> bool)
    requires
        0 <= from <= s.len(),
    ensures
        from <= run_end(s, from, keep) <= s.len(),
        forall|j: int| from <= j < run_end(s, from, keep) ==> keep(#[trigger] s[j]),
        run_end(s, from, keep) < s.len() ==> !keep(s[run_end(s, from, keep)]),
    decreases s.len() - from,
{
    if from < s.len() && keep(s[from]) {
        lemma_run_end(s, from + 1, keep);
    }
}

/// Where a block comment closes, it closes behind a `*/` that stands at
/// `from` or later, and no `*/` stands before that one.
pub proof fn lemma_block_close(s: Seq<char>, from: int)
    requires
        0 <= from,
    ensures
        match block_close(s, from) {
            Some(n) => {
                &&& from + 2 <= n <= s.len()
                &&& s[n - 2] == '*'
                &&& s[n - 1] == '/'
                &&& forall|j: int| from <= j < n - 2 ==> !(#[trigger] s[j] == '*' && s[j + 1] == '/')
            },
            None => forall|j: int|
                from <= j && j + 1 < s.len() ==> !(#[trigger] s[j] == '*' && s[j + 1] == '/'),
        },
    decreases s.len() - from,
{
    if from + 1 < s.len() && !(s[from] == '*' && s[from + 1] == '/') {
        lemma_block_close(s, from + 1);
    }
}

/// The entry that `first_prefix` finds is the first one, at `from` or later,
/// that `s` begins with.
pub proof fn lemma_first_prefix(table: Seq<TokenView>, s: Seq<char>, from: int)
    requires
        0 <= from,
    ensures
        match first_prefix(table, s, from) {
            Some(i) => {
                &&& from <= i < table.len()
                &&& starts_with(s, table[i].lexeme)
                &&& forall|j: int| from <= j < i ==> !starts_with(s, #[trigger] table[j].lexeme)
            },
            None => forall|j: int|
                from <= j < table.len() ==> !starts_with(s, #[trigger] table[j].lexeme),
        },
    decreases table.len() - from,
{
    if from < table.len() && !starts_with(s, table[from].lexeme) {
        lemma_first_prefix(table, s, from + 1);
    }
}

/// The entry that `first_initial` finds is the first one, at `from` or
/// later, that begins with `c`.
pub proof fn lemma_first_initial(table: Seq<TokenView>, c: char, from: int)
    requires
        0 <= from,
    ensures
        match first_initial(table, c, from) {
            Some(i) => {
                &&& from <= i < table.len()
                &&& table[i].lexeme.len() > 0
                &&& table[i].lexeme[0] == c
                &&& forall|j: int|
                    from <= j < i ==> !((#[trigger] table[j]).lexeme.len() > 0
                        && table[j].lexeme[0] == c)
            },
            None => forall|j: int|
                from <= j < table.len() ==> !((#[trigger] table[j]).lexeme.len() > 0
                    && table[j].lexeme[0] == c),
        },
    decreases table.len() - from,
{
    if from < table.len() && !(table[from].lexeme.len() > 0 && table[from].lexeme[0] == c) {
        lemma_first_initial(table, c, from + 1);
    }
}

/// The entry that `first_equal` finds is the first one, at `from` or later,
/// whose text is `lexeme`.
pub proof fn lemma_first_equal(table: Seq<TokenView>, lexeme: Seq<char>, from: int)
    requires
        0 <= from,
    ensures
        match first_equal(table, lexeme, from) {
            Some(i) => {
                &&& from <= i < table.len()
                &&& table[i].lexeme == lexeme
                &&& forall|j: int| from <= j < i ==> (#[trigger] table[j]).lexeme != lexeme
            },
            None => forall|j: int| from <= j < table.len() ==> (#[trigger] table[j]).lexeme != lexeme,
        },
    decreases table.len() - from,
{
    if from < table.len() && table[from].lexeme != lexeme {
        lemma_first_equal(table, lexeme, from + 1);
    }
}

/// Whitespace and comments end within the text, and what follows them begins
/// with neither: not with whitespace, not with a line comment, and not with
/// a block comment that is closed.
pub proof fn lemma_trivia_len(s: Seq<char>)
    ensures
        0 <= trivia_len(s) <= s.len(),
        ({
            let t = s.skip(trivia_len(s));
            t.len() > 0 ==> {
                &&& !is_whitespace(t[0])
                &&& !starts_line_comment(t)
                &&& starts_block_comment(t) ==> block_comment_len(t) is None
                &&& trivia_len(t) == 0
            }
        }),
    decreases s.len(),
{
    if s.len() == 0 {
    } else if is_whitespace(s[0]) {
        lemma_trivia_len(s.skip(1));
        assert(s.skip(1).skip(trivia_len(s.skip(1))) =~= s.skip(trivia_len(s)));
    } else if starts_line_comment(s) {
        let n = line_comment_len(s);
        lemma_run_end(s, 2, in_line_comment());
        lemma_trivia_len(s.skip(n));
        assert(s.skip(n).skip(trivia_len(s.skip(n))) =~= s.skip(trivia_len(s)));
    } else if starts_block_comment(s) {
        match block_comment_len(s) {
            Some(n) => {
                lemma_block_close(s, 1);
                lemma_trivia_len(s.skip(n));
                assert(s.skip(n).skip(trivia_len(s.skip(n))) =~= s.skip(trivia_len(s)));
            },
            None => {
                assert(s.skip(0) =~= s);
            },
        }
    } else {
        assert(s.skip(0) =~= s);
    }
}

/// The number of characters of the token that `scan_token` finds.
pub open spec fn scan_len(s: Seq<char>) -> int {
    scan_token(s).token.lexeme.len() as int
}

/// A scanned token is a prefix of the text, of at least one character, and
/// what is left is the text behind that prefix.
pub proof fn lemma_scan_token(s: Seq<char>)
    requires
        s.len() > 0,
    ensures
        1 <= scan_len(s) <= s.len(),
        scan_token(s).token.lexeme == s.take(scan_len(s)),
        scan_token(s).rest == s.skip(scan_len(s)),
{
    if is_word_char(s[0]) {
        lemma_run_end(s, 0, in_word());
        assert(run_end(s, 0, in_word()) == run_end(s, 1, in_word()));
        lemma_run_end(s, 1, in_word());
    } else {
        match first_prefix(long_sp_operator(), s, 0) {
            Some(i) => {
                lemma_first_prefix(long_sp_operator(), s, 0);
                lemma_long_sp_operator();
            },
            None => {
                lemma_first_initial(short_sp_operator(), s[0], 0);
                lemma_run_end(s, 1, in_broken_run());
            },
        }
    }
}

/// Every token has at least one character, is a piece of the text that
/// starts behind the leading whitespace and comments, and leaves less text
/// than there was.
pub proof fn lemma_next_token_advances(s: Seq<char>)
    ensures
        match next_token(s) {
            Some(l) => {
                let a = trivia_len(s);
                let n = l.token.lexeme.len() as int;
                &&& 0 <= a
                &&& 1 <= n
                &&& a + n <= s.len()
                &&& l.token.lexeme == s.subrange(a, a + n)
                &&& l.rest == s.skip(a + n)
                &&& l.rest.len() < s.len()
            },
            None => trivia_len(s) == s.len(),
        },
{
    lemma_trivia_len(s);
    let a = trivia_len(s);
    let t = s.skip(a);
    if t.len() > 0 {
        if starts_block_comment(t) {
            assert(t =~= s.subrange(a, a + t.len()));
            assert(Seq::<char>::empty() =~= s.skip(a + t.len()));
        } else {
            lemma_scan_token(t);
            let n = scan_len(t);
            assert(t.take(n) =~= s.subrange(a, a + n));
            assert(t.skip(n) =~= s.skip(a + n));
        }
    }
}

} // verus!
