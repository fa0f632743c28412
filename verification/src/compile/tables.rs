//! What the tables of operators and keywords hold, as facts for proofs.

use vstd::prelude::*;
use crate::compile::charclass::{is_whitespace, is_word_char};
use crate::compile::token::{keywords, long_sp_operator, short_sp_operator, TokenType};

verus! {

/// A character of an operator: neither whitespace nor a character of a word.
pub open spec fn is_punctuation(c: char) -> bool {
    !is_whitespace(c) && !is_word_char(c)
}

/// A text made of one to three characters of punctuation.
pub open spec fn is_operator_text(l: Seq<char>) -> bool {
    &&& 1 <= l.len() <= 3
    &&& forall|j: int| 0 <= j < l.len() ==> is_punctuation(#[trigger] l[j])
}

/// A kind that an entry of a table may have: any but those that the
/// tokenizer gives without a table.
pub open spec fn is_table_kind(kind: TokenType) -> bool {
    &&& kind != TokenType::Null
    &&& kind != TokenType::Broken
    &&& kind != TokenType::String
    &&& kind != TokenType::Number
    &&& kind != TokenType::BrokenLeftLongComment
}

/// A text made of lower-case ASCII letters, at least one.
pub open spec fn is_keyword_text(l: Seq<char>) -> bool {
    &&& 1 <= l.len()
    &&& forall|j: int| 0 <= j < l.len() ==> 'a' <= #[trigger] l[j] <= 'z'
}

/// The long operators are nineteen entries: each text has two or three
/// characters of punctuation, and each kind is one that only a table gives.
pub proof fn lemma_long_sp_operator()
    ensures
        long_sp_operator().len() == 19,
        forall|i: int|
            0 <= i < 19 ==> is_operator_text((#[trigger] long_sp_operator()[i]).lexeme) && long_sp_operator()[i].lexeme.len() >= 2 && is_table_kind(long_sp_operator()[i].kind),
{
    reveal_strlit("==");
    reveal_strlit("!=");
    reveal_strlit("&&");
    reveal_strlit("||");
    reveal_strlit("<<");
    reveal_strlit(">>");
    reveal_strlit("+=");
    reveal_strlit("-=");
    reveal_strlit("*=");
    reveal_strlit("/=");
    reveal_strlit("%=");
    reveal_strlit("<<=");
    reveal_strlit(">>=");
    reveal_strlit("&=");
    reveal_strlit("|=");
    reveal_strlit("^=");
    reveal_strlit("::");
    reveal_strlit("->");
    assert forall|i: int| 0 <= i < 19 implies is_operator_text((#[trigger] long_sp_operator()[i]).lexeme) && long_sp_operator()[i].lexeme.len() >= 2 && is_table_kind(long_sp_operator()[i].kind) by {
        if i == 0 {
            assert(long_sp_operator()[0].lexeme == "=="@);
        }
        if i == 1 {
            assert(long_sp_operator()[1].lexeme == "!="@);
        }
        if i == 2 {
            assert(long_sp_operator()[2].lexeme == "&&"@);
        }
        if i == 3 {
            assert(long_sp_operator()[3].lexeme == "||"@);
        }
        if i == 4 {
            assert(long_sp_operator()[4].lexeme == "<<"@);
        }
        if i == 5 {
            assert(long_sp_operator()[5].lexeme == ">>"@);
        }
        if i == 6 {
            assert(long_sp_operator()[6].lexeme == "+="@);
        }
        if i == 7 {
            assert(long_sp_operator()[7].lexeme == "-="@);
        }
        if i == 8 {
            assert(long_sp_operator()[8].lexeme == "*="@);
        }
        if i == 9 {
            assert(long_sp_operator()[9].lexeme == "/="@);
        }
        if i == 10 {
            assert(long_sp_operator()[10].lexeme == "%="@);
        }
        if i == 11 {
            assert(long_sp_operator()[11].lexeme == "/="@);
        }
        if i == 12 {
            assert(long_sp_operator()[12].lexeme == "<<="@);
        }
        if i == 13 {
            assert(long_sp_operator()[13].lexeme == ">>="@);
        }
        if i == 14 {
            assert(long_sp_operator()[14].lexeme == "&="@);
        }
        if i == 15 {
            assert(long_sp_operator()[15].lexeme == "|="@);
        }
        if i == 16 {
            assert(long_sp_operator()[16].lexeme == "^="@);
        }
        if i == 17 {
            assert(long_sp_operator()[17].lexeme == "::"@);
        }
        if i == 18 {
            assert(long_sp_operator()[18].lexeme == "->"@);
        }
    }
}

/// The short operators are twenty-three entries: each text is a single
/// character of punctuation, and each kind is one that only a table gives.
pub proof fn lemma_short_sp_operator()
    ensures
        short_sp_operator().len() == 23,
        forall|i: int|
            0 <= i < 23 ==> is_operator_text((#[trigger] short_sp_operator()[i]).lexeme) && short_sp_operator()[i].lexeme.len() == 1 && is_table_kind(short_sp_operator()[i].kind),
{
    reveal_strlit("(");
    reveal_strlit(")");
    reveal_strlit("{");
    reveal_strlit("}");
    reveal_strlit("[");
    reveal_strlit("]");
    reveal_strlit("<");
    reveal_strlit(">");
    reveal_strlit("=");
    reveal_strlit("!");
    reveal_strlit("+");
    reveal_strlit("-");
    reveal_strlit("*");
    reveal_strlit("/");
    reveal_strlit("%");
    reveal_strlit("&");
    reveal_strlit("|");
    reveal_strlit("^");
    reveal_strlit("'");
    reveal_strlit("\"");
    reveal_strlit(".");
    reveal_strlit(",");
    reveal_strlit(";");
    assert forall|i: int| 0 <= i < 23 implies is_operator_text((#[trigger] short_sp_operator()[i]).lexeme) && short_sp_operator()[i].lexeme.len() == 1 && is_table_kind(short_sp_operator()[i].kind) by {
        if i == 0 {
            assert(short_sp_operator()[0].lexeme == "("@);
        }
        if i == 1 {
            assert(short_sp_operator()[1].lexeme == ")"@);
        }
        if i == 2 {
            assert(short_sp_operator()[2].lexeme == "{"@);
        }
        if i == 3 {
            assert(short_sp_operator()[3].lexeme == "}"@);
        }
        if i == 4 {
            assert(short_sp_operator()[4].lexeme == "["@);
        }
        if i == 5 {
            assert(short_sp_operator()[5].lexeme == "]"@);
        }
        if i == 6 {
            assert(short_sp_operator()[6].lexeme == "<"@);
        }
        if i == 7 {
            assert(short_sp_operator()[7].lexeme == ">"@);
        }
        if i == 8 {
            assert(short_sp_operator()[8].lexeme == "="@);
        }
        if i == 9 {
            assert(short_sp_operator()[9].lexeme == "!"@);
        }
        if i == 10 {
            assert(short_sp_operator()[10].lexeme == "+"@);
        }
        if i == 11 {
            assert(short_sp_operator()[11].lexeme == "-"@);
        }
        if i == 12 {
            assert(short_sp_operator()[12].lexeme == "*"@);
        }
        if i == 13 {
            assert(short_sp_operator()[13].lexeme == "/"@);
        }
        if i == 14 {
            assert(short_sp_operator()[14].lexeme == "%"@);
        }
        if i == 15 {
            assert(short_sp_operator()[15].lexeme == "&"@);
        }
        if i == 16 {
            assert(short_sp_operator()[16].lexeme == "|"@);
        }
        if i == 17 {
            assert(short_sp_operator()[17].lexeme == "^"@);
        }
        if i == 18 {
            assert(short_sp_operator()[18].lexeme == "'"@);
        }
        if i == 19 {
            assert(short_sp_operator()[19].lexeme == "\""@);
        }
        if i == 20 {
            assert(short_sp_operator()[20].lexeme == "."@);
        }
        if i == 21 {
            assert(short_sp_operator()[21].lexeme == ","@);
        }
        if i == 22 {
            assert(short_sp_operator()[22].lexeme == ";"@);
        }
    }
}

/// The keywords are ten entries: each text is made of lower-case letters,
/// and each kind is one that only a table gives.
pub proof fn lemma_keywords()
    ensures
        keywords().len() == 10,
        forall|i: int|
            0 <= i < 10 ==> is_keyword_text((#[trigger] keywords()[i]).lexeme) && is_table_kind(keywords()[i].kind),
{
    reveal_strlit("const");
    reveal_strlit("impl");
    reveal_strlit("trait");
    reveal_strlit("pub");
    reveal_strlit("private");
    reveal_strlit("if");
    reveal_strlit("while");
    reveal_strlit("for");
    reveal_strlit("use");
    reveal_strlit("fn");
    assert forall|i: int| 0 <= i < 10 implies is_keyword_text((#[trigger] keywords()[i]).lexeme) && is_table_kind(keywords()[i].kind) by {
        if i == 0 {
            assert(keywords()[0].lexeme == "const"@);
        }
        if i == 1 {
            assert(keywords()[1].lexeme == "impl"@);
        }
        if i == 2 {
            assert(keywords()[2].lexeme == "trait"@);
        }
        if i == 3 {
            assert(keywords()[3].lexeme == "pub"@);
        }
        if i == 4 {
            assert(keywords()[4].lexeme == "private"@);
        }
        if i == 5 {
            assert(keywords()[5].lexeme == "if"@);
        }
        if i == 6 {
            assert(keywords()[6].lexeme == "while"@);
        }
        if i == 7 {
            assert(keywords()[7].lexeme == "for"@);
        }
        if i == 8 {
            assert(keywords()[8].lexeme == "use"@);
        }
        if i == 9 {
            assert(keywords()[9].lexeme == "fn"@);
        }
    }
}

} // verus!
