use rfx::compile::lex::{tokenize, Cursor, Lex};
use rfx::compile::token::{Token, TokenType};

fn kinds(text: &str) -> Vec<(String, TokenType)> {
    tokenize(text).into_iter().map(|t| (t.s, t.tp)).collect()
}

fn pair(s: &str, tp: TokenType) -> (String, TokenType) {
    (s.to_string(), tp)
}

#[test]
fn test_lex_char() {
    let test_str = r#"
        #[cfg(test)]
        mod tests {
            use crate::compile::lex::Lex;

            /* This function is for testing lex() in Trait Lex*/
            #[test]
            fn test_lex() {
                let test_str = "";
                let mut str_ci = test_str.char_indices();
                let mut i = 0;
                loop {
                    i += 1;
                    let token = str_ci.lex();
                    if token.is_none() {
                        break;
                    }
                    let unwrap_token = token.unwrap();
                    // print
                    println!("i: \'{}\'", unwrap_token.s);
                }
            }
        }"#;
    let mut str_chars = Cursor::new(test_str);
    let mut i = 0;
    loop {
        i += 1;
        let token = str_chars.lex();
        if token.is_none() {
            break;
        }
        let unwrap_token = token.unwrap();
        println!("{}, {}: \'{}\'", i, unwrap_token.tp.name(), unwrap_token.s);
    }
    assert_eq!(i, 98);
}

#[test]
fn new_token_is_empty_and_without_kind() {
    let t = Token::new();
    assert_eq!(t.s, "");
    assert_eq!(t.tp, TokenType::Null);
}

#[test]
fn same_input_gives_same_tokens() {
    let text = "fn main() { let x = 1; } // done";
    assert_eq!(kinds(text), kinds(text));
    let mut a = Cursor::new(text);
    let mut b = Cursor::new(text);
    loop {
        let x = a.lex();
        let y = b.lex();
        assert_eq!(x.is_none(), y.is_none());
        match (x, y) {
            (Some(x), Some(y)) => {
                assert_eq!(x.s, y.s);
                assert_eq!(x.tp, y.tp);
            }
            _ => break,
        }
    }
}

#[test]
fn two_tokens_apart_give_two_tokens() {
    assert_eq!(
        kinds("foo 42"),
        vec![pair("foo", TokenType::String), pair("42", TokenType::Number)]
    );
    assert_eq!(
        kinds("+=\t\n::"),
        vec![pair("+=", TokenType::PlusEqu), pair("::", TokenType::DblColon)]
    );
    assert_eq!(
        kinds("@@ while"),
        vec![pair("@@", TokenType::Broken), pair("while", TokenType::While)]
    );
}

#[test]
fn comment_ends_a_word_and_is_passed_over() {
    let mut c = Cursor::new("x/*c*/y");
    let first = c.lex().unwrap();
    assert_eq!(first.s, "x");
    assert_eq!(first.tp, TokenType::String);
    assert_eq!(c.position(), 1);
    let second = c.lex().unwrap();
    assert_eq!(second.s, "y");
    assert_eq!(second.tp, TokenType::String);
    assert_eq!(c.position(), 7);
    assert!(c.lex().is_none());
}

#[test]
fn first_operator_in_table_order_wins() {
    assert_eq!(kinds("<<"), vec![pair("<<", TokenType::LeftBShift)]);
    assert_eq!(
        kinds("<<="),
        vec![pair("<<", TokenType::LeftBShift), pair("=", TokenType::Equal)]
    );
    assert_eq!(
        kinds(">>="),
        vec![pair(">>", TokenType::RightBShift), pair("=", TokenType::Equal)]
    );
    assert_eq!(kinds("<"), vec![pair("<", TokenType::LeftABrack)]);
    assert_eq!(
        kinds("==="),
        vec![pair("==", TokenType::LogicEqual), pair("=", TokenType::Equal)]
    );
    assert_eq!(kinds("->"), vec![pair("->", TokenType::Arrow)]);
    assert_eq!(kinds("/="), vec![pair("/=", TokenType::DivideEqu)]);
}

#[test]
fn keyword_overrides_identifier() {
    assert_eq!(kinds("if"), vec![pair("if", TokenType::If)]);
    assert_eq!(kinds("iff"), vec![pair("iff", TokenType::String)]);
    assert_eq!(
        kinds("const impl trait pub private if while for use fn"),
        vec![
            pair("const", TokenType::Const),
            pair("impl", TokenType::Impl),
            pair("trait", TokenType::Trait),
            pair("pub", TokenType::Pub),
            pair("private", TokenType::Private),
            pair("if", TokenType::If),
            pair("while", TokenType::While),
            pair("for", TokenType::For),
            pair("use", TokenType::Use),
            pair("fn", TokenType::Fn),
        ]
    );
}

#[test]
fn words_are_numbers_identifiers_or_neither() {
    assert_eq!(kinds("123"), vec![pair("123", TokenType::Number)]);
    assert_eq!(kinds("abc"), vec![pair("abc", TokenType::String)]);
    assert_eq!(kinds("1abc"), vec![pair("1abc", TokenType::Null)]);
    assert_eq!(kinds("_a_b"), vec![pair("_a_b", TokenType::String)]);
    assert_eq!(kinds("_"), vec![pair("_", TokenType::String)]);
    assert_eq!(kinds("a1"), vec![pair("a1", TokenType::Null)]);
    assert_eq!(kinds("1_"), vec![pair("1_", TokenType::Null)]);
}

#[test]
fn open_block_comment_is_one_token_to_the_end() {
    let mut c = Cursor::new("/* never closed");
    let t = c.lex().unwrap();
    assert_eq!(t.s, "/* never closed");
    assert_eq!(t.tp, TokenType::BrokenLeftLongComment);
    assert!(c.is_end());
    assert!(c.lex().is_none());
    assert_eq!(
        kinds("a /* b\nc */ d /* e\nf"),
        vec![
            pair("a", TokenType::String),
            pair("d", TokenType::String),
            pair("/* e\nf", TokenType::BrokenLeftLongComment),
        ]
    );
}

#[test]
fn blank_lines_give_no_token() {
    assert_eq!(kinds(""), vec![]);
    assert_eq!(kinds("\n\n  \t\n\r\n \n"), vec![]);
    assert_eq!(kinds("\u{a0}\u{2003}\u{3000}"), vec![]);
    let mut c = Cursor::new("  \n\n ");
    assert!(c.lex().is_none());
    assert!(c.is_end());
    assert_eq!(c.position(), 5);
}

#[test]
fn comments_are_passed_over_one_after_another() {
    assert_eq!(kinds("// a\n// b\nfoo"), vec![pair("foo", TokenType::String)]);
    assert_eq!(kinds("// only a comment"), vec![]);
    assert_eq!(kinds("/* a *//* b */ // c\n/**/x"), vec![pair("x", TokenType::String)]);
    assert_eq!(kinds("/*/ x"), vec![pair("x", TokenType::String)]);
    assert_eq!(
        kinds("a / b /= c"),
        vec![
            pair("a", TokenType::String),
            pair("/", TokenType::Divide),
            pair("b", TokenType::String),
            pair("/=", TokenType::DivideEqu),
            pair("c", TokenType::String),
        ]
    );
    assert_eq!(kinds("/"), vec![pair("/", TokenType::Divide)]);
}

#[test]
fn unknown_punctuation_runs_to_the_next_word_or_space() {
    assert_eq!(
        kinds("#[cfg(test)]"),
        vec![
            pair("#[", TokenType::Broken),
            pair("cfg", TokenType::String),
            pair("(", TokenType::LeftParen),
            pair("test", TokenType::String),
            pair(")", TokenType::RightParen),
            pair("]", TokenType::RightBrack),
        ]
    );
    assert_eq!(kinds("@"), vec![pair("@", TokenType::Broken)]);
    assert_eq!(
        kinds("$$_x"),
        vec![pair("$$", TokenType::Broken), pair("_x", TokenType::String)]
    );
    assert_eq!(
        kinds("\u{e9}t\u{e9}"),
        vec![
            pair("\u{e9}", TokenType::Broken),
            pair("t", TokenType::String),
            pair("\u{e9}", TokenType::Broken),
        ]
    );
    assert_eq!(kinds("#\u{e9}"), vec![pair("#", TokenType::Broken), pair("\u{e9}", TokenType::Broken)]);
}

#[test]
fn peek_does_not_consume() {
    let mut c = Cursor::new("  a b");
    let p = c.peek().unwrap();
    assert_eq!(p.s, "a");
    assert_eq!(c.position(), 0);
    let t = c.lex().unwrap();
    assert_eq!(t.s, "a");
    assert_eq!(c.position(), 3);
    assert_eq!(c.peek().unwrap().s, "b");
    assert_eq!(c.lex().unwrap().s, "b");
    assert!(c.peek().is_none());
}

#[test]
fn kind_names_are_the_variant_names() {
    assert_eq!(TokenType::Null.name(), "Null");
    assert_eq!(TokenType::LeftBShiftEqu.name(), "LeftBShiftEqu");
    assert_eq!(TokenType::BrokenLeftLongComment.name(), "BrokenLeftLongComment");
}

#[test]
fn cursor_over_characters_reads_like_one_over_a_string() {
    let mut c = Cursor::from_chars("a += 1".chars().collect());
    assert_eq!(c.position(), 0);
    assert!(!c.is_end());
    let mut got = Vec::new();
    while let Some(t) = c.lex() {
        got.push((t.s, t.tp));
    }
    assert_eq!(got, kinds("a += 1"));
    assert_eq!(got.len(), 3);
    assert!(c.is_end());
    assert_eq!(c.position(), 6);
}

#[test]
fn position_never_goes_back() {
    let mut c = Cursor::new("  x // c\n /* d */ y  ");
    let mut last = c.position();
    loop {
        let t = c.lex();
        assert!(c.position() >= last);
        last = c.position();
        if t.is_none() {
            break;
        }
        assert!(!t.unwrap().s.is_empty());
    }
    assert_eq!(last, 21);
}
