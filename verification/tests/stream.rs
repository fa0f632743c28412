use rfx::compile::lex::tokenize;
use rfx::compile::stream::{LexStep, LexStream};
use rfx::compile::token::TokenType;

fn run(lines: &[&str]) -> Vec<(String, TokenType, u64, u64)> {
    let mut stream = LexStream::new();
    let mut next = 0;
    let mut out = Vec::new();
    loop {
        match stream.lex() {
            LexStep::Token(t) => out.push((t.s, t.tp, stream.line(), stream.col())),
            LexStep::NeedLine => {
                let text = if next < lines.len() { lines[next] } else { "" };
                next += 1;
                stream.new_line(text);
            }
            LexStep::End => break,
        }
    }
    assert!(stream.is_eof());
    out
}

fn texts(lines: &[&str]) -> Vec<(String, TokenType)> {
    run(lines).into_iter().map(|(s, tp, _, _)| (s, tp)).collect()
}

fn whole(lines: &[&str]) -> Vec<(String, TokenType)> {
    tokenize(&lines.concat()).into_iter().map(|t| (t.s, t.tp)).collect()
}

#[test]
fn fresh_stream_asks_for_a_line() {
    let mut stream = LexStream::new();
    assert_eq!(stream.line(), 0);
    assert_eq!(stream.col(), 0);
    assert!(!stream.is_eof());
    assert!(matches!(stream.lex(), LexStep::NeedLine));
    assert_eq!(stream.line(), 0);
}

#[test]
fn lines_give_the_tokens_of_the_whole_text() {
    let lines = ["fn main() {\n", "    let x = a << 2; // shift\n", "\n", "}\n"];
    assert_eq!(texts(&lines), whole(&lines));
    assert_eq!(texts(&lines).len(), 13);
}

#[test]
fn block_comment_over_lines_is_passed_over() {
    let lines = ["a /* one\n", "two\n", "three */ b\n"];
    assert_eq!(
        texts(&lines),
        vec![("a".to_string(), TokenType::String), ("b".to_string(), TokenType::String)]
    );
    assert_eq!(texts(&lines), whole(&lines));
}

#[test]
fn open_block_comment_is_kept_to_the_end_of_the_text() {
    let lines = ["x\n", "/* never\n", "closed\n"];
    assert_eq!(
        texts(&lines),
        vec![
            ("x".to_string(), TokenType::String),
            ("/* never\nclosed\n".to_string(), TokenType::BrokenLeftLongComment),
        ]
    );
}

#[test]
fn last_line_without_line_feed_is_read_at_the_end() {
    let lines = ["a\n", "b <<"];
    assert_eq!(
        texts(&lines),
        vec![
            ("a".to_string(), TokenType::String),
            ("b".to_string(), TokenType::String),
            ("<<".to_string(), TokenType::LeftBShift),
        ]
    );
}

#[test]
fn blank_lines_give_no_token_from_a_stream() {
    assert_eq!(run(&["\n", "   \n", "\t\n", "\n"]), vec![]);
    assert_eq!(run(&[]), vec![]);
}

#[test]
fn line_and_column_follow_the_text() {
    let out = run(&["ab cd\n", "  ef\n"]);
    assert_eq!(
        out,
        vec![
            ("ab".to_string(), TokenType::String, 1, 2),
            ("cd".to_string(), TokenType::String, 1, 5),
            ("ef".to_string(), TokenType::String, 2, 4),
        ]
    );
}

#[test]
fn comment_lines_do_not_shift_the_column() {
    let out = run(&["// first\n", "\n", "   x\n"]);
    assert_eq!(out, vec![("x".to_string(), TokenType::String, 3, 4)]);
}

#[test]
fn line_is_that_of_the_token() {
    let mut stream = LexStream::new();
    let mut lines = vec!["a\n", "b", ""].into_iter();
    let mut seen = Vec::new();
    assert_eq!(stream.line(), 0);
    loop {
        match stream.lex() {
            LexStep::Token(t) => seen.push((t.s, stream.line(), stream.col(), stream.is_eof())),
            LexStep::NeedLine => stream.new_line(lines.next().unwrap()),
            LexStep::End => break,
        }
    }
    assert_eq!(
        seen,
        vec![("a".to_string(), 1, 1, false), ("b".to_string(), 2, 1, false)]
    );
    assert_eq!(stream.line(), 3);
}

#[test]
fn end_of_input_is_final() {
    let mut stream = LexStream::new();
    stream.new_line("a b\n");
    stream.new_line("");
    assert!(matches!(stream.lex(), LexStep::Token(_)));
    assert!(matches!(stream.lex(), LexStep::Token(_)));
    assert!(matches!(stream.lex(), LexStep::End));
    assert_eq!(stream.line(), 2);
    let line = stream.line();
    let col = stream.col();
    assert!(stream.is_eof());
    stream.new_line("c\n");
    assert!(matches!(stream.lex(), LexStep::End));
    assert!(matches!(stream.lex(), LexStep::End));
    assert!(stream.peek().is_none());
    assert_eq!(stream.line(), line);
    assert_eq!(stream.col(), col);
    assert!(stream.is_eof());
}

#[test]
fn column_is_counted_within_the_line_of_the_token() {
    let out = run(&["/* a\n", " b */ x\n", "y /* c\n", "\n", " */    z\n"]);
    assert_eq!(
        out,
        vec![
            ("x".to_string(), TokenType::String, 2, 7),
            ("y".to_string(), TokenType::String, 3, 1),
            ("z".to_string(), TokenType::String, 5, 8),
        ]
    );
}

#[test]
fn last_line_without_line_feed_settles_at_once() {
    let mut stream = LexStream::new();
    assert!(matches!(stream.lex(), LexStep::NeedLine));
    stream.new_line("x");
    assert_eq!(stream.line(), 1);
    match stream.lex() {
        LexStep::Token(t) => {
            assert_eq!(t.s, "x");
            assert_eq!(t.tp, TokenType::String);
        }
        _ => panic!("a token is due"),
    }
    assert!(!stream.is_eof());
    assert!(!stream.is_closed());
    assert_eq!(stream.line(), 1);
    assert_eq!(stream.col(), 1);
    assert!(matches!(stream.lex(), LexStep::NeedLine));
    stream.new_line("");
    assert!(stream.is_closed());
    assert!(!stream.is_eof());
    assert_eq!(stream.line(), 2);
    assert_eq!(stream.col(), 0);
    assert!(matches!(stream.lex(), LexStep::End));
    assert!(stream.is_eof());
    assert_eq!(stream.line(), 2);
    assert_eq!(stream.col(), 0);
}

#[test]
fn every_read_counts_a_line_and_resets_the_column() {
    let mut stream = LexStream::new();
    stream.new_line("ab cd\n");
    assert_eq!((stream.line(), stream.col()), (1, 0));
    assert!(matches!(stream.lex(), LexStep::Token(_)));
    assert_eq!((stream.line(), stream.col()), (1, 2));
    stream.new_line("\n");
    assert_eq!((stream.line(), stream.col()), (2, 0));
    assert!(!stream.is_closed());
    stream.new_line("");
    assert_eq!((stream.line(), stream.col()), (3, 0));
    assert!(stream.is_closed());
    assert!(!stream.is_eof());
    stream.new_line("");
    stream.new_line("x\n");
    assert_eq!((stream.line(), stream.col()), (3, 0));
    match stream.lex() {
        LexStep::Token(t) => assert_eq!(t.s, "cd"),
        _ => panic!("a token is due"),
    }
    assert!(matches!(stream.lex(), LexStep::End));
}

#[test]
fn column_never_falls_while_the_line_stays() {
    let mut stream = LexStream::new();
    stream.new_line("ab /* c\n");
    match stream.lex() {
        LexStep::Token(t) => assert_eq!(t.s, "ab"),
        _ => panic!("a token is due"),
    }
    assert_eq!((stream.line(), stream.col()), (1, 2));
    assert!(matches!(stream.lex(), LexStep::NeedLine));
    assert_eq!((stream.line(), stream.col()), (1, 2));
    stream.new_line("");
    assert_eq!((stream.line(), stream.col()), (2, 0));
    match stream.lex() {
        LexStep::Token(t) => {
            assert_eq!(t.s, "/* c\n");
            assert_eq!(t.tp, TokenType::BrokenLeftLongComment);
        }
        _ => panic!("a token is due"),
    }
    assert_eq!((stream.line(), stream.col()), (2, 5));
    assert!(matches!(stream.lex(), LexStep::End));
    assert_eq!((stream.line(), stream.col()), (2, 5));

    let lines = ["a  b /* c */ d\n", "  // e\n", "f /* g\n", "h */ i j\n", "k /* l"];
    let mut stream = LexStream::new();
    let mut next = 0;
    loop {
        let before = (stream.line(), stream.col());
        match stream.lex() {
            LexStep::Token(t) => {
                assert_eq!(stream.line(), before.0);
                assert!(stream.col() >= before.1 + t.s.chars().count() as u64);
            }
            LexStep::NeedLine => {
                assert_eq!(stream.line(), before.0);
                assert!(stream.col() >= before.1);
                stream.new_line(if next < lines.len() { lines[next] } else { "" });
                next += 1;
                assert_eq!((stream.line(), stream.col()), (before.0 + 1, 0));
            }
            LexStep::End => {
                assert_eq!(stream.line(), before.0);
                assert!(stream.col() >= before.1);
                break;
            }
        }
    }
    assert_eq!(stream.line(), 6);
}

#[test]
fn open_comment_is_held_back_only_in_a_whole_line() {
    let mut stream = LexStream::new();
    stream.new_line("/* a\n");
    assert_eq!(stream.peek().unwrap().tp, TokenType::BrokenLeftLongComment);
    assert!(matches!(stream.lex(), LexStep::NeedLine));
    stream.new_line("b */ c\n");
    assert_eq!(stream.peek().unwrap().s, "c");
    match stream.lex() {
        LexStep::Token(t) => assert_eq!(t.s, "c"),
        _ => panic!("a token is due"),
    }
    assert_eq!((stream.line(), stream.col()), (2, 6));
    assert!(stream.peek().is_none());
    assert!(matches!(stream.lex(), LexStep::NeedLine));
    stream.new_line("/* d");
    match stream.lex() {
        LexStep::Token(t) => {
            assert_eq!(t.s, "/* d");
            assert_eq!(t.tp, TokenType::BrokenLeftLongComment);
        }
        _ => panic!("a token is due"),
    }
    assert_eq!((stream.line(), stream.col()), (3, 4));
}
