use grammar::expression::ExpressionKind;
use grammar::reader::{class_holds, Parser};
use grammar::syntax::CharClass;

fn reader(input: &str) -> Parser {
    assert!(input.len() < usize::MAX);
    Parser::new(input)
}

fn kind() -> ExpressionKind {
    ExpressionKind::Nt("A".to_string())
}

#[test]
fn classes_of_characters() {
    assert!(class_holds(CharClass::Name, 'a'));
    assert!(class_holds(CharClass::Name, 'É'));
    assert!(class_holds(CharClass::Name, '9'));
    assert!(class_holds(CharClass::Name, '_'));
    assert!(!class_holds(CharClass::Name, '-'));
    assert!(class_holds(CharClass::Digit, '0') && class_holds(CharClass::Digit, '9'));
    assert!(!class_holds(CharClass::Digit, 'a') && !class_holds(CharClass::Digit, '٣'));
    assert!(class_holds(CharClass::Space, ' ') && !class_holds(CharClass::Space, '\t'));
    assert!(class_holds(CharClass::Newline, '\n') && !class_holds(CharClass::Newline, '\r'));
    assert!(class_holds(CharClass::Line, 'x') && !class_holds(CharClass::Line, '\n'));
    assert!(!class_holds(CharClass::Terminal, '`') && !class_holds(CharClass::Terminal, '\n'));
    assert!(!class_holds(CharClass::Prose, '>') && class_holds(CharClass::Prose, '`'));
    assert!(!class_holds(CharClass::Footnote, ']') && class_holds(CharClass::Footnote, '>'));
}

#[test]
fn take_while_reads_a_run() {
    let mut p = reader("abc_1 rest");
    assert_eq!(p.take_while(CharClass::Name), "abc_1");
    assert_eq!(p.index, 5);
    assert_eq!(p.take_while(CharClass::Name), "");
    assert_eq!(p.index, 5);
    p.space0();
    assert_eq!(p.index, 6);
    assert_eq!(p.take_while(CharClass::Line), "rest");
    assert!(p.eof());
}

#[test]
fn take_str_reads_only_what_is_there() {
    let mut p = reader("@root A");
    assert!(!p.take_str("@rook"));
    assert_eq!(p.index, 0);
    assert!(p.take_str("@root"));
    assert_eq!(p.index, 5);
    assert!(!p.take_str(" A and more"));
    assert!(p.take_str(""));
    assert_eq!(p.peek(), Some(' '));
    assert!(!p.eof());
}

#[test]
fn peek_at_the_end_is_nothing() {
    let p = reader("");
    assert_eq!(p.peek(), None);
    assert!(p.eof());
}

#[test]
fn expect_fails_with_the_given_message() {
    let mut p = reader("-> x");
    let e = p.expect("=>", "expected a fat arrow").err().unwrap();
    assert_eq!(e.message, "expected a fat arrow");
    assert_eq!((e.lineno, e.col), (1, 1));
    assert_eq!(p.index, 0);
    assert!(p.expect("->", "expected an arrow").is_ok());
    assert_eq!(p.index, 2);
    assert!(p.expect_char(' ', "expected a space").is_ok());
    assert_eq!(p.expect_char('y', "expected y").err().unwrap().message, "expected y");
}

#[test]
fn error_is_placed_at_the_reader() {
    let mut p = reader("one\ntwo");
    p.index = 5;
    let e = p.error("here");
    assert_eq!((e.line.as_str(), e.lineno, e.col), ("two", 2, 2));
}

#[test]
fn constructs_ask_for_their_first_character() {
    assert_eq!(
        reader("x").parse_terminal_str().err().unwrap().message,
        "expected opening backtick"
    );
    assert_eq!(reader("x").parse_prose().err().unwrap().message, "expected opening `<`");
    assert_eq!(reader("x").parse_charset().err().unwrap().message, "expected opening [");
    assert_eq!(reader("x").parse_grouped().err().unwrap().message, "expected opening `(`");
    assert_eq!(reader("x").parse_neg_expression().err().unwrap().message, "expected ~");
    assert_eq!(reader("x").parse_negative_lookahead().err().unwrap().message, "expected !");
    assert_eq!(reader("x").parse_cut().err().unwrap().message, "expected `^`");
    assert_eq!(reader("x").parse_comment().err().unwrap().message, "expected `//`");
    assert_eq!(reader("x").parse_optional(kind()).err().unwrap().message, "expected `?`");
    assert_eq!(reader("x").parse_repeat(kind()).err().unwrap().message, "expected `*`");
    assert_eq!(reader("x").parse_repeat_plus(kind()).err().unwrap().message, "expected `+`");
    assert_eq!(reader("x").parse_repeat_range(kind()).err().unwrap().message, "expected `{`");
}

#[test]
fn names_and_markers() {
    let mut p = reader("Name1 ->");
    assert!(!p.parse_is_root());
    assert_eq!(p.parse_name().as_deref(), Some("Name1"));
    assert_eq!(p.parse_name(), None);
    let mut p = reader("@root");
    assert!(p.parse_is_root());
    assert!(p.eof());
}

#[test]
fn unicode_after_the_prefix() {
    let mut p = reader("0041F rest");
    assert_eq!(p.parse_unicode().ok().unwrap(), ('\u{41F}', "0041F".to_string()));
    assert_eq!(p.index, 5);
    let mut p = reader("10FFFF0");
    assert_eq!(p.parse_unicode().ok().unwrap(), ('\u{10FFFF}', "10FFFF".to_string()));
    assert_eq!(p.index, 6);
}

#[test]
fn postfix_is_optional() {
    let mut p = reader(" rest");
    assert!(matches!(p.parse_postfix(kind()), Ok(ExpressionKind::Nt(n)) if n == "A"));
    assert_eq!(p.index, 0);
    let mut p = reader("*?x");
    assert!(matches!(p.parse_postfix(kind()), Ok(ExpressionKind::RepeatNonGreedy(_))));
    assert_eq!(p.index, 2);
}

#[test]
fn term_ends_at_an_empty_line() {
    let mut p = reader("\n\nNext -> x");
    assert!(matches!(p.parse_expr1(), Ok(None)));
    assert_eq!(p.index, 2);
    let mut p = reader("\n");
    assert!(matches!(p.parse_expr1(), Ok(None)));
    assert_eq!(p.index, 1);
    let mut p = reader(") rest");
    assert!(matches!(p.parse_expr1(), Ok(None)));
    assert_eq!(p.index, 0);
}
