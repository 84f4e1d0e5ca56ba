use grammar::diagnostics::Diagnostics;
use grammar::parser::{parse_block, parse_grammar};
use grammar::position::Error;
use grammar::store::Grammar;

fn error(input: &str) -> Error {
    let mut grammar = Grammar::default();
    let mut diag = Diagnostics::new(false);
    parse_grammar(input, &mut grammar, "test", "test.md", &mut diag).err().unwrap()
}

fn message(input: &str) -> String {
    error(input).message
}

#[test]
fn error_text_points_at_the_column() {
    let e = error("Rule -> A ^");
    assert_eq!(e.message, "expected expression after cut operator");
    assert_eq!(e.line, "Rule -> A ^");
    assert_eq!(e.lineno, 1);
    assert_eq!(e.col, 12);
    assert_eq!(
        e.to_string(),
        "\n  |\n1 | Rule -> A ^\n  |            ^ expected expression after cut operator"
    );
}

#[test]
fn error_text_has_a_margin_as_wide_as_the_line_number() {
    let input = "A -> `a`\n\n\n\n\n\n\n\n\nB -> (";
    let e = error(input);
    assert_eq!(e.lineno, 10);
    assert_eq!(e.col, 7);
    assert_eq!(
        e.to_string(),
        "\n   |\n10 | B -> (\n   |       ^ expected expression in parenthesized group"
    );
}

#[test]
fn production_errors() {
    assert_eq!(message(""), "expected production name");
    assert_eq!(message("-> A"), "expected production name");
    assert_eq!(message("Rule"), "expected -> arrow");
    assert_eq!(message("Rule-> A"), "expected -> arrow");
    assert_eq!(message("Rule ->"), "expected an expression");
    assert_eq!(message("// comment"), "expected newline");
    assert_eq!(message("A -> `a`\n\nA -> `b`"), "duplicate production A in grammar");
}

#[test]
fn terminal_and_prose_errors() {
    assert_eq!(message("Rule -> ``"), "expected terminal");
    assert_eq!(message("Rule -> `a"), "expected closing backtick");
    assert_eq!(message("Rule -> `a\n`"), "expected closing backtick");
    assert_eq!(message("Rule -> <>"), "expected prose text");
    assert_eq!(message("Rule -> <a"), "expected closing `>`");
    assert_eq!(message("Rule -> /x"), "expected `//`");
}

#[test]
fn group_errors() {
    assert_eq!(message("Rule -> ()"), "expected expression in parenthesized group");
    assert_eq!(message("Rule -> (A"), "expected closing `)`");
}

#[test]
fn negation_errors() {
    assert_eq!(message("Rule -> ~"), "expected expression after ~");
    assert_eq!(message("Rule -> ~("), "expected a charset, terminal, or name after ~ negation");
    assert_eq!(message("Rule -> !"), "expected expression after !");
}

#[test]
fn charset_errors() {
    assert_eq!(message("Rule -> []"), "expected at least one character in character group");
    assert_eq!(message("Rule -> [`a`"), "expected closing ]");
    assert_eq!(message("Rule -> [`ab`-`c`]"), "invalid start terminal in range");
    assert_eq!(message("Rule -> [`a`-`bc`]"), "invalid start terminal in range");
    assert_eq!(message("Rule -> [`a`-]"), "expected character in range");
    assert_eq!(message("Rule -> [U+0041]"), "unicode not supported");
}

#[test]
fn unicode_errors() {
    assert_eq!(message("Rule -> U+12"), "expected 4 uppercase hexadecimal digits after `U+`");
    assert_eq!(message("Rule -> U+00ab"), "expected 4 uppercase hexadecimal digits after `U+`");
    assert_eq!(message("Rule -> U+D800"), "expected a Unicode scalar value after `U+`");
    assert_eq!(message("Rule -> U+110000"), "expected a Unicode scalar value after `U+`");
}

#[test]
fn range_errors() {
    assert_eq!(message("A -> x{3..2}"), "range 3..2 is malformed");
    assert_eq!(message("A -> x{3..=2}"), "range 3..=2 is malformed");
    assert_eq!(message("A -> x{2..2}"), "half-open range maximum must be greater than minimum");
    assert_eq!(message("A -> x{..0}"), "half-open range `..0` is empty");
    assert_eq!(message("A -> x{..=}"), "closed range must have an upper bound");
    assert_eq!(message("A -> x{5}"), "expected `..` or `..=`");
    assert_eq!(message("A -> x{1..2"), "expected `}`");
    assert_eq!(message("A -> x{4294967296..}"), "malformed range start");
    assert_eq!(message("A -> x{..4294967296}"), "malformed range end");
}

#[test]
fn largest_bound_is_accepted() {
    let ps = parse_block("A -> x{4294967295..}", "test", "test.md").map_err(|e| e.message).unwrap();
    assert_eq!(ps.len(), 1);
    assert!(ps[0].expression.is_well_formed());
}

#[test]
fn suffix_and_footnote_errors() {
    assert_eq!(message("Rule -> A _no end"), "failed to find end of _ suffixed text");
    assert_eq!(message("Rule -> A _no end\n"), "failed to find end of _ suffixed text");
    assert_eq!(message("Rule -> A[^]"), "expected footnote id");
    assert_eq!(message("Rule -> A[^id"), "expected closing `]`");
}

#[test]
fn line_break_needs_indentation() {
    assert_eq!(message("Rule -> A\nB"), "expected indentation on next line");
}

#[test]
fn error_after_a_line_feed_is_on_the_next_line() {
    let e = error("Rule -> A _no end\nB");
    assert_eq!(e.lineno, 2);
    assert_eq!(e.col, 1);
    assert_eq!(e.line, "B");
}

#[test]
fn columns_of_errors_count_bytes() {
    let e = error("Rule -> `é` (");
    assert_eq!(e.message, "expected expression in parenthesized group");
    // Twelve characters before the place of the error, one of two bytes.
    assert_eq!(e.col, 15);
}
