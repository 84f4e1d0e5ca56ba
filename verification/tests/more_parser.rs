use grammar::diagnostics::Diagnostics;
use grammar::expression::{Characters, Expression, ExpressionKind};
use grammar::parser::{parse_block, parse_grammar};
use grammar::store::{Grammar, Production};

fn block(input: &str) -> Vec<Production> {
    parse_block(input, "syntax", "page.md").map_err(|e| e.to_string()).unwrap()
}

fn rule(input: &str) -> Expression {
    block(input).pop().unwrap().expression
}

#[test]
fn production_carries_category_path_and_root_marker() {
    let ps = block("@root A -> `a`\n\nB -> A");
    assert_eq!(ps.len(), 2);
    assert_eq!(ps[0].name, "A");
    assert_eq!(ps[0].category, "syntax");
    assert_eq!(ps[0].path, "page.md");
    assert!(ps[0].is_root);
    assert_eq!(ps[1].name, "B");
    assert!(!ps[1].is_root);
}

#[test]
fn comment_lines_before_a_production_are_kept() {
    let ps = block("// one\n// two\nA -> `a`");
    let kinds: Vec<_> = ps[0].comments.iter().map(|e| &e.kind).collect();
    assert_eq!(kinds.len(), 4);
    assert!(matches!(kinds[0], ExpressionKind::Comment(t) if t == " one"));
    assert!(matches!(kinds[1], ExpressionKind::Break(0)));
    assert!(matches!(kinds[2], ExpressionKind::Comment(t) if t == " two"));
    assert!(matches!(kinds[3], ExpressionKind::Break(0)));
}

#[test]
fn grammar_keeps_the_order_in_which_names_are_seen() {
    let mut grammar = Grammar::default();
    let mut diag = Diagnostics::new(false);
    parse_grammar("B -> `b`\n\n\nA -> B\n", &mut grammar, "x", "p.md", &mut diag)
        .map_err(|e| e.to_string())
        .unwrap();
    parse_grammar("C -> A", &mut grammar, "y", "q.md", &mut diag)
        .map_err(|e| e.to_string())
        .unwrap();
    assert_eq!(grammar.name_order, vec!["B", "A", "C"]);
    assert_eq!(grammar.productions.get("C").unwrap().category, "y");
    assert_eq!(diag.count(), 0);
}

#[test]
fn single_term_is_not_wrapped() {
    assert!(matches!(rule("R -> A").kind, ExpressionKind::Nt(n) if n == "A"));
    assert!(matches!(rule("R -> (A)").kind, ExpressionKind::Grouped(_)));
}

#[test]
fn line_break_carries_the_indentation() {
    let ExpressionKind::Sequence(seq) = rule("R -> A\n    B").kind else {
        panic!("expected a sequence");
    };
    assert_eq!(seq.len(), 3);
    assert!(matches!(seq[1].kind, ExpressionKind::Break(4)));
    assert!(seq[1].is_break());
    assert!(!seq[0].is_break());
}

#[test]
fn empty_line_ends_the_production() {
    let ps = block("A -> `a`\n\nB -> `b`\n");
    assert_eq!(ps.len(), 2);
}

#[test]
fn postfix_applies_to_the_term_before_it() {
    let ExpressionKind::Sequence(seq) = rule("R -> A B?").kind else {
        panic!("expected a sequence");
    };
    assert!(matches!(&seq[0].kind, ExpressionKind::Nt(_)));
    let ExpressionKind::Optional(inner) = &seq[1].kind else {
        panic!("expected an optional");
    };
    assert!(matches!(&inner.kind, ExpressionKind::Nt(n) if n == "B"));
}

#[test]
fn non_greedy_repeats() {
    assert!(matches!(rule("R -> A*?").kind, ExpressionKind::RepeatNonGreedy(_)));
    assert!(matches!(rule("R -> A+?").kind, ExpressionKind::RepeatPlusNonGreedy(_)));
    assert!(matches!(rule("R -> A*").kind, ExpressionKind::Repeat(_)));
    assert!(matches!(rule("R -> A+").kind, ExpressionKind::RepeatPlus(_)));
}

#[test]
fn suffix_may_hold_underscores_in_backticks() {
    let e = rule("R -> A _not `a_ b`_");
    assert_eq!(e.suffix.as_deref(), Some("not `a_ b`"));
    let e = rule("R -> A _x_y_ B");
    assert!(matches!(e.kind, ExpressionKind::Sequence(_)));
}

#[test]
fn suffix_ends_at_an_underscore_before_a_space() {
    let ExpressionKind::Sequence(seq) = rule("R -> A _x_y_ B").kind else {
        panic!("expected a sequence");
    };
    assert_eq!(seq[0].suffix.as_deref(), Some("x_y"));
}

#[test]
fn footnote_follows_the_term() {
    let e = rule("R -> A[^note]");
    assert_eq!(e.footnote.as_deref(), Some("note"));
    assert_eq!(e.suffix, None);
}

#[test]
fn negation_takes_a_charset_a_terminal_or_a_name() {
    for input in ["R -> ~[`a`]", "R -> ~`a`", "R -> ~A"] {
        assert!(matches!(rule(input).kind, ExpressionKind::NegExpression(_)));
    }
}

#[test]
fn charset_terminal_may_have_several_characters() {
    let ExpressionKind::Charset(set) = rule("R -> [`ab` `c`]").kind else {
        panic!("expected a charset");
    };
    assert!(matches!(&set[0], Characters::Terminal(t) if t == "ab"));
    assert!(matches!(&set[1], Characters::Terminal(t) if t == "c"));
}

#[test]
fn names_may_hold_letters_of_any_script() {
    let ps = block("Größe -> Ünïcode_1");
    assert_eq!(ps[0].name, "Größe");
    assert!(matches!(&ps[0].expression.kind, ExpressionKind::Nt(n) if n == "Ünïcode_1"));
}

#[test]
fn parsed_expressions_are_well_formed() {
    for input in ["R -> A{2..5}", "R -> (A{..=3} | B{1..})+", "R -> !A{7..=7} ^ B{..}"] {
        let e = rule(input);
        assert!(e.is_well_formed());
        assert!(e.is_drawable());
    }
}
