use grammar::context::RenderCtx;
use grammar::expression::{Character, Characters, Expression, ExpressionKind, RangeLimit};
use grammar::render_railroad::render_expression;

/// Render an expression to an SVG string fragment.
fn render_to_svg(expr: &Expression) -> Option<String> {
    let cx = RenderCtx::new(false);
    assert!(expr.is_drawable());
    grammar::render_railroad::render_to_svg(expr, &cx)
}

/// Build a `RepeatRange` expression wrapping a nonterminal `e`.
fn range_expr(min: Option<u32>, max: Option<u32>, limit: RangeLimit) -> Expression {
    Expression::new_kind(ExpressionKind::RepeatRange {
        expr: Box::new(Expression::new_kind(ExpressionKind::Nt("e".to_string()))),
        min,
        max,
        limit,
    })
}

// -- RepeatRange tests --

#[test]
fn test_empty_exclusive_equal() {
    // `e{2..2}` (half-open, min == max) renders as empty.
    let expr = range_expr(Some(2), Some(2), RangeLimit::HalfOpen);
    let svg = render_to_svg(&expr).unwrap();
    // An empty node produces a minimal SVG path with no
    // nonterminal content.
    assert!(
        !svg.contains("nonterminal"),
        "expected empty rendering for e{{2..2}}, got: {svg}"
    );
}

#[test]
fn test_empty_inverted() {
    // `e{3..1}` (half-open, max < min) renders as empty.
    let expr = range_expr(Some(3), Some(1), RangeLimit::HalfOpen);
    let svg = render_to_svg(&expr).unwrap();
    assert!(
        !svg.contains("nonterminal"),
        "expected empty rendering for e{{3..1}}, got: {svg}"
    );
}

#[test]
fn test_closed_exact_one() {
    // `e{1..=1}` renders as a single `e` (no repeat).
    let expr = range_expr(Some(1), Some(1), RangeLimit::Closed);
    let svg = render_to_svg(&expr).unwrap();
    assert!(
        svg.contains("nonterminal"),
        "expected nonterminal for e{{1..=1}}, got: {svg}"
    );
    // Should not contain "more times" (no repeat comment).
    assert!(
        !svg.contains("more times"),
        "e{{1..=1}} should not show a repeat comment"
    );
}

#[test]
fn test_closed_range() {
    // `e{2..=4}` renders with repeat indicators.
    let expr = range_expr(Some(2), Some(4), RangeLimit::Closed);
    let svg = render_to_svg(&expr).unwrap();
    assert!(
        svg.contains("nonterminal"),
        "expected nonterminal for e{{2..=4}}, got: {svg}"
    );
    assert!(
        svg.contains("more times"),
        "e{{2..=4}} should show a repeat comment"
    );
}

#[test]
fn test_closed_optional() {
    // `e{..=1}` renders as optional.
    let expr = range_expr(None, Some(1), RangeLimit::Closed);
    let svg = render_to_svg(&expr).unwrap();
    assert!(
        svg.contains("nonterminal"),
        "expected nonterminal for e{{..=1}}, got: {svg}"
    );
}

// -- Negative lookahead tests --

#[test]
fn lookahead_nonterminal() {
    let expr = Expression::new_kind(ExpressionKind::NegativeLookahead(Box::new(
        Expression::new_kind(ExpressionKind::Nt("CHAR".to_string())),
    )));
    let svg = render_to_svg(&expr).unwrap();
    assert!(
        svg.contains("not followed by"),
        "should contain the 'not followed by' label"
    );
    assert!(svg.contains("CHAR"), "should contain the nonterminal name");
}

#[test]
fn render_railroad_lookahead_terminal() {
    let expr = Expression::new_kind(ExpressionKind::NegativeLookahead(Box::new(
        Expression::new_kind(ExpressionKind::Terminal("CR".to_string())),
    )));
    let svg = render_to_svg(&expr).unwrap();
    assert!(svg.contains("not followed by"));
    assert!(svg.contains("CR"));
}

#[test]
fn render_railroad_lookahead_charset() {
    let expr = Expression::new_kind(ExpressionKind::NegativeLookahead(Box::new(
        Expression::new_kind(ExpressionKind::Charset(vec![
            Characters::Terminal("e".to_string()),
            Characters::Terminal("E".to_string()),
        ])),
    )));
    let svg = render_to_svg(&expr).unwrap();
    assert!(svg.contains("not followed by"));
    assert!(svg.contains("e"));
    assert!(svg.contains("E"));
}

// -- Unicode tests --

#[test]
fn render_railroad_unicode_4_digit() {
    let expr = Expression::new_kind(ExpressionKind::Unicode(('\t', "0009".to_string())));
    let svg = render_to_svg(&expr).unwrap();
    assert!(svg.contains("U+0009"), "should render Unicode code point");
}

#[test]
fn render_railroad_unicode_6_digit() {
    let expr = Expression::new_kind(ExpressionKind::Unicode((
        '\u{10FFFF}',
        "10FFFF".to_string(),
    )));
    let svg = render_to_svg(&expr).unwrap();
    assert!(svg.contains("U+10FFFF"));
}

// -- Charset with ranges --

#[test]
fn render_railroad_charset_unicode_range() {
    let expr = Expression::new_kind(ExpressionKind::Charset(vec![Characters::Range(
        Character::Unicode(('\0', "0000".to_string())),
        Character::Unicode(('\u{007F}', "007F".to_string())),
    )]));
    let svg = render_to_svg(&expr).unwrap();
    assert!(svg.contains("U+0000"));
    assert!(svg.contains("U+007F"));
}

#[test]
fn render_railroad_charset_char_range() {
    let expr = Expression::new_kind(ExpressionKind::Charset(vec![Characters::Range(
        Character::Char('a'),
        Character::Char('z'),
    )]));
    let svg = render_to_svg(&expr).unwrap();
    assert!(svg.contains("a"));
    assert!(svg.contains("z"));
}

// -- Cut test --

#[test]
fn cut_rendering() {
    let expr = Expression::new_kind(ExpressionKind::Cut(Box::new(Expression::new_kind(
        ExpressionKind::Nt("Foo".to_string()),
    ))));
    let svg = render_to_svg(&expr).unwrap();
    assert!(
        svg.contains("no backtracking"),
        "cut should render with 'no backtracking' label"
    );
    assert!(svg.contains("Foo"));
}

// -- NegExpression test --

#[test]
fn neg_expression_rendering() {
    let expr = Expression::new_kind(ExpressionKind::NegExpression(Box::new(
        Expression::new_kind(ExpressionKind::Charset(vec![Characters::Terminal(
            "a".to_string(),
        )])),
    )));
    let svg = render_to_svg(&expr).unwrap();
    assert!(
        svg.contains("with the exception of"),
        "neg expression should have exception label"
    );
}
