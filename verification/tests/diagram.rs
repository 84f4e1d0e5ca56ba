use grammar::context::{RenderCtx, RenderError};
use grammar::diagnostics::Diagnostics;
use grammar::diagram::{diagram_of_root, node_to_svg, width_of_root, DiagramNode};
use grammar::expression::{Expression, ExpressionKind, RangeLimit};
use grammar::parser::parse_grammar;
use grammar::render_railroad::{
    make_diagram, needs_stacking, railroad_id, render_expression, render_production, render_railroad,
    strip_markdown,
};
use grammar::store::Grammar;

fn parse(input: &str) -> Grammar {
    let mut grammar = Grammar::default();
    let mut diag = Diagnostics::new(false);
    parse_grammar(input, &mut grammar, "test", "test.md", &mut diag)
        .map_err(|e| e.to_string())
        .unwrap();
    grammar
}

fn node(input: &str, stack: bool) -> Option<DiagramNode> {
    let grammar = parse(input);
    let e = &grammar.productions.get("Rule").unwrap().expression;
    assert!(e.is_drawable());
    render_expression(e, &RenderCtx::new(false), stack)
}

fn range(min: Option<u32>, max: Option<u32>, limit: RangeLimit) -> Option<DiagramNode> {
    let e = Expression::new_kind(ExpressionKind::RepeatRange {
        expr: Box::new(Expression::new_kind(ExpressionKind::Terminal("x".to_string()))),
        min,
        max,
        limit,
    });
    assert!(e.is_drawable());
    render_expression(&e, &RenderCtx::new(false), false)
}

fn is_x(n: &DiagramNode) -> bool {
    matches!(n, DiagramNode::Terminal(t) if t == "x")
}

fn caption_of(n: &DiagramNode) -> Option<&str> {
    match n {
        DiagramNode::Repeat { inner, repeat } if is_x(inner) => match &**repeat {
            DiagramNode::Comment(c) => Some(c.as_str()),
            _ => None,
        },
        _ => None,
    }
}

#[test]
fn diagram_ids_tell_the_summary_page_apart() {
    assert_eq!(railroad_id("Rule", false), "railroad-Rule");
    assert_eq!(railroad_id("Rule", true), "railroad-summary-Rule");
}

#[test]
fn markdown_links_are_stripped_from_captions() {
    assert_eq!(strip_markdown("see [text](url) and [a][b] or [c]"), "see text and a or c");
    assert_eq!(strip_markdown("no link"), "no link");
}

#[test]
fn suffix_is_a_caption_without_links() {
    let n = node("Rule -> `x` _not [this]_", false).unwrap();
    let DiagramNode::LabeledBox { inner, label } = n else {
        panic!("expected a labeled box");
    };
    assert!(is_x(&inner));
    assert!(matches!(*label, DiagramNode::Comment(c) if c == "not this"));
}

#[test]
fn comments_and_breaks_draw_nothing() {
    assert!(node("Rule -> // only a comment", false).is_none());
    let n = node("Rule -> `x` // note\n  `x`", false).unwrap();
    let DiagramNode::Sequence(children) = n else {
        panic!("expected a sequence");
    };
    assert_eq!(children.len(), 2);
}

#[test]
fn nonterminal_is_a_link() {
    let grammar = parse("Rule -> A");
    let mut cx = RenderCtx::new(false);
    cx.link_railroad("A".to_string(), "a.md#railroad-A".to_string());
    let e = &grammar.productions.get("Rule").unwrap().expression;
    let n = render_expression(e, &cx, false).unwrap();
    let DiagramNode::Link { inner, uri } = n else {
        panic!("expected a link");
    };
    assert_eq!(uri, "a.md#railroad-A");
    assert!(matches!(*inner, DiagramNode::NonTerminal(name) if name == "A"));
    let missing = render_expression(e, &RenderCtx::new(false), false).unwrap();
    assert!(matches!(missing, DiagramNode::Link { uri, .. } if uri == "missing"));
}

#[test]
fn exactly_one_is_the_operand_itself() {
    assert!(is_x(&range(Some(1), Some(1), RangeLimit::Closed).unwrap()));
}

#[test]
fn zero_or_one_is_optional() {
    for min in [None, Some(0)] {
        let n = range(min, Some(1), RangeLimit::Closed).unwrap();
        assert!(matches!(n, DiagramNode::Optional(inner) if is_x(&inner)));
    }
}

#[test]
fn unbounded_ranges_are_loops() {
    let n = range(Some(1), None, RangeLimit::HalfOpen).unwrap();
    assert!(matches!(&n, DiagramNode::Repeat { inner, repeat }
        if is_x(inner) && matches!(**repeat, DiagramNode::Empty)));
    for min in [None, Some(0)] {
        let n = range(min, None, RangeLimit::HalfOpen).unwrap();
        let DiagramNode::Optional(inner) = n else {
            panic!("expected an optional");
        };
        assert!(matches!(*inner, DiagramNode::Repeat { .. }));
    }
}

#[test]
fn empty_ranges_draw_an_empty_node() {
    for (min, max, limit) in [
        (None, Some(0), RangeLimit::Closed),
        (Some(0), Some(0), RangeLimit::Closed),
        (None, Some(1), RangeLimit::HalfOpen),
        (Some(0), Some(1), RangeLimit::HalfOpen),
        (Some(2), Some(2), RangeLimit::HalfOpen),
        (Some(3), Some(1), RangeLimit::HalfOpen),
        (Some(1), Some(1), RangeLimit::HalfOpen),
    ] {
        assert!(matches!(range(min, max, limit), Some(DiagramNode::Empty)));
    }
}

#[test]
fn bounded_loop_counts_the_further_passes() {
    let n = range(Some(1), Some(5), RangeLimit::Closed).unwrap();
    assert_eq!(caption_of(&n), Some("at most 4 more times"));
    let n = range(Some(1), Some(5), RangeLimit::HalfOpen).unwrap();
    assert_eq!(caption_of(&n), Some("at most 3 more times"));
    let n = range(Some(1), Some(2), RangeLimit::HalfOpen).unwrap();
    assert_eq!(caption_of(&n), Some("at most 0 more times"));
}

#[test]
fn no_minimum_makes_the_bounded_loop_optional() {
    let n = range(None, Some(3), RangeLimit::Closed).unwrap();
    let DiagramNode::Optional(inner) = n else {
        panic!("expected an optional");
    };
    assert_eq!(caption_of(&inner), Some("at most 2 more times"));
}

#[test]
fn larger_minimum_is_unrolled() {
    // `x{3..=5}`: two copies, then one to three.
    let n = range(Some(3), Some(5), RangeLimit::Closed).unwrap();
    let DiagramNode::Sequence(children) = n else {
        panic!("expected a sequence");
    };
    assert_eq!(children.len(), 3);
    assert!(is_x(&children[0]) && is_x(&children[1]));
    assert_eq!(caption_of(&children[2]), Some("at most 2 more times"));
    // `x{2..=2}`: exactly two copies.
    let DiagramNode::Sequence(children) = range(Some(2), Some(2), RangeLimit::Closed).unwrap()
    else {
        panic!("expected a sequence");
    };
    assert_eq!(children.len(), 2);
    assert!(is_x(&children[0]) && is_x(&children[1]));
    // `x{2..}`: one copy, then one or more.
    let DiagramNode::Sequence(children) = range(Some(2), None, RangeLimit::HalfOpen).unwrap()
    else {
        panic!("expected a sequence");
    };
    assert_eq!(children.len(), 2);
    assert!(is_x(&children[0]));
    assert!(matches!(&children[1], DiagramNode::Repeat { repeat, .. }
        if matches!(**repeat, DiagramNode::Empty)));
    // `x{2..4}`: one copy, then one or two.
    let DiagramNode::Sequence(children) = range(Some(2), Some(4), RangeLimit::HalfOpen).unwrap()
    else {
        panic!("expected a sequence");
    };
    assert_eq!(caption_of(&children[1]), Some("at most 1 more times"));
}

#[test]
fn large_minimum_is_unrolled_in_full() {
    let n = range(Some(1000), None, RangeLimit::HalfOpen).unwrap();
    assert!(matches!(n, DiagramNode::Sequence(children) if children.len() == 1000));
}

#[test]
fn stacking_splits_a_sequence_at_its_breaks() {
    let input = "Rule ->\n  `a` `b`\n  `c`\n";
    let plain = node(input, false).unwrap();
    assert!(matches!(plain, DiagramNode::Sequence(children) if children.len() == 3));
    let stacked = node(input, true).unwrap();
    let DiagramNode::Stack(rows) = stacked else {
        panic!("expected a stack");
    };
    assert_eq!(rows.len(), 2);
    assert!(matches!(&rows[0], DiagramNode::Sequence(children) if children.len() == 2));
    assert!(matches!(&rows[1], DiagramNode::Sequence(children) if children.len() == 1));
}

#[test]
fn sequence_without_breaks_is_not_stacked() {
    let stacked = node("Rule -> `a` `b`", true).unwrap();
    assert!(matches!(stacked, DiagramNode::Sequence(children) if children.len() == 2));
}

#[test]
fn negation_is_an_exception_to_any_character() {
    let n = node("Rule -> ~`x`", false).unwrap();
    let DiagramNode::Except { inner, label } = &n else {
        panic!("expected an exception");
    };
    assert!(matches!(&**inner, DiagramNode::Link { inner, uri }
        if uri == "missing" && matches!(&**inner, DiagramNode::NonTerminal(n) if n == "CHAR")));
    assert!(is_x(label));
    let svg = node_to_svg(&n);
    assert!(svg.contains("labeledbox"));
    assert!(svg.contains("with the exception of"));
    assert!(svg.contains("CHAR"));
}

#[test]
fn production_is_a_caption_over_a_rail() {
    let grammar = parse("Rule -> `x`");
    let prod = grammar.productions.get("Rule").unwrap();
    let dia = make_diagram(prod, &RenderCtx::new(false), false);
    let DiagramNode::VerticalGrid(rows) = &dia else {
        panic!("expected a grid");
    };
    assert_eq!(rows.len(), 2);
    assert!(matches!(&rows[0], DiagramNode::Link { inner, uri }
        if uri == "missing" && matches!(&**inner, DiagramNode::Comment(c) if c == "Rule")));
    let DiagramNode::Sequence(rail) = &rows[1] else {
        panic!("expected a sequence");
    };
    assert!(matches!(rail[0], DiagramNode::SimpleStart));
    assert!(is_x(&rail[1]));
    assert!(matches!(rail[2], DiagramNode::SimpleEnd));
}

#[test]
fn diagram_is_measured_and_drawn() {
    let grammar = parse("Rule -> `x`");
    let prod = grammar.productions.get("Rule").unwrap();
    let cx = RenderCtx::new(false);
    let dia = make_diagram(prod, &cx, false);
    let (width, svg) = diagram_of_root(&dia);
    assert_eq!(width, width_of_root(&dia));
    assert!(width > 0);
    assert!(svg.starts_with("<svg"));
    let mut out = String::new();
    render_production(prod, &cx, &mut out);
    assert_eq!(
        out,
        format!(
            "<div style=\"width: {width}px; height: auto; max-width: 100%; max-height: 100%\" \
             class=\"railroad-production\" id=\"railroad-Rule\">{svg}</div>\n"
        )
    );
}

#[test]
fn wide_diagram_is_stacked() {
    assert!(!needs_stacking(900));
    assert!(needs_stacking(901));
    let long = "`a_rather_long_terminal_to_fill_the_line`";
    let input = format!("Rule ->\n  {long} {long} {long}\n  {long} {long} {long}\n");
    let grammar = parse(&input);
    let prod = grammar.productions.get("Rule").unwrap();
    let cx = RenderCtx::new(false);
    let plain = make_diagram(prod, &cx, false);
    assert!(needs_stacking(width_of_root(&plain)));
    let stacked = make_diagram(prod, &cx, true);
    let (width, svg) = diagram_of_root(&stacked);
    assert!(width < width_of_root(&plain));
    let mut out = String::new();
    render_production(prod, &cx, &mut out);
    assert!(out.starts_with(&format!("<div style=\"width: {width}px;")));
    assert!(out.contains(&svg));
}

#[test]
fn diagrams_follow_one_another() {
    let grammar = parse("A -> `a`\n\nB -> A");
    let cx = RenderCtx::new(true);
    let mut out = String::new();
    render_railroad(&grammar, &cx, &["A", "B"], &mut out).unwrap();
    let a = out.find("id=\"railroad-summary-A\"").unwrap();
    let b = out.find("id=\"railroad-summary-B\"").unwrap();
    assert!(a < b);
    assert_eq!(out.matches("</div>\n").count(), 2);
}

#[test]
fn unknown_production_stops_the_drawing() {
    let grammar = parse("A -> `a`");
    let cx = RenderCtx::new(false);
    let mut out = String::new();
    let err = render_railroad(&grammar, &cx, &["Nope", "A"], &mut out).unwrap_err();
    assert!(matches!(err, RenderError::UnknownProduction(n) if n == "Nope"));
    assert_eq!(out, "");
}

#[test]
fn drawing_twice_gives_the_same_diagram() {
    let grammar = parse("Rule -> (A | `b`+)* [`x` Y]{2..=3} ~Z");
    let prod = grammar.productions.get("Rule").unwrap();
    let mut cx = RenderCtx::new(false);
    cx.link_railroad("A".to_string(), "a.md".to_string());
    let mut first = String::new();
    render_production(prod, &cx, &mut first);
    let mut second = String::new();
    render_production(prod, &cx, &mut second);
    assert_eq!(first, second);
}
