use grammar::context::{RenderCtx, RenderError};
use grammar::diagnostics::Diagnostics;
use grammar::expression::{Expression, ExpressionKind, RangeLimit};
use grammar::parser::parse_grammar;
use grammar::render_markdown::{
    markdown_escape, markdown_id, render_expression, render_markdown, render_production,
};
use grammar::store::Grammar;

fn parse(input: &str) -> Grammar {
    let mut grammar = Grammar::default();
    let mut diag = Diagnostics::new(false);
    parse_grammar(input, &mut grammar, "test", "test.md", &mut diag)
        .map_err(|e| e.to_string())
        .unwrap();
    grammar
}

fn expression(input: &str) -> String {
    let grammar = parse(input);
    let mut cx = RenderCtx::new(false);
    cx.link_markdown("A".to_string(), "a.md#grammar-A".to_string());
    let mut out = String::new();
    render_expression(&grammar.productions.get("Rule").unwrap().expression, &cx, &mut out);
    out
}

const A: &str = "<span class=\"grammar-text\">[A](a.md#grammar-A)</span>";
const B: &str = "<span class=\"grammar-text\">[B](missing)</span>";

#[test]
fn escapes_what_markdown_would_interpret() {
    assert_eq!(markdown_escape("a*b"), "a\\*b");
    assert_eq!(markdown_escape("\\`_*[](){}'\".-"), "\\\\\\`\\_\\*\\[\\]\\(\\)\\{\\}\\'\\\"\\.\\-");
    assert_eq!(markdown_escape("plain text+~!"), "plain text+~!");
    assert_eq!(markdown_escape(""), "");
}

#[test]
fn ids_tell_the_summary_page_apart() {
    assert_eq!(markdown_id("Rule", false), "grammar-Rule");
    assert_eq!(markdown_id("Rule", true), "grammar-summary-Rule");
}

#[test]
fn nonterminal_links_through_the_map_or_to_missing() {
    assert_eq!(expression("Rule -> A"), A);
    assert_eq!(expression("Rule -> B"), B);
}

#[test]
fn sequence_has_one_space_between_members() {
    assert_eq!(expression("Rule -> A B"), format!("{A} {B}"));
}

#[test]
fn alternation_has_a_bar_between_members() {
    assert_eq!(expression("Rule -> A | B"), format!("{A} | {B}"));
}

#[test]
fn group_is_wrapped_in_parentheses() {
    assert_eq!(expression("Rule -> (A B)"), format!("( {A} {B} )"));
}

#[test]
fn break_brings_its_own_indentation() {
    // No space after the break: it ends the line and indents the next one.
    assert_eq!(expression("Rule -> A\n  B"), format!("{A} \\\n&nbsp;&nbsp;{B}"));
    assert_eq!(expression("Rule -> A\n  | B"), format!("{A} \\\n&nbsp;&nbsp;| {B}"));
}

#[test]
fn quantifiers_are_superscripts() {
    assert_eq!(expression("Rule -> A?"), format!("{A}<sup>?</sup>"));
    assert_eq!(expression("Rule -> A*"), format!("{A}<sup>\\*</sup>"));
    assert_eq!(expression("Rule -> A*?"), format!("{A}<sup>\\* (non-greedy)</sup>"));
    assert_eq!(expression("Rule -> A+"), format!("{A}<sup>+</sup>"));
    assert_eq!(expression("Rule -> A+?"), format!("{A}<sup>+ (non-greedy)</sup>"));
}

#[test]
fn ranges_show_their_bounds() {
    assert_eq!(expression("Rule -> A{2..5}"), format!("{A}<sup>2..5</sup>"));
    assert_eq!(expression("Rule -> A{2..=5}"), format!("{A}<sup>2..=5</sup>"));
    assert_eq!(expression("Rule -> A{..5}"), format!("{A}<sup>..5</sup>"));
    assert_eq!(expression("Rule -> A{2..}"), format!("{A}<sup>2..</sup>"));
    assert_eq!(expression("Rule -> A{..}"), format!("{A}<sup>..</sup>"));
    assert_eq!(expression("Rule -> A{..=10}"), format!("{A}<sup>..=10</sup>"));
}

#[test]
fn terminal_is_escaped() {
    assert_eq!(expression("Rule -> `a.b`"), "<span class=\"grammar-literal\">a\\.b</span>");
}

#[test]
fn prose_keeps_its_angle_brackets() {
    assert_eq!(
        expression("Rule -> <any text>"),
        "<span class=\"grammar-text\">\\<any text\\></span>"
    );
}

#[test]
fn comment_is_a_span() {
    assert_eq!(
        expression("Rule -> A // note"),
        format!("{A} <span class=\"grammar-comment\">//  note</span>")
    );
}

#[test]
fn charset_lists_its_members() {
    assert_eq!(
        expression("Rule -> [`a`-`z` `_` A U+0041-U+005A]"),
        "\\[<span class=\"grammar-literal\">a</span>-<span class=\"grammar-literal\">z</span> \
         <span class=\"grammar-literal\">\\_</span> [A](a.md#grammar-A) \
         <span class=\"grammar-literal\">U+0041</span>-<span class=\"grammar-literal\">U+005A</span>]"
    );
}

#[test]
fn prefixes_stand_before_their_operand() {
    assert_eq!(expression("Rule -> ~A"), format!("~{A}"));
    assert_eq!(expression("Rule -> !A"), format!("!{A}"));
    assert_eq!(expression("Rule -> A ^ B"), format!("{A} ^ {B}"));
}

#[test]
fn unicode_keeps_its_digits() {
    assert_eq!(expression("Rule -> U+0041"), "U+0041");
    assert_eq!(expression("Rule -> U+000041"), "U+000041");
}

#[test]
fn suffix_is_a_subscript() {
    assert_eq!(
        expression("Rule -> A _except `b`_"),
        format!("{A}<sub class=\"grammar-text\">except `b`</sub>")
    );
}

#[test]
fn footnote_is_left_out_of_the_summary() {
    let grammar = parse("Rule -> A[^note]");
    let e = &grammar.productions.get("Rule").unwrap().expression;
    let mut page = String::new();
    render_expression(e, &RenderCtx::new(false), &mut page);
    assert_eq!(page, "<span class=\"grammar-text\">[A](missing)</span>&ZeroWidthSpace;[^note]");
    let mut summary = String::new();
    render_expression(e, &RenderCtx::new(true), &mut summary);
    assert_eq!(summary, "<span class=\"grammar-text\">[A](missing)</span>");
}

#[test]
fn production_is_an_anchor_an_arrow_and_the_expression() {
    let grammar = parse("// Leading.\n@root Rule -> A");
    let mut cx = RenderCtx::new(false);
    cx.link_railroad("Rule".to_string(), "#railroad-Rule".to_string());
    let mut out = String::new();
    render_production(grammar.productions.get("Rule").unwrap(), &cx, &mut out);
    assert_eq!(
        out,
        "<span class=\"grammar-comment\">//  Leading.</span>\\\n\
         <span class=\"grammar-text grammar-production\" id=\"grammar-Rule\" \
         onclick=\"show_railroad()\">[Rule](#railroad-Rule)</span> → \
         <span class=\"grammar-text\">[A](missing)</span>\n"
    );
}

#[test]
fn productions_are_separated_by_an_empty_line() {
    let grammar = parse("A -> `a`\n\nB -> `b`");
    let cx = RenderCtx::new(true);
    let mut out = String::from("before");
    render_markdown(&grammar, &cx, &["A", "B"], &mut out).unwrap();
    assert_eq!(
        out,
        "before<span class=\"grammar-text grammar-production\" id=\"grammar-summary-A\" \
         onclick=\"show_railroad()\">[A](missing)</span> → \
         <span class=\"grammar-literal\">a</span>\n\n\
         <span class=\"grammar-text grammar-production\" id=\"grammar-summary-B\" \
         onclick=\"show_railroad()\">[B](missing)</span> → \
         <span class=\"grammar-literal\">b</span>\n"
    );
    let mut again = String::new();
    grammar.render_markdown(&cx, &["A", "B"], &mut again).unwrap();
    assert_eq!(format!("before{again}"), out);
}

#[test]
fn unknown_production_stops_the_rendering() {
    let grammar = parse("A -> `a`");
    let cx = RenderCtx::new(false);
    let mut out = String::new();
    let err = render_markdown(&grammar, &cx, &["A", "Nope", "A"], &mut out).unwrap_err();
    assert!(matches!(&err, RenderError::UnknownProduction(n) if n == "Nope"));
    assert_eq!(err.to_string(), "could not find grammar production named `Nope`");
    assert_eq!(
        out,
        "<span class=\"grammar-text grammar-production\" id=\"grammar-A\" \
         onclick=\"show_railroad()\">[A](missing)</span> → \
         <span class=\"grammar-literal\">a</span>\n\n"
    );
}

#[test]
fn rendering_twice_gives_the_same_text() {
    let grammar = parse("Rule -> (A | `b`+)* _s_ [`x` Y]{2..=3}[^f]");
    let e = &grammar.productions.get("Rule").unwrap().expression;
    let mut cx = RenderCtx::new(false);
    cx.link_markdown("A".to_string(), "a.md".to_string());
    let mut first = String::new();
    render_expression(e, &cx, &mut first);
    // The railroad links are no part of what the markdown depends on.
    cx.link_railroad("A".to_string(), "elsewhere".to_string());
    let mut second = String::new();
    render_expression(e, &cx, &mut second);
    assert_eq!(first, second);
}

#[test]
fn hand_built_expression_renders() {
    let e = Expression::new_kind(ExpressionKind::RepeatRange {
        expr: Box::new(Expression::new_kind(ExpressionKind::Terminal("x".to_string()))),
        min: Some(0),
        max: None,
        limit: RangeLimit::HalfOpen,
    });
    let mut out = String::new();
    render_expression(&e, &RenderCtx::new(false), &mut out);
    assert_eq!(out, "<span class=\"grammar-literal\">x</span><sup>0..</sup>");
}
