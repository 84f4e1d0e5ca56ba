//! Renders productions to markdown with inline HTML.

use vstd::prelude::*;
use vstd::string::StringExecFns;
use crate::context::{RenderCtx, RenderCtxView, RenderError, link_or_missing};
use crate::expression::{
    Character, CharacterView, Characters, CharactersView, Expression, ExpressionKind,
    ExpressionKindView, ExpressionView, RangeLimit, expressions_view,
};
use crate::store::{Grammar, GrammarView, Production, ProductionView, names_view};
use crate::text::{decimal, push_decimal, push_repeated, repeated};

verus! {

/// Whether markdown would otherwise interpret the character.
pub open spec fn needs_escape(c: char) -> bool {
    c == '\\' || c == '`' || c == '_' || c == '*' || c == '[' || c == ']' || c == '(' || c == ')'
        || c == '{' || c == '}' || c == '\'' || c == '"' || c == '.' || c == '-'
}

/// The text with a backslash before each character that markdown would
/// otherwise interpret.
pub open spec fn escaped(s: Seq<char>) -> Seq<char>
    decreases s.len(),
{
    if s.len() == 0 {
        Seq::empty()
    } else if needs_escape(s.last()) {
        escaped(s.drop_last()).push('\\').push(s.last())
    } else {
        escaped(s.drop_last()).push(s.last())
    }
}

/// Escapes characters that markdown would otherwise interpret.
pub fn markdown_escape(s: &str) -> (r: String)
    ensures
        r@ == escaped(s@),
{
    let chars = crate::text::chars_of(s);
    let mut r = String::new();
    let mut i: usize = 0;
    while i < chars.len()
        invariant
            i <= chars.len(),
            r@ == escaped(chars@.take(i as int)),
        decreases chars.len() - i,
    {
        let c = chars[i];
        if c == '\\' || c == '`' || c == '_' || c == '*' || c == '[' || c == ']' || c == '('
            || c == ')' || c == '{' || c == '}' || c == '\'' || c == '"' || c == '.' || c == '-' {
            r.push('\\');
        }
        r.push(c);
        proof {
            assert(chars@.take(i + 1).drop_last() =~= chars@.take(i as int));
            assert(chars@.take(i + 1).last() == c);
        }
        i = i + 1;
    }
    proof {
        assert(chars@.take(chars.len() as int) =~= chars@);
    }
    r
}

/// The HTML id of a production's markdown rendering.
pub open spec fn markdown_id_text(name: Seq<char>, for_summary: bool) -> Seq<char> {
    if for_summary {
        "grammar-summary-"@ + name
    } else {
        "grammar-"@ + name
    }
}

/// The HTML id for the production.
pub fn markdown_id(name: &str, for_summary: bool) -> (id: String)
    ensures
        id@ == markdown_id_text(name@, for_summary),
{
    let mut id = if for_summary {
        String::from_str("grammar-summary-")
    } else {
        String::from_str("grammar-")
    };
    id.append(name);
    id
}

/// The kind of the last expression that is rendered for this one: of the
/// last member for an alternation or a sequence that has one, its own kind
/// otherwise.
pub open spec fn last_kind(e: ExpressionView) -> ExpressionKindView
    decreases e,
{
    match e.kind {
        ExpressionKindView::Alt(es) => if es.len() > 0 {
            last_kind(es.last())
        } else {
            e.kind
        },
        ExpressionKindView::Sequence(es) => if es.len() > 0 {
            last_kind(es.last())
        } else {
            e.kind
        },
        _ => e.kind,
    }
}

/// Whether the rendering of the expression ends in a line break.
pub open spec fn ends_in_break(e: ExpressionView) -> bool {
    last_kind(e) is Break
}

/// A literal in its span, escaped.
pub open spec fn literal_markdown(text: Seq<char>) -> Seq<char> {
    "<span class=\"grammar-literal\">"@ + escaped(text) + "</span>"@
}

/// A markdown link.
pub open spec fn link_markdown(name: Seq<char>, dest: Seq<char>) -> Seq<char> {
    "["@ + name + "]("@ + dest + ")"@
}

/// One end of a character range: the character itself, or `U+` and the
/// digits as they were written.
pub open spec fn character_markdown(c: CharacterView) -> Seq<char> {
    match c {
        CharacterView::Char(ch) => seq![ch],
        CharacterView::Unicode(_, hex) => "U+"@ + hex,
    }
}

/// The rendering of a member of a character set.
pub open spec fn characters_markdown(chars: CharactersView, cx: RenderCtxView) -> Seq<char> {
    match chars {
        CharactersView::Named(name) => link_markdown(name, link_or_missing(cx.md_link_map, name)),
        CharactersView::Terminal(text) => literal_markdown(text),
        CharactersView::Range(a, b) => "<span class=\"grammar-literal\">"@ + character_markdown(a)
            + "</span>-<span class=\"grammar-literal\">"@ + character_markdown(b) + "</span>"@,
    }
}

/// The rendering of the first `k` members of a character set, with a space
/// between two members.
pub open spec fn charset_members_markdown(
    set: Seq<CharactersView>,
    cx: RenderCtxView,
    k: int,
) -> Seq<char>
    decreases k,
{
    if k <= 0 || k > set.len() {
        Seq::empty()
    } else {
        charset_members_markdown(set, cx, k - 1) + characters_markdown(set[k - 1], cx) + (if k
            < set.len() {
            " "@
        } else {
            Seq::empty()
        })
    }
}

/// The rendering of a character set.
pub open spec fn charset_markdown(set: Seq<CharactersView>, cx: RenderCtxView) -> Seq<char> {
    "\\["@ + charset_members_markdown(set, cx, set.len() as int) + "]"@
}

/// A bound of a repetition range: its decimal notation, or nothing.
pub open spec fn bound_markdown(b: Option<u32>) -> Seq<char> {
    match b {
        Some(v) => decimal(v as nat),
        None => Seq::empty(),
    }
}

/// The dots between the bounds of a repetition range.
pub open spec fn limit_markdown(limit: RangeLimit) -> Seq<char> {
    match limit {
        RangeLimit::HalfOpen => ".."@,
        RangeLimit::Closed => "..="@,
    }
}

/// A space, unless the expression before ends in a line break, which brings
/// its own indentation.
pub open spec fn space_after(e: ExpressionView) -> Seq<char> {
    if ends_in_break(e) {
        Seq::empty()
    } else {
        " "@
    }
}

/// What stands between the member at `i` and the next one: nothing after the
/// last member; else a space (see [`space_after`]), and in an alternation
/// the bar.
pub open spec fn separator(es: Seq<ExpressionView>, i: int, alt: bool) -> Seq<char> {
    if i + 1 >= es.len() {
        Seq::empty()
    } else if alt {
        space_after(es[i]) + "| "@
    } else {
        space_after(es[i])
    }
}

/// The rendering of the first `k` members of an alternation or a sequence,
/// each with what follows it.
pub open spec fn members_markdown(
    es: Seq<ExpressionView>,
    cx: RenderCtxView,
    k: int,
    alt: bool,
) -> Seq<char>
    decreases es, k,
{
    if k <= 0 || k > es.len() {
        Seq::empty()
    } else {
        members_markdown(es, cx, k - 1, alt) + expression_markdown(es[k - 1], cx) + separator(
            es,
            k - 1,
            alt,
        )
    }
}

/// The subscript of a suffix, where there is one.
pub open spec fn suffix_markdown(suffix: Option<Seq<char>>) -> Seq<char> {
    match suffix {
        Some(s) => "<sub class=\"grammar-text\">"@ + s + "</sub>"@,
        None => Seq::empty(),
    }
}

/// The footnote reference, where there is one and the page is not the
/// summary page.
pub open spec fn footnote_markdown(footnote: Option<Seq<char>>, for_summary: bool) -> Seq<char> {
    match footnote {
        Some(f) if !for_summary => "&ZeroWidthSpace;[^"@ + f + "]"@,
        _ => Seq::empty(),
    }
}

/// The rendering of an expression: of its kind, then the suffix and the
/// footnote.
pub open spec fn expression_markdown(e: ExpressionView, cx: RenderCtxView) -> Seq<char>
    decreases e, 0int,
{
    kind_markdown(e.kind, cx) + suffix_markdown(e.suffix) + footnote_markdown(
        e.footnote,
        cx.for_summary,
    )
}

/// The rendering of an expression's kind.
pub open spec fn kind_markdown(k: ExpressionKindView, cx: RenderCtxView) -> Seq<char>
    decreases k, 0int,
{
    match k {
        ExpressionKindView::Grouped(x) => "( "@ + expression_markdown(*x, cx) + space_after(*x)
            + ")"@,
        ExpressionKindView::Alt(es) => members_markdown(es, cx, es.len() as int, true),
        ExpressionKindView::Sequence(es) => members_markdown(es, cx, es.len() as int, false),
        ExpressionKindView::Optional(x) => expression_markdown(*x, cx) + "<sup>?</sup>"@,
        ExpressionKindView::Repeat(x) => expression_markdown(*x, cx) + "<sup>\\*</sup>"@,
        ExpressionKindView::RepeatNonGreedy(x) => expression_markdown(*x, cx)
            + "<sup>\\* (non-greedy)</sup>"@,
        ExpressionKindView::RepeatPlus(x) => expression_markdown(*x, cx) + "<sup>+</sup>"@,
        ExpressionKindView::RepeatPlusNonGreedy(x) => expression_markdown(*x, cx)
            + "<sup>+ (non-greedy)</sup>"@,
        ExpressionKindView::RepeatRange { expr, min, max, limit } => expression_markdown(*expr, cx)
            + "<sup>"@ + bound_markdown(min) + limit_markdown(limit) + bound_markdown(max)
            + "</sup>"@,
        ExpressionKindView::Nt(name) => "<span class=\"grammar-text\">"@ + link_markdown(
            name,
            link_or_missing(cx.md_link_map, name),
        ) + "</span>"@,
        ExpressionKindView::Terminal(text) => literal_markdown(text),
        ExpressionKindView::Prose(text) => "<span class=\"grammar-text\">\\<"@ + text
            + "\\></span>"@,
        ExpressionKindView::Break(indent) => "\\\n"@ + repeated("&nbsp;"@, indent as nat),
        ExpressionKindView::Comment(text) => "<span class=\"grammar-comment\">// "@ + text
            + "</span>"@,
        ExpressionKindView::Charset(set) => charset_markdown(set, cx),
        ExpressionKindView::NegExpression(x) => "~"@ + expression_markdown(*x, cx),
        ExpressionKindView::NegativeLookahead(x) => "!"@ + expression_markdown(*x, cx),
        ExpressionKindView::Cut(x) => "^ "@ + expression_markdown(*x, cx),
        ExpressionKindView::Unicode(_, hex) => "U+"@ + hex,
    }
}

/// The renderings of the first `k` expressions, one after another.
pub open spec fn concat_markdown(es: Seq<ExpressionView>, cx: RenderCtxView, k: int) -> Seq<char>
    decreases k,
{
    if k <= 0 || k > es.len() {
        Seq::empty()
    } else {
        concat_markdown(es, cx, k - 1) + expression_markdown(es[k - 1], cx)
    }
}

/// The rendering of a production: its leading comments, its name as an
/// anchor that links to its railroad diagram, the arrow, its expression and
/// a line end.
pub open spec fn production_markdown(prod: ProductionView, cx: RenderCtxView) -> Seq<char> {
    concat_markdown(prod.comments, cx, prod.comments.len() as int)
        + "<span class=\"grammar-text grammar-production\" id=\""@ + markdown_id_text(
        prod.name,
        cx.for_summary,
    ) + "\" onclick=\"show_railroad()\">"@ + link_markdown(
        prod.name,
        link_or_missing(cx.rr_link_map, prod.name),
    ) + "</span> → "@ + expression_markdown(prod.expression, cx) + "\n"@
}

/// The rendering of the first `k` of the named productions, which are all
/// defined, with an empty line between two productions.
pub open spec fn markdown_of(
    g: GrammarView,
    cx: RenderCtxView,
    names: Seq<Seq<char>>,
    k: int,
) -> Seq<char>
    decreases k,
{
    if k <= 0 || k > names.len() {
        Seq::empty()
    } else {
        markdown_of(g, cx, names, k - 1) + production_markdown(g.productions[names[k - 1]], cx) + (
        if k < names.len() {
            "\n"@
        } else {
            Seq::empty()
        })
    }
}

/// Returns the last [`ExpressionKind`] of this expression.
pub fn last_expr(expr: &Expression) -> (kind: &ExpressionKind)
    ensures
        kind@ == last_kind(expr@),
    decreases expr,
{
    match &expr.kind {
        ExpressionKind::Alt(es) => {
            if es.len() > 0 {
                assert(expressions_view(es@).last() == es[es.len() - 1]@);
                last_expr(&es[es.len() - 1])
            } else {
                &expr.kind
            }
        },
        ExpressionKind::Sequence(es) => {
            if es.len() > 0 {
                assert(expressions_view(es@).last() == es[es.len() - 1]@);
                last_expr(&es[es.len() - 1])
            } else {
                &expr.kind
            }
        },
        _ => &expr.kind,
    }
}

/// Appends a space, unless the expression ends in a line break.
fn push_space_after(output: &mut String, e: &Expression)
    ensures
        final(output)@ == old(output)@ + space_after(e@),
{
    if !matches!(last_expr(e), ExpressionKind::Break(_)) {
        output.append(" ");
    }
    assert(output@ =~= old(output)@ + space_after(e@));
}

/// Appends a literal in its span, escaped.
fn push_literal(output: &mut String, text: &str)
    ensures
        final(output)@ == old(output)@ + literal_markdown(text@),
{
    output.append("<span class=\"grammar-literal\">");
    let e = markdown_escape(text);
    output.append(e.as_str());
    output.append("</span>");
    assert(output@ =~= old(output)@ + literal_markdown(text@));
}

/// Appends a markdown link.
fn push_link(output: &mut String, name: &str, dest: &str)
    ensures
        final(output)@ == old(output)@ + link_markdown(name@, dest@),
{
    output.append("[");
    output.append(name);
    output.append("](");
    output.append(dest);
    output.append(")");
    assert(output@ =~= old(output)@ + link_markdown(name@, dest@));
}

/// Appends one end of a character range.
fn push_character(output: &mut String, c: &Character)
    ensures
        final(output)@ == old(output)@ + character_markdown(c@),
{
    match c {
        Character::Char(ch) => {
            output.push(*ch);
            assert(old(output)@.push(*ch) =~= old(output)@ + seq![*ch]);
        },
        Character::Unicode((_, hex)) => {
            output.append("U+");
            output.append(hex.as_str());
            assert(old(output)@ + "U+"@ + hex@ =~= old(output)@ + ("U+"@ + hex@));
        },
    }
}

/// Appends the rendering of a member of a character set.
pub fn render_characters(chars: &Characters, cx: &RenderCtx, output: &mut String)
    ensures
        final(output)@ == old(output)@ + characters_markdown(chars@, cx@),
{
    match chars {
        Characters::Named(s) => {
            let dest = cx.markdown_dest(s.as_str());
            push_link(output, s.as_str(), dest.as_str());
        },
        Characters::Terminal(s) => {
            push_literal(output, s.as_str());
        },
        Characters::Range(a, b) => {
            output.append("<span class=\"grammar-literal\">");
            push_character(output, a);
            output.append("</span>-<span class=\"grammar-literal\">");
            push_character(output, b);
            output.append("</span>");
            assert(output@ =~= old(output)@ + characters_markdown(chars@, cx@));
        },
    }
}

/// Appends the rendering of a character set.
pub fn charset_render_markdown(cx: &RenderCtx, set: &Vec<Characters>, output: &mut String)
    ensures
        final(output)@ == old(output)@ + charset_markdown(
            crate::expression::charset_view(set@),
            cx@,
        ),
{
    let ghost members = crate::expression::charset_view(set@);
    output.append("\\[");
    let ghost start = output@;
    let mut i: usize = 0;
    while i < set.len()
        invariant
            i <= set.len(),
            members == crate::expression::charset_view(set@),
            output@ == start + charset_members_markdown(members, cx@, i as int),
        decreases set.len() - i,
    {
        let ghost before = output@;
        render_characters(&set[i], cx, output);
        if i + 1 < set.len() {
            output.append(" ");
        }
        i = i + 1;
        assert(output@ =~= start + charset_members_markdown(members, cx@, i as int));
    }
    output.append("]");
    assert(output@ =~= old(output)@ + charset_markdown(members, cx@));
}

/// Appends the members of an alternation or a sequence, each with what
/// follows it.
fn render_members(es: &Vec<Expression>, cx: &RenderCtx, alt: bool, output: &mut String)
    ensures
        final(output)@ == old(output)@ + members_markdown(
            expressions_view(es@),
            cx@,
            es.len() as int,
            alt,
        ),
    decreases es, 0nat,
{
    let ghost members = expressions_view(es@);
    let mut i: usize = 0;
    assert(output@ =~= old(output)@ + members_markdown(members, cx@, 0, alt));
    while i < es.len()
        invariant
            i <= es.len(),
            members == expressions_view(es@),
            output@ == old(output)@ + members_markdown(members, cx@, i as int, alt),
        decreases es.len() - i,
    {
        let e = &es[i];
        render_expression(e, cx, output);
        if i + 1 < es.len() {
            push_space_after(output, e);
            if alt {
                output.append("| ");
            }
        }
        i = i + 1;
        assert(output@ =~= old(output)@ + members_markdown(members, cx@, i as int, alt));
    }
}

/// Appends a bound of a repetition range.
fn push_bound(output: &mut String, b: Option<u32>)
    ensures
        final(output)@ == old(output)@ + bound_markdown(b),
{
    match b {
        Some(v) => push_decimal(output, v as u64),
        None => {
            assert(output@ =~= old(output)@ + bound_markdown(b));
        },
    }
}

/// Appends the operand and the superscript of a repetition range.
fn render_repeat_range(
    e: &Expression,
    min: Option<u32>,
    max: Option<u32>,
    limit: RangeLimit,
    cx: &RenderCtx,
    output: &mut String,
)
    ensures
        final(output)@ == old(output)@ + expression_markdown(e@, cx@) + "<sup>"@ + bound_markdown(
            min,
        ) + limit_markdown(limit) + bound_markdown(max) + "</sup>"@,
    decreases e, 5nat,
{
    render_expression(e, cx, output);
    output.append("<sup>");
    push_bound(output, min);
    match limit {
        RangeLimit::HalfOpen => output.append(".."),
        RangeLimit::Closed => output.append("..="),
    }
    push_bound(output, max);
    output.append("</sup>");
}

/// Appends the operand and a superscript.
fn render_with_mark(e: &Expression, mark: &str, cx: &RenderCtx, output: &mut String)
    ensures
        final(output)@ == old(output)@ + (expression_markdown(e@, cx@) + mark@),
    decreases e, 5nat,
{
    render_expression(e, cx, output);
    output.append(mark);
    assert(output@ =~= old(output)@ + (expression_markdown(e@, cx@) + mark@));
}

/// Appends a sign and the operand.
fn render_with_sign(sign: &str, e: &Expression, cx: &RenderCtx, output: &mut String)
    ensures
        final(output)@ == old(output)@ + (sign@ + expression_markdown(e@, cx@)),
    decreases e, 5nat,
{
    output.append(sign);
    render_expression(e, cx, output);
    assert(output@ =~= old(output)@ + (sign@ + expression_markdown(e@, cx@)));
}

/// Appends the rendering of an expression's kind.
fn render_kind(kind: &ExpressionKind, cx: &RenderCtx, output: &mut String)
    ensures
        final(output)@ == old(output)@ + kind_markdown(kind@, cx@),
    decreases kind, 3nat,
{
    match kind {
        ExpressionKind::Grouped(e) => {
            output.append("( ");
            render_expression(e, cx, output);
            push_space_after(output, e);
            output.append(")");
            assert(output@ =~= old(output)@ + kind_markdown(kind@, cx@));
        },
        ExpressionKind::Alt(es) => {
            render_members(es, cx, true, output);
        },
        ExpressionKind::Sequence(es) => {
            render_members(es, cx, false, output);
        },
        ExpressionKind::Optional(e) => {
            render_with_mark(e, "<sup>?</sup>", cx, output);
        },
        ExpressionKind::Repeat(e) => {
            render_with_mark(e, "<sup>\\*</sup>", cx, output);
        },
        ExpressionKind::RepeatNonGreedy(e) => {
            render_with_mark(e, "<sup>\\* (non-greedy)</sup>", cx, output);
        },
        ExpressionKind::RepeatPlus(e) => {
            render_with_mark(e, "<sup>+</sup>", cx, output);
        },
        ExpressionKind::RepeatPlusNonGreedy(e) => {
            render_with_mark(e, "<sup>+ (non-greedy)</sup>", cx, output);
        },
        ExpressionKind::RepeatRange { expr: e, min, max, limit } => {
            render_repeat_range(e, *min, *max, *limit, cx, output);
        },
        ExpressionKind::Nt(nt) => {
            let dest = cx.markdown_dest(nt.as_str());
            output.append("<span class=\"grammar-text\">");
            push_link(output, nt.as_str(), dest.as_str());
            output.append("</span>");
            assert(output@ =~= old(output)@ + kind_markdown(kind@, cx@));
        },
        ExpressionKind::Terminal(t) => {
            push_literal(output, t.as_str());
        },
        ExpressionKind::Prose(s) => {
            output.append("<span class=\"grammar-text\">\\<");
            output.append(s.as_str());
            output.append("\\></span>");
            assert(output@ =~= old(output)@ + kind_markdown(kind@, cx@));
        },
        ExpressionKind::Break(indent) => {
            output.append("\\\n");
            push_repeated(output, "&nbsp;", *indent);
            assert(output@ =~= old(output)@ + kind_markdown(kind@, cx@));
        },
        ExpressionKind::Comment(s) => {
            output.append("<span class=\"grammar-comment\">// ");
            output.append(s.as_str());
            output.append("</span>");
            assert(output@ =~= old(output)@ + kind_markdown(kind@, cx@));
        },
        ExpressionKind::Charset(set) => {
            charset_render_markdown(cx, set, output);
        },
        ExpressionKind::NegExpression(e) => {
            render_with_sign("~", e, cx, output);
        },
        ExpressionKind::NegativeLookahead(e) => {
            render_with_sign("!", e, cx, output);
        },
        ExpressionKind::Cut(e) => {
            render_with_sign("^ ", e, cx, output);
        },
        ExpressionKind::Unicode((_, s)) => {
            output.append("U+");
            output.append(s.as_str());
            assert(output@ =~= old(output)@ + kind_markdown(kind@, cx@));
        },
    }
}

/// Appends the rendering of an expression.
pub fn render_expression(expr: &Expression, cx: &RenderCtx, output: &mut String)
    ensures
        final(output)@ == old(output)@ + expression_markdown(expr@, cx@),
    decreases expr, 4nat,
{
    render_kind(&expr.kind, cx, output);
    if let Some(suffix) = &expr.suffix {
        output.append("<sub class=\"grammar-text\">");
        output.append(suffix.as_str());
        output.append("</sub>");
    }
    if !cx.for_summary {
        if let Some(footnote) = &expr.footnote {
            // The `ZeroWidthSpace` is to avoid conflicts with markdown link
            // references.
            output.append("&ZeroWidthSpace;[^");
            output.append(footnote.as_str());
            output.append("]");
        }
    }
    assert(output@ =~= old(output)@ + expression_markdown(expr@, cx@));
}

/// Appends the rendering of a production.
pub fn render_production(prod: &Production, cx: &RenderCtx, output: &mut String)
    ensures
        final(output)@ == old(output)@ + production_markdown(prod@, cx@),
{
    let dest = cx.railroad_dest(prod.name.as_str());
    let ghost comments = expressions_view(prod.comments@);
    let mut i: usize = 0;
    assert(output@ =~= old(output)@ + concat_markdown(comments, cx@, 0));
    while i < prod.comments.len()
        invariant
            i <= prod.comments.len(),
            comments == expressions_view(prod.comments@),
            output@ == old(output)@ + concat_markdown(comments, cx@, i as int),
        decreases prod.comments.len() - i,
    {
        render_expression(&prod.comments[i], cx, output);
        i = i + 1;
        assert(output@ =~= old(output)@ + concat_markdown(comments, cx@, i as int));
    }
    let id = markdown_id(prod.name.as_str(), cx.for_summary);
    output.append("<span class=\"grammar-text grammar-production\" id=\"");
    output.append(id.as_str());
    output.append("\" onclick=\"show_railroad()\">");
    push_link(output, prod.name.as_str(), dest.as_str());
    output.append("</span> → ");
    render_expression(&prod.expression, cx, output);
    output.append("\n");
    assert(output@ =~= old(output)@ + production_markdown(prod@, cx@));
}

/// Appends the markdown of the named productions, in order, with an empty
/// line between two of them. Stops at the first name that the grammar does
/// not define, and returns it.
pub fn render_markdown(
    grammar: &Grammar,
    cx: &RenderCtx,
    names: &[&str],
    output: &mut String,
) -> (r: Result<(), RenderError>)
    ensures
        match r {
            Ok(()) => grammar@.defines_all(names_view(names@)) && final(output)@ == old(output)@
                + markdown_of(grammar@, cx@, names_view(names@), names.len() as int),
            Err(e) => exists|k: int|
                0 <= k < names.len() && !grammar@.defines(#[trigger] names[k]@)
                    && grammar@.defines_all(names_view(names@).take(k)) && e.name() == names[k]@
                    && final(output)@ == old(output)@ + markdown_of(
                    grammar@,
                    cx@,
                    names_view(names@),
                    k,
                ),
        },
{
    let ghost all = names_view(names@);
    let mut i: usize = 0;
    assert(output@ =~= old(output)@ + markdown_of(grammar@, cx@, all, 0));
    while i < names.len()
        invariant
            i <= names.len(),
            all == names_view(names@),
            grammar@.defines_all(all.take(i as int)),
            output@ == old(output)@ + markdown_of(grammar@, cx@, all, i as int),
        decreases names.len() - i,
    {
        let name = names[i];
        match grammar.productions.get(name) {
            Some(prod) => {
                assert(grammar@.productions.contains_key(name@));
                render_production(prod, cx, output);
                if i + 1 < names.len() {
                    output.append("\n");
                }
                proof {
                    assert(all[i as int] == name@);
                    assert(output@ =~= old(output)@ + markdown_of(grammar@, cx@, all, i + 1));
                    assert forall|j: int| 0 <= j < i + 1 implies grammar@.defines(
                        #[trigger] all.take(i + 1)[j],
                    ) by {
                        if j < i {
                            assert(all.take(i as int)[j] == all.take(i + 1)[j]);
                        }
                    }
                }
            },
            None => {
                return Err(RenderError::UnknownProduction(String::from_str(name)));
            },
        }
        i = i + 1;
    }
    proof {
        assert(all.take(names.len() as int) =~= all);
    }
    Ok(())
}

impl Grammar {
    /// Appends the markdown of the named productions: see [`render_markdown`].
    pub fn render_markdown(&self, cx: &RenderCtx, names: &[&str], output: &mut String) -> (r:
        Result<(), RenderError>)
        ensures
            match r {
                Ok(()) => self@.defines_all(names_view(names@)) && final(output)@ == old(output)@
                    + markdown_of(self@, cx@, names_view(names@), names.len() as int),
                Err(e) => exists|k: int|
                    0 <= k < names.len() && !self@.defines(#[trigger] names[k]@)
                        && self@.defines_all(names_view(names@).take(k)) && e.name() == names[k]@
                        && final(output)@ == old(output)@ + markdown_of(
                        self@,
                        cx@,
                        names_view(names@),
                        k,
                    ),
            },
    {
        render_markdown(self, cx, names, output)
    }
}

/// The markdown of the first `k` members of a list depends on the page
/// only through the markdown links and the summary flag.
proof fn lemma_members_markdown_is_pure(
    es: Seq<ExpressionView>,
    a: RenderCtxView,
    b: RenderCtxView,
    k: int,
    alt: bool,
)
    requires
        a.md_link_map == b.md_link_map,
        a.for_summary == b.for_summary,
    ensures
        members_markdown(es, a, k, alt) == members_markdown(es, b, k, alt),
        concat_markdown(es, a, k) == concat_markdown(es, b, k),
    decreases es, k,
{
    if 0 < k <= es.len() {
        lemma_members_markdown_is_pure(es, a, b, k - 1, alt);
        lemma_markdown_is_pure(es[k - 1], a, b);
    }
}

/// Rendering to markdown is a function of the expression, the markdown
/// links and the summary flag: two pages that agree on these get the same
/// text, whatever else they hold.
pub proof fn lemma_markdown_is_pure(e: ExpressionView, a: RenderCtxView, b: RenderCtxView)
    requires
        a.md_link_map == b.md_link_map,
        a.for_summary == b.for_summary,
    ensures
        expression_markdown(e, a) == expression_markdown(e, b),
    decreases e, 0int,
{
    match e.kind {
        ExpressionKindView::Grouped(x) => lemma_markdown_is_pure(*x, a, b),
        ExpressionKindView::Alt(es) => lemma_members_markdown_is_pure(
            es,
            a,
            b,
            es.len() as int,
            true,
        ),
        ExpressionKindView::Sequence(es) => lemma_members_markdown_is_pure(
            es,
            a,
            b,
            es.len() as int,
            false,
        ),
        ExpressionKindView::Optional(x) => lemma_markdown_is_pure(*x, a, b),
        ExpressionKindView::Repeat(x) => lemma_markdown_is_pure(*x, a, b),
        ExpressionKindView::RepeatNonGreedy(x) => lemma_markdown_is_pure(*x, a, b),
        ExpressionKindView::RepeatPlus(x) => lemma_markdown_is_pure(*x, a, b),
        ExpressionKindView::RepeatPlusNonGreedy(x) => lemma_markdown_is_pure(*x, a, b),
        ExpressionKindView::RepeatRange { expr, .. } => lemma_markdown_is_pure(*expr, a, b),
        ExpressionKindView::Charset(set) => lemma_charset_markdown_is_pure(
            set,
            a,
            b,
            set.len() as int,
        ),
        ExpressionKindView::NegExpression(x) => lemma_markdown_is_pure(*x, a, b),
        ExpressionKindView::NegativeLookahead(x) => lemma_markdown_is_pure(*x, a, b),
        ExpressionKindView::Cut(x) => lemma_markdown_is_pure(*x, a, b),
        _ => {},
    }
}

/// The same for the members of a character set.
proof fn lemma_charset_markdown_is_pure(
    set: Seq<CharactersView>,
    a: RenderCtxView,
    b: RenderCtxView,
    k: int,
)
    requires
        a.md_link_map == b.md_link_map,
    ensures
        charset_members_markdown(set, a, k) == charset_members_markdown(set, b, k),
    decreases k,
{
    if 0 < k <= set.len() {
        lemma_charset_markdown_is_pure(set, a, b, k - 1);
    }
}

} // verus!
