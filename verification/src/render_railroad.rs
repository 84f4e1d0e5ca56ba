//! Converts productions to railroad diagrams.

use vstd::prelude::*;
use vstd::string::StringExecFns;
use crate::context::{RenderCtx, RenderCtxView, link_or_missing};
use crate::context::RenderError;
use crate::diagram::{
    DiagramNode, DiagramNodeView, diagram_of_root, diagram_svg, diagram_width, node_svg,
    node_to_svg, node_view, nodes_view, width_of_root,
};
use crate::ranges::{plan_diagram, plan_from_one, range_plan};
use crate::store::{Grammar, GrammarView, Production, ProductionView, names_view};
use crate::expression::{
    Character, CharacterView, Characters, CharactersView, Expression, ExpressionKind,
    ExpressionKindView, ExpressionView, RangeLimit, range_rule, ranges_hold,
};
use crate::text::{
    decimal, push_decimal, push_signed_decimal, regex_replace_all, replace_all, signed_decimal,
};

verus! {

/// The pattern of a markdown link: the text in square brackets, and the
/// reference or destination that may follow it.
pub open spec fn link_pattern() -> Seq<char> {
    "(?s)\\[([^\\]]+)\\](?:\\[[^\\]]*\\]|\\([^)]*\\))?"@
}

/// The text with each markdown link replaced by the link's text.
pub open spec fn stripped_markdown(s: Seq<char>) -> Seq<char> {
    match regex_replace_all(link_pattern(), s, "$1"@) {
        Some(t) => t,
        None => s,
    }
}

/// Removes some markdown so it can be rendered as text.
pub fn strip_markdown(s: &str) -> (r: String)
    ensures
        r@ == stripped_markdown(s@),
{
    match replace_all("(?s)\\[([^\\]]+)\\](?:\\[[^\\]]*\\]|\\([^)]*\\))?", s, "$1") {
        Some(t) => t,
        None => String::from_str(s),
    }
}

/// One element of a sequence as the layout sees it: whether it is a line
/// break, and the node it draws, if it draws any.
pub struct Item {
    pub is_break: bool,
    pub node: Option<DiagramNodeView>,
}

/// The rows finished so far, and the nodes of the row that is being filled.
pub struct Rows {
    pub done: Seq<DiagramNodeView>,
    pub run: Seq<DiagramNodeView>,
}

/// A run of nodes as a row: a sequence, or nothing where the run is empty.
pub open spec fn row(run: Seq<DiagramNodeView>) -> Seq<DiagramNodeView> {
    if run.len() == 0 {
        Seq::empty()
    } else {
        seq![DiagramNodeView::Sequence(run)]
    }
}

/// The rows after one more item. When stacking, a break ends the current
/// row; otherwise the item's node, if any, joins the current row.
pub open spec fn rows_step(rows: Rows, item: Item, stack: bool) -> Rows {
    if stack && item.is_break {
        Rows { done: rows.done + row(rows.run), run: Seq::empty() }
    } else {
        match item.node {
            Some(n) => Rows { done: rows.done, run: rows.run.push(n) },
            None => rows,
        }
    }
}

/// The rows after all the items, in order.
pub open spec fn rows_of(items: Seq<Item>, stack: bool) -> Rows
    decreases items.len(),
{
    if items.len() == 0 {
        Rows { done: Seq::empty(), run: Seq::empty() }
    } else {
        rows_step(rows_of(items.drop_last(), stack), items.last(), stack)
    }
}

/// The items without one break at the front and one at the back.
pub open spec fn trimmed(items: Seq<Item>) -> Seq<Item> {
    let front = if items.len() > 0 && items[0].is_break {
        items.skip(1)
    } else {
        items
    };
    if front.len() > 0 && front.last().is_break {
        front.drop_last()
    } else {
        front
    }
}

/// The node for the rows: nothing where there is none, the row itself where
/// there is one, else the rows stacked.
pub open spec fn rows_node(rows: Rows) -> Option<DiagramNodeView> {
    let all = rows.done + row(rows.run);
    if all.len() == 0 {
        None
    } else if all.len() == 1 {
        Some(all[0])
    } else {
        Some(DiagramNodeView::Stack(all))
    }
}

/// The layout of a sequence. Not stacked, it is one sequence of the nodes
/// that the items draw, or nothing where they draw none. Stacked, the items
/// are trimmed of a break at the front and at the back and split at the
/// breaks, and each part that draws anything is a row.
pub open spec fn layout(items: Seq<Item>, stack: bool) -> Option<DiagramNodeView> {
    if stack {
        rows_node(rows_of(trimmed(items), true))
    } else {
        rows_node(rows_of(items, false))
    }
}

/// A box around `n` with a caption.
pub open spec fn labeled(n: DiagramNodeView, caption: Seq<char>) -> DiagramNodeView {
    DiagramNodeView::LabeledBox {
        inner: Box::new(n),
        label: Box::new(DiagramNodeView::Comment(caption)),
    }
}

/// `n` once or more.
pub open spec fn one_or_more(n: DiagramNodeView) -> DiagramNodeView {
    DiagramNodeView::Repeat { inner: Box::new(n), repeat: Box::new(DiagramNodeView::Empty) }
}

/// `n` any number of times.
pub open spec fn zero_or_more(n: DiagramNodeView) -> DiagramNodeView {
    DiagramNodeView::Optional(Box::new(one_or_more(n)))
}

/// `n` once, and then at most `more` times again.
pub open spec fn at_most_more(n: DiagramNodeView, more: nat) -> DiagramNodeView {
    DiagramNodeView::Repeat {
        inner: Box::new(n),
        repeat: Box::new(
            DiagramNodeView::Comment("at most "@ + decimal(more) + " more times"@),
        ),
    }
}

/// The link to the production `name`.
pub open spec fn nt_node(cx: RenderCtxView, name: Seq<char>) -> DiagramNodeView {
    DiagramNodeView::Link {
        inner: Box::new(DiagramNodeView::NonTerminal(name)),
        uri: link_or_missing(cx.rr_link_map, name),
    }
}

/// Any character but what `excluded` draws.
pub open spec fn except_node(cx: RenderCtxView, excluded: DiagramNodeView) -> DiagramNodeView {
    DiagramNodeView::StyledBox {
        inner: Box::new(nt_node(cx, "CHAR"@)),
        label: Box::new(
            DiagramNodeView::VerticalGrid(
                seq![DiagramNodeView::Comment(crate::diagram::except_caption()), excluded],
            ),
        ),
        class: crate::diagram::except_class(),
    }
}

/// One end of a character range as text.
pub open spec fn character_text(c: CharacterView) -> Seq<char> {
    match c {
        CharacterView::Char(ch) => seq![ch],
        CharacterView::Unicode(_, hex) => "U+"@ + hex,
    }
}

/// The node of a member of a character set.
pub open spec fn characters_node(cx: RenderCtxView, chars: CharactersView) -> DiagramNodeView {
    match chars {
        CharactersView::Named(name) => nt_node(cx, name),
        CharactersView::Terminal(text) => DiagramNodeView::Terminal(text),
        CharactersView::Range(a, b) => DiagramNodeView::Terminal(
            character_text(a) + seq!['-'] + character_text(b),
        ),
    }
}

/// The diagram of a repetition of at least one and at most `max` (with
/// `limit`), given what the operand draws: the operand itself for exactly
/// one; a plain loop where there is no maximum; nothing where the range is
/// empty; else a loop whose caption counts the further passes.
pub open spec fn range_from_one(
    operand: Option<DiagramNodeView>,
    max: Option<u32>,
    limit: RangeLimit,
) -> Option<DiagramNodeView> {
    plan_diagram(plan_from_one(max, limit), operand, false, false)
}

/// `n` made optional, if there is any.
pub open spec fn optional_of(n: Option<DiagramNodeView>) -> Option<DiagramNodeView> {
    match n {
        Some(n) => Some(DiagramNodeView::Optional(Box::new(n))),
        None => None,
    }
}

/// The items that stand for an unrolled repetition: the operand `copies`
/// times, then what the rest of the repetition draws.
pub open spec fn unrolled(
    operand: Option<DiagramNodeView>,
    operand_is_break: bool,
    copies: nat,
    rest: Option<DiagramNodeView>,
) -> Seq<Item> {
    Seq::new(copies, |i: int| Item { is_break: operand_is_break, node: operand }).push(
        Item { is_break: false, node: rest },
    )
}

/// The diagram of a repetition range, given what the operand draws: what
/// is drawn for the plan of the range.
///
/// A minimum of zero (or none) is the same range from one, made optional,
/// but that no visual wrapper is added around nothing. A minimum of one is
/// [`range_from_one`]. A larger minimum is laid out as the sequence
/// [`unrolled`], unless the range is empty.
pub open spec fn range_diagram(
    operand: Option<DiagramNodeView>,
    operand_is_break: bool,
    min: Option<u32>,
    max: Option<u32>,
    limit: RangeLimit,
    stack: bool,
) -> Option<DiagramNodeView> {
    plan_diagram(range_plan(min, max, limit), operand, operand_is_break, stack)
}

/// `node` in a box captioned with the suffix, where there is one.
pub open spec fn with_suffix(
    node: Option<DiagramNodeView>,
    suffix: Option<Seq<char>>,
) -> Option<DiagramNodeView> {
    match (node, suffix) {
        (Some(n), Some(s)) => Some(labeled(n, stripped_markdown(s))),
        _ => node,
    }
}

/// `n` in a box with the caption, if there is any.
pub open spec fn labeled_of(n: Option<DiagramNodeView>, caption: Seq<char>) -> Option<
    DiagramNodeView,
> {
    match n {
        Some(n) => Some(labeled(n, caption)),
        None => None,
    }
}

/// The items of a list of expressions.
pub open spec fn items_of(es: Seq<ExpressionView>, cx: RenderCtxView, stack: bool) -> Seq<Item>
    decreases es,
{
    Seq::new(
        es.len(),
        |i: int|
            if 0 <= i < es.len() {
                Item { is_break: es[i].kind is Break, node: diagram_of(es[i], cx, stack) }
            } else {
                arbitrary()
            },
    )
}

/// The nodes that the items draw, in order.
pub open spec fn drawn(items: Seq<Item>) -> Seq<DiagramNodeView> {
    rows_of(items, false).run
}

/// The diagram of an expression, or `None` where it draws nothing: the
/// diagram of its kind, in a box captioned with the suffix where it has one.
pub open spec fn diagram_of(e: ExpressionView, cx: RenderCtxView, stack: bool) -> Option<
    DiagramNodeView,
>
    decreases e,
{
    with_suffix(kind_diagram(e.kind, cx, stack), e.suffix)
}

/// The operand any number of times, if it draws anything.
pub open spec fn zero_or_more_of(n: Option<DiagramNodeView>) -> Option<DiagramNodeView> {
    match n {
        Some(n) => Some(zero_or_more(n)),
        None => None,
    }
}

/// The operand once or more, if it draws anything.
pub open spec fn one_or_more_of(n: Option<DiagramNodeView>) -> Option<DiagramNodeView> {
    match n {
        Some(n) => Some(one_or_more(n)),
        None => None,
    }
}

/// Any character but the operand, if it draws anything.
pub open spec fn except_of(cx: RenderCtxView, n: Option<DiagramNodeView>) -> Option<
    DiagramNodeView,
> {
    match n {
        Some(n) => Some(except_node(cx, n)),
        None => None,
    }
}

/// The choice between the members of a character set.
pub open spec fn charset_node(cx: RenderCtxView, set: Seq<CharactersView>) -> DiagramNodeView {
    DiagramNodeView::Choice(Seq::new(set.len(), |i: int| characters_node(cx, set[i])))
}

/// The diagram of an expression's kind.
pub open spec fn kind_diagram(k: ExpressionKindView, cx: RenderCtxView, stack: bool) -> Option<
    DiagramNodeView,
>
    decreases k,
{
    match k {
        ExpressionKindView::Grouped(x) => diagram_of(*x, cx, stack),
        ExpressionKindView::Alt(es) => Some(
            DiagramNodeView::Choice(drawn(items_of(es, cx, stack))),
        ),
        ExpressionKindView::Sequence(es) => layout(items_of(es, cx, stack), stack),
        ExpressionKindView::Optional(x) => optional_of(diagram_of(*x, cx, stack)),
        ExpressionKindView::Repeat(x) => zero_or_more_of(diagram_of(*x, cx, stack)),
        ExpressionKindView::RepeatNonGreedy(x) => labeled_of(
            zero_or_more_of(diagram_of(*x, cx, stack)),
            "non-greedy"@,
        ),
        ExpressionKindView::RepeatPlus(x) => one_or_more_of(diagram_of(*x, cx, stack)),
        ExpressionKindView::RepeatPlusNonGreedy(x) => labeled_of(
            one_or_more_of(diagram_of(*x, cx, stack)),
            "non-greedy"@,
        ),
        ExpressionKindView::RepeatRange { expr, min, max, limit } => range_diagram(
            diagram_of(*expr, cx, stack),
            expr.kind is Break,
            min,
            max,
            limit,
            stack,
        ),
        ExpressionKindView::Nt(name) => Some(nt_node(cx, name)),
        ExpressionKindView::Terminal(text) => Some(DiagramNodeView::Terminal(text)),
        ExpressionKindView::Prose(text) => Some(DiagramNodeView::Terminal(text)),
        ExpressionKindView::Break(_) => None,
        ExpressionKindView::Comment(_) => None,
        ExpressionKindView::Charset(set) => Some(charset_node(cx, set)),
        ExpressionKindView::NegExpression(x) => except_of(cx, diagram_of(*x, cx, stack)),
        ExpressionKindView::NegativeLookahead(x) => labeled_of(
            diagram_of(*x, cx, stack),
            "not followed by"@,
        ),
        ExpressionKindView::Cut(x) => labeled_of(diagram_of(*x, cx, stack), "no backtracking"@),
        ExpressionKindView::Unicode(_, hex) => Some(DiagramNodeView::Terminal("U+"@ + hex)),
    }
}

/// The model of an optional node.
pub open spec fn node_option_view(n: Option<DiagramNode>) -> Option<DiagramNodeView> {
    match n {
        Some(n) => Some(n@),
        None => None,
    }
}

/// One break less at the front of the items changes no row.
proof fn lemma_front_break_is_neutral(items: Seq<Item>)
    requires
        items.len() > 0,
        items[0].is_break,
    ensures
        rows_of(items, true).done =~= rows_of(items.skip(1), true).done,
        rows_of(items, true).run =~= rows_of(items.skip(1), true).run,
    decreases items.len(),
{
    reveal_with_fuel(rows_of, 2);
    if items.len() == 1 {
        assert(items.drop_last().len() == 0);
        assert(items.skip(1).len() == 0);
    } else {
        lemma_front_break_is_neutral(items.drop_last());
        assert(items.skip(1).drop_last() =~= items.drop_last().skip(1));
        assert(items.skip(1).last() == items.last());
    }
}

/// Trimming a break at the front and at the back changes nothing of what
/// the stacked layout draws: a part that draws nothing is no row.
pub proof fn lemma_trim_is_neutral(items: Seq<Item>)
    ensures
        rows_node(rows_of(trimmed(items), true)) == rows_node(rows_of(items, true)),
{
    let front = if items.len() > 0 && items[0].is_break {
        items.skip(1)
    } else {
        items
    };
    if items.len() > 0 && items[0].is_break {
        lemma_front_break_is_neutral(items);
    }
    assert(rows_of(front, true).done =~= rows_of(items, true).done);
    assert(rows_of(front, true).run =~= rows_of(items, true).run);
    if front.len() > 0 && front.last().is_break {
        let before = rows_of(front.drop_last(), true);
        assert(rows_of(front, true).done + row(rows_of(front, true).run) =~= before.done + row(
            before.run,
        ));
    }
}

/// The rows of a layout while its items come in.
pub struct RowBuilder {
    pub done: Vec<DiagramNode>,
    pub run: Vec<DiagramNode>,
}

impl View for RowBuilder {
    type V = Rows;

    open spec fn view(&self) -> Rows {
        Rows { done: nodes_view(self.done@), run: nodes_view(self.run@) }
    }
}

impl RowBuilder {
    /// No row yet.
    pub fn new() -> (b: RowBuilder)
        ensures
            b@.done =~= Seq::empty(),
            b@.run =~= Seq::empty(),
    {
        RowBuilder { done: Vec::new(), run: Vec::new() }
    }

    /// Takes the next item of the sequence.
    pub fn feed(self, is_break: bool, node: Option<DiagramNode>, stack: bool) -> (b: RowBuilder)
        ensures
            b@.done =~= rows_step(self@, Item { is_break, node: node_option_view(node) }, stack).done,
            b@.run =~= rows_step(self@, Item { is_break, node: node_option_view(node) }, stack).run,
    {
        let mut done = self.done;
        let mut run = self.run;
        if stack && is_break {
            if run.len() > 0 {
                let ghost before = nodes_view(done@);
                let mut taken: Vec<DiagramNode> = Vec::new();
                core::mem::swap(&mut run, &mut taken);
                done.push(DiagramNode::Sequence(taken));
                assert(nodes_view(done@) =~= before.push(
                    DiagramNodeView::Sequence(nodes_view(taken@)),
                ));
            }
            RowBuilder { done, run }
        } else {
            match node {
                Some(n) => {
                    let ghost before = nodes_view(run@);
                    run.push(n);
                    assert(nodes_view(run@) =~= before.push(n@));
                    RowBuilder { done, run }
                },
                None => RowBuilder { done, run },
            }
        }
    }

    /// The node for the rows.
    pub fn finish(self) -> (n: Option<DiagramNode>)
        ensures
            node_option_view(n) == rows_node(self@),
    {
        let mut done = self.done;
        let run = self.run;
        let ghost all = self@.done + row(self@.run);
        if run.len() > 0 {
            let ghost before = nodes_view(done@);
            done.push(DiagramNode::Sequence(run));
            assert(nodes_view(done@) =~= before.push(DiagramNodeView::Sequence(nodes_view(run@))));
        }
        assert(nodes_view(done@) =~= all);
        if done.len() == 0 {
            None
        } else if done.len() == 1 {
            let n = done.pop();
            n
        } else {
            Some(DiagramNode::Stack(done))
        }
    }
}

/// A box around the node with a caption.
fn labeled_box(n: DiagramNode, caption: String) -> (r: DiagramNode)
    ensures
        r@ == labeled(n@, caption@),
{
    reveal_with_fuel(node_view, 2);
    DiagramNode::LabeledBox { inner: Box::new(n), label: Box::new(DiagramNode::Comment(caption)) }
}

/// The node once or more.
fn repeat_node(n: DiagramNode) -> (r: DiagramNode)
    ensures
        r@ == one_or_more(n@),
{
    reveal_with_fuel(node_view, 2);
    DiagramNode::Repeat { inner: Box::new(n), repeat: Box::new(DiagramNode::Empty) }
}

/// The link to the production of that name.
fn node_for_nt(cx: &RenderCtx, name: &str) -> (r: DiagramNode)
    ensures
        r@ == nt_node(cx@, name@),
{
    reveal_with_fuel(node_view, 2);
    let dest = cx.railroad_dest(name);
    DiagramNode::Link { inner: Box::new(DiagramNode::NonTerminal(String::from_str(name))), uri: dest }
}

/// Appends one end of a character range.
fn push_character(out: &mut String, c: &Character)
    ensures
        final(out)@ == old(out)@ + character_text(c@),
{
    match c {
        Character::Char(ch) => {
            out.push(*ch);
            assert(old(out)@.push(*ch) =~= old(out)@ + seq![*ch]);
        },
        Character::Unicode((_, hex)) => {
            out.append("U+");
            out.append(hex.as_str());
            assert(old(out)@ + "U+"@ + hex@ =~= old(out)@ + ("U+"@ + hex@));
        },
    }
}

/// The node of a member of a character set.
fn render_characters(chars: &Characters, cx: &RenderCtx) -> (r: DiagramNode)
    ensures
        r@ == characters_node(cx@, chars@),
{
    match chars {
        Characters::Named(name) => node_for_nt(cx, name.as_str()),
        Characters::Terminal(text) => DiagramNode::Terminal(text.clone()),
        Characters::Range(a, b) => {
            let mut s = String::new();
            push_character(&mut s, a);
            s.push('-');
            push_character(&mut s, b);
            assert(s@ =~= character_text(a@) + seq!['-'] + character_text(b@));
            DiagramNode::Terminal(s)
        },
    }
}

/// The diagram of a repetition of at least one, given what the operand draws.
fn render_range_from_one(operand: Option<DiagramNode>, max: Option<u32>, limit: RangeLimit) -> (r:
    Option<DiagramNode>)
    ensures
        node_option_view(r) == range_from_one(node_option_view(operand), max, limit),
{
    reveal_with_fuel(node_view, 2);
    reveal_with_fuel(plan_diagram, 2);
    match max {
        None => match operand {
            Some(n) => match limit {
                RangeLimit::HalfOpen => Some(repeat_node(n)),
                RangeLimit::Closed => None,
            },
            None => None,
        },
        Some(b) => {
            let half_open = matches!(limit, RangeLimit::HalfOpen);
            if b == 0 || (b == 1 && half_open) {
                Some(DiagramNode::Empty)
            } else if b == 1 {
                operand
            } else {
                match operand {
                    Some(n) => {
                        let more: u32 = if half_open {
                            b - 2
                        } else {
                            b - 1
                        };
                        let mut caption = String::from_str("at most ");
                        push_decimal(&mut caption, more as u64);
                        caption.append(" more times");
                        Some(
                            DiagramNode::Repeat {
                                inner: Box::new(n),
                                repeat: Box::new(DiagramNode::Comment(caption)),
                            },
                        )
                    },
                    None => None,
                }
            }
        },
    }
}

/// The node made optional, if there is any.
fn optional_node(n: Option<DiagramNode>) -> (r: Option<DiagramNode>)
    ensures
        node_option_view(r) == optional_of(node_option_view(n)),
{
    match n {
        Some(n) => Some(DiagramNode::Optional(Box::new(n))),
        None => None,
    }
}

/// The node in a box with the caption, if there is any.
fn labeled_node(n: Option<DiagramNode>, caption: &str) -> (r: Option<DiagramNode>)
    ensures
        node_option_view(r) == labeled_of(node_option_view(n), caption@),
{
    match n {
        Some(n) => Some(labeled_box(n, String::from_str(caption))),
        None => None,
    }
}

/// Builds the nodes of a list of expressions and fills them into rows,
/// which end at the breaks where `split` is set.
#[verifier::loop_isolation(false)]
fn render_sequence(es: &Vec<Expression>, cx: &RenderCtx, stack: bool, split: bool) -> (r:
    RowBuilder)
    requires
        forall|i: int| 0 <= i < es.len() ==> (#[trigger] es[i])@.drawable(),
    ensures
        r@.done =~= rows_of(items_of(crate::expression::expressions_view(es@), cx@, stack), split).done,
        r@.run =~= rows_of(items_of(crate::expression::expressions_view(es@), cx@, stack), split).run,
    decreases es, 0nat,
{
    let ghost items = items_of(crate::expression::expressions_view(es@), cx@, stack);
    let mut rows = RowBuilder::new();
    let mut i: usize = 0;
    while i < es.len()
        invariant
            i <= es.len(),
            items.len() == es.len(),
            rows@.done =~= rows_of(items.take(i as int), split).done,
            rows@.run =~= rows_of(items.take(i as int), split).run,
        decreases es.len() - i,
    {
        let e = &es[i];
        let n = render_expression(e, cx, stack);
        rows = rows.feed(e.is_break(), n, split);
        proof {
            assert(items.take(i + 1).drop_last() =~= items.take(i as int));
            assert(items.take(i + 1).last() == items[i as int]);
        }
        i = i + 1;
    }
    proof {
        assert(items.take(es.len() as int) =~= items);
    }
    rows
}

/// The node any number of times, if there is any.
fn zero_or_more_node(n: Option<DiagramNode>) -> (r: Option<DiagramNode>)
    ensures
        node_option_view(r) == zero_or_more_of(node_option_view(n)),
{
    reveal_with_fuel(node_view, 3);
    match n {
        Some(n) => Some(DiagramNode::Optional(Box::new(repeat_node(n)))),
        None => None,
    }
}

/// The node once or more, if there is any.
fn one_or_more_node(n: Option<DiagramNode>) -> (r: Option<DiagramNode>)
    ensures
        node_option_view(r) == one_or_more_of(node_option_view(n)),
{
    match n {
        Some(n) => Some(repeat_node(n)),
        None => None,
    }
}

/// Any character but what the node draws, if there is any.
fn except_box(cx: &RenderCtx, excluded: Option<DiagramNode>) -> (r: Option<DiagramNode>)
    ensures
        node_option_view(r) == except_of(cx@, node_option_view(excluded)),
{
    match excluded {
        Some(n) => Some(
            DiagramNode::Except { inner: Box::new(node_for_nt(cx, "CHAR")), label: Box::new(n) },
        ),
        None => None,
    }
}

/// The node in a box captioned with the suffix, where there is one.
fn suffix_box(node: Option<DiagramNode>, suffix: &Option<String>) -> (r: Option<DiagramNode>)
    ensures
        node_option_view(r) == with_suffix(node_option_view(node), crate::text::text_view(*suffix)),
{
    match node {
        Some(n) => match suffix {
            Some(suffix) => Some(labeled_box(n, strip_markdown(suffix.as_str()))),
            None => Some(n),
        },
        None => None,
    }
}

/// The choice between the members of a character set.
fn render_charset(set: &Vec<Characters>, cx: &RenderCtx) -> (r: DiagramNode)
    ensures
        r@ == charset_node(cx@, crate::expression::charset_view(set@)),
{
    let mut ns: Vec<DiagramNode> = Vec::new();
    let mut i: usize = 0;
    while i < set.len()
        invariant
            i <= set.len(),
            ns.len() == i,
            forall|j: int| 0 <= j < i ==> (#[trigger] ns[j])@ == characters_node(cx@, set[j]@),
        decreases set.len() - i,
    {
        ns.push(render_characters(&set[i], cx));
        i = i + 1;
    }
    assert(nodes_view(ns@) =~= Seq::new(
        set.len() as nat,
        |i: int| characters_node(cx@, crate::expression::charset_view(set@)[i]),
    ));
    DiagramNode::Choice(ns)
}

/// The text `U+` and the digits.
fn unicode_text(hex: &str) -> (r: String)
    ensures
        r@ == "U+"@ + hex@,
{
    let mut text = String::from_str("U+");
    text.append(hex);
    text
}

/// Builds the diagram of a repetition range over `e`.
#[verifier::loop_isolation(false)]
fn render_repeat_range(
    e: &Expression,
    min: Option<u32>,
    max: Option<u32>,
    limit: RangeLimit,
    cx: &RenderCtx,
    stack: bool,
) -> (r: Option<DiagramNode>)
    requires
        e@.drawable(),
        range_rule(min, max, limit, false),
    ensures
        node_option_view(r) == range_diagram(
            diagram_of(e@, cx@, stack),
            e@.kind is Break,
            min,
            max,
            limit,
            stack,
        ),
    decreases e, 5nat,
{
    proof {
        reveal_with_fuel(plan_diagram, 3);
    }
    let a: u32 = match min {
        Some(a) => a,
        None => 0,
    };
    let half_open = matches!(limit, RangeLimit::HalfOpen);
    let empty = match max {
        Some(b) => b == 0 || (half_open && (b == 1 || (min.is_some() && b <= a))),
        None => false,
    };
    if a == 1 {
        render_range_from_one(render_expression(e, cx, stack), max, limit)
    } else if empty {
        Some(DiagramNode::Empty)
    } else if a == 0 {
        optional_node(render_range_from_one(render_expression(e, cx, stack), max, limit))
    } else {
        let rest: Option<u32> = match max {
            Some(b) => Some(b - (a - 1)),
            None => None,
        };
        let ghost operand = diagram_of(e@, cx@, stack);
        let ghost items = unrolled(
            operand,
            e@.kind is Break,
            (a - 1) as nat,
            range_from_one(operand, rest, limit),
        );
        let mut rows = RowBuilder::new();
        let mut i: u32 = 0;
        while i < a - 1
            invariant
                i <= a - 1,
                rows@.done =~= rows_of(items.take(i as int), stack).done,
                rows@.run =~= rows_of(items.take(i as int), stack).run,
            decreases a - 1 - i,
        {
            let n = render_expression(e, cx, stack);
            rows = rows.feed(e.is_break(), n, stack);
            proof {
                assert(items.take(i + 1).drop_last() =~= items.take(i as int));
                assert(items.take(i + 1).last() == items[i as int]);
            }
            i = i + 1;
        }
        let last = render_range_from_one(render_expression(e, cx, stack), rest, limit);
        rows = rows.feed(false, last, stack);
        proof {
            assert(items.drop_last() =~= items.take(a - 1));
            lemma_trim_is_neutral(items);
        }
        rows.finish()
    }
}

/// Builds the diagram of an expression's kind.
fn render_kind(kind: &ExpressionKind, cx: &RenderCtx, stack: bool) -> (r: Option<DiagramNode>)
    requires
        ranges_hold(ExpressionView { kind: kind@, suffix: None, footnote: None }, false),
    ensures
        node_option_view(r) == kind_diagram(kind@, cx@, stack),
    decreases kind, 3nat,
{
    match kind {
        ExpressionKind::Grouped(e) => render_expression(e, cx, stack),
        ExpressionKind::Alt(es) => {
            proof {
                assert forall|i: int| 0 <= i < es.len() implies (#[trigger] es[i])@.drawable() by {
                    assert(ranges_hold(crate::expression::expressions_view(es@)[i], false));
                }
            }
            let rows = render_sequence(es, cx, stack, false);
            // Without splitting no row is ever finished: all nodes are in `run`.
            Some(DiagramNode::Choice(rows.run))
        },
        ExpressionKind::Sequence(es) => {
            proof {
                assert forall|i: int| 0 <= i < es.len() implies (#[trigger] es[i])@.drawable() by {
                    assert(ranges_hold(crate::expression::expressions_view(es@)[i], false));
                }
            }
            let rows = render_sequence(es, cx, stack, stack);
            proof {
                lemma_trim_is_neutral(
                    items_of(crate::expression::expressions_view(es@), cx@, stack),
                );
            }
            rows.finish()
        },
        ExpressionKind::Optional(e) => optional_node(render_expression(e, cx, stack)),
        ExpressionKind::Repeat(e) => zero_or_more_node(render_expression(e, cx, stack)),
        ExpressionKind::RepeatNonGreedy(e) => labeled_node(
            zero_or_more_node(render_expression(e, cx, stack)),
            "non-greedy",
        ),
        ExpressionKind::RepeatPlus(e) => one_or_more_node(render_expression(e, cx, stack)),
        ExpressionKind::RepeatPlusNonGreedy(e) => labeled_node(
            one_or_more_node(render_expression(e, cx, stack)),
            "non-greedy",
        ),
        ExpressionKind::RepeatRange { expr: e, min, max, limit } => render_repeat_range(
            e,
            *min,
            *max,
            *limit,
            cx,
            stack,
        ),
        ExpressionKind::Nt(nt) => Some(node_for_nt(cx, nt.as_str())),
        ExpressionKind::Terminal(t) => Some(DiagramNode::Terminal(t.clone())),
        ExpressionKind::Prose(s) => Some(DiagramNode::Terminal(s.clone())),
        ExpressionKind::Break(_) => None,
        ExpressionKind::Comment(_) => None,
        ExpressionKind::Charset(set) => Some(render_charset(set, cx)),
        ExpressionKind::NegExpression(e) => except_box(cx, render_expression(e, cx, stack)),
        ExpressionKind::NegativeLookahead(e) => labeled_node(
            render_expression(e, cx, stack),
            "not followed by",
        ),
        ExpressionKind::Cut(e) => labeled_node(render_expression(e, cx, stack), "no backtracking"),
        ExpressionKind::Unicode((_, s)) => Some(DiagramNode::Terminal(unicode_text(s.as_str()))),
    }
}

/// Builds the diagram of an expression, or `None` where it draws nothing.
/// Footnotes are not drawn.
pub fn render_expression(expr: &Expression, cx: &RenderCtx, stack: bool) -> (r: Option<DiagramNode>)
    requires
        expr@.drawable(),
    ensures
        node_option_view(r) == diagram_of(expr@, cx@, stack),
    decreases expr, 4nat,
{
    let node = render_kind(&expr.kind, cx, stack);
    suffix_box(node, &expr.suffix)
}

/// The HTML id of a production's diagram.
pub open spec fn railroad_id_text(name: Seq<char>, for_summary: bool) -> Seq<char> {
    if for_summary {
        "railroad-summary-"@ + name
    } else {
        "railroad-"@ + name
    }
}

/// The HTML id for the production.
pub fn railroad_id(name: &str, for_summary: bool) -> (id: String)
    ensures
        id@ == railroad_id_text(name@, for_summary),
{
    let mut id = if for_summary {
        String::from_str("railroad-summary-")
    } else {
        String::from_str("railroad-")
    };
    id.append(name);
    id
}

/// What an optional node adds to a list: itself, or nothing.
pub open spec fn node_or_nothing(n: Option<DiagramNodeView>) -> Seq<DiagramNodeView> {
    match n {
        Some(n) => seq![n],
        None => Seq::empty(),
    }
}

/// The diagram of a production: a column of the production's name, as a link
/// to its markdown rendering, and of its expression between the start and
/// end glyphs.
pub open spec fn production_diagram(
    prod: ProductionView,
    cx: RenderCtxView,
    stack: bool,
) -> DiagramNodeView {
    DiagramNodeView::VerticalGrid(
        seq![
            DiagramNodeView::Link {
                inner: Box::new(DiagramNodeView::Comment(prod.name)),
                uri: link_or_missing(cx.md_link_map, prod.name),
            },
            DiagramNodeView::Sequence(
                seq![DiagramNodeView::SimpleStart] + node_or_nothing(
                    diagram_of(prod.expression, cx, stack),
                ) + seq![DiagramNodeView::SimpleEnd],
            ),
        ],
    )
}

/// The widest diagram that is drawn without stacking.
pub open spec fn max_plain_width() -> i64 {
    900
}

/// The diagram that is drawn for a production: the plain one, or the stacked
/// one where the plain one is wider than [`max_plain_width`].
pub open spec fn chosen_diagram(prod: ProductionView, cx: RenderCtxView) -> DiagramNodeView {
    let plain = production_diagram(prod, cx, false);
    if diagram_width(plain) > max_plain_width() {
        production_diagram(prod, cx, true)
    } else {
        plain
    }
}

/// The HTML of a diagram: the SVG document in a `div` of the diagram's width.
pub open spec fn diagram_div(width: i64, id: Seq<char>, svg: Seq<char>) -> Seq<char> {
    "<div style=\"width: "@ + signed_decimal(width as int)
        + "px; height: auto; max-width: 100%; max-height: 100%\" class=\"railroad-production\" id=\""@
        + id + "\">"@ + svg + "</div>\n"@
}

/// The HTML of a production's railroad diagram.
pub open spec fn production_div(prod: ProductionView, cx: RenderCtxView) -> Seq<char> {
    let dia = chosen_diagram(prod, cx);
    diagram_div(diagram_width(dia), railroad_id_text(prod.name, cx.for_summary), diagram_svg(dia))
}

/// The HTML of the diagrams of the named productions, which are all defined.
pub open spec fn railroad_of(g: GrammarView, cx: RenderCtxView, names: Seq<Seq<char>>) -> Seq<char>
    decreases names.len(),
{
    if names.len() == 0 {
        Seq::empty()
    } else {
        railroad_of(g, cx, names.drop_last()) + production_div(g.productions[names.last()], cx)
    }
}

/// Builds the diagram of a production.
pub fn make_diagram(prod: &Production, cx: &RenderCtx, stack: bool) -> (dia: DiagramNode)
    requires
        prod@.expression.drawable(),
    ensures
        dia@ == production_diagram(prod@, cx@, stack),
{
    reveal_with_fuel(node_view, 3);
    let n = render_expression(&prod.expression, cx, stack);
    let dest = cx.markdown_dest(prod.name.as_str());
    let mut seq: Vec<DiagramNode> = Vec::new();
    seq.push(DiagramNode::SimpleStart);
    match n {
        Some(n) => {
            seq.push(n);
        },
        None => {},
    }
    seq.push(DiagramNode::SimpleEnd);
    assert(nodes_view(seq@) =~= seq![DiagramNodeView::SimpleStart] + node_or_nothing(
        diagram_of(prod@.expression, cx@, stack),
    ) + seq![DiagramNodeView::SimpleEnd]);
    let mut column: Vec<DiagramNode> = Vec::new();
    let caption = DiagramNode::Link {
        inner: Box::new(DiagramNode::Comment(prod.name.clone())),
        uri: dest,
    };
    let rail = DiagramNode::Sequence(seq);
    assert(caption@ == DiagramNodeView::Link {
        inner: Box::new(DiagramNodeView::Comment(prod@.name)),
        uri: link_or_missing(cx@.md_link_map, prod@.name),
    });
    assert(rail@ == DiagramNodeView::Sequence(nodes_view(seq@)));
    column.push(caption);
    column.push(rail);
    assert(nodes_view(column@)[0] == caption@);
    assert(nodes_view(column@)[1] == rail@);
    assert(nodes_view(column@) =~= seq![
        DiagramNodeView::Link {
            inner: Box::new(DiagramNodeView::Comment(prod@.name)),
            uri: link_or_missing(cx@.md_link_map, prod@.name),
        },
        DiagramNodeView::Sequence(nodes_view(seq@)),
    ]);
    DiagramNode::VerticalGrid(column)
}

/// Whether a diagram of this width is drawn again, stacked.
pub fn needs_stacking(width: i64) -> (b: bool)
    ensures
        b == (width > max_plain_width()),
{
    // This 900 is somewhat arbitrary, from looking at productions that
    // looked too squished.
    width > 900
}

/// Appends the HTML of a diagram.
pub fn push_diagram_div(output: &mut String, width: i64, id: &str, svg: &str)
    ensures
        final(output)@ == old(output)@ + diagram_div(width, id@, svg@),
{
    output.append("<div style=\"width: ");
    push_signed_decimal(output, width);
    output.append(
        "px; height: auto; max-width: 100%; max-height: 100%\" class=\"railroad-production\" id=\"",
    );
    output.append(id);
    output.append("\">");
    output.append(svg);
    output.append("</div>\n");
    assert(output@ =~= old(output)@ + diagram_div(width, id@, svg@));
}

/// Appends the railroad diagram of a production. If the diagram is very
/// wide, it is stacked to reduce the width.
pub fn render_production(prod: &Production, cx: &RenderCtx, output: &mut String)
    requires
        prod@.expression.drawable(),
    ensures
        final(output)@ == old(output)@ + production_div(prod@, cx@),
{
    let mut dia = make_diagram(prod, cx, false);
    if needs_stacking(width_of_root(&dia)) {
        dia = make_diagram(prod, cx, true);
    }
    let (width, svg) = diagram_of_root(&dia);
    let id = railroad_id(prod.name.as_str(), cx.for_summary);
    push_diagram_div(output, width, id.as_str(), svg.as_str());
}

/// Appends the railroad diagrams of the named productions, in order. Stops
/// at the first name that the grammar does not define, and returns it.
pub fn render_railroad(
    grammar: &Grammar,
    cx: &RenderCtx,
    names: &[&str],
    output: &mut String,
) -> (r: Result<(), RenderError>)
    requires
        grammar@.draws(names_view(names@)),
    ensures
        match r {
            Ok(()) => grammar@.defines_all(names_view(names@)) && final(output)@ == old(output)@
                + railroad_of(grammar@, cx@, names_view(names@)),
            Err(e) => exists|k: int|
                0 <= k < names.len() && !grammar@.defines(#[trigger] names[k]@)
                    && grammar@.defines_all(names_view(names@).take(k)) && e.name() == names[k]@
                    && final(output)@ == old(output)@ + railroad_of(
                    grammar@,
                    cx@,
                    names_view(names@).take(k),
                ),
        },
{
    let ghost all = names_view(names@);
    let mut i: usize = 0;
    while i < names.len()
        invariant
            i <= names.len(),
            all == names_view(names@),
            grammar@.draws(all),
            grammar@.defines_all(all.take(i as int)),
            output@ == old(output)@ + railroad_of(grammar@, cx@, all.take(i as int)),
        decreases names.len() - i,
    {
        let name = names[i];
        match grammar.productions.get(name) {
            Some(prod) => {
                assert(grammar@.productions.contains_key(name@));
                assert(all[i as int] == name@);
                render_production(prod, cx, output);
                proof {
                    assert(all.take(i + 1).drop_last() =~= all.take(i as int));
                    assert(all.take(i + 1).last() == name@);
                    assert(output@ =~= old(output)@ + railroad_of(grammar@, cx@, all.take(i + 1)));
                    assert forall|j: int| 0 <= j < i + 1 implies grammar@.defines(
                        #[trigger] all.take(i + 1)[j],
                    ) by {
                        if j < i {
                            assert(all.take(i as int)[j] == all.take(i + 1)[j]);
                        }
                    }
                }
            },
            None => {
                return Err(RenderError::UnknownProduction(String::from_str(name)));
            },
        }
        i = i + 1;
    }
    proof {
        assert(all.take(names.len() as int) =~= all);
        assert(old(output)@ + railroad_of(grammar@, cx@, all.take(0)) =~= old(output)@) by {
            assert(all.take(0).len() == 0);
        }
    }
    Ok(())
}

impl Grammar {
    /// Appends the railroad diagrams of the named productions: see
    /// [`render_railroad`].
    pub fn render_railroad(&self, cx: &RenderCtx, names: &[&str], output: &mut String) -> (r:
        Result<(), RenderError>)
        requires
            self@.draws(names_view(names@)),
        ensures
            match r {
                Ok(()) => self@.defines_all(names_view(names@)) && final(output)@ == old(output)@
                    + railroad_of(self@, cx@, names_view(names@)),
                Err(e) => exists|k: int|
                    0 <= k < names.len() && !self@.defines(#[trigger] names[k]@)
                        && self@.defines_all(names_view(names@).take(k)) && e.name() == names[k]@
                        && final(output)@ == old(output)@ + railroad_of(
                        self@,
                        cx@,
                        names_view(names@).take(k),
                    ),
            },
    {
        render_railroad(self, cx, names, output)
    }
}

/// The SVG element of the expression alone, or `None` where it draws nothing.
pub fn render_to_svg(expr: &Expression, cx: &RenderCtx) -> (svg: Option<String>)
    requires
        expr@.drawable(),
    ensures
        crate::text::text_view(svg) == match diagram_of(expr@, cx@, false) {
            Some(n) => Some(node_svg(n)),
            None => None,
        },
{
    match render_expression(expr, cx, false) {
        Some(node) => Some(node_to_svg(&node)),
        None => None,
    }
}

/// Drawing is a function of the expression, the railroad links and the
/// stacking: two pages that agree on the railroad links get the same
/// diagram, whatever else they hold.
pub proof fn lemma_diagram_is_pure(
    e: ExpressionView,
    a: RenderCtxView,
    b: RenderCtxView,
    stack: bool,
)
    requires
        a.rr_link_map == b.rr_link_map,
    ensures
        diagram_of(e, a, stack) == diagram_of(e, b, stack),
    decreases e,
{
    match e.kind {
        ExpressionKindView::Grouped(x) => lemma_diagram_is_pure(*x, a, b, stack),
        ExpressionKindView::Alt(es) => lemma_items_are_pure(es, a, b, stack),
        ExpressionKindView::Sequence(es) => lemma_items_are_pure(es, a, b, stack),
        ExpressionKindView::Optional(x) => lemma_diagram_is_pure(*x, a, b, stack),
        ExpressionKindView::Repeat(x) => lemma_diagram_is_pure(*x, a, b, stack),
        ExpressionKindView::RepeatNonGreedy(x) => lemma_diagram_is_pure(*x, a, b, stack),
        ExpressionKindView::RepeatPlus(x) => lemma_diagram_is_pure(*x, a, b, stack),
        ExpressionKindView::RepeatPlusNonGreedy(x) => lemma_diagram_is_pure(*x, a, b, stack),
        ExpressionKindView::RepeatRange { expr, .. } => lemma_diagram_is_pure(*expr, a, b, stack),
        ExpressionKindView::Charset(set) => {
            assert(Seq::new(set.len(), |i: int| characters_node(a, set[i])) =~= Seq::new(
                set.len(),
                |i: int| characters_node(b, set[i]),
            ));
        },
        ExpressionKindView::NegExpression(x) => lemma_diagram_is_pure(*x, a, b, stack),
        ExpressionKindView::NegativeLookahead(x) => lemma_diagram_is_pure(*x, a, b, stack),
        ExpressionKindView::Cut(x) => lemma_diagram_is_pure(*x, a, b, stack),
        _ => {},
    }
}

/// The same for the items of a list of expressions.
proof fn lemma_items_are_pure(
    es: Seq<ExpressionView>,
    a: RenderCtxView,
    b: RenderCtxView,
    stack: bool,
)
    requires
        a.rr_link_map == b.rr_link_map,
    ensures
        items_of(es, a, stack) == items_of(es, b, stack),
    decreases es,
{
    assert forall|i: int| 0 <= i < es.len() implies #[trigger] items_of(es, a, stack)[i]
        == items_of(es, b, stack)[i] by {
        lemma_diagram_is_pure(es[i], a, b, stack);
    }
    assert(items_of(es, a, stack) =~= items_of(es, b, stack));
}

} // verus!
