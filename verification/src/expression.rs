//! The expression tree of a production and its mathematical model.

use vstd::prelude::*;
use crate::text::text_view;

verus! {

/// Whether the upper bound of a repetition range is excluded or included.
#[derive(Clone, Copy, Debug, PartialEq, Eq, Structural)]
pub enum RangeLimit {
    /// `{min..max}`: `max` itself is excluded.
    HalfOpen,
    /// `{min..=max}`: `max` itself is included.
    Closed,
}

/// One end of a character range.
#[derive(Debug)]
pub enum Character {
    /// A literal character, written `` `a` ``.
    Char(char),
    /// A code point written `U+0041`, with its hexadecimal digits as written.
    Unicode((char, String)),
}

/// A member of a character set.
#[derive(Debug)]
pub enum Characters {
    /// `LF`
    Named(String),
    /// `` `_` ``
    Terminal(String),
    /// `` `A`-`Z` ``
    Range(Character, Character),
}

/// A node of a production's expression tree.
#[derive(Debug)]
pub struct Expression {
    pub kind: ExpressionKind,
    /// Suffix is the `_foo_` part that is shown as a subscript.
    pub suffix: Option<String>,
    /// A footnote is a markdown footnote link.
    pub footnote: Option<String>,
}

#[derive(Debug)]
pub enum ExpressionKind {
    /// `( A B C )`
    Grouped(Box<Expression>),
    /// `A | B | C`
    Alt(Vec<Expression>),
    /// `A B C`
    Sequence(Vec<Expression>),
    /// `A?`
    Optional(Box<Expression>),
    /// `A*`
    Repeat(Box<Expression>),
    /// `A*?`
    RepeatNonGreedy(Box<Expression>),
    /// `A+`
    RepeatPlus(Box<Expression>),
    /// `A+?`
    RepeatPlusNonGreedy(Box<Expression>),
    /// `A{2..4}` or `A{2..=4}`
    RepeatRange { expr: Box<Expression>, min: Option<u32>, max: Option<u32>, limit: RangeLimit },
    /// `NonTerminal`
    Nt(String),
    /// `` `string` ``
    Terminal(String),
    /// `<english description>`
    Prose(String),
    /// An LF followed by the given number of spaces.
    ///
    /// Used by the renderers to help format and structure the grammar.
    Break(usize),
    /// `// Single line comment.`
    Comment(String),
    /// ``[`A`-`Z` `_` LF]``
    Charset(Vec<Characters>),
    /// ``~[` ` LF]``
    NegExpression(Box<Expression>),
    /// `!A`
    NegativeLookahead(Box<Expression>),
    /// `^ A B C`
    Cut(Box<Expression>),
    /// `U+0060`
    Unicode((char, String)),
}

/// Model of a [`Character`].
pub enum CharacterView {
    Char(char),
    Unicode(char, Seq<char>),
}

/// Model of a [`Characters`].
pub enum CharactersView {
    Named(Seq<char>),
    Terminal(Seq<char>),
    Range(CharacterView, CharacterView),
}

/// Model of an [`Expression`].
pub struct ExpressionView {
    pub kind: ExpressionKindView,
    pub suffix: Option<Seq<char>>,
    pub footnote: Option<Seq<char>>,
}

/// Model of an [`ExpressionKind`].
pub enum ExpressionKindView {
    Grouped(Box<ExpressionView>),
    Alt(Seq<ExpressionView>),
    Sequence(Seq<ExpressionView>),
    Optional(Box<ExpressionView>),
    Repeat(Box<ExpressionView>),
    RepeatNonGreedy(Box<ExpressionView>),
    RepeatPlus(Box<ExpressionView>),
    RepeatPlusNonGreedy(Box<ExpressionView>),
    RepeatRange { expr: Box<ExpressionView>, min: Option<u32>, max: Option<u32>, limit: RangeLimit },
    Nt(Seq<char>),
    Terminal(Seq<char>),
    Prose(Seq<char>),
    Break(usize),
    Comment(Seq<char>),
    Charset(Seq<CharactersView>),
    NegExpression(Box<ExpressionView>),
    NegativeLookahead(Box<ExpressionView>),
    Cut(Box<ExpressionView>),
    Unicode(char, Seq<char>),
}

impl View for Character {
    type V = CharacterView;

    open spec fn view(&self) -> CharacterView {
        match self {
            Character::Char(c) => CharacterView::Char(*c),
            Character::Unicode((c, hex)) => CharacterView::Unicode(*c, hex@),
        }
    }
}

impl View for Characters {
    type V = CharactersView;

    open spec fn view(&self) -> CharactersView {
        match self {
            Characters::Named(name) => CharactersView::Named(name@),
            Characters::Terminal(text) => CharactersView::Terminal(text@),
            Characters::Range(a, b) => CharactersView::Range(a@, b@),
        }
    }
}

/// The models of the members of a character set, in order.
pub open spec fn charset_view(set: Seq<Characters>) -> Seq<CharactersView> {
    Seq::new(set.len(), |i: int| set[i]@)
}

/// The model of an expression.
pub open spec fn expression_view(e: Expression) -> ExpressionView
    decreases e,
{
    ExpressionView {
        kind: kind_view(e.kind),
        suffix: text_view(e.suffix),
        footnote: text_view(e.footnote),
    }
}

/// The models of a list of expressions, in order.
pub open spec fn expressions_view(es: Seq<Expression>) -> Seq<ExpressionView>
    decreases es,
{
    Seq::new(es.len(), |i: int| if 0 <= i < es.len() { expression_view(es[i]) } else { arbitrary() })
}

/// The model of an expression's kind.
pub open spec fn kind_view(k: ExpressionKind) -> ExpressionKindView
    decreases k,
{
    match k {
        ExpressionKind::Grouped(e) => ExpressionKindView::Grouped(Box::new(expression_view(*e))),
        ExpressionKind::Alt(es) => ExpressionKindView::Alt(expressions_view(es@)),
        ExpressionKind::Sequence(es) => ExpressionKindView::Sequence(expressions_view(es@)),
        ExpressionKind::Optional(e) => ExpressionKindView::Optional(Box::new(expression_view(*e))),
        ExpressionKind::Repeat(e) => ExpressionKindView::Repeat(Box::new(expression_view(*e))),
        ExpressionKind::RepeatNonGreedy(e) => ExpressionKindView::RepeatNonGreedy(
            Box::new(expression_view(*e)),
        ),
        ExpressionKind::RepeatPlus(e) => ExpressionKindView::RepeatPlus(
            Box::new(expression_view(*e)),
        ),
        ExpressionKind::RepeatPlusNonGreedy(e) => ExpressionKindView::RepeatPlusNonGreedy(
            Box::new(expression_view(*e)),
        ),
        ExpressionKind::RepeatRange { expr, min, max, limit } => ExpressionKindView::RepeatRange {
            expr: Box::new(expression_view(*expr)),
            min,
            max,
            limit,
        },
        ExpressionKind::Nt(name) => ExpressionKindView::Nt(name@),
        ExpressionKind::Terminal(text) => ExpressionKindView::Terminal(text@),
        ExpressionKind::Prose(text) => ExpressionKindView::Prose(text@),
        ExpressionKind::Break(indent) => ExpressionKindView::Break(indent),
        ExpressionKind::Comment(text) => ExpressionKindView::Comment(text@),
        ExpressionKind::Charset(set) => ExpressionKindView::Charset(charset_view(set@)),
        ExpressionKind::NegExpression(e) => ExpressionKindView::NegExpression(
            Box::new(expression_view(*e)),
        ),
        ExpressionKind::NegativeLookahead(e) => ExpressionKindView::NegativeLookahead(
            Box::new(expression_view(*e)),
        ),
        ExpressionKind::Cut(e) => ExpressionKindView::Cut(Box::new(expression_view(*e))),
        ExpressionKind::Unicode((c, hex)) => ExpressionKindView::Unicode(c, hex@),
    }
}

/// The rule on the bounds of one repetition range. The strict rule is the one
/// a grammar must meet: a maximum is not below the minimum; a half-open range
/// is not empty; a closed range has a maximum. The lax rule asks only what
/// drawing needs: nothing of a half-open range, and of a closed range that it
/// has a maximum not below its minimum.
pub open spec fn range_rule(
    min: Option<u32>,
    max: Option<u32>,
    limit: RangeLimit,
    strict: bool,
) -> bool {
    match limit {
        RangeLimit::HalfOpen => !strict || match (min, max) {
            (Some(a), Some(b)) => b > a,
            (None, Some(b)) => b != 0,
            _ => true,
        },
        RangeLimit::Closed => match (min, max) {
            (_, None) => false,
            (Some(a), Some(b)) => b >= a,
            (None, Some(_)) => true,
        },
    }
}

/// Whether every repetition range in the tree meets [`range_rule`].
pub open spec fn ranges_hold(e: ExpressionView, strict: bool) -> bool
    decreases e,
{
    match e.kind {
        ExpressionKindView::Grouped(x) => ranges_hold(*x, strict),
        ExpressionKindView::Optional(x) => ranges_hold(*x, strict),
        ExpressionKindView::Repeat(x) => ranges_hold(*x, strict),
        ExpressionKindView::RepeatNonGreedy(x) => ranges_hold(*x, strict),
        ExpressionKindView::RepeatPlus(x) => ranges_hold(*x, strict),
        ExpressionKindView::RepeatPlusNonGreedy(x) => ranges_hold(*x, strict),
        ExpressionKindView::NegExpression(x) => ranges_hold(*x, strict),
        ExpressionKindView::NegativeLookahead(x) => ranges_hold(*x, strict),
        ExpressionKindView::Cut(x) => ranges_hold(*x, strict),
        ExpressionKindView::Alt(es) => forall|i: int|
            0 <= i < es.len() ==> ranges_hold(#[trigger] es[i], strict),
        ExpressionKindView::Sequence(es) => forall|i: int|
            0 <= i < es.len() ==> ranges_hold(#[trigger] es[i], strict),
        ExpressionKindView::RepeatRange { expr, min, max, limit } => range_rule(
            min,
            max,
            limit,
            strict,
        ) && ranges_hold(*expr, strict),
        _ => true,
    }
}

impl ExpressionView {
    /// The invariant of an expression in a grammar: every repetition range is
    /// one that the notation accepts.
    pub open spec fn well_formed(self) -> bool {
        ranges_hold(self, true)
    }

    /// What drawing asks of an expression: every closed repetition range has a
    /// maximum that is not below its minimum.
    pub open spec fn drawable(self) -> bool {
        ranges_hold(self, false)
    }
}

/// A well-formed expression can be drawn.
pub proof fn lemma_well_formed_is_drawable(e: ExpressionView)
    requires
        e.well_formed(),
    ensures
        e.drawable(),
    decreases e,
{
    match e.kind {
        ExpressionKindView::Grouped(x) => lemma_well_formed_is_drawable(*x),
        ExpressionKindView::Optional(x) => lemma_well_formed_is_drawable(*x),
        ExpressionKindView::Repeat(x) => lemma_well_formed_is_drawable(*x),
        ExpressionKindView::RepeatNonGreedy(x) => lemma_well_formed_is_drawable(*x),
        ExpressionKindView::RepeatPlus(x) => lemma_well_formed_is_drawable(*x),
        ExpressionKindView::RepeatPlusNonGreedy(x) => lemma_well_formed_is_drawable(*x),
        ExpressionKindView::NegExpression(x) => lemma_well_formed_is_drawable(*x),
        ExpressionKindView::NegativeLookahead(x) => lemma_well_formed_is_drawable(*x),
        ExpressionKindView::Cut(x) => lemma_well_formed_is_drawable(*x),
        ExpressionKindView::Alt(es) => {
            assert forall|i: int| 0 <= i < es.len() implies ranges_hold(
                #[trigger] es[i],
                false,
            ) by {
                lemma_well_formed_is_drawable(es[i]);
            }
        },
        ExpressionKindView::Sequence(es) => {
            assert forall|i: int| 0 <= i < es.len() implies ranges_hold(
                #[trigger] es[i],
                false,
            ) by {
                lemma_well_formed_is_drawable(es[i]);
            }
        },
        ExpressionKindView::RepeatRange { expr, .. } => lemma_well_formed_is_drawable(*expr),
        _ => {},
    }
}

impl View for Expression {
    type V = ExpressionView;

    open spec fn view(&self) -> ExpressionView {
        expression_view(*self)
    }
}

impl View for ExpressionKind {
    type V = ExpressionKindView;

    open spec fn view(&self) -> ExpressionKindView {
        kind_view(*self)
    }
}

/// The members of an alternation or a sequence; of another expression, none.
pub open spec fn members(e: ExpressionView) -> Seq<ExpressionView> {
    match e.kind {
        ExpressionKindView::Alt(es) => es,
        ExpressionKindView::Sequence(es) => es,
        _ => Seq::empty(),
    }
}

/// The ranges of an alternation or a sequence are as they should be where
/// those of each member are.
pub proof fn lemma_list_ranges(e: ExpressionView, strict: bool)
    requires
        e.kind is Alt || e.kind is Sequence,
    ensures
        ranges_hold(e, strict) == (forall|i: int|
            0 <= i < members(e).len() ==> ranges_hold(#[trigger] members(e)[i], strict)),
{
    let es = members(e);
    if ranges_hold(e, strict) {
        assert forall|i: int| 0 <= i < es.len() implies ranges_hold(#[trigger] es[i], strict) by {}
    }
    if forall|i: int| 0 <= i < es.len() ==> ranges_hold(#[trigger] es[i], strict) {
        assert(ranges_hold(e, strict));
    }
}

/// Whether the bounds of a repetition range meet [`range_rule`].
pub fn check_range_rule(min: Option<u32>, max: Option<u32>, limit: RangeLimit, strict: bool) -> (b:
    bool)
    ensures
        b == range_rule(min, max, limit, strict),
{
    match limit {
        RangeLimit::HalfOpen => !strict || match (min, max) {
            (Some(a), Some(b)) => b > a,
            (None, Some(b)) => b != 0,
            _ => true,
        },
        RangeLimit::Closed => match (min, max) {
            (_, None) => false,
            (Some(a), Some(b)) => b >= a,
            (None, Some(_)) => true,
        },
    }
}

/// Whether every repetition range in each of the expressions meets
/// [`range_rule`].
fn check_all_ranges(es: &Vec<Expression>, strict: bool) -> (b: bool)
    ensures
        b == (forall|i: int|
            0 <= i < expressions_view(es@).len() ==> ranges_hold(
                #[trigger] expressions_view(es@)[i],
                strict,
            )),
    decreases es, 0nat,
{
    let mut i: usize = 0;
    while i < es.len()
        invariant
            i <= es.len(),
            forall|j: int| 0 <= j < i ==> ranges_hold(#[trigger] expressions_view(es@)[j], strict),
        decreases es.len() - i,
    {
        if !es[i].check_ranges(strict) {
            assert(!ranges_hold(expressions_view(es@)[i as int], strict));
            return false;
        }
        i = i + 1;
    }
    true
}

impl Expression {
    /// Whether every repetition range in the tree meets [`range_rule`].
    pub fn check_ranges(&self, strict: bool) -> (b: bool)
        ensures
            b == ranges_hold(self@, strict),
        decreases self, 1nat,
    {
        match &self.kind {
            ExpressionKind::Grouped(e) => e.check_ranges(strict),
            ExpressionKind::Optional(e) => e.check_ranges(strict),
            ExpressionKind::Repeat(e) => e.check_ranges(strict),
            ExpressionKind::RepeatNonGreedy(e) => e.check_ranges(strict),
            ExpressionKind::RepeatPlus(e) => e.check_ranges(strict),
            ExpressionKind::RepeatPlusNonGreedy(e) => e.check_ranges(strict),
            ExpressionKind::NegExpression(e) => e.check_ranges(strict),
            ExpressionKind::NegativeLookahead(e) => e.check_ranges(strict),
            ExpressionKind::Cut(e) => e.check_ranges(strict),
            ExpressionKind::Alt(es) => {
                proof {
                    lemma_list_ranges(self@, strict);
                    assert(members(self@) == expressions_view(es@));
                }
                check_all_ranges(es, strict)
            },
            ExpressionKind::Sequence(es) => {
                proof {
                    lemma_list_ranges(self@, strict);
                    assert(members(self@) == expressions_view(es@));
                }
                check_all_ranges(es, strict)
            },
            ExpressionKind::RepeatRange { expr, min, max, limit } => {
                if check_range_rule(*min, *max, *limit, strict) {
                    expr.check_ranges(strict)
                } else {
                    false
                }
            },
            ExpressionKind::Nt(_) => true,
            ExpressionKind::Terminal(_) => true,
            ExpressionKind::Prose(_) => true,
            ExpressionKind::Break(_) => true,
            ExpressionKind::Comment(_) => true,
            ExpressionKind::Charset(_) => true,
            ExpressionKind::Unicode(_) => true,
        }
    }

    /// Whether the expression is one that a grammar may hold: see
    /// [`ExpressionView::well_formed`].
    pub fn is_well_formed(&self) -> (b: bool)
        ensures
            b == self@.well_formed(),
    {
        self.check_ranges(true)
    }

    /// Whether the expression can be drawn: see [`ExpressionView::drawable`].
    pub fn is_drawable(&self) -> (b: bool)
        ensures
            b == self@.drawable(),
    {
        self.check_ranges(false)
    }

    /// An expression of the given kind with no suffix and no footnote.
    pub fn new_kind(kind: ExpressionKind) -> (e: Self)
        ensures
            e@ == (ExpressionView { kind: kind@, suffix: None, footnote: None }),
            e.kind == kind,
            e.suffix is None,
            e.footnote is None,
    {
        Self { kind, suffix: None, footnote: None }
    }

    /// Whether this expression is an explicit line break.
    pub fn is_break(&self) -> (b: bool)
        ensures
            b == (self@.kind is Break),
    {
        matches!(self.kind, ExpressionKind::Break(_))
    }
}

impl DeepView for Character {
    type V = CharacterView;

    open spec fn deep_view(&self) -> CharacterView {
        self@
    }
}

impl DeepView for Characters {
    type V = CharactersView;

    open spec fn deep_view(&self) -> CharactersView {
        self@
    }
}

impl DeepView for Expression {
    type V = ExpressionView;

    open spec fn deep_view(&self) -> ExpressionView {
        self@
    }
}

impl DeepView for ExpressionKind {
    type V = ExpressionKindView;

    open spec fn deep_view(&self) -> ExpressionKindView {
        self@
    }
}

} // verus!
