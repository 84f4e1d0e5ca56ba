//! A parser of the notation: reads the expressions and productions of a
//! block of text.

use vstd::prelude::*;
use vstd::string::StringExecFns;
use crate::expression::{Expression, ExpressionKind, expressions_view};
use crate::diagnostics::Diagnostics;
use crate::store::{Corpus, Grammar, Production, all_rules_well_formed, productions_view};
use crate::position::Error;
use crate::reader::{Parser, box_kind, failed_with};
use crate::syntax::{CharClass, left, plain};

verus! {

/// Whether each of the expressions is well formed.
pub open spec fn all_well_formed(es: Seq<Expression>) -> bool {
    forall|i: int| 0 <= i < es.len() ==> (#[trigger] es[i])@.well_formed()
}

/// The expression for a list of terms or alternatives: nothing for none,
/// the one itself for one, else the list as a sequence or an alternation.
fn collect(es: Vec<Expression>, alt: bool) -> (r: Option<Expression>)
    requires
        all_well_formed(es@),
    ensures
        r.deep_view() == crate::syntax::collected(expressions_view(es@), alt),
        r matches Some(e) ==> e@.well_formed(),
        r is Some <==> es.len() > 0,
{
    let mut es = es;
    assert(expressions_view(es@).len() == es.len());
    if es.len() > 0 {
        assert(expressions_view(es@)[0] == es[0]@);
        assert(es[0]@.well_formed());
    }
    if es.len() == 0 {
        None
    } else if es.len() == 1 {
        es.pop()
    } else {
        assert forall|i: int| 0 <= i < es.len() implies crate::expression::ranges_hold(
            #[trigger] expressions_view(es@)[i],
            true,
        ) by {
            assert(es[i]@.well_formed());
        }
        if alt {
            Some(Expression { kind: ExpressionKind::Alt(es), suffix: None, footnote: None })
        } else {
            Some(Expression { kind: ExpressionKind::Sequence(es), suffix: None, footnote: None })
        }
    }
}

impl Parser {
    /// Reads the operand of a term, if one starts here.
    pub fn parse_operand(&mut self) -> (r: Result<Option<ExpressionKind>, Error>)
        requires
            old(self).wf(),
        ensures
            final(self).read(
                *old(self),
                crate::syntax::parse_operand(old(self).input@, old(self).index as int),
                r,
            ),
            r matches Ok(Some(k)) ==> crate::expression::ranges_hold(plain(k@), true)
                && final(self).index > old(self).index,
        decreases left(old(self).input@, old(self).index as int), 1nat,
    {
        proof {
            reveal_strlit("U+");
            reveal(crate::syntax::parse_operand);
            reveal(crate::syntax::parse_grouped);
            reveal(crate::syntax::parse_negative_lookahead);
        }
        let next = match self.peek() {
            Some(c) => c,
            None => {
                return Ok(None);
            },
        };
        if self.take_str("U+") {
            match self.parse_unicode() {
                Ok(u) => Ok(Some(ExpressionKind::Unicode(u))),
                Err(e) => Err(e),
            }
        } else if next.is_alphanumeric() {
            Ok(self.parse_nonterminal())
        } else if next == '\n' {
            self.parse_break()
        } else if next == '/' {
            match self.parse_comment() {
                Ok(kind) => Ok(Some(kind)),
                Err(e) => Err(e),
            }
        } else if next == '`' {
            match self.parse_terminal() {
                Ok(kind) => Ok(Some(kind)),
                Err(e) => Err(e),
            }
        } else if next == '[' {
            match self.parse_charset() {
                Ok(kind) => Ok(Some(kind)),
                Err(e) => Err(e),
            }
        } else if next == '<' {
            match self.parse_prose() {
                Ok(kind) => Ok(Some(kind)),
                Err(e) => Err(e),
            }
        } else if next == '(' {
            match self.parse_grouped() {
                Ok(kind) => Ok(Some(kind)),
                Err(e) => Err(e),
            }
        } else if next == '~' {
            match self.parse_neg_expression() {
                Ok(kind) => Ok(Some(kind)),
                Err(e) => Err(e),
            }
        } else if next == '!' {
            match self.parse_negative_lookahead() {
                Ok(kind) => Ok(Some(kind)),
                Err(e) => Err(e),
            }
        } else {
            Ok(None)
        }
    }

    /// Reads a term, if one starts here.
    pub fn parse_expr1(&mut self) -> (r: Result<Option<Expression>, Error>)
        requires
            old(self).wf(),
        ensures
            final(self).read(
                *old(self),
                crate::syntax::parse_expr1(old(self).input@, old(self).index as int),
                r,
            ),
            r matches Ok(Some(e)) ==> e@.well_formed() && final(self).index > old(self).index,
        decreases left(old(self).input@, old(self).index as int), 2nat,
    {
        proof {
            reveal(crate::syntax::parse_expr1);
            reveal(crate::syntax::parse_operand);
        }
        match self.parse_operand() {
            Err(e) => Err(e),
            Ok(None) => Ok(None),
            Ok(Some(kind)) => self.parse_decorations(kind),
        }
    }

    /// Reads a group between `(` and `)`.
    pub fn parse_grouped(&mut self) -> (r: Result<ExpressionKind, Error>)
        requires
            old(self).wf(),
        ensures
            final(self).read(
                *old(self),
                crate::syntax::parse_grouped(old(self).input@, old(self).index as int),
                r,
            ),
            r matches Ok(k) ==> crate::expression::ranges_hold(plain(k@), true)
                && final(self).index > old(self).index,
        decreases left(old(self).input@, old(self).index as int), 0nat,
    {
        proof {
            reveal(crate::syntax::parse_grouped);
            reveal(crate::syntax::parse_expression);
        }
        match self.expect_char('(', "expected opening `(`") {
            Err(e) => {
                return Err(e);
            },
            Ok(()) => {},
        }
        self.space0();
        let e = match self.parse_expression() {
            Err(e) => {
                return Err(e);
            },
            Ok(None) => {
                return Err(self.error("expected expression in parenthesized group"));
            },
            Ok(Some(e)) => e,
        };
        self.space0();
        match self.expect_char(')', "expected closing `)`") {
            Err(e) => Err(e),
            Ok(()) => Ok(ExpressionKind::Grouped(Box::new(e))),
        }
    }

    /// Reads a negative lookahead: `!` before a term.
    pub fn parse_negative_lookahead(&mut self) -> (r: Result<ExpressionKind, Error>)
        requires
            old(self).wf(),
        ensures
            final(self).read(
                *old(self),
                crate::syntax::parse_negative_lookahead(old(self).input@, old(self).index as int),
                r,
            ),
            r matches Ok(k) ==> crate::expression::ranges_hold(plain(k@), true)
                && final(self).index > old(self).index,
        decreases left(old(self).input@, old(self).index as int), 0nat,
    {
        proof {
            reveal(crate::syntax::parse_negative_lookahead);
            reveal(crate::syntax::parse_expr1);
        }
        match self.expect_char('!', "expected !") {
            Err(e) => {
                return Err(e);
            },
            Ok(()) => {},
        }
        self.space0();
        match self.parse_expr1() {
            Err(e) => Err(e),
            Ok(None) => Err(self.error("expected expression after !")),
            Ok(Some(e)) => Ok(ExpressionKind::NegativeLookahead(Box::new(e))),
        }
    }

    /// Parse cut (`^`) operator.
    pub fn parse_cut(&mut self) -> (r: Result<Expression, Error>)
        requires
            old(self).wf(),
        ensures
            final(self).read(
                *old(self),
                crate::syntax::parse_cut(old(self).input@, old(self).index as int),
                r,
            ),
            r matches Ok(e) ==> e@.well_formed() && final(self).index > old(self).index,
        decreases left(old(self).input@, old(self).index as int), 0nat,
    {
        proof {
            reveal(crate::syntax::parse_cut);
            reveal(crate::syntax::parse_seq);
        }
        match self.expect_char('^', "expected `^`") {
            Err(e) => {
                return Err(e);
            },
            Ok(()) => {},
        }
        match self.parse_seq() {
            Err(e) => Err(e),
            Ok(None) => Err(self.error("expected expression after cut operator")),
            Ok(Some(rhs)) => Ok(
                Expression { kind: ExpressionKind::Cut(Box::new(rhs)), suffix: None, footnote: None },
            ),
        }
    }

    /// Reads the terms of a sequence.
    fn parse_terms(&mut self) -> (r: Result<Vec<Expression>, Error>)
        requires
            old(self).wf(),
        ensures
            final(self).advanced(
                *old(self),
                crate::syntax::parse_terms(
                    old(self).input@,
                    old(self).index as int,
                    Seq::empty(),
                ).advance,
            ),
            match r {
                Ok(es) => crate::syntax::parse_terms(
                    old(self).input@,
                    old(self).index as int,
                    Seq::empty(),
                ).result == Ok::<_, Seq<char>>(expressions_view(es@)) && all_well_formed(es@) && (
                es.len() > 0 ==> final(self).index > old(self).index),
                Err(e) => failed_with(
                    crate::syntax::parse_terms(
                        old(self).input@,
                        old(self).index as int,
                        Seq::empty(),
                    ).result,
                    e,
                    final(self).input@,
                    final(self).index as int,
                ),
            },
        decreases left(old(self).input@, old(self).index as int), 3nat,
    {
        let ghost first = self.index as int;
        let mut es: Vec<Expression> = Vec::new();
        assert(expressions_view(es@) =~= Seq::empty());
        loop
            invariant
                self.input@ == old(self).input@,
                self.wf(),
                first == old(self).index,
                first <= self.index,
                es.len() > 0 ==> first < self.index,
                all_well_formed(es@),
                crate::syntax::parse_terms(self.input@, first, Seq::empty()).result
                    == crate::syntax::parse_terms(
                    self.input@,
                    self.index as int,
                    expressions_view(es@),
                ).result,
                crate::syntax::parse_terms(self.input@, first, Seq::empty()).advance == (self.index
                    - first) + crate::syntax::parse_terms(
                    self.input@,
                    self.index as int,
                    expressions_view(es@),
                ).advance,
            decreases self.input.len() - self.index,
        {
            proof {
                reveal(crate::syntax::parse_terms);
                reveal(crate::syntax::parse_cut);
                reveal(crate::syntax::parse_expr1);
            }
            let ghost found = expressions_view(es@);
            self.space0();
            if self.index < self.input.len() && self.input[self.index] == '^' {
                match self.parse_cut() {
                    Err(e) => {
                        return Err(e);
                    },
                    Ok(cut) => {
                        es.push(cut);
                        assert(expressions_view(es@) =~= found.push(cut@));
                        return Ok(es);
                    },
                }
            }
            match self.parse_expr1() {
                Err(e) => {
                    return Err(e);
                },
                Ok(None) => {
                    return Ok(es);
                },
                Ok(Some(e)) => {
                    es.push(e);
                    assert(expressions_view(es@) =~= found.push(e@));
                },
            }
        }
    }

    /// Reads a sequence, if one starts here.
    pub fn parse_seq(&mut self) -> (r: Result<Option<Expression>, Error>)
        requires
            old(self).wf(),
        ensures
            final(self).read(
                *old(self),
                crate::syntax::parse_seq(old(self).input@, old(self).index as int),
                r,
            ),
            r matches Ok(Some(e)) ==> e@.well_formed() && final(self).index > old(self).index,
        decreases left(old(self).input@, old(self).index as int), 4nat,
    {
        proof {
            reveal(crate::syntax::parse_seq);
            reveal(crate::syntax::parse_terms);
        }
        match self.parse_terms() {
            Err(e) => Err(e),
            Ok(es) => Ok(collect(es, false)),
        }
    }

    /// Reads the alternatives of an expression.
    fn parse_alternatives(&mut self) -> (r: Result<Vec<Expression>, Error>)
        requires
            old(self).wf(),
        ensures
            final(self).advanced(
                *old(self),
                crate::syntax::parse_alternatives(
                    old(self).input@,
                    old(self).index as int,
                    Seq::empty(),
                ).advance,
            ),
            match r {
                Ok(es) => crate::syntax::parse_alternatives(
                    old(self).input@,
                    old(self).index as int,
                    Seq::empty(),
                ).result == Ok::<_, Seq<char>>(expressions_view(es@)) && all_well_formed(es@) && (
                es.len() > 0 ==> final(self).index > old(self).index),
                Err(e) => failed_with(
                    crate::syntax::parse_alternatives(
                        old(self).input@,
                        old(self).index as int,
                        Seq::empty(),
                    ).result,
                    e,
                    final(self).input@,
                    final(self).index as int,
                ),
            },
        decreases left(old(self).input@, old(self).index as int), 5nat,
    {
        let ghost first = self.index as int;
        let mut es: Vec<Expression> = Vec::new();
        assert(expressions_view(es@) =~= Seq::empty());
        loop
            invariant
                self.input@ == old(self).input@,
                self.wf(),
                first == old(self).index,
                first <= self.index,
                es.len() > 0 ==> first < self.index,
                all_well_formed(es@),
                crate::syntax::parse_alternatives(self.input@, first, Seq::empty()).result
                    == crate::syntax::parse_alternatives(
                    self.input@,
                    self.index as int,
                    expressions_view(es@),
                ).result,
                crate::syntax::parse_alternatives(self.input@, first, Seq::empty()).advance == (
                self.index - first) + crate::syntax::parse_alternatives(
                    self.input@,
                    self.index as int,
                    expressions_view(es@),
                ).advance,
            decreases self.input.len() - self.index,
        {
            proof {
                reveal(crate::syntax::parse_alternatives);
                reveal(crate::syntax::parse_seq);
            }
            let ghost found = expressions_view(es@);
            match self.parse_seq() {
                Err(e) => {
                    return Err(e);
                },
                Ok(None) => {
                    return Ok(es);
                },
                Ok(Some(e)) => {
                    es.push(e);
                    assert(expressions_view(es@) =~= found.push(e@));
                },
            }
            self.space0();
            if self.index < self.input.len() && self.input[self.index] == '|' {
                self.index = self.index + 1;
            } else {
                return Ok(es);
            }
        }
    }

    /// Reads an expression, if one starts here.
    pub fn parse_expression(&mut self) -> (r: Result<Option<Expression>, Error>)
        requires
            old(self).wf(),
        ensures
            final(self).read(
                *old(self),
                crate::syntax::parse_expression(old(self).input@, old(self).index as int),
                r,
            ),
            r matches Ok(Some(e)) ==> e@.well_formed() && final(self).index > old(self).index,
        decreases left(old(self).input@, old(self).index as int), 6nat,
    {
        proof {
            reveal(crate::syntax::parse_expression);
            reveal(crate::syntax::parse_alternatives);
        }
        match self.parse_alternatives() {
            Err(e) => Err(e),
            Ok(es) => Ok(collect(es, true)),
        }
    }
}

impl Parser {
    /// Reads the comment lines before a production.
    fn parse_comment_lines(&mut self) -> (r: Result<Vec<Expression>, Error>)
        requires
            old(self).wf(),
        ensures
            final(self).advanced(
                *old(self),
                crate::syntax::parse_comment_lines(
                    old(self).input@,
                    old(self).index as int,
                    Seq::empty(),
                ).advance,
            ),
            match r {
                Ok(es) => crate::syntax::parse_comment_lines(
                    old(self).input@,
                    old(self).index as int,
                    Seq::empty(),
                ).result == Ok::<_, Seq<char>>(expressions_view(es@)),
                Err(e) => failed_with(
                    crate::syntax::parse_comment_lines(
                        old(self).input@,
                        old(self).index as int,
                        Seq::empty(),
                    ).result,
                    e,
                    final(self).input@,
                    final(self).index as int,
                ),
            },
    {
        let ghost first = self.index as int;
        let mut comments: Vec<Expression> = Vec::new();
        assert(expressions_view(comments@) =~= Seq::empty());
        loop
            invariant
                self.input@ == old(self).input@,
                self.wf(),
                first == old(self).index,
                first <= self.index,
                crate::syntax::parse_comment_lines(self.input@, first, Seq::empty()).result
                    == crate::syntax::parse_comment_lines(
                    self.input@,
                    self.index as int,
                    expressions_view(comments@),
                ).result,
                crate::syntax::parse_comment_lines(self.input@, first, Seq::empty()).advance == (
                self.index - first) + crate::syntax::parse_comment_lines(
                    self.input@,
                    self.index as int,
                    expressions_view(comments@),
                ).advance,
            decreases self.input.len() - self.index,
        {
            proof {
                reveal_strlit("//");
            }
            let ghost found = expressions_view(comments@);
            if !self.take_str("//") {
                return Ok(comments);
            }
            let text = self.take_while(CharClass::Line);
            match self.expect_char('\n', "expected newline") {
                Err(e) => {
                    return Err(e);
                },
                Ok(()) => {},
            }
            let comment = Expression::new_kind(ExpressionKind::Comment(text));
            let line_break = Expression::new_kind(ExpressionKind::Break(0));
            comments.push(comment);
            comments.push(line_break);
            assert(expressions_view(comments@) =~= found.push(comment@).push(line_break@));
        }
    }

    /// Reads a production: its comment lines, the root marker, the name, the
    /// arrow and the expression.
    pub fn parse_production(&mut self, category: &str, path: &str) -> (r: Result<
        Production,
        Error,
    >)
        requires
            old(self).wf(),
        ensures
            final(self).read(
                *old(self),
                crate::syntax::parse_production(
                    old(self).input@,
                    old(self).index as int,
                    category@,
                    path@,
                ),
                r,
            ),
            r matches Ok(p) ==> p@.expression.well_formed() && final(self).index > old(self).index,
    {
        proof {
            reveal_strlit(" ->");
        }
        let comments = match self.parse_comment_lines() {
            Err(e) => {
                return Err(e);
            },
            Ok(comments) => comments,
        };
        let is_root = self.parse_is_root();
        self.space0();
        let name = match self.parse_name() {
            None => {
                return Err(self.error("expected production name"));
            },
            Some(name) => name,
        };
        match self.expect(" ->", "expected -> arrow") {
            Err(e) => {
                return Err(e);
            },
            Ok(()) => {},
        }
        let expression = match self.parse_expression() {
            Err(e) => {
                return Err(e);
            },
            Ok(None) => {
                return Err(self.error("expected an expression"));
            },
            Ok(Some(expression)) => expression,
        };
        Ok(
            Production {
                name,
                comments,
                category: String::from_str(category),
                expression,
                path: String::from_str(path),
                is_root,
            },
        )
    }
}

/// Whether one of the productions has the name.
fn has_name(found: &Vec<Production>, name: &String) -> (b: bool)
    ensures
        b == crate::syntax::names_production(productions_view(found@), name@),
{
    let mut k: usize = 0;
    while k < found.len()
        invariant
            k <= found.len(),
            forall|j: int| 0 <= j < k ==> (#[trigger] productions_view(found@)[j]).name != name@,
        decreases found.len() - k,
    {
        if found[k].name == *name {
            assert(productions_view(found@)[k as int].name == name@);
            return true;
        }
        k = k + 1;
    }
    false
}

/// Reads the productions of a block of text, in order. Fails where the text
/// is not in the notation, and where it defines a name twice.
pub fn parse_block(input: &str, category: &str, path: &str) -> (r: Result<Vec<Production>, Error>)
    requires
        crate::syntax::byte_len(input@) < usize::MAX,
    ensures
        match r {
            Ok(ps) => crate::syntax::parse_block(input@, category@, path@).result == Ok::<
                _,
                Seq<char>,
            >(productions_view(ps@)) && all_rules_well_formed(ps@),
            Err(e) => failed_with(
                crate::syntax::parse_block(input@, category@, path@).result,
                e,
                input@,
                crate::syntax::parse_block(input@, category@, path@).advance as int,
            ),
        },
{
    let mut parser = Parser::new(input);
    let mut found: Vec<Production> = Vec::new();
    assert(productions_view(found@) =~= Seq::empty());
    loop
        invariant
            parser.input@ == input@,
            parser.wf(),
            all_rules_well_formed(found@),
            crate::syntax::parse_block(input@, category@, path@).result
                == crate::syntax::parse_productions(
                input@,
                parser.index as int,
                category@,
                path@,
                productions_view(found@),
            ).result,
            crate::syntax::parse_block(input@, category@, path@).advance == parser.index
                + crate::syntax::parse_productions(
                input@,
                parser.index as int,
                category@,
                path@,
                productions_view(found@),
            ).advance,
        decreases parser.input.len() - parser.index,
    {
        let ghost before = productions_view(found@);
        let p = match parser.parse_production(category, path) {
            Err(e) => {
                return Err(e);
            },
            Ok(p) => p,
        };
        if has_name(&found, &p.name) {
            let mut message = String::from_str("duplicate production ");
            message.append(p.name.as_str());
            message.append(" in grammar");
            return Err(parser.error(message.as_str()));
        }
        found.push(p);
        assert(productions_view(found@) =~= before.push(p@));
        let _ = parser.take_while(CharClass::Newline);
        if parser.eof() {
            return Ok(found);
        }
    }
}

/// Reads the productions of a block of text into the grammar.
///
/// Where the block is not in the notation, or defines a name twice, the
/// error is returned and nothing else happens. Else its productions are
/// taken into the grammar in order; for a name that an earlier block has
/// defined, the first definition stands and a diagnostic is recorded.
pub fn parse_grammar(
    input: &str,
    grammar: &mut Grammar,
    category: &str,
    path: &str,
    diag: &mut Diagnostics,
) -> (r: Result<(), Error>)
    requires
        crate::syntax::byte_len(input@) < usize::MAX,
    ensures
        match r {
            Ok(()) => match crate::syntax::parse_block(input@, category@, path@).result {
                Ok(ps) => (Corpus { grammar: final(grammar)@, diagnostics: final(diag)@ }) == (Corpus {
                    grammar: old(grammar)@,
                    diagnostics: old(diag)@,
                }).merge(ps),
                Err(_) => false,
            },
            Err(e) => failed_with(
                crate::syntax::parse_block(input@, category@, path@).result,
                e,
                input@,
                crate::syntax::parse_block(input@, category@, path@).advance as int,
            ) && final(grammar)@ == old(grammar)@ && final(diag)@ == old(diag)@,
        },
        old(grammar)@.consistent() ==> final(grammar)@.consistent(),
        old(grammar)@.well_formed() ==> final(grammar)@.well_formed(),
{
    match parse_block(input, category, path) {
        Err(e) => Err(e),
        Ok(productions) => {
            grammar.merge(productions, diag);
            Ok(())
        },
    }
}

} // verus!
