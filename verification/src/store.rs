//! The grammar store: every production of a corpus, by name and in the order
//! in which the names were first seen.

use vstd::prelude::*;
use vstd::hash_map::StringHashMap;
use vstd::string::StringExecFns;
use crate::diagnostics::{Diagnostics, DiagnosticsView};
use crate::expression::{Expression, ExpressionView, expression_view, expressions_view};
use crate::text::strings_view;

verus! {

/// A named rule of the grammar.
pub struct Production {
    pub name: String,
    /// Comments and breaks that precede the production name.
    pub comments: Vec<Expression>,
    /// Category is from the language tag of the block that holds the
    /// production, and defines how it is grouped on the summary page.
    pub category: String,
    pub expression: Expression,
    /// The path to the page where this is defined, relative to the root of
    /// the documentation.
    pub path: String,
    pub is_root: bool,
}

/// Model of a [`Production`].
pub struct ProductionView {
    pub name: Seq<char>,
    pub comments: Seq<ExpressionView>,
    pub category: Seq<char>,
    pub expression: ExpressionView,
    pub path: Seq<char>,
    pub is_root: bool,
}

impl View for Production {
    type V = ProductionView;

    open spec fn view(&self) -> ProductionView {
        ProductionView {
            name: self.name@,
            comments: expressions_view(self.comments@),
            category: self.category@,
            expression: expression_view(self.expression),
            path: self.path@,
            is_root: self.is_root,
        }
    }
}

/// All productions of a corpus.
pub struct Grammar {
    pub productions: StringHashMap<Production>,
    /// The order that the production names were discovered.
    pub name_order: Vec<String>,
}

/// Model of a [`Grammar`].
pub struct GrammarView {
    pub productions: Map<Seq<char>, ProductionView>,
    pub name_order: Seq<Seq<char>>,
}

impl View for Grammar {
    type V = GrammarView;

    open spec fn view(&self) -> GrammarView {
        GrammarView {
            productions: Map::new(
                |name: Seq<char>| self.productions@.contains_key(name),
                |name: Seq<char>| self.productions@[name]@,
            ),
            name_order: strings_view(self.name_order@),
        }
    }
}

impl GrammarView {
    /// The grammar with no production.
    pub open spec fn empty() -> GrammarView {
        GrammarView { productions: Map::empty(), name_order: Seq::empty() }
    }

    /// Whether a production of this name is defined.
    pub open spec fn defines(self, name: Seq<char>) -> bool {
        self.productions.contains_key(name)
    }

    /// Whether the names and the productions agree: the names in
    /// `name_order` are distinct and are exactly the keys of `productions`,
    /// and each production is filed under its own name.
    pub open spec fn consistent(self) -> bool {
        &&& self.name_order.no_duplicates()
        &&& forall|i: int|
            0 <= i < self.name_order.len() ==> self.productions.contains_key(
                #[trigger] self.name_order[i],
            )
        &&& forall|name: Seq<char>| #[trigger]
            self.productions.contains_key(name) ==> self.name_order.contains(name)
                && self.productions[name].name == name
    }

    /// The invariant of a grammar: names and productions agree, and every
    /// expression is well formed.
    pub open spec fn well_formed(self) -> bool {
        &&& self.consistent()
        &&& forall|name: Seq<char>| #[trigger]
            self.productions.contains_key(name) ==> self.productions[name].expression.well_formed()
    }

    /// What drawing asks of a grammar: every production's expression can be
    /// drawn. A well-formed grammar meets it.
    pub open spec fn drawable(self) -> bool {
        forall|name: Seq<char>| #[trigger]
            self.productions.contains_key(name) ==> self.productions[name].expression.drawable()
    }

    /// What drawing the named productions asks of a grammar: the expression
    /// of each that is defined can be drawn.
    pub open spec fn draws(self, names: Seq<Seq<char>>) -> bool {
        forall|i: int|
            0 <= i < names.len() && self.defines(#[trigger] names[i])
                ==> self.productions[names[i]].expression.drawable()
    }

    /// Whether each of the names is defined.
    pub open spec fn defines_all(self, names: Seq<Seq<char>>) -> bool {
        forall|i: int| 0 <= i < names.len() ==> self.defines(#[trigger] names[i])
    }

    /// The grammar with `p` added under its name, as the last one seen.
    pub open spec fn with(self, p: ProductionView) -> GrammarView {
        GrammarView {
            productions: self.productions.insert(p.name, p),
            name_order: self.name_order.push(p.name),
        }
    }
}

/// The diagnostic for a name that is defined a second time.
pub open spec fn duplicate_text(name: Seq<char>, first: Seq<char>, second: Seq<char>) -> Seq<char> {
    "production `"@ + name + "` defined multiple times\nFirst location: "@ + first
        + "\nSecond location: "@ + second
}

/// A grammar and the diagnostics of a run.
pub struct Corpus {
    pub grammar: GrammarView,
    pub diagnostics: DiagnosticsView,
}

impl Corpus {
    /// The corpus after a production has come in: it is added to the
    /// grammar; but where the grammar already defines the name, the grammar
    /// stays as it is, the first definition stands, and a diagnostic names
    /// both places.
    pub open spec fn merge_one(self, p: ProductionView) -> Corpus {
        if self.grammar.defines(p.name) {
            Corpus {
                grammar: self.grammar,
                diagnostics: self.diagnostics.emit(
                    duplicate_text(p.name, self.grammar.productions[p.name].path, p.path),
                ),
            }
        } else {
            Corpus { grammar: self.grammar.with(p), diagnostics: self.diagnostics }
        }
    }

    /// The corpus after each of the productions has come in, in order.
    pub open spec fn merge(self, ps: Seq<ProductionView>) -> Corpus
        decreases ps.len(),
    {
        if ps.len() == 0 {
            self
        } else {
            self.merge(ps.drop_last()).merge_one(ps.last())
        }
    }
}

/// A production whose name the grammar already defines leaves the grammar as
/// it is and adds exactly one diagnostic, which holds the name and the places
/// of both definitions.
pub proof fn lemma_duplicate_is_reported_once(corpus: Corpus, p: ProductionView)
    requires
        corpus.grammar.defines(p.name),
    ensures
        corpus.merge_one(p).grammar == corpus.grammar,
        corpus.merge_one(p).diagnostics.messages == corpus.diagnostics.messages.push(
            crate::diagnostics::diagnostic_line(
                corpus.diagnostics.deny_warnings,
                duplicate_text(p.name, corpus.grammar.productions[p.name].path, p.path),
            ),
        ),
        corpus.merge_one(p).diagnostics.messages.len() == corpus.diagnostics.messages.len() + 1,
{
}

/// A production whose name is new to the grammar is taken in without a
/// diagnostic: it is the last of the names, and is found under its name.
pub proof fn lemma_new_name_is_taken(corpus: Corpus, p: ProductionView)
    requires
        !corpus.grammar.defines(p.name),
    ensures
        corpus.merge_one(p).diagnostics == corpus.diagnostics,
        corpus.merge_one(p).grammar.defines(p.name),
        corpus.merge_one(p).grammar.productions[p.name] == p,
        corpus.merge_one(p).grammar.name_order == corpus.grammar.name_order.push(p.name),
{
}

/// A well-formed grammar can be drawn, whichever productions are named.
pub proof fn lemma_well_formed_grammar_is_drawable(g: GrammarView)
    requires
        g.well_formed(),
    ensures
        g.drawable(),
        forall|names: Seq<Seq<char>>| #[trigger] g.draws(names),
{
    assert forall|name: Seq<char>| #[trigger] g.productions.contains_key(name) implies g.productions[name].expression.drawable() by {
        crate::expression::lemma_well_formed_is_drawable(g.productions[name].expression);
    }
}

/// The models of a list of productions, in order.
pub open spec fn productions_view(ps: Seq<Production>) -> Seq<ProductionView> {
    Seq::new(ps.len(), |i: int| ps[i]@)
}

/// Whether each of the productions has a well-formed expression.
pub open spec fn all_rules_well_formed(ps: Seq<Production>) -> bool {
    forall|i: int| 0 <= i < ps.len() ==> (#[trigger] ps[i])@.expression.well_formed()
}

/// The texts of a list of names, in order.
pub open spec fn names_view(names: Seq<&str>) -> Seq<Seq<char>> {
    Seq::new(names.len(), |i: int| names[i]@)
}

impl Default for Grammar {
    fn default() -> (g: Grammar)
        ensures
            g@ == GrammarView::empty(),
            g@.well_formed(),
    {
        let g = Grammar { productions: StringHashMap::new(), name_order: Vec::new() };
        assert(g@.productions =~= Map::empty());
        assert(g@.name_order =~= Seq::empty());
        g
    }
}

impl DeepView for Production {
    type V = ProductionView;

    open spec fn deep_view(&self) -> ProductionView {
        self@
    }
}

impl Grammar {
    /// Takes a production into the grammar. Where the grammar already
    /// defines the name, the first definition stands and a diagnostic names
    /// both places.
    pub fn insert(&mut self, p: Production, diag: &mut Diagnostics)
        ensures
            (Corpus { grammar: final(self)@, diagnostics: final(diag)@ }) == (Corpus {
                grammar: old(self)@,
                diagnostics: old(diag)@,
            }).merge_one(p@),
            old(self)@.consistent() ==> final(self)@.consistent(),
            old(self)@.well_formed() && p@.expression.well_formed() ==> final(self)@.well_formed(),
    {
        match self.productions.get(p.name.as_str()) {
            Some(first) => {
                let mut message = String::from_str("production `");
                message.append(p.name.as_str());
                message.append("` defined multiple times\nFirst location: ");
                message.append(first.path.as_str());
                message.append("\nSecond location: ");
                message.append(p.path.as_str());
                assert(message@ =~= duplicate_text(p@.name, first@.path, p@.path));
                diag.warn_or_err(message.as_str());
            },
            None => {
                let ghost name = p.name@;
                let ghost before = self@;
                self.name_order.push(p.name.clone());
                self.productions.insert(p.name.clone(), p);
                proof {
                    assert(self@.name_order =~= before.name_order.push(name));
                    assert(self@.productions =~= before.productions.insert(name, p@));
                    if before.consistent() {
                        assert(!before.name_order.contains(name));
                        assert forall|i: int|
                            0 <= i < self@.name_order.len() implies self@.productions.contains_key(
                            #[trigger] self@.name_order[i],
                        ) by {
                            if i < before.name_order.len() {
                                assert(self@.name_order[i] == before.name_order[i]);
                            }
                        }
                        assert forall|key: Seq<char>| #[trigger]
                            self@.productions.contains_key(key) implies self@.name_order.contains(
                            key,
                        ) && self@.productions[key].name == key by {
                            if key == name {
                                assert(self@.name_order[before.name_order.len() as int] == name);
                            } else {
                                assert(before.productions.contains_key(key));
                                let k = choose|k: int|
                                    0 <= k < before.name_order.len() && before.name_order[k] == key;
                                assert(self@.name_order[k] == key);
                            }
                        }
                    }
                }
            },
        }
    }

    /// Takes the productions into the grammar, in order: see [`Grammar::insert`].
    pub fn merge(&mut self, productions: Vec<Production>, diag: &mut Diagnostics)
        ensures
            (Corpus { grammar: final(self)@, diagnostics: final(diag)@ }) == (Corpus {
                grammar: old(self)@,
                diagnostics: old(diag)@,
            }).merge(productions_view(productions@)),
            old(self)@.consistent() ==> final(self)@.consistent(),
            old(self)@.well_formed() && crate::store::all_rules_well_formed(productions@)
                ==> final(self)@.well_formed(),
    {
        let ghost given = productions@;
        let ghost all = productions_view(productions@);
        let ghost start = Corpus { grammar: self@, diagnostics: diag@ };
        let ghost rules_ok = all_rules_well_formed(productions@);
        for p in it: productions
            invariant
                it.seq() == given,
                all == productions_view(it.seq()),
                start == (Corpus { grammar: old(self)@, diagnostics: old(diag)@ }),
                rules_ok == all_rules_well_formed(it.seq()),
                (Corpus { grammar: self@, diagnostics: diag@ }) == start.merge(
                    all.take(it.index() as int),
                ),
                start.grammar.consistent() ==> self@.consistent(),
                start.grammar.well_formed() && rules_ok ==> self@.well_formed(),
        {
            proof {
                assert(all.take(it.index() + 1).drop_last() =~= all.take(it.index() as int));
                assert(all.take(it.index() + 1).last() == p@);
                assert(p == it.seq()[it.index() as int]);
            }
            self.insert(p, diag);
        }
        proof {
            assert(all.take(all.len() as int) =~= all);
        }
    }
}

} // verus!
