//! The checks on a whole grammar: that every name used is defined, and that
//! the roots are the productions that nothing else reaches.

use vstd::prelude::*;
use vstd::string::StringExecFns;
use crate::diagnostics::{Diagnostics, DiagnosticsView};
use crate::expression::{
    Characters, CharactersView, Expression, ExpressionKind, ExpressionKindView, ExpressionView,
    charset_view, expressions_view,
};
use crate::store::{Grammar, GrammarView};
use crate::text::{index_of, strings_view};

verus! {

/// The names among the first `k` members of a character set, in order.
pub open spec fn charset_references(set: Seq<CharactersView>, k: int) -> Seq<Seq<char>>
    decreases k,
{
    if k <= 0 || k > set.len() {
        Seq::empty()
    } else {
        charset_references(set, k - 1) + (match set[k - 1] {
            CharactersView::Named(name) => seq![name],
            _ => Seq::empty(),
        })
    }
}

/// The names that the first `k` of the expressions refer to, in order.
pub open spec fn list_references(es: Seq<ExpressionView>, k: int) -> Seq<Seq<char>>
    decreases es, k,
{
    if k <= 0 || k > es.len() {
        Seq::empty()
    } else {
        list_references(es, k - 1) + references(es[k - 1])
    }
}

/// The names that the expression refers to, once for each place where it
/// does, in the order of the text: the nonterminals, and the names in
/// character sets.
pub open spec fn references(e: ExpressionView) -> Seq<Seq<char>>
    decreases e, 0int,
{
    match e.kind {
        ExpressionKindView::Grouped(x) => references(*x),
        ExpressionKindView::Alt(es) => list_references(es, es.len() as int),
        ExpressionKindView::Sequence(es) => list_references(es, es.len() as int),
        ExpressionKindView::Optional(x) => references(*x),
        ExpressionKindView::Repeat(x) => references(*x),
        ExpressionKindView::RepeatNonGreedy(x) => references(*x),
        ExpressionKindView::RepeatPlus(x) => references(*x),
        ExpressionKindView::RepeatPlusNonGreedy(x) => references(*x),
        ExpressionKindView::RepeatRange { expr, .. } => references(*expr),
        ExpressionKindView::Nt(name) => seq![name],
        ExpressionKindView::Charset(set) => charset_references(set, set.len() as int),
        ExpressionKindView::NegExpression(x) => references(*x),
        ExpressionKindView::NegativeLookahead(x) => references(*x),
        ExpressionKindView::Cut(x) => references(*x),
        _ => Seq::empty(),
    }
}

/// The texts of the list, each once, in the order in which they are first
/// seen.
pub open spec fn deduped(s: Seq<Seq<char>>) -> Seq<Seq<char>>
    decreases s.len(),
{
    if s.len() == 0 {
        Seq::empty()
    } else if deduped(s.drop_last()).contains(s.last()) {
        deduped(s.drop_last())
    } else {
        deduped(s.drop_last()).push(s.last())
    }
}

/// The deduplicated list holds what the list holds, and nothing twice.
pub proof fn lemma_deduped(s: Seq<Seq<char>>)
    ensures
        deduped(s).no_duplicates(),
        forall|x: Seq<char>| deduped(s).contains(x) <==> s.contains(x),
    decreases s.len(),
{
    if s.len() > 0 {
        let front = s.drop_last();
        let d = deduped(front);
        lemma_deduped(front);
        assert forall|x: Seq<char>| deduped(s).contains(x) <==> s.contains(x) by {
            if s.contains(x) {
                let i = choose|i: int| 0 <= i < s.len() && s[i] == x;
                if i < s.len() - 1 {
                    assert(front[i] == x);
                    assert(front.contains(x));
                    assert(d.contains(x));
                    let j = choose|j: int| 0 <= j < d.len() && d[j] == x;
                    assert(deduped(s)[j] == x);
                } else if !d.contains(x) {
                    assert(deduped(s)[d.len() as int] == x);
                }
            }
            if deduped(s).contains(x) {
                let j = choose|j: int| 0 <= j < deduped(s).len() && deduped(s)[j] == x;
                if j < d.len() {
                    assert(d[j] == x);
                    assert(d.contains(x));
                    assert(front.contains(x));
                    let i = choose|i: int| 0 <= i < front.len() && front[i] == x;
                    assert(s[i] == x);
                } else {
                    assert(s[s.len() - 1] == x);
                }
            }
        }
    }
}

impl GrammarView {
    /// The names of the grammar: those of `name_order`, each once.
    pub open spec fn names(self) -> Seq<Seq<char>> {
        deduped(self.name_order)
    }

    /// The names that the productions under the first `k` names refer to,
    /// in order.
    pub open spec fn references(self, k: int) -> Seq<Seq<char>>
        decreases k,
    {
        if k <= 0 || k > self.names().len() {
            Seq::empty()
        } else if self.defines(self.names()[k - 1]) {
            self.references(k - 1) + references(self.productions[self.names()[k - 1]].expression)
        } else {
            self.references(k - 1)
        }
    }

    /// All the names that the productions refer to.
    pub open spec fn all_references(self) -> Seq<Seq<char>> {
        self.references(self.names().len() as int)
    }
}

/// Appends the names that the list refers to.
fn visit_list(es: &Vec<Expression>, names: &mut Vec<String>)
    ensures
        strings_view(final(names)@) == strings_view(old(names)@) + list_references(
            expressions_view(es@),
            es.len() as int,
        ),
    decreases es, 0nat,
{
    let ghost list = expressions_view(es@);
    let mut i: usize = 0;
    assert(strings_view(names@) =~= strings_view(old(names)@) + list_references(list, 0));
    while i < es.len()
        invariant
            i <= es.len(),
            list == expressions_view(es@),
            strings_view(names@) == strings_view(old(names)@) + list_references(list, i as int),
        decreases es.len() - i,
    {
        es[i].visit_nt(names);
        i = i + 1;
        assert(strings_view(names@) =~= strings_view(old(names)@) + list_references(
            list,
            i as int,
        ));
    }
}

/// Appends the names among the members of the character set.
fn visit_charset(set: &Vec<Characters>, names: &mut Vec<String>)
    ensures
        strings_view(final(names)@) == strings_view(old(names)@) + charset_references(
            charset_view(set@),
            set.len() as int,
        ),
{
    let ghost members = charset_view(set@);
    let mut i: usize = 0;
    assert(strings_view(names@) =~= strings_view(old(names)@) + charset_references(members, 0));
    while i < set.len()
        invariant
            i <= set.len(),
            members == charset_view(set@),
            strings_view(names@) == strings_view(old(names)@) + charset_references(
                members,
                i as int,
            ),
        decreases set.len() - i,
    {
        let ghost before = strings_view(names@);
        match &set[i] {
            Characters::Named(s) => {
                names.push(s.clone());
                assert(strings_view(names@) =~= before.push(s@));
            },
            _ => {},
        }
        i = i + 1;
        assert(strings_view(names@) =~= strings_view(old(names)@) + charset_references(
            members,
            i as int,
        ));
    }
}

impl Expression {
    /// Appends the names that the expression refers to: see [`references`].
    pub fn visit_nt(&self, names: &mut Vec<String>)
        ensures
            strings_view(final(names)@) == strings_view(old(names)@) + references(self@),
        decreases self, 1nat,
    {
        match &self.kind {
            ExpressionKind::Grouped(e) => e.visit_nt(names),
            ExpressionKind::Optional(e) => e.visit_nt(names),
            ExpressionKind::Repeat(e) => e.visit_nt(names),
            ExpressionKind::RepeatNonGreedy(e) => e.visit_nt(names),
            ExpressionKind::RepeatPlus(e) => e.visit_nt(names),
            ExpressionKind::RepeatPlusNonGreedy(e) => e.visit_nt(names),
            ExpressionKind::RepeatRange { expr, .. } => expr.visit_nt(names),
            ExpressionKind::NegExpression(e) => e.visit_nt(names),
            ExpressionKind::NegativeLookahead(e) => e.visit_nt(names),
            ExpressionKind::Cut(e) => e.visit_nt(names),
            ExpressionKind::Alt(es) => visit_list(es, names),
            ExpressionKind::Sequence(es) => visit_list(es, names),
            ExpressionKind::Nt(nt) => {
                let ghost before = strings_view(names@);
                names.push(nt.clone());
                assert(strings_view(names@) =~= before.push(nt@));
            },
            ExpressionKind::Charset(set) => visit_charset(set, names),
            ExpressionKind::Terminal(_)
            | ExpressionKind::Prose(_)
            | ExpressionKind::Break(_)
            | ExpressionKind::Comment(_)
            | ExpressionKind::Unicode(_) => {
                assert(strings_view(names@) =~= strings_view(old(names)@) + references(self@));
            },
        }
    }
}

impl Grammar {
    /// Appends the names that the productions refer to, production by
    /// production in the order in which their names were first seen.
    pub fn visit_nt(&self, names: &mut Vec<String>)
        ensures
            strings_view(final(names)@) == strings_view(old(names)@) + self@.all_references(),
    {
        let order = dedup(&self.name_order);
        let mut i: usize = 0;
        assert(strings_view(names@) =~= strings_view(old(names)@) + self@.references(0));
        while i < order.len()
            invariant
                i <= order.len(),
                strings_view(order@) == self@.names(),
                strings_view(names@) == strings_view(old(names)@) + self@.references(i as int),
            decreases order.len() - i,
        {
            match self.productions.get(order[i].as_str()) {
                Some(p) => {
                    p.expression.visit_nt(names);
                },
                None => {},
            }
            i = i + 1;
            assert(strings_view(names@) =~= strings_view(old(names)@) + self@.references(
                i as int,
            ));
        }
    }
}

/// The diagnostic for a name that is used but not defined.
pub open spec fn undefined_text(name: Seq<char>) -> Seq<char> {
    "non-terminal `"@ + name + "` is used but not defined"@
}

/// The diagnostics after a report on each of the names that the grammar
/// does not define, in order.
pub open spec fn report_undefined(
    d: DiagnosticsView,
    g: GrammarView,
    names: Seq<Seq<char>>,
) -> DiagnosticsView
    decreases names.len(),
{
    if names.len() == 0 {
        d
    } else if g.defines(names.last()) {
        report_undefined(d, g, names.drop_last())
    } else {
        report_undefined(d, g, names.drop_last()).emit(undefined_text(names.last()))
    }
}

/// The number of names in the list that the grammar does not define.
pub open spec fn undefined_count(g: GrammarView, names: Seq<Seq<char>>) -> nat
    decreases names.len(),
{
    if names.len() == 0 {
        0
    } else if g.defines(names.last()) {
        undefined_count(g, names.drop_last())
    } else {
        undefined_count(g, names.drop_last()) + 1
    }
}

/// Each use of a name that is not defined is reported once, and nothing
/// else is: the report adds as many diagnostics as there are such uses, and
/// none where every name is defined.
pub proof fn lemma_each_undefined_use_is_reported(
    d: DiagnosticsView,
    g: GrammarView,
    names: Seq<Seq<char>>,
)
    ensures
        report_undefined(d, g, names).deny_warnings == d.deny_warnings,
        report_undefined(d, g, names).messages.len() == d.messages.len() + undefined_count(
            g,
            names,
        ),
        report_undefined(d, g, names).messages.take(d.messages.len() as int) == d.messages,
        (forall|i: int| 0 <= i < names.len() ==> g.defines(#[trigger] names[i]))
            ==> report_undefined(d, g, names) == d,
    decreases names.len(),
{
    if names.len() > 0 {
        let front = names.drop_last();
        lemma_each_undefined_use_is_reported(d, g, front);
        let before = report_undefined(d, g, front);
        assert(report_undefined(d, g, names).messages.take(d.messages.len() as int)
            =~= before.messages.take(d.messages.len() as int));
        if forall|i: int| 0 <= i < names.len() ==> g.defines(#[trigger] names[i]) {
            assert forall|i: int| 0 <= i < front.len() implies g.defines(#[trigger] front[i]) by {
                assert(front[i] == names[i]);
            }
            assert(g.defines(names[names.len() - 1]));
        }
    } else {
        assert(d.messages.take(d.messages.len() as int) =~= d.messages);
    }
}

/// Checks for nonterminals that are used but not defined: one diagnostic for
/// each place where one is used.
pub fn check_undefined_nt(grammar: &Grammar, diag: &mut Diagnostics)
    ensures
        final(diag)@ == report_undefined(old(diag)@, grammar@, grammar@.all_references()),
{
    let mut names: Vec<String> = Vec::new();
    grammar.visit_nt(&mut names);
    let ghost all = strings_view(names@);
    assert(all =~= grammar@.all_references());
    let mut i: usize = 0;
    assert(all.take(0) =~= Seq::empty());
    while i < names.len()
        invariant
            i <= names.len(),
            all == strings_view(names@),
            diag@ == report_undefined(old(diag)@, grammar@, all.take(i as int)),
        decreases names.len() - i,
    {
        proof {
            assert(all.take(i + 1).drop_last() =~= all.take(i as int));
            assert(all.take(i + 1).last() == names[i as int]@);
        }
        if !grammar.productions.contains_key(names[i].as_str()) {
            let mut message = String::from_str("non-terminal `");
            message.append(names[i].as_str());
            message.append("` is used but not defined");
            diag.warn_or_err(message.as_str());
        }
        i = i + 1;
    }
    assert(all.take(names.len() as int) =~= all);
}

/// What is left of the working set after the pending references have been
/// followed from the root `root`, the next one first.
///
/// A reference to the root itself is passed over, and so is one to a name
/// that is no longer in the set. Any other name leaves the set, and the
/// references of its production, if it has one, are followed before the
/// rest.
pub open spec fn sweep(
    g: GrammarView,
    pending: Seq<Seq<char>>,
    root: Seq<char>,
    set: Set<Seq<char>>,
) -> Set<Seq<char>>
    decreases set.len(), pending.len(),
    when set.finite()
{
    if pending.len() == 0 {
        set
    } else if pending[0] == root || !set.contains(pending[0]) {
        sweep(g, pending.drop_first(), root, set)
    } else if g.defines(pending[0]) {
        sweep(
            g,
            references(g.productions[pending[0]].expression) + pending.drop_first(),
            root,
            set.remove(pending[0]),
        )
    } else {
        sweep(g, pending.drop_first(), root, set.remove(pending[0]))
    }
}

impl GrammarView {
    /// Whether the name is that of a root production.
    pub open spec fn is_root(self, name: Seq<char>) -> bool {
        self.defines(name) && self.productions[name].is_root
    }

    /// What is left of the working set after the references of the roots
    /// among the first `k` names have been followed, root by root in that
    /// order.
    pub open spec fn sweep_roots(self, k: int, set: Set<Seq<char>>) -> Set<Seq<char>>
        decreases k,
    {
        if k <= 0 || k > self.names().len() {
            set
        } else if self.is_root(self.names()[k - 1]) {
            sweep(
                self,
                references(self.productions[self.names()[k - 1]].expression),
                self.productions[self.names()[k - 1]].name,
                self.sweep_roots(k - 1, set),
            )
        } else {
            self.sweep_roots(k - 1, set)
        }
    }

    /// The names that no root has reached: what is left of all the names
    /// after the references of every root have been followed.
    pub open spec fn unvisited(self) -> Set<Seq<char>> {
        self.sweep_roots(self.names().len() as int, self.names().to_set())
    }

    /// Those among the first `k` names that no root has reached and that
    /// are not marked as roots, in order.
    pub open spec fn new_names(self, k: int) -> Seq<Seq<char>>
        decreases k,
    {
        if k <= 0 || k > self.names().len() {
            Seq::empty()
        } else if self.unvisited().contains(self.names()[k - 1]) && !self.is_root(
            self.names()[k - 1],
        ) {
            self.new_names(k - 1).push(self.names()[k - 1])
        } else {
            self.new_names(k - 1)
        }
    }

    /// Those among the first `k` names that are marked as roots and that
    /// another root has reached, in order.
    pub open spec fn removed_names(self, k: int) -> Seq<Seq<char>>
        decreases k,
    {
        if k <= 0 || k > self.names().len() {
            Seq::empty()
        } else if !self.unvisited().contains(self.names()[k - 1]) && self.is_root(
            self.names()[k - 1],
        ) {
            self.removed_names(k - 1).push(self.names()[k - 1])
        } else {
            self.removed_names(k - 1)
        }
    }
}

/// The first `k` names, each in double quotes, with a comma and a space
/// between two of them.
pub open spec fn quoted_names(names: Seq<Seq<char>>, k: int) -> Seq<char>
    decreases k,
{
    if k <= 0 || k > names.len() {
        Seq::empty()
    } else {
        quoted_names(names, k - 1) + (if k > 1 {
            ", "@
        } else {
            Seq::empty()
        }) + "\""@ + names[k - 1] + "\""@
    }
}

/// The names as a list in square brackets.
pub open spec fn list_text(names: Seq<Seq<char>>) -> Seq<char> {
    "["@ + quoted_names(names, names.len() as int) + "]"@
}

/// The diagnostic for productions that no root reaches.
pub open spec fn new_text(names: Seq<Seq<char>>) -> Seq<char> {
    "New grammar production detected that is not used in any root-accessible\nproduction. If this is expected, mark the production with\n`@root`. If not, make sure it is spelled correctly and used in\nanother root-accessible production.\n\nThe new names are: "@
        + list_text(names) + "\n"@
}

/// The diagnostic for roots that another root reaches.
pub open spec fn removed_text(names: Seq<Seq<char>>) -> Seq<char> {
    "Old grammar production root seems to have been removed\n(it is used in some other production that is root-accessible).\nIf this is expected, remove `@root` from the production.\n\nThe removed names are: "@
        + list_text(names) + "\n"@
}

/// The diagnostics after the report on the roots: one diagnostic for the
/// productions that no root reaches, if there are any; else one for the
/// roots that another root reaches, if there are any.
pub open spec fn report_roots(d: DiagnosticsView, g: GrammarView) -> DiagnosticsView {
    let new = g.new_names(g.names().len() as int);
    let removed = g.removed_names(g.names().len() as int);
    if new.len() > 0 {
        d.emit(new_text(new))
    } else if removed.len() > 0 {
        d.emit(removed_text(removed))
    } else {
        d
    }
}

/// The names whose flag is set.
pub open spec fn flagged(names: Seq<Seq<char>>, flags: Seq<bool>) -> Set<Seq<char>> {
    Set::new(
        |n: Seq<char>| exists|k: int| 0 <= k < names.len() && k < flags.len() && flags[k] && names[k] == n,
    )
}

/// The names of a stack of pending references, the top of the stack first.
pub open spec fn stack_view(stack: Seq<String>) -> Seq<Seq<char>> {
    Seq::new(stack.len(), |i: int| stack[stack.len() - 1 - i]@)
}

/// The flagged names are among the names, so there are finitely many.
proof fn lemma_flagged_finite(names: Seq<Seq<char>>, flags: Seq<bool>)
    ensures
        flagged(names, flags).finite(),
{
    assert(flagged(names, flags).subset_of(names.to_set())) by {
        assert forall|n: Seq<char>| flagged(names, flags).contains(n) implies names.to_set().contains(
            n,
        ) by {
            let k = choose|k: int|
                0 <= k < names.len() && k < flags.len() && flags[k] && names[k] == n;
            assert(names[k] == n);
        }
    }
    vstd::seq_lib::seq_to_set_is_finite(names);
    vstd::set_lib::lemma_len_subset(flagged(names, flags), names.to_set());
}

/// Clearing the flag of a name takes the name out of the flagged names.
proof fn lemma_unflag(names: Seq<Seq<char>>, flags: Seq<bool>, k: int)
    requires
        names.no_duplicates(),
        0 <= k < names.len(),
        flags.len() == names.len(),
    ensures
        flagged(names, flags.update(k, false)) =~= flagged(names, flags).remove(names[k]),
        flagged(names, flags).contains(names[k]) == flags[k],
{
    let after = flags.update(k, false);
    assert forall|n: Seq<char>|
        flagged(names, after).contains(n) == flagged(names, flags).remove(names[k]).contains(
            n,
        ) by {
        if flagged(names, after).contains(n) {
            let j = choose|j: int|
                0 <= j < names.len() && j < after.len() && after[j] && names[j] == n;
            assert(j != k);
            assert(flags[j] && names[j] == n);
        }
        if flagged(names, flags).remove(names[k]).contains(n) {
            let j = choose|j: int|
                0 <= j < names.len() && j < flags.len() && flags[j] && names[j] == n;
            assert(j != k);
            assert(after[j] && names[j] == n);
        }
    }
    if flags[k] {
        assert(flags[k] && names[k] == names[k]);
    }
}

/// Puts the references of the expression on the stack, the first on top.
fn push_references(stack: &mut Vec<String>, e: &Expression)
    ensures
        stack_view(final(stack)@) == references(e@) + stack_view(old(stack)@),
{
    let mut refs: Vec<String> = Vec::new();
    e.visit_nt(&mut refs);
    let ghost all = strings_view(refs@);
    assert(all =~= references(e@));
    let mut j: usize = refs.len();
    assert(stack_view(stack@) =~= all.subrange(j as int, all.len() as int) + stack_view(
        old(stack)@,
    ));
    while j > 0
        invariant
            j <= refs.len(),
            all == strings_view(refs@),
            stack_view(stack@) == all.subrange(j as int, all.len() as int) + stack_view(
                old(stack)@,
            ),
        decreases j,
    {
        let ghost before = stack@;
        j = j - 1;
        stack.push(refs[j].clone());
        assert(stack_view(stack@) =~= seq![refs[j as int]@] + stack_view(before));
        assert(all.subrange(j as int, all.len() as int) =~= seq![refs[j as int]@] + all.subrange(
            j + 1,
            all.len() as int,
        ));
    }
    assert(all.subrange(0, all.len() as int) =~= all);
}

/// Follows the references of a root: clears the flag of every name that is
/// reached.
fn sweep_root(
    grammar: &Grammar,
    names: &Vec<String>,
    root: &crate::store::Production,
    present: &mut Vec<bool>,
)
    requires
        strings_view(names@).no_duplicates(),
        old(present).len() == names.len(),
    ensures
        final(present).len() == names.len(),
        flagged(strings_view(names@), final(present)@) == sweep(
            grammar@,
            references(root@.expression),
            root@.name,
            flagged(strings_view(names@), old(present)@),
        ),
{
    let ghost all = strings_view(names@);
    let ghost target = sweep(
        grammar@,
        references(root@.expression),
        root@.name,
        flagged(all, present@),
    );
    let mut pending: Vec<String> = Vec::new();
    assert(stack_view(pending@) =~= Seq::empty());
    push_references(&mut pending, &root.expression);
    assert(stack_view(pending@) =~= references(root@.expression));
    proof {
        lemma_flagged_finite(all, present@);
    }
    while pending.len() > 0
        invariant
            all == strings_view(names@),
            all.no_duplicates(),
            present.len() == names.len(),
            flagged(all, present@).finite(),
            sweep(grammar@, stack_view(pending@), root@.name, flagged(all, present@)) == target,
        decreases flagged(all, present@).len(), pending.len(),
    {
        let ghost stack = pending@;
        let ghost flags = present@;
        let ghost set = flagged(all, flags);
        let nt = pending.pop().unwrap();
        proof {
            assert(stack_view(stack)[0] == nt@);
            assert(stack_view(pending@) =~= stack_view(stack).drop_first());
        }
        if nt == root.name {
            // Leave the root name in the set if we find it recursively.
        } else {
            match index_of(names, &nt) {
                None => {
                    proof {
                        if set.contains(nt@) {
                            let k = choose|k: int|
                                0 <= k < all.len() && k < flags.len() && flags[k] && all[k] == nt@;
                            assert(names[k]@ == nt@);
                        }
                    }
                },
                Some(k) => {
                    proof {
                        assert(all[k as int] == nt@);
                        lemma_unflag(all, flags, k as int);
                    }
                    if present[k] {
                        present.set(k, false);
                        proof {
                            lemma_flagged_finite(all, present@);
                        }
                        match grammar.productions.get(nt.as_str()) {
                            Some(p) => {
                                push_references(&mut pending, &p.expression);
                            },
                            None => {},
                        }
                    }
                },
            }
        }
    }
}

/// The texts of the list, each once, in the order in which they are first
/// seen.
pub fn dedup(list: &Vec<String>) -> (r: Vec<String>)
    ensures
        strings_view(r@) == deduped(strings_view(list@)),
{
    let ghost all = strings_view(list@);
    let mut r: Vec<String> = Vec::new();
    let mut i: usize = 0;
    assert(all.take(0) =~= Seq::empty());
    assert(strings_view(r@) =~= deduped(all.take(0)));
    while i < list.len()
        invariant
            i <= list.len(),
            all == strings_view(list@),
            strings_view(r@) == deduped(all.take(i as int)),
        decreases list.len() - i,
    {
        let ghost before = strings_view(r@);
        proof {
            assert(all.take(i + 1).drop_last() =~= all.take(i as int));
            assert(all.take(i + 1).last() == list[i as int]@);
        }
        match index_of(&r, &list[i]) {
            Some(k) => {
                assert(before[k as int] == list[i as int]@);
            },
            None => {
                proof {
                    if before.contains(list[i as int]@) {
                        let j = choose|j: int| 0 <= j < before.len() && before[j] == list[i as int]@;
                        assert(r[j]@ == list[i as int]@);
                    }
                }
                r.push(list[i].clone());
                assert(strings_view(r@) =~= before.push(list[i as int]@));
            },
        }
        i = i + 1;
    }
    assert(all.take(list.len() as int) =~= all);
    r
}

/// The list of the names in square brackets.
fn push_list(out: &mut String, names: &Vec<String>)
    ensures
        final(out)@ == old(out)@ + list_text(strings_view(names@)),
{
    let ghost all = strings_view(names@);
    out.append("[");
    let ghost start = out@;
    let mut k: usize = 0;
    assert(out@ =~= start + quoted_names(all, 0));
    while k < names.len()
        invariant
            k <= names.len(),
            all == strings_view(names@),
            out@ == start + quoted_names(all, k as int),
        decreases names.len() - k,
    {
        if k > 0 {
            out.append(", ");
        }
        out.append("\"");
        out.append(names[k].as_str());
        out.append("\"");
        k = k + 1;
        assert(out@ =~= start + quoted_names(all, k as int));
    }
    out.append("]");
    assert(out@ =~= old(out)@ + list_text(all));
}

/// This checks that all the grammar roots are what we expect.
///
/// This is intended to help catch any unexpected misspellings, orphaned
/// productions, or general mistakes.
pub fn check_unexpected_roots(grammar: &Grammar, diag: &mut Diagnostics)
    ensures
        final(diag)@ == report_roots(old(diag)@, grammar@),
{
    let ghost g = grammar@;
    let names = dedup(&grammar.name_order);
    let ghost all = strings_view(names@);
    proof {
        lemma_deduped(g.name_order);
    }
    let n = names.len();
    // The working set starts with every production name.
    let mut present: Vec<bool> = Vec::new();
    let mut k: usize = 0;
    while k < n
        invariant
            k <= n,
            present.len() == k,
            forall|j: int| 0 <= j < k ==> present[j],
        decreases n - k,
    {
        present.push(true);
        k = k + 1;
    }
    assert(flagged(all, present@) =~= all.to_set()) by {
        assert forall|name: Seq<char>| all.to_set().contains(name) implies flagged(
            all,
            present@,
        ).contains(name) by {
            let j = choose|j: int| 0 <= j < all.len() && all[j] == name;
            assert(present[j] && all[j] == name);
        }
    }
    // Walk the productions starting from the root nodes, and remove every
    // name that is reached. What is left must be the set of roots.
    k = 0;
    while k < n
        invariant
            k <= n,
            n == names.len(),
            g == grammar@,
            all == strings_view(names@),
            all == g.names(),
            all.no_duplicates(),
            present.len() == n,
            flagged(all, present@) == g.sweep_roots(k as int, all.to_set()),
        decreases n - k,
    {
        match grammar.productions.get(names[k].as_str()) {
            Some(p) => {
                if p.is_root {
                    sweep_root(grammar, &names, p, &mut present);
                }
            },
            None => {},
        }
        k = k + 1;
    }
    let mut new: Vec<String> = Vec::new();
    let mut removed: Vec<String> = Vec::new();
    k = 0;
    assert(strings_view(new@) =~= g.new_names(0));
    assert(strings_view(removed@) =~= g.removed_names(0));
    while k < n
        invariant
            k <= n,
            n == names.len(),
            g == grammar@,
            all == strings_view(names@),
            all == g.names(),
            all.no_duplicates(),
            present.len() == n,
            flagged(all, present@) == g.unvisited(),
            strings_view(new@) == g.new_names(k as int),
            strings_view(removed@) == g.removed_names(k as int),
        decreases n - k,
    {
        let name = &names[k];
        let is_root = match grammar.productions.get(name.as_str()) {
            Some(p) => p.is_root,
            None => false,
        };
        proof {
            lemma_unflag(all, present@, k as int);
        }
        let ghost new_before = strings_view(new@);
        let ghost removed_before = strings_view(removed@);
        if present[k] && !is_root {
            new.push(name.clone());
            assert(strings_view(new@) =~= new_before.push(name@));
        } else if !present[k] && is_root {
            removed.push(name.clone());
            assert(strings_view(removed@) =~= removed_before.push(name@));
        }
        k = k + 1;
    }
    if new.len() > 0 {
        let mut message = String::from_str(
            "New grammar production detected that is not used in any root-accessible\nproduction. If this is expected, mark the production with\n`@root`. If not, make sure it is spelled correctly and used in\nanother root-accessible production.\n\nThe new names are: ",
        );
        push_list(&mut message, &new);
        message.append("\n");
        diag.warn_or_err(message.as_str());
    } else if removed.len() > 0 {
        let mut message = String::from_str(
            "Old grammar production root seems to have been removed\n(it is used in some other production that is root-accessible).\nIf this is expected, remove `@root` from the production.\n\nThe removed names are: ",
        );
        push_list(&mut message, &removed);
        message.append("\n");
        diag.warn_or_err(message.as_str());
    }
}

} // verus!
