//! What the check of the roots reports, in terms of which productions the
//! roots reach.

use vstd::prelude::*;
use crate::diagnostics::DiagnosticsView;
use crate::store::GrammarView;
use crate::validate::{deduped, lemma_deduped, new_text, references, removed_text, report_roots, sweep};

verus! {

/// Whether the production of `a` refers to `b`.
pub open spec fn refers(g: GrammarView, a: Seq<char>, b: Seq<char>) -> bool {
    g.defines(a) && references(g.productions[a].expression).contains(b)
}

/// Whether the names are a way through the grammar: the production of each
/// refers to the next.
pub open spec fn is_way(g: GrammarView, way: Seq<Seq<char>>) -> bool {
    forall|i: int| 0 <= i < way.len() - 1 ==> refers(g, #[trigger] way[i], way[i + 1])
}

/// Whether the names are a way from `r` to `n` over at least one reference.
pub open spec fn leads(g: GrammarView, way: Seq<Seq<char>>, r: Seq<char>, n: Seq<char>) -> bool {
    way.len() >= 2 && way[0] == r && way.last() == n && is_way(g, way)
}

/// Whether `n` is reached from `r` over references.
pub open spec fn reaches(g: GrammarView, r: Seq<char>, n: Seq<char>) -> bool {
    exists|way: Seq<Seq<char>>| leads(g, way, r, n)
}

/// A reference is a way.
proof fn lemma_reference_reaches(g: GrammarView, a: Seq<char>, b: Seq<char>)
    requires
        refers(g, a, b),
    ensures
        reaches(g, a, b),
{
    let way = seq![a, b];
    assert(leads(g, way, a, b));
}

/// A reference before a way is a way.
proof fn lemma_reaches_after(g: GrammarView, a: Seq<char>, p: Seq<char>, n: Seq<char>)
    requires
        refers(g, a, p),
        reaches(g, p, n),
    ensures
        reaches(g, a, n),
{
    let way = choose|way: Seq<Seq<char>>| leads(g, way, p, n);
    let longer = seq![a] + way;
    assert forall|i: int| 0 <= i < longer.len() - 1 implies refers(
        g,
        #[trigger] longer[i],
        longer[i + 1],
    ) by {
        if i > 0 {
            assert(longer[i] == way[i - 1]);
            assert(longer[i + 1] == way[i]);
        } else {
            assert(longer[1] == way[0]);
        }
    }
    assert(longer.last() == way.last());
    assert(leads(g, longer, a, n));
}

/// Whether the names that have left the working set `s` are settled: each
/// name that their productions refer to has left too, or is the root, or is
/// pending. Only names of `u` count.
pub open spec fn settled(
    g: GrammarView,
    u: Set<Seq<char>>,
    s: Set<Seq<char>>,
    pending: Seq<Seq<char>>,
    root: Seq<char>,
) -> bool {
    forall|a: Seq<char>, b: Seq<char>|
        u.contains(a) && !s.contains(a) && #[trigger] refers(g, a, b) && u.contains(b)
            ==> !s.contains(b) || b == root || pending.contains(b)
}

/// What holds of the pending references is what holds of the first and of
/// the rest.
proof fn lemma_contains_first_or_rest(s: Seq<Seq<char>>, x: Seq<char>)
    requires
        s.len() > 0,
    ensures
        s.contains(x) <==> (s[0] == x || s.drop_first().contains(x)),
{
    if s.contains(x) {
        let i = choose|i: int| 0 <= i < s.len() && s[i] == x;
        if i > 0 {
            assert(s.drop_first()[i - 1] == x);
        }
    }
    if s.drop_first().contains(x) {
        let i = choose|i: int| 0 <= i < s.drop_first().len() && s.drop_first()[i] == x;
        assert(s[i + 1] == x);
    }
}

/// What a joined list holds is what one of the two holds.
proof fn lemma_contains_joined(a: Seq<Seq<char>>, b: Seq<Seq<char>>, x: Seq<char>)
    ensures
        (a + b).contains(x) <==> (a.contains(x) || b.contains(x)),
{
    if (a + b).contains(x) {
        let i = choose|i: int| 0 <= i < (a + b).len() && (a + b)[i] == x;
        if i < a.len() {
            assert(a[i] == x);
        } else {
            assert(b[i - a.len()] == x);
        }
    }
    if a.contains(x) {
        let i = choose|i: int| 0 <= i < a.len() && a[i] == x;
        assert((a + b)[i] == x);
    }
    if b.contains(x) {
        let i = choose|i: int| 0 <= i < b.len() && b[i] == x;
        assert((a + b)[i + a.len()] == x);
    }
}

/// Following the pending references takes every pending name but the root
/// out of the working set, and leaves the names that have left settled.
/// Nothing comes into the set, and the root does not leave it.
pub proof fn lemma_sweep_is_thorough(
    g: GrammarView,
    u: Set<Seq<char>>,
    pending: Seq<Seq<char>>,
    root: Seq<char>,
    s: Set<Seq<char>>,
)
    requires
        s.finite(),
        settled(g, u, s, pending, root),
    ensures
        sweep(g, pending, root, s).finite(),
        sweep(g, pending, root, s).subset_of(s),
        s.contains(root) ==> sweep(g, pending, root, s).contains(root),
        settled(g, u, sweep(g, pending, root, s), Seq::empty(), root),
        forall|b: Seq<char>|
            pending.contains(b) ==> !sweep(g, pending, root, s).contains(b) || b == root,
    decreases s.len(), pending.len(),
{
    let result = sweep(g, pending, root, s);
    if pending.len() == 0 {
        assert(pending =~= Seq::empty());
    } else {
        let nt = pending[0];
        let rest = pending.drop_first();
        assert forall|b: Seq<char>| pending.contains(b) <==> (nt == b || rest.contains(b)) by {
            lemma_contains_first_or_rest(pending, b);
        }
        if nt == root || !s.contains(nt) {
            assert(settled(g, u, s, rest, root));
            lemma_sweep_is_thorough(g, u, rest, root, s);
        } else {
            let s1 = s.remove(nt);
            let next = if g.defines(nt) {
                references(g.productions[nt].expression) + rest
            } else {
                rest
            };
            assert(result == sweep(g, next, root, s1));
            assert forall|a: Seq<char>, b: Seq<char>|
                u.contains(a) && !s1.contains(a) && #[trigger] refers(g, a, b) && u.contains(
                    b,
                ) implies !s1.contains(b) || b == root || next.contains(b) by {
                if g.defines(nt) {
                    lemma_contains_joined(references(g.productions[nt].expression), rest, b);
                }
                if a != nt {
                    assert(!s.contains(a));
                }
            }
            lemma_sweep_is_thorough(g, u, next, root, s1);
            assert forall|b: Seq<char>| pending.contains(b) implies !result.contains(b) || b
                == root by {
                if g.defines(nt) {
                    lemma_contains_joined(references(g.productions[nt].expression), rest, b);
                }
            }
        }
    }
}

/// A name that leaves the working set is one of the pending names, or is
/// reached from one of them.
pub proof fn lemma_sweep_takes_only_what_is_reached(
    g: GrammarView,
    pending: Seq<Seq<char>>,
    root: Seq<char>,
    s: Set<Seq<char>>,
    n: Seq<char>,
)
    requires
        s.finite(),
        s.contains(n),
        !sweep(g, pending, root, s).contains(n),
    ensures
        exists|i: int|
            0 <= i < pending.len() && (#[trigger] pending[i] == n || reaches(g, pending[i], n)),
    decreases s.len(), pending.len(),
{
    if pending.len() > 0 {
        let nt = pending[0];
        let rest = pending.drop_first();
        if nt == root || !s.contains(nt) {
            lemma_sweep_takes_only_what_is_reached(g, rest, root, s, n);
            let i = choose|i: int|
                0 <= i < rest.len() && (#[trigger] rest[i] == n || reaches(g, rest[i], n));
            assert(pending[i + 1] == rest[i]);
        } else if nt == n {
            assert(pending[0] == n);
        } else {
            let s1 = s.remove(nt);
            let refs = references(g.productions[nt].expression);
            let next = if g.defines(nt) {
                refs + rest
            } else {
                rest
            };
            lemma_sweep_takes_only_what_is_reached(g, next, root, s1, n);
            let i = choose|i: int|
                0 <= i < next.len() && (#[trigger] next[i] == n || reaches(g, next[i], n));
            if g.defines(nt) && i < refs.len() {
                let p = refs[i];
                assert(next[i] == p);
                assert(refers(g, nt, p));
                if p == n {
                    lemma_reference_reaches(g, nt, n);
                } else {
                    lemma_reaches_after(g, nt, p, n);
                }
                assert(reaches(g, nt, n));
                assert(pending[0] == nt);
            } else {
                let j = if g.defines(nt) {
                    i - refs.len()
                } else {
                    i
                };
                assert(next[i] == rest[j]);
                assert(pending[j + 1] == rest[j]);
            }
        }
    }
}

/// A list that holds nothing twice is its own deduplicated list.
proof fn lemma_deduped_is_identity(s: Seq<Seq<char>>)
    requires
        s.no_duplicates(),
    ensures
        deduped(s) == s,
    decreases s.len(),
{
    if s.len() > 0 {
        let front = s.drop_last();
        lemma_deduped_is_identity(front);
        lemma_deduped(front);
        if front.contains(s.last()) {
            let i = choose|i: int| 0 <= i < front.len() && front[i] == s.last();
            assert(s[i] == s[s.len() - 1]);
        }
        assert(front.push(s.last()) =~= s);
    } else {
        assert(s =~= Seq::empty());
    }
}

/// In a consistent grammar the names are those of `name_order`, and they
/// are the names that the grammar defines.
proof fn lemma_names_of_consistent(g: GrammarView)
    requires
        g.consistent(),
    ensures
        g.names() == g.name_order,
        g.names().no_duplicates(),
        g.names().to_set().finite(),
        forall|n: Seq<char>| g.names().to_set().contains(n) <==> g.defines(n),
{
    lemma_deduped_is_identity(g.name_order);
    vstd::seq_lib::seq_to_set_is_finite(g.name_order);
    assert forall|n: Seq<char>| g.name_order.to_set().contains(n) <==> g.defines(n) by {
        if g.name_order.contains(n) {
            let i = choose|i: int| 0 <= i < g.name_order.len() && g.name_order[i] == n;
            assert(g.productions.contains_key(g.name_order[i]));
        }
    }
}

/// What is left of all the names after the references of the root `root`
/// have been followed.
pub open spec fn left_by(g: GrammarView, root: Seq<char>) -> Set<Seq<char>> {
    sweep(g, references(g.productions[root].expression), root, g.names().to_set())
}

/// A name that is reached from the root over a way does not stay, unless it
/// is the root.
proof fn lemma_reached_names_leave(
    g: GrammarView,
    root: Seq<char>,
    way: Seq<Seq<char>>,
    n: Seq<char>,
)
    requires
        g.consistent(),
        g.defines(root),
        leads(g, way, root, n),
        g.defines(n),
        n != root,
    ensures
        !left_by(g, root).contains(n),
    decreases way.len(),
{
    lemma_names_of_consistent(g);
    let u = g.names().to_set();
    let refs = references(g.productions[root].expression);
    lemma_sweep_is_thorough(g, u, refs, root, u);
    let m = way[way.len() - 2];
    assert(refers(g, m, n)) by {
        assert(refers(g, way[way.len() - 2], way[way.len() - 2 + 1]));
    }
    if m == root {
        assert(refs.contains(n));
    } else {
        let shorter = way.drop_last();
        assert(way.len() >= 3) by {
            if way.len() == 2 {
                assert(way[0] == m);
            }
        }
        assert forall|i: int| 0 <= i < shorter.len() - 1 implies refers(
            g,
            #[trigger] shorter[i],
            shorter[i + 1],
        ) by {
            assert(refers(g, way[i], way[i + 1]));
        }
        assert(leads(g, shorter, root, m));
        lemma_reached_names_leave(g, root, shorter, m);
        assert(refers(g, m, n));
        assert(u.contains(m) && u.contains(n));
    }
}

/// What the one root of a grammar leaves: itself, and the names that it
/// does not reach.
proof fn lemma_left_by_root(g: GrammarView, root: Seq<char>)
    requires
        g.consistent(),
        g.defines(root),
    ensures
        forall|n: Seq<char>|
            left_by(g, root).contains(n) <==> g.defines(n) && (n == root || !reaches(g, root, n)),
{
    lemma_names_of_consistent(g);
    let u = g.names().to_set();
    let refs = references(g.productions[root].expression);
    lemma_sweep_is_thorough(g, u, refs, root, u);
    assert forall|n: Seq<char>|
        left_by(g, root).contains(n) <==> g.defines(n) && (n == root || !reaches(
            g,
            root,
            n,
        )) by {
        if g.defines(n) && n != root {
            if reaches(g, root, n) {
                let way = choose|way: Seq<Seq<char>>| leads(g, way, root, n);
                lemma_reached_names_leave(g, root, way, n);
            } else if !left_by(g, root).contains(n) {
                lemma_sweep_takes_only_what_is_reached(g, refs, root, u, n);
                let i = choose|i: int|
                    0 <= i < refs.len() && (#[trigger] refs[i] == n || reaches(g, refs[i], n));
                assert(refers(g, root, refs[i]));
                if refs[i] == n {
                    lemma_reference_reaches(g, root, n);
                } else {
                    lemma_reaches_after(g, root, refs[i], n);
                }
            }
        }
    }
}

/// With one root, the names are swept once: when the root has come.
proof fn lemma_sweep_of_one_root(g: GrammarView, root: Seq<char>, k: int)
    requires
        g.consistent(),
        g.is_root(root),
        forall|n: Seq<char>| g.is_root(n) ==> n == root,
        0 <= k <= g.names().len(),
    ensures
        g.sweep_roots(k, g.names().to_set()) == (if g.names().take(k).contains(root) {
            left_by(g, root)
        } else {
            g.names().to_set()
        }),
    decreases k,
{
    lemma_names_of_consistent(g);
    let names = g.names();
    if k > 0 {
        lemma_sweep_of_one_root(g, root, k - 1);
        let name = names[k - 1];
        assert(names.take(k).drop_last() =~= names.take(k - 1));
        assert(names.take(k)[k - 1] == name);
        if names.take(k - 1).contains(root) {
            let front = names.take(k - 1);
            let i = choose|i: int| 0 <= i < front.len() && front[i] == root;
            assert(names[i] == root);
            assert(names.take(k)[i] == root);
            assert(name != root);
        } else if name != root {
            if names.take(k).contains(root) {
                let upto = names.take(k);
                let i = choose|i: int| 0 <= i < upto.len() && upto[i] == root;
                assert(names.take(k - 1)[i] == root);
            }
        }
    } else {
        assert(names.take(0) =~= Seq::empty());
    }
}

/// Those among the first `k` names that are not the root and that the root
/// does not reach, in order.
pub open spec fn stranded(g: GrammarView, root: Seq<char>, k: int) -> Seq<Seq<char>>
    decreases k,
{
    if k <= 0 || k > g.name_order.len() {
        Seq::empty()
    } else if g.name_order[k - 1] != root && !reaches(g, root, g.name_order[k - 1]) {
        stranded(g, root, k - 1).push(g.name_order[k - 1])
    } else {
        stranded(g, root, k - 1)
    }
}

/// With one root, the new names are the stranded ones, and no root is
/// removed.
proof fn lemma_names_of_one_root(g: GrammarView, root: Seq<char>, k: int)
    requires
        g.consistent(),
        g.is_root(root),
        forall|n: Seq<char>| g.is_root(n) ==> n == root,
        0 <= k <= g.names().len(),
    ensures
        g.new_names(k) == stranded(g, root, k),
        g.removed_names(k) == Seq::<Seq<char>>::empty(),
    decreases k,
{
    lemma_names_of_consistent(g);
    let names = g.names();
    lemma_sweep_of_one_root(g, root, names.len() as int);
    assert(names.take(names.len() as int) =~= names);
    assert(names.contains(root));
    assert(g.unvisited() == left_by(g, root));
    lemma_left_by_root(g, root);
    if k > 0 {
        lemma_names_of_one_root(g, root, k - 1);
        assert(g.defines(names[k - 1]));
    }
}

/// The check of the roots for a grammar with one root: nothing is reported
/// where the root reaches every other production; else one diagnostic names
/// the productions that it does not reach.
pub proof fn lemma_one_root(g: GrammarView, d: DiagnosticsView, root: Seq<char>)
    requires
        g.consistent(),
        g.is_root(root),
        forall|n: Seq<char>| g.is_root(n) ==> n == root,
    ensures
        report_roots(d, g) == (if stranded(g, root, g.name_order.len() as int).len() > 0 {
            d.emit(new_text(stranded(g, root, g.name_order.len() as int)))
        } else {
            d
        }),
{
    lemma_names_of_consistent(g);
    lemma_names_of_one_root(g, root, g.names().len() as int);
}

/// A grammar with one root, which reaches every other production, passes
/// the check of the roots without a diagnostic.
pub proof fn lemma_root_that_reaches_all(g: GrammarView, d: DiagnosticsView, root: Seq<char>)
    requires
        g.consistent(),
        g.is_root(root),
        forall|n: Seq<char>| g.is_root(n) ==> n == root,
        forall|n: Seq<char>| g.defines(n) && n != root ==> reaches(g, root, n),
    ensures
        report_roots(d, g) == d,
{
    lemma_one_root(g, d, root);
    lemma_nothing_stranded(g, root, g.name_order.len() as int);
}

/// Nothing is stranded where the root reaches every other production.
proof fn lemma_nothing_stranded(g: GrammarView, root: Seq<char>, k: int)
    requires
        g.consistent(),
        forall|n: Seq<char>| g.defines(n) && n != root ==> reaches(g, root, n),
        0 <= k <= g.name_order.len(),
    ensures
        stranded(g, root, k) == Seq::<Seq<char>>::empty(),
    decreases k,
{
    if k > 0 {
        lemma_nothing_stranded(g, root, k - 1);
        assert(g.defines(g.name_order[k - 1]));
    }
}

/// A production that the one root of a grammar does not reach, while it
/// reaches every other, is reported in exactly one diagnostic, which names
/// it alone.
pub proof fn lemma_orphan_is_reported(
    g: GrammarView,
    d: DiagnosticsView,
    root: Seq<char>,
    orphan: Seq<char>,
)
    requires
        g.consistent(),
        g.is_root(root),
        forall|n: Seq<char>| g.is_root(n) ==> n == root,
        g.defines(orphan),
        orphan != root,
        !reaches(g, root, orphan),
        forall|n: Seq<char>| g.defines(n) && n != root && n != orphan ==> reaches(g, root, n),
    ensures
        report_roots(d, g) == d.emit(new_text(seq![orphan])),
        report_roots(d, g).messages.len() == d.messages.len() + 1,
{
    lemma_one_root(g, d, root);
    lemma_only_the_orphan_is_stranded(g, root, orphan, g.name_order.len() as int);
    assert(g.name_order.take(g.name_order.len() as int) =~= g.name_order);
}

/// Only the orphan is stranded, once its name has come.
proof fn lemma_only_the_orphan_is_stranded(
    g: GrammarView,
    root: Seq<char>,
    orphan: Seq<char>,
    k: int,
)
    requires
        g.consistent(),
        g.defines(orphan),
        orphan != root,
        !reaches(g, root, orphan),
        forall|n: Seq<char>| g.defines(n) && n != root && n != orphan ==> reaches(g, root, n),
        0 <= k <= g.name_order.len(),
    ensures
        stranded(g, root, k) == (if g.name_order.take(k).contains(orphan) {
            seq![orphan]
        } else {
            Seq::<Seq<char>>::empty()
        }),
    decreases k,
{
    let names = g.name_order;
    if k > 0 {
        lemma_only_the_orphan_is_stranded(g, root, orphan, k - 1);
        let name = names[k - 1];
        assert(g.defines(name));
        assert(names.take(k)[k - 1] == name);
        if names.take(k - 1).contains(orphan) {
            let front = names.take(k - 1);
            let i = choose|i: int| 0 <= i < front.len() && front[i] == orphan;
            assert(names[i] == orphan);
            assert(names.take(k)[i] == orphan);
            assert(name != orphan);
        } else if name != orphan {
            if names.take(k).contains(orphan) {
                let upto = names.take(k);
                let i = choose|i: int| 0 <= i < upto.len() && upto[i] == orphan;
                assert(names.take(k - 1)[i] == orphan);
            }
        } else {
            assert(Seq::<Seq<char>>::empty().push(orphan) =~= seq![orphan]);
        }
    } else {
        assert(names.take(0) =~= Seq::empty());
    }
}

/// Without a root nothing is swept.
proof fn lemma_sweep_without_root(g: GrammarView, k: int)
    requires
        forall|n: Seq<char>| !g.is_root(n),
        0 <= k <= g.names().len(),
    ensures
        g.sweep_roots(k, g.names().to_set()) == g.names().to_set(),
    decreases k,
{
    if k > 0 {
        lemma_sweep_without_root(g, k - 1);
    }
}

/// Without a root every name is new.
proof fn lemma_names_without_root(g: GrammarView, k: int)
    requires
        forall|n: Seq<char>| !g.is_root(n),
        0 <= k <= g.names().len(),
    ensures
        g.new_names(k) == g.names().take(k),
        g.removed_names(k) == Seq::<Seq<char>>::empty(),
    decreases k,
{
    let names = g.names();
    lemma_sweep_without_root(g, names.len() as int);
    if k > 0 {
        lemma_names_without_root(g, k - 1);
        assert(names.to_set().contains(names[k - 1]));
        assert(names.take(k - 1).push(names[k - 1]) =~= names.take(k));
    } else {
        assert(names.take(0) =~= Seq::empty());
    }
}

/// A grammar without a root, but with productions, is reported in exactly
/// one diagnostic, which names every production.
pub proof fn lemma_no_root(g: GrammarView, d: DiagnosticsView)
    requires
        forall|n: Seq<char>| !g.is_root(n),
        g.names().len() > 0,
    ensures
        report_roots(d, g) == d.emit(new_text(g.names())),
        report_roots(d, g).messages.len() == d.messages.len() + 1,
{
    lemma_names_without_root(g, g.names().len() as int);
    assert(g.names().take(g.names().len() as int) =~= g.names());
}

/// The check of the roots adds one diagnostic at most, and changes nothing
/// else.
pub proof fn lemma_at_most_one_report(g: GrammarView, d: DiagnosticsView)
    ensures
        report_roots(d, g).deny_warnings == d.deny_warnings,
        report_roots(d, g).messages == d.messages || report_roots(d, g).messages.drop_last()
            == d.messages,
{
    let new = g.new_names(g.names().len() as int);
    let removed = g.removed_names(g.names().len() as int);
    if new.len() > 0 {
        assert(d.emit(new_text(new)).messages.drop_last() =~= d.messages);
    } else if removed.len() > 0 {
        assert(d.emit(removed_text(removed)).messages.drop_last() =~= d.messages);
    }
}

} // verus!
