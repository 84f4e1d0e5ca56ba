//! What a repetition range denotes, and the plan by which it is drawn.

use vstd::prelude::*;
use crate::diagram::DiagramNodeView;
use crate::expression::{RangeLimit, range_rule};
use crate::render_railroad::{at_most_more, layout, one_or_more, optional_of, unrolled};

verus! {

/// Whether a repetition range accepts `n` repetitions: at least the
/// minimum, or any number where there is none; below the maximum of a
/// half-open range, up to the maximum of a closed one, or any number where
/// there is none.
pub open spec fn accepts(min: Option<u32>, max: Option<u32>, limit: RangeLimit, n: nat) -> bool {
    (match min {
        Some(a) => n >= a,
        None => true,
    }) && (match max {
        Some(b) => if limit is HalfOpen {
            n < b
        } else {
            n <= b
        },
        None => true,
    })
}

/// How a repetition range is drawn, whatever its operand is.
pub enum RangePlan {
    /// Nothing at all.
    Nothing,
    /// The operand.
    Once,
    /// The operand on a loop.
    OneOrMore,
    /// The operand on a loop whose caption says how often it may be taken
    /// again.
    AtMostMore(nat),
    /// The plan, or nothing.
    Optional(Box<RangePlan>),
    /// The operand `copies` times, then the plan.
    Unrolled { copies: nat, rest: Box<RangePlan> },
    /// A closed range without a maximum, which is not drawn.
    Undrawable,
}

/// The plan for a range with a minimum of one.
pub open spec fn plan_from_one(max: Option<u32>, limit: RangeLimit) -> RangePlan {
    match max {
        None => if limit is HalfOpen {
            RangePlan::OneOrMore
        } else {
            RangePlan::Undrawable
        },
        Some(b) => if b == 0 || (b == 1 && limit is HalfOpen) {
            RangePlan::Nothing
        } else if b == 1 {
            RangePlan::Once
        } else if limit is HalfOpen {
            RangePlan::AtMostMore((b - 2) as nat)
        } else {
            RangePlan::AtMostMore((b - 1) as nat)
        },
    }
}

/// The plan for a range.
pub open spec fn range_plan(min: Option<u32>, max: Option<u32>, limit: RangeLimit) -> RangePlan {
    let a = match min {
        Some(a) => a,
        None => 0,
    };
    let empty = match max {
        Some(b) => b == 0 || (limit is HalfOpen && (b == 1 || (min is Some && b <= a))),
        None => false,
    };
    if a == 1 {
        plan_from_one(max, limit)
    } else if empty {
        RangePlan::Nothing
    } else if a == 0 {
        RangePlan::Optional(Box::new(plan_from_one(max, limit)))
    } else {
        RangePlan::Unrolled {
            copies: (a - 1) as nat,
            rest: Box::new(
                plan_from_one(
                    match max {
                        Some(b) => Some((b - (a - 1)) as u32),
                        None => None,
                    },
                    limit,
                ),
            ),
        }
    }
}

/// Whether a way through what the plan draws passes the operand `n` times.
pub open spec fn passes(plan: RangePlan, n: nat) -> bool
    decreases plan,
{
    match plan {
        RangePlan::Nothing => n == 0,
        RangePlan::Once => n == 1,
        RangePlan::OneOrMore => n >= 1,
        RangePlan::AtMostMore(more) => 1 <= n <= 1 + more,
        RangePlan::Optional(p) => n == 0 || passes(*p, n),
        RangePlan::Unrolled { copies, rest } => n >= copies && passes(*rest, (n - copies) as nat),
        RangePlan::Undrawable => false,
    }
}

/// What is drawn for a plan, given what the operand draws.
pub open spec fn plan_diagram(
    plan: RangePlan,
    operand: Option<DiagramNodeView>,
    operand_is_break: bool,
    stack: bool,
) -> Option<DiagramNodeView>
    decreases plan,
{
    match plan {
        RangePlan::Nothing => Some(DiagramNodeView::Empty),
        RangePlan::Once => operand,
        RangePlan::OneOrMore => match operand {
            Some(n) => Some(one_or_more(n)),
            None => None,
        },
        RangePlan::AtMostMore(more) => match operand {
            Some(n) => Some(at_most_more(n, more)),
            None => None,
        },
        RangePlan::Optional(p) => optional_of(plan_diagram(*p, operand, operand_is_break, stack)),
        RangePlan::Unrolled { copies, rest } => layout(
            unrolled(
                operand,
                operand_is_break,
                copies,
                plan_diagram(*rest, operand, false, false),
            ),
            stack,
        ),
        RangePlan::Undrawable => None,
    }
}

/// The plan of a range that the notation accepts passes the operand as
/// often as the range says: from the minimum, or from zero where there is
/// none, to below the maximum of a half-open range, up to the maximum of a
/// closed one, or without end where there is none.
pub proof fn lemma_plan_passes_what_the_range_accepts(
    min: Option<u32>,
    max: Option<u32>,
    limit: RangeLimit,
    n: nat,
)
    requires
        range_rule(min, max, limit, true),
    ensures
        passes(range_plan(min, max, limit), n) <==> accepts(min, max, limit, n),
{
    reveal_with_fuel(passes, 2);
}

/// No plan of a range that the notation accepts is left undrawn: it takes
/// no closed range without a maximum to draw it, however large the minimum.
pub proof fn lemma_accepted_range_has_a_plan(min: Option<u32>, max: Option<u32>, limit: RangeLimit)
    requires
        range_rule(min, max, limit, true),
    ensures
        exists|n: nat| passes(range_plan(min, max, limit), n),
{
    let lo: nat = match min {
        Some(a) => a as nat,
        None => 0,
    };
    lemma_plan_passes_what_the_range_accepts(min, max, limit, lo);
    assert(accepts(min, max, limit, lo));
}

} // verus!
