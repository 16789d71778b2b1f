//! Evaluation of the conditions of a rule against the values of the
//! indicators.

use crate::indicators2::values::{output_value, OutputValue};
use crate::strategy::types::{ComparisonOp, Condition, CrossDirection};
use crate::text::same_text;
use vstd::prelude::*;

verus! {

/// The values of the indicators at the candle before: a crossing is told by
/// them.
#[derive(Debug, Clone)]
pub struct EvalState {
    prev_values: Vec<OutputValue>,
}

/// What a comparison gives.
pub open spec fn compares(lhs: i128, op: ComparisonOp, rhs: i128) -> bool {
    match op {
        ComparisonOp::Lt => lhs < rhs,
        ComparisonOp::Lte => lhs <= rhs,
        ComparisonOp::Eq => lhs == rhs,
        ComparisonOp::Ne => lhs != rhs,
        ComparisonOp::Gte => lhs >= rhs,
        ComparisonOp::Gt => lhs > rhs,
    }
}

/// Whether `fast` has crossed `slow` in the direction: it was not beyond it
/// before and is beyond it now. An indicator without a value, now or
/// before, has not crossed.
pub open spec fn crossed(
    fast: Seq<char>,
    slow: Seq<char>,
    direction: CrossDirection,
    values: Seq<OutputValue>,
    prev: Seq<OutputValue>,
) -> bool {
    match (
        output_value(values, fast),
        output_value(values, slow),
        output_value(prev, fast),
        output_value(prev, slow),
    ) {
        (Some(cf), Some(cs), Some(pf), Some(ps)) => match direction {
            CrossDirection::Above => pf <= ps && cf > cs,
            CrossDirection::Below => pf >= ps && cf < cs,
        },
        _ => false,
    }
}

/// Whether a condition holds: a threshold where its indicator has a value
/// that compares so; a crossover where the fast indicator has crossed the
/// slow; a conjunction where all of its conditions hold; a disjunction
/// where one does.
pub open spec fn holds(condition: Condition, values: Seq<OutputValue>, prev: Seq<OutputValue>) -> bool
    decreases condition,
{
    match condition {
        Condition::Threshold { indicator, op, value } => match output_value(values, indicator@) {
            Some(v) => compares(v, op, value),
            None => false,
        },
        Condition::Crossover { fast, slow, direction } => crossed(
            fast@,
            slow@,
            direction,
            values,
            prev,
        ),
        Condition::And { conditions } => forall|i: int|
            0 <= i < conditions@.len() ==> holds(#[trigger] conditions@[i], values, prev),
        Condition::Or { conditions } => exists|i: int|
            0 <= i < conditions@.len() && holds(#[trigger] conditions@[i], values, prev),
    }
}

/// Looks a value up by the name of its indicator.
pub fn find_value(values: &Vec<OutputValue>, name: &str) -> (r: Option<i128>)
    ensures
        r == output_value(values@, name@),
{
    let n = values.len();
    let mut i: usize = 0;
    proof {
        assert(values@.skip(0) =~= values@);
    }
    while i < n
        invariant
            i <= n,
            n == values@.len(),
            output_value(values@, name@) == output_value(values@.skip(i as int), name@),
        decreases n - i,
    {
        proof {
            assert(values@.skip(i as int)[0] == values@[i as int]);
            assert(values@.skip(i as int).drop_first() =~= values@.skip(i + 1));
        }
        if same_text(values[i].name.as_str(), name) {
            return Some(values[i].value);
        }
        i = i + 1;
    }
    None
}

/// Compares two values.
pub fn compare(lhs: i128, op: ComparisonOp, rhs: i128) -> (r: bool)
    ensures
        r == compares(lhs, op, rhs),
{
    match op {
        ComparisonOp::Lt => lhs < rhs,
        ComparisonOp::Lte => lhs <= rhs,
        ComparisonOp::Eq => lhs == rhs,
        ComparisonOp::Ne => lhs != rhs,
        ComparisonOp::Gte => lhs >= rhs,
        ComparisonOp::Gt => lhs > rhs,
    }
}

impl View for EvalState {
    type V = Seq<OutputValue>;

    closed spec fn view(&self) -> Seq<OutputValue> {
        self.prev_values@
    }
}

impl EvalState {
    /// A state without values of a candle before.
    pub fn new() -> (state: Self)
        ensures
            state@.len() == 0,
    {
        EvalState { prev_values: Vec::new() }
    }

    /// Takes the values of this candle as those of the candle before the
    /// next.
    pub fn update(&mut self, current_values: Vec<OutputValue>)
        ensures
            final(self)@ == current_values@,
    {
        self.prev_values = current_values;
    }

    /// Tells whether a condition holds for the values of this candle.
    pub fn evaluate(&self, condition: &Condition, values: &Vec<OutputValue>) -> (r: bool)
        ensures
            r == holds(*condition, values@, self@),
        decreases condition,
    {
        match condition {
            Condition::Threshold { indicator, op, value } => {
                match find_value(values, indicator.as_str()) {
                    Some(ind_value) => compare(ind_value, *op, *value),
                    None => false,
                }
            },
            Condition::Crossover { fast, slow, direction } => {
                let curr_fast = find_value(values, fast.as_str());
                let curr_slow = find_value(values, slow.as_str());
                let prev_fast = find_value(&self.prev_values, fast.as_str());
                let prev_slow = find_value(&self.prev_values, slow.as_str());
                match (curr_fast, curr_slow, prev_fast, prev_slow) {
                    (Some(cf), Some(cs), Some(pf), Some(ps)) => match direction {
                        CrossDirection::Above => pf <= ps && cf > cs,
                        CrossDirection::Below => pf >= ps && cf < cs,
                    },
                    _ => false,
                }
            },
            Condition::And { conditions } => {
                let n = conditions.len();
                let mut i: usize = 0;
                while i < n
                    invariant
                        i <= n,
                        n == conditions@.len(),
                        *condition == (Condition::And { conditions: *conditions }),
                        forall|j: int|
                            0 <= j < i ==> holds(#[trigger] conditions@[j], values@, self@),
                    decreases n - i,
                {
                    proof {
                        vstd::std_specs::vec::axiom_vec_index_decreases(*conditions, i as int);
                        assert(decreases_to!(*condition => condition->And_conditions));
                    }
                    if !self.evaluate(&conditions[i], values) {
                        proof {
                            assert(!holds(conditions@[i as int], values@, self@));
                        }
                        return false;
                    }
                    i = i + 1;
                }
                true
            },
            Condition::Or { conditions } => {
                let n = conditions.len();
                let mut i: usize = 0;
                while i < n
                    invariant
                        i <= n,
                        n == conditions@.len(),
                        *condition == (Condition::Or { conditions: *conditions }),
                        forall|j: int|
                            0 <= j < i ==> !holds(#[trigger] conditions@[j], values@, self@),
                    decreases n - i,
                {
                    proof {
                        vstd::std_specs::vec::axiom_vec_index_decreases(*conditions, i as int);
                        assert(decreases_to!(*condition => condition->Or_conditions));
                    }
                    if self.evaluate(&conditions[i], values) {
                        proof {
                            assert(holds(conditions@[i as int], values@, self@));
                        }
                        return true;
                    }
                    i = i + 1;
                }
                false
            },
        }
    }
}

} // verus!
