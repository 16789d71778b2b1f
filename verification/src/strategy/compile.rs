//! Compilation of a strategy of rules: the lookback of each indicator.

use crate::indicators2::registry::{lookback_result, IndicatorRegistry, LookbackError};
use crate::strategy::types::{CompiledIndicator, CompiledStrategy, IndicatorSpec, Strategy};
use crate::text::uppercase;
use vstd::prelude::*;

verus! {

/// An indicator of a strategy that has no lookback.
#[derive(Debug, Clone, Copy, PartialEq, Eq, Structural)]
pub struct IndicatorError {
    /// The place of the indicator among those of the strategy.
    pub index: usize,
    pub cause: LookbackError,
}

/// The lookback of an indicator as it is declared.
pub open spec fn declared_lookback(spec: IndicatorSpec) -> Result<usize, LookbackError> {
    lookback_result(uppercase(spec.indicator_type@), spec.params@)
}

/// Whether a compiled indicator is the declared one with its lookback.
pub open spec fn compiled_from(compiled: CompiledIndicator, spec: IndicatorSpec) -> bool {
    &&& compiled.id == spec.id
    &&& compiled.indicator_type == spec.indicator_type
    &&& compiled.params == spec.params
    &&& compiled.outputs == spec.outputs
    &&& declared_lookback(spec) == Ok::<usize, LookbackError>(compiled.lookback)
}

/// Compiles a strategy: finds the lookback of each of its indicators. A
/// strategy with an indicator that has no lookback does not compile; the
/// error names the first such indicator.
pub fn compile_strategy(strategy: Strategy) -> (r: Result<CompiledStrategy, IndicatorError>)
    ensures
        match r {
            Ok(compiled) => {
                &&& compiled.instrument == strategy.instrument
                &&& compiled.entry == strategy.entry
                &&& compiled.exit == strategy.exit
                &&& compiled.indicators@.len() == strategy.indicators@.len()
                &&& forall|i: int|
                    0 <= i < compiled.indicators@.len() ==> compiled_from(
                        #[trigger] compiled.indicators@[i],
                        strategy.indicators@[i],
                    )
            },
            Err(e) => {
                &&& e.index < strategy.indicators@.len()
                &&& declared_lookback(strategy.indicators@[e.index as int]) == Err::<
                    usize,
                    LookbackError,
                >(e.cause)
                &&& forall|i: int|
                    0 <= i < e.index ==> (#[trigger] declared_lookback(
                        strategy.indicators@[i],
                    )) is Ok
            },
        },
{
    let registry = IndicatorRegistry::new();
    let mut specs = strategy.indicators;
    let ghost declared = specs@;
    let n = specs.len();
    let mut lookbacks: Vec<usize> = Vec::new();
    let mut i: usize = 0;
    while i < n
        invariant
            i <= n,
            n == specs@.len(),
            specs@ == declared,
            declared == strategy.indicators@,
            lookbacks@.len() == i,
            forall|j: int|
                0 <= j < i ==> declared_lookback(#[trigger] declared[j]) == Ok::<
                    usize,
                    LookbackError,
                >(lookbacks@[j]),
        decreases n - i,
    {
        match registry.get_lookback(specs[i].indicator_type.as_str(), &specs[i].params) {
            Ok(lookback) => {
                lookbacks.push(lookback);
            },
            Err(cause) => {
                return Err(IndicatorError { index: i, cause });
            },
        }
        i = i + 1;
    }
    // The indicators are taken from the back and put in order.
    let mut reversed: Vec<CompiledIndicator> = Vec::new();
    let mut left: usize = n;
    while left > 0
        invariant
            left <= n,
            n == declared.len(),
            lookbacks@.len() == n,
            specs@ == declared.take(left as int),
            reversed@.len() == n - left,
            forall|j: int|
                0 <= j < n ==> declared_lookback(#[trigger] declared[j]) == Ok::<
                    usize,
                    LookbackError,
                >(lookbacks@[j]),
            forall|j: int|
                0 <= j < reversed@.len() ==> compiled_from(
                    #[trigger] reversed@[j],
                    declared[n - 1 - j],
                ),
        decreases left,
    {
        let spec = specs.pop().unwrap();
        left = left - 1;
        proof {
            assert(spec == declared[left as int]);
            assert(specs@ =~= declared.take(left as int));
        }
        reversed.push(
            CompiledIndicator {
                id: spec.id,
                indicator_type: spec.indicator_type,
                params: spec.params,
                outputs: spec.outputs,
                lookback: lookbacks[left],
            },
        );
    }
    let mut indicators: Vec<CompiledIndicator> = Vec::new();
    let mut m: usize = n;
    while m > 0
        invariant
            m <= n,
            n == declared.len(),
            reversed@.len() == m,
            indicators@.len() == n - m,
            forall|j: int|
                0 <= j < m ==> compiled_from(#[trigger] reversed@[j], declared[n - 1 - j]),
            forall|j: int|
                0 <= j < indicators@.len() ==> compiled_from(#[trigger] indicators@[j], declared[j]),
        decreases m,
    {
        let ghost before = reversed@;
        let compiled = reversed.pop().unwrap();
        m = m - 1;
        proof {
            assert(compiled == before[m as int]);
            assert forall|j: int| 0 <= j < m implies compiled_from(
                #[trigger] reversed@[j],
                declared[n - 1 - j],
            ) by {
                assert(reversed@[j] == before[j]);
            }
        }
        indicators.push(compiled);
    }
    Ok(
        CompiledStrategy {
            instrument: strategy.instrument,
            indicators,
            entry: strategy.entry,
            exit: strategy.exit,
        },
    )
}

} // verus!
