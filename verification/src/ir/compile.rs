//! Compilation of a strategy: its first scope, with the lookback of each
//! indicator.

use crate::indicators2::registry::{lookback_result, IndicatorRegistry, LookbackError};
use crate::ir::types::{IndicatorSpec, Instrument, NamedNode, Param, StrategyIr};
use crate::text::uppercase;
use vstd::prelude::*;

verus! {

/// A strategy that is ready to run.
#[derive(Debug, Clone)]
pub struct CompiledStrategy {
    pub instrument: Instrument,
    pub indicators: Vec<CompiledIndicator>,
    pub entry_node: String,
    pub nodes: Vec<NamedNode>,
    /// The entry of the exit graph; `None` where the strategy has none.
    pub exit_entry_node: Option<String>,
    /// The nodes of the exit graph; `None` where the strategy has none.
    pub exit_nodes: Option<Vec<NamedNode>>,
}

/// An indicator with its lookback.
#[derive(Debug, Clone)]
pub struct CompiledIndicator {
    pub id: String,
    pub indicator_type: String,
    pub params: Vec<Param>,
    pub outputs: Vec<String>,
    pub lookback: usize,
}

/// Why a strategy does not compile.
#[derive(Debug, Clone, Copy, PartialEq, Eq, Structural)]
pub enum CompileError {
    /// The strategy has no scope.
    NoScopes,
    /// The indicator at this place in the scope has no lookback.
    Indicator { index: usize, cause: LookbackError },
}

/// The lookback of an indicator as it is declared.
pub open spec fn declared_lookback(spec: IndicatorSpec) -> Result<usize, LookbackError> {
    lookback_result(uppercase(spec.indicator_type@), spec.params@)
}

/// Whether a compiled indicator is the declared one with its lookback.
pub open spec fn compiled_from(compiled: CompiledIndicator, spec: IndicatorSpec) -> bool {
    &&& compiled.id == spec.id
    &&& compiled.indicator_type == spec.indicator_type
    &&& compiled.params == spec.params
    &&& compiled.outputs == spec.outputs
    &&& declared_lookback(spec) == Ok::<usize, LookbackError>(compiled.lookback)
}

/// The greatest lookback among the first `n` indicators.
pub open spec fn max_lookback_of(indicators: Seq<CompiledIndicator>, n: int) -> usize
    decreases n,
{
    if n <= 0 {
        0
    } else {
        let rest = max_lookback_of(indicators, n - 1);
        if indicators[n - 1].lookback > rest {
            indicators[n - 1].lookback
        } else {
            rest
        }
    }
}

/// Compiles a strategy: takes its first scope and finds the lookback of each
/// of its indicators. A strategy without a scope, or with an indicator that
/// has no lookback, does not compile; the error names the first such
/// indicator.
pub fn compile_strategy(ir: StrategyIr) -> (r: Result<CompiledStrategy, CompileError>)
    ensures
        match r {
            Ok(compiled) => {
                &&& ir.scopes@.len() > 0
                &&& compiled.instrument == ir.scopes@[0].instrument
                &&& compiled.entry_node == ir.scopes@[0].graph.entry
                &&& compiled.nodes == ir.scopes@[0].graph.nodes
                &&& match ir.scopes@[0].exit_graph {
                    Some(graph) => compiled.exit_entry_node == Some(graph.entry)
                        && compiled.exit_nodes == Some(graph.nodes),
                    None => compiled.exit_entry_node is None && compiled.exit_nodes is None,
                }
                &&& compiled.indicators@.len() == ir.scopes@[0].indicators@.len()
                &&& forall|i: int|
                    0 <= i < compiled.indicators@.len() ==> compiled_from(
                        #[trigger] compiled.indicators@[i],
                        ir.scopes@[0].indicators@[i],
                    )
            },
            Err(CompileError::NoScopes) => ir.scopes@.len() == 0,
            Err(CompileError::Indicator { index, cause }) => {
                &&& ir.scopes@.len() > 0
                &&& index < ir.scopes@[0].indicators@.len()
                &&& declared_lookback(ir.scopes@[0].indicators@[index as int]) == Err::<
                    usize,
                    LookbackError,
                >(cause)
                &&& forall|i: int|
                    0 <= i < index ==> (#[trigger] declared_lookback(
                        ir.scopes@[0].indicators@[i],
                    )) is Ok
            },
        },
{
    let ghost given = ir.scopes@;
    let mut scopes = ir.scopes;
    if scopes.len() == 0 {
        return Err(CompileError::NoScopes);
    }
    let scope = scopes.swap_remove(0);
    let registry = IndicatorRegistry::new();
    let mut specs = scope.indicators;
    let ghost declared = specs@;
    let n = specs.len();
    // The lookbacks, in the order of the indicators.
    let mut lookbacks: Vec<usize> = Vec::new();
    let mut i: usize = 0;
    while i < n
        invariant
            i <= n,
            n == specs@.len(),
            specs@ == declared,
            given == ir.scopes@,
            given.len() > 0,
            declared == given[0].indicators@,
            lookbacks@.len() == i,
            forall|j: int|
                0 <= j < i ==> declared_lookback(#[trigger] declared[j]) == Ok::<
                    usize,
                    LookbackError,
                >(lookbacks@[j]),
        decreases n - i,
    {
        match registry.get_lookback(specs[i].indicator_type.as_str(), &specs[i].params) {
            Ok(lookback) => {
                lookbacks.push(lookback);
            },
            Err(cause) => {
                return Err(CompileError::Indicator { index: i, cause });
            },
        }
        i = i + 1;
    }
    // The indicators are taken from the back and put in order.
    let mut reversed: Vec<CompiledIndicator> = Vec::new();
    let mut left: usize = n;
    while left > 0
        invariant
            left <= n,
            n == declared.len(),
            lookbacks@.len() == n,
            specs@ == declared.take(left as int),
            reversed@.len() == n - left,
            forall|j: int|
                0 <= j < n ==> declared_lookback(#[trigger] declared[j]) == Ok::<
                    usize,
                    LookbackError,
                >(lookbacks@[j]),
            forall|j: int|
                0 <= j < reversed@.len() ==> compiled_from(
                    #[trigger] reversed@[j],
                    declared[n - 1 - j],
                ),
        decreases left,
    {
        let spec = specs.pop().unwrap();
        left = left - 1;
        proof {
            assert(spec == declared[left as int]);
            assert(specs@ =~= declared.take(left as int));
        }
        reversed.push(
            CompiledIndicator {
                id: spec.id,
                indicator_type: spec.indicator_type,
                params: spec.params,
                outputs: spec.outputs,
                lookback: lookbacks[left],
            },
        );
    }
    let mut indicators: Vec<CompiledIndicator> = Vec::new();
    let mut m: usize = n;
    while m > 0
        invariant
            m <= n,
            n == declared.len(),
            reversed@.len() == m,
            indicators@.len() == n - m,
            forall|j: int|
                0 <= j < m ==> compiled_from(#[trigger] reversed@[j], declared[n - 1 - j]),
            forall|j: int|
                0 <= j < indicators@.len() ==> compiled_from(#[trigger] indicators@[j], declared[j]),
        decreases m,
    {
        let ghost before = reversed@;
        let compiled = reversed.pop().unwrap();
        m = m - 1;
        proof {
            assert(compiled == before[m as int]);
            assert forall|j: int| 0 <= j < m implies compiled_from(
                #[trigger] reversed@[j],
                declared[n - 1 - j],
            ) by {
                assert(reversed@[j] == before[j]);
            }
        }
        indicators.push(compiled);
    }
    let (exit_entry_node, exit_nodes) = match scope.exit_graph {
        Some(graph) => (Some(graph.entry), Some(graph.nodes)),
        None => (None, None),
    };
    Ok(
        CompiledStrategy {
            instrument: scope.instrument,
            indicators,
            entry_node: scope.graph.entry,
            nodes: scope.graph.nodes,
            exit_entry_node,
            exit_nodes,
        },
    )
}

/// The greatest lookback among the indicators of a strategy; zero where it
/// has none.
pub fn max_lookback(compiled: &CompiledStrategy) -> (r: usize)
    ensures
        r == max_lookback_of(compiled.indicators@, compiled.indicators@.len() as int),
{
    let n = compiled.indicators.len();
    let mut best: usize = 0;
    let mut i: usize = 0;
    while i < n
        invariant
            i <= n,
            n == compiled.indicators@.len(),
            best == max_lookback_of(compiled.indicators@, i as int),
        decreases n - i,
    {
        if compiled.indicators[i].lookback > best {
            best = compiled.indicators[i].lookback;
        }
        i = i + 1;
    }
    best
}

} // verus!
