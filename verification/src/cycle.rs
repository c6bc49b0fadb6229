use crate::amount::Amount;
use crate::edge::GraphEdge;
use crate::error::EngineError;
use vstd::prelude::*;

verus! {

/// The bytes of the address of the asset that a leg sells.
pub open spec fn leg_source(e: GraphEdge) -> Seq<u8> {
    if e.zero_for_one {
        e.pool.spec_tokens().0@
    } else {
        e.pool.spec_tokens().1@
    }
}

/// The bytes of the address of the asset that a leg buys.
pub open spec fn leg_target(e: GraphEdge) -> Seq<u8> {
    if e.zero_for_one {
        e.pool.spec_tokens().1@
    } else {
        e.pool.spec_tokens().0@
    }
}

/// Whether the legs form a cycle: there is at least one, each buys what the
/// next one sells, and the last buys what the first sells.
pub open spec fn is_closed(hops: Seq<GraphEdge>) -> bool {
    &&& hops.len() > 0
    &&& forall|i: int|
        0 <= i < hops.len() - 1 ==> leg_target(#[trigger] hops[i]) == leg_source(hops[i + 1])
    &&& leg_target(hops.last()) == leg_source(hops[0])
}

/// What comes out when `x` is threaded through the legs in order, the output
/// of each being the input of the next; the first failure ends it.
pub open spec fn composed(hops: Seq<GraphEdge>, x: nat) -> Result<nat, EngineError>
    decreases hops.len(),
{
    if hops.len() == 0 {
        Ok(x)
    } else {
        match hops[0].pool.quote(x, hops[0].zero_for_one) {
            Ok(y) => composed(hops.drop_first(), y),
            Err(e) => Err(e),
        }
    }
}

/// The gain of threading `x` through the legs: what comes out beyond what
/// went in. A trade that does not return more than went in has none.
pub open spec fn exact_profit(hops: Seq<GraphEdge>, x: nat) -> Result<nat, EngineError> {
    match composed(hops, x) {
        Ok(y) => if y > x {
            Ok((y - x) as nat)
        } else {
            Err(EngineError::NoProfitableCycle)
        },
        Err(e) => Err(e),
    }
}

/// A trade around a cycle that was found to pay.
#[derive(Clone, Copy, Debug, PartialEq, Eq, Structural)]
pub struct SizedTrade {
    pub input_amount: Amount,
    pub expected_output_amount: Amount,
    pub expected_profit: Amount,
}

/// Whether a leg buys what another sells.
fn leg_feeds(from: &GraphEdge, into: &GraphEdge) -> (r: bool)
    ensures
        r == (leg_target(*from) == leg_source(*into)),
{
    let bought = if from.zero_for_one {
        from.pool.tokens().1
    } else {
        from.pool.tokens().0
    };
    let sold = if into.zero_for_one {
        into.pool.tokens().0
    } else {
        into.pool.tokens().1
    };
    bought.same(&sold)
}

/// Exec form of `is_closed`.
pub fn check_closed(hops: &Vec<GraphEdge>) -> (r: bool)
    ensures
        r == is_closed(hops@),
{
    let n = hops.len();
    if n == 0 {
        return false;
    }
    let mut i: usize = 0;
    while i + 1 < n
        invariant
            n == hops@.len(),
            n > 0,
            i < n,
            forall|j: int| 0 <= j < i ==> leg_target(#[trigger] hops@[j]) == leg_source(hops@[j + 1]),
        decreases n - i,
    {
        if !leg_feeds(&hops[i], &hops[i + 1]) {
            return false;
        }
        i += 1;
    }
    leg_feeds(&hops[n - 1], &hops[0])
}

/// Threads an amount through the legs with the exact arithmetic of each
/// pool and returns what comes out of the last, or the first failure.
pub fn compose(hops: &Vec<GraphEdge>, amount_in: Amount) -> (r: Result<Amount, EngineError>)
    ensures
        match r {
            Ok(out) => composed(hops@, amount_in.value()) == Ok::<nat, EngineError>(out.value()),
            Err(e) => composed(hops@, amount_in.value()) == Err::<nat, EngineError>(e),
        },
{
    let mut current = amount_in;
    let mut i: usize = 0;
    assert(hops@.skip(0) =~= hops@);
    while i < hops.len()
        invariant
            i <= hops@.len(),
            composed(hops@, amount_in.value()) == composed(hops@.skip(i as int), current.value()),
        decreases hops@.len() - i,
    {
        proof {
            assert(hops@.skip(i as int)[0] == hops@[i as int]);
            assert(hops@.skip(i as int).drop_first() =~= hops@.skip(i + 1));
        }
        match hops[i].pool.get_amount_out(current, hops[i].zero_for_one) {
            Ok(out) => {
                current = out;
            },
            Err(e) => {
                return Err(e);
            },
        }
        i += 1;
    }
    Ok(current)
}

/// Runs the exact trade once and reports it only where it pays: where what
/// comes out exceeds what went in.
pub fn realized_profit(hops: &Vec<GraphEdge>, amount_in: Amount) -> (r: Result<
    SizedTrade,
    EngineError,
>)
    ensures
        match r {
            Ok(t) => {
                &&& t.input_amount == amount_in
                &&& composed(hops@, amount_in.value()) == Ok::<nat, EngineError>(
                    t.expected_output_amount.value(),
                )
                &&& exact_profit(hops@, amount_in.value()) == Ok::<nat, EngineError>(
                    t.expected_profit.value(),
                )
                &&& t.expected_profit.value() > 0
            },
            Err(e) => exact_profit(hops@, amount_in.value()) == Err::<nat, EngineError>(e),
        },
{
    let out = match compose(hops, amount_in) {
        Ok(out) => out,
        Err(e) => {
            return Err(e);
        },
    };
    if !amount_in.less_than(&out) {
        return Err(EngineError::NoProfitableCycle);
    }
    match out.checked_sub(amount_in) {
        Some(profit) => Ok(
            SizedTrade { input_amount: amount_in, expected_output_amount: out, expected_profit: profit },
        ),
        None => Err(EngineError::NoProfitableCycle),
    }
}

} // verus!
