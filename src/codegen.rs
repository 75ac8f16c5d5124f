use vstd::prelude::*;

verus! {

/// How one parameter of a handler function is declared.
#[derive(Clone, Copy, PartialEq, Eq, Structural, Debug)]
pub enum ParamKind {
    /// `self`, `&self` or `&mut self`: it is not extracted from the request.
    Receiver,
    /// A typed parameter `pat: Ty`, whose value an extractor produces.
    Typed,
}

/// The positions of the typed parameters among `params`, in declared order.
pub open spec fn typed_positions(params: Seq<ParamKind>) -> Seq<usize>
    decreases params.len(),
{
    if params.len() == 0 {
        seq![]
    } else {
        let prev = typed_positions(params.drop_last());
        if params.last() == ParamKind::Typed {
            prev.push((params.len() - 1) as usize)
        } else {
            prev
        }
    }
}

/// What the `#[handler]` transform needs to emit for one function: which
/// parameters get an extractor (in this order, bound as `p<index>`), and
/// whether the call of the original function is awaited.
pub struct HandlerPlan {
    pub extract: Vec<usize>,
    pub awaits: bool,
}

/// Plans the endpoint generated for a function with the given parameters.
/// Every typed parameter is extracted, in declared order; receivers are not.
pub fn handler_plan(params: &Vec<ParamKind>, is_async: bool) -> (r: HandlerPlan)
    ensures
        r.extract@ == typed_positions(params@),
        r.awaits == is_async,
{
    let mut extract: Vec<usize> = Vec::new();
    let mut idx: usize = 0;
    while idx < params.len()
        invariant
            idx <= params@.len(),
            extract@ == typed_positions(params@.take(idx as int)),
        decreases params@.len() - idx,
    {
        proof {
            assert(params@.take(idx as int + 1).drop_last() =~= params@.take(idx as int));
        }
        if params[idx] == ParamKind::Typed {
            extract.push(idx);
        }
        idx += 1;
    }
    proof {
        assert(params@.take(params@.len() as int) =~= params@);
    }
    HandlerPlan { extract, awaits: is_async }
}

/// The bound put on one type parameter of a middleware tuple.
#[derive(Clone, Copy, PartialEq, Eq, Structural, Debug)]
pub enum ChainBound {
    /// `Tk: Middleware<E>`: it transforms the base endpoint.
    Base,
    /// `Tk: Middleware<Tj::Output>`: it transforms what parameter `j`
    /// (counted from 1) produced.
    OutputOf(usize),
}

/// The smallest and largest number of middleware in one tuple.
pub const MIN_CHAIN: usize = 2;
pub const MAX_CHAIN: usize = 16;

/// The impl of `Middleware<E>` for a tuple `(T1, .., Tn)`: the bound of each
/// type parameter, the order in which the fields transform the endpoint, and
/// the parameter (counted from 1) whose output is the tuple's output.
pub struct ChainImplPlan {
    pub arity: usize,
    pub bounds: Vec<ChainBound>,
    pub transforms: Vec<usize>,
    pub output: usize,
}

/// The bound of type parameter `k + 1`: the first takes the base endpoint,
/// each later one takes the output of the one before it.
pub open spec fn chain_bound(k: int) -> ChainBound {
    if k == 0 {
        ChainBound::Base
    } else {
        ChainBound::OutputOf(k as usize)
    }
}

/// A plan for `arity` middleware chained left to right.
pub open spec fn is_chain_plan(p: ChainImplPlan, arity: nat) -> bool {
    &&& p.arity == arity
    &&& p.bounds@.len() == arity
    &&& p.transforms@.len() == arity
    &&& p.output == arity
    &&& forall|k: int| 0 <= k < arity ==> #[trigger] p.bounds@[k] == chain_bound(k)
    &&& forall|k: int| 0 <= k < arity ==> #[trigger] p.transforms@[k] == k
}

/// Plans the impl for a tuple of `arity` middleware.
pub fn chain_impl_plan(arity: usize) -> (r: ChainImplPlan)
    requires
        MIN_CHAIN <= arity <= MAX_CHAIN,
    ensures
        is_chain_plan(r, arity as nat),
{
    let mut bounds: Vec<ChainBound> = Vec::new();
    let mut transforms: Vec<usize> = Vec::new();
    bounds.push(ChainBound::Base);
    let mut k: usize = 1;
    while k < arity
        invariant
            1 <= k <= arity,
            bounds@.len() == k,
            forall|j: int| 0 <= j < k ==> #[trigger] bounds@[j] == chain_bound(j),
        decreases arity - k,
    {
        bounds.push(ChainBound::OutputOf(k));
        k += 1;
    }
    let mut n: usize = 0;
    while n < arity
        invariant
            n <= arity,
            transforms@.len() == n,
            forall|j: int| 0 <= j < n ==> #[trigger] transforms@[j] == j,
        decreases arity - n,
    {
        transforms.push(n);
        n += 1;
    }
    ChainImplPlan { arity, bounds, transforms, output: arity }
}

/// Plans the impls for every supported tuple size, smallest first.
pub fn chain_impl_plans() -> (r: Vec<ChainImplPlan>)
    ensures
        r@.len() == MAX_CHAIN - MIN_CHAIN + 1,
        forall|i: int| 0 <= i < r@.len() ==> is_chain_plan(#[trigger] r@[i], (i + MIN_CHAIN) as nat),
{
    let mut plans: Vec<ChainImplPlan> = Vec::new();
    let mut arity: usize = MIN_CHAIN;
    while arity <= MAX_CHAIN
        invariant
            MIN_CHAIN <= arity <= MAX_CHAIN + 1,
            plans@.len() == arity - MIN_CHAIN,
            forall|i: int| 0 <= i < plans@.len() ==> is_chain_plan(#[trigger] plans@[i], (i + MIN_CHAIN) as nat),
        decreases MAX_CHAIN + 1 - arity,
    {
        plans.push(chain_impl_plan(arity));
        arity += 1;
    }
    plans
}

} // verus!
