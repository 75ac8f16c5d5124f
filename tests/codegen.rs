use poem::codegen::{chain_impl_plan, chain_impl_plans, handler_plan, ChainBound, ParamKind};

#[test]
fn handler_plan_skips_receivers() {
    let p = handler_plan(&vec![ParamKind::Receiver, ParamKind::Typed, ParamKind::Typed], true);
    assert_eq!(p.extract, vec![1, 2]);
    assert!(p.awaits);
    let q = handler_plan(&vec![], false);
    assert!(q.extract.is_empty());
    assert!(!q.awaits);
}

#[test]
fn chain_plan_of_three() {
    let p = chain_impl_plan(3);
    assert_eq!(p.arity, 3);
    assert_eq!(p.bounds, vec![ChainBound::Base, ChainBound::OutputOf(1), ChainBound::OutputOf(2)]);
    assert_eq!(p.transforms, vec![0, 1, 2]);
    assert_eq!(p.output, 3);
}

#[test]
fn chain_plans_cover_two_to_sixteen() {
    let plans = chain_impl_plans();
    assert_eq!(plans.len(), 15);
    assert_eq!(plans[0].arity, 2);
    assert_eq!(plans[14].arity, 16);
    assert_eq!(plans[14].bounds[15], ChainBound::OutputOf(15));
    assert_eq!(plans[14].output, 16);
}
