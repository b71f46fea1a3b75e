//! Laws of the solver: rules only ever make facts more specific, so the
//! facts that the solver returns refine the facts that it was given.

use vstd::prelude::*;
use crate::context::ContextModel;
use crate::errors::Error;
use crate::expressions::{coerce, exp_get, exp_set, unscale, ExpModel, WrappedModel};
use crate::path_laws::{
    lemma_refined_reflexive, lemma_refined_transitive, lemma_set_refines, refined,
};
use crate::rules::{
    apply_rule, first_unknown, integers_of, known_sum, meet_all, read_all, unknowns, write_all,
    Producer, RuleModel,
};
use crate::solver::{after, pass, solved, starting, step, sweep, Solving, Sweep};

verus! {

/// A write through an expression leaves a context that refines the one it found.
pub proof fn lemma_exp_set_refines(e: ExpModel, context: ContextModel, value: WrappedModel)
    requires
        exp_set(e, context, value) is Ok,
    ensures
        refined(exp_set(e, context, value).unwrap(), context),
    decreases e,
{
    lemma_refined_reflexive(context);
    match e {
        ExpModel::Constant(w) => {},
        ExpModel::Variable(path) => {
            lemma_set_refines(context, path, value);
        },
        ExpModel::Product(k, inner) => {
            let current = exp_get(*inner, context).unwrap();
            match unscale(k, value) {
                Ok(Some(q)) => {
                    lemma_exp_set_refines(*inner, context, coerce(q, current).unwrap());
                },
                _ => {},
            }
        },
    }
}

/// Writing one fact through every expression of a list leaves a context
/// that refines the one it found.
pub proof fn lemma_write_all_refines(
    items: Seq<ExpModel>,
    values: Seq<WrappedModel>,
    unified: WrappedModel,
    context: ContextModel,
)
    requires
        write_all(items, values, unified, context) is Ok,
    ensures
        refined(write_all(items, values, unified, context).unwrap(), context),
    decreases items.len(),
{
    lemma_refined_reflexive(context);
    if items.len() > 0 {
        lemma_write_all_refines(items.drop_last(), values.drop_last(), unified, context);
        let before = write_all(items.drop_last(), values.drop_last(), unified, context).unwrap();
        let v = coerce(unified, values.last()).unwrap();
        lemma_exp_set_refines(items.last(), before, v);
        lemma_refined_transitive(exp_set(items.last(), before, v).unwrap(), before, context);
    }
}

/// The application of a rule leaves a context that refines the one it found.
pub proof fn lemma_rule_refines<P: Producer>(rule: RuleModel<P>, context: ContextModel)
    requires
        apply_rule(rule, context) is Ok,
    ensures
        refined(apply_rule(rule, context).unwrap().context, context),
{
    reveal(apply_rule);
    lemma_refined_reflexive(context);
    match rule {
        RuleModel::Equals(items) => {
            let values = read_all(items, context).unwrap();
            if crate::rules::any_ground(values) {
                lemma_write_all_refines(items, values, meet_all(values).unwrap(), context);
            }
        },
        RuleModel::EqualsZero(items) => {
            let values = read_all(items, context).unwrap();
            let ints = integers_of(values).unwrap();
            if unknowns(ints) == 1 {
                let at = first_unknown(ints);
                let v = crate::expressions::int_fact(-known_sum(ints)).unwrap();
                let w = coerce(v, values[at]).unwrap();
                lemma_exp_set_refines(items[at], context, w);
            }
        },
        RuleModel::Given(item, producer) => {},
    }
}

/// The first turns of a pass leave a context that refines the one that the pass found.
pub proof fn lemma_sweep_refines<P: Producer>(s: Sweep<P>, i: nat)
    requires
        sweep(s, i) is Ok,
    ensures
        refined(sweep(s, i).unwrap().context, s.context),
    decreases i,
{
    lemma_refined_reflexive(s.context);
    if i > 0 {
        lemma_sweep_refines(s, (i - 1) as nat);
        let t = sweep(s, (i - 1) as nat).unwrap();
        let e = t.entries[i - 1];
        if !e.used {
            lemma_rule_refines(e.rule, t.context);
            lemma_refined_transitive(step(t, i - 1).unwrap().context, t.context, s.context);
        }
    }
}

/// The passes of a solver leave a context that refines the one that it started with.
pub proof fn lemma_passes_refine<P: Producer>(s: Solving<P>, n: nat)
    requires
        after(s, n) is Ok,
    ensures
        refined(after(s, n).unwrap().context, s.context),
    decreases n,
{
    lemma_refined_reflexive(s.context);
    if n > 0 {
        lemma_passes_refine(s, (n - 1) as nat);
        let t = after(s, (n - 1) as nat).unwrap();
        if t.changed {
            lemma_sweep_refines(
                Sweep {
                    context: t.context,
                    entries: t.entries,
                    pending: Seq::empty(),
                    changed: false,
                },
                t.entries.len(),
            );
            lemma_refined_transitive(pass(t).unwrap().context, t.context, s.context);
        }
    }
}

/// The solver is monotone: the facts that it returns are as many as it was
/// given, and every component of each of them unifies with the component
/// that was given, to itself. No component is weakened.
pub proof fn lemma_solver_monotone<P: Producer>(
    rules: Seq<RuleModel<P>>,
    context: ContextModel,
    r: Result<ContextModel, Error>,
)
    requires
        solved(rules, context, r),
        r is Ok,
    ensures
        refined(r.unwrap(), context),
{
    let n = choose|n: nat|
        match #[trigger] after(starting(rules, context), n) {
            Err(e) => r == Err::<ContextModel, _>(e),
            Ok(s) => !s.changed && r == Ok::<_, Error>(s.context),
        };
    lemma_passes_refine(starting(rules, context), n);
}

/// Once a pass changes nothing or a rule fails, further passes change nothing.
pub proof fn lemma_passes_settle<P: Producer>(s: Solving<P>, n: nat, m: nat)
    requires
        n <= m,
        match after(s, n) {
            Err(_) => true,
            Ok(t) => !t.changed,
        },
    ensures
        after(s, m) == after(s, n),
    decreases m,
{
    if n < m {
        lemma_passes_settle(s, n, (m - 1) as nat);
    }
}

/// The solver gives one answer: what it returns for given rules and facts
/// is determined by them.
pub proof fn lemma_solved_once<P: Producer>(
    rules: Seq<RuleModel<P>>,
    context: ContextModel,
    first: Result<ContextModel, Error>,
    second: Result<ContextModel, Error>,
)
    requires
        solved(rules, context, first),
        solved(rules, context, second),
    ensures
        first == second,
{
    let s = starting(rules, context);
    let n = choose|n: nat|
        match #[trigger] after(s, n) {
            Err(e) => first == Err::<ContextModel, _>(e),
            Ok(t) => !t.changed && first == Ok::<_, Error>(t.context),
        };
    let m = choose|m: nat|
        match #[trigger] after(s, m) {
            Err(e) => second == Err::<ContextModel, _>(e),
            Ok(t) => !t.changed && second == Ok::<_, Error>(t.context),
        };
    if n <= m {
        lemma_passes_settle(s, n, m);
    } else {
        lemma_passes_settle(s, m, n);
    }
}

} // verus!
