//! The solver: it applies rules to a context until a pass over them changes nothing.

use vstd::prelude::*;
use crate::context::{facts_model, Context, ContextModel};
use crate::errors::Error;
use crate::expressions::{Exp, Expression, IntoExpression};
use crate::facts::TensorFact;
use crate::rules::{
    apply_rule, exps_model, rule_model, rules_model, EqualsRule, EqualsZeroRule, GivenRule,
    Producer, Rule, RuleModel,
};

verus! {

/// A rule of a running solver.
pub struct Entry<P> {
    pub rule: RuleModel<P>,
    /// Whether the rule was used; a used rule is not applied again.
    pub used: bool,
    /// How many generations of rules the rule may still add: the rules that
    /// a rule adds have a level that is lower by one.
    pub level: nat,
}

/// The state of a solver between two passes.
pub struct Solving<P> {
    pub context: ContextModel,
    pub entries: Seq<Entry<P>>,
    /// Whether the last pass used a rule or added one.
    pub changed: bool,
}

/// The state of a solver within a pass.
pub struct Sweep<P> {
    pub context: ContextModel,
    pub entries: Seq<Entry<P>>,
    /// The rules that were added in this pass.
    pub pending: Seq<Entry<P>>,
    pub changed: bool,
}

/// The rules of a list as unused rules of one level.
pub open spec fn leveled<P>(rules: Seq<RuleModel<P>>, level: nat) -> Seq<Entry<P>> {
    rules.map_values(|rule: RuleModel<P>| Entry { rule, used: false, level })
}

/// The state within a pass after the rule at position `i` had its turn. A
/// used rule is passed over. A rule that adds rules must have a level above
/// zero (`Overflow`).
pub open spec fn step<P: Producer>(s: Sweep<P>, i: int) -> Result<Sweep<P>, Error> {
    let e = s.entries[i];
    if e.used {
        Ok(s)
    } else {
        match apply_rule(e.rule, s.context) {
            Err(err) => Err(err),
            Ok(a) => if a.added.len() > 0 && e.level == 0 {
                Err(Error::Overflow)
            } else {
                Ok(
                    Sweep {
                        context: a.context,
                        entries: s.entries.update(i, Entry { used: a.used, ..e }),
                        pending: s.pending + leveled(a.added, (e.level - 1) as nat),
                        changed: s.changed || a.used || a.added.len() > 0,
                    },
                )
            },
        }
    }
}

/// The state within a pass after the first `i` rules had their turn.
pub open spec fn sweep<P: Producer>(s: Sweep<P>, i: nat) -> Result<Sweep<P>, Error>
    decreases i,
{
    if i == 0 {
        Ok(s)
    } else {
        match sweep(s, (i - 1) as nat) {
            Err(e) => Err(e),
            Ok(t) => step(t, i - 1),
        }
    }
}

/// The state after one pass: every unused rule had its turn, in the order of
/// the rules, and the rules that were added stand after the others.
pub open spec fn pass<P: Producer>(s: Solving<P>) -> Result<Solving<P>, Error> {
    match sweep(
        Sweep { context: s.context, entries: s.entries, pending: Seq::empty(), changed: false },
        s.entries.len(),
    ) {
        Err(e) => Err(e),
        Ok(t) => Ok(
            Solving { context: t.context, entries: t.entries + t.pending, changed: t.changed },
        ),
    }
}

/// The state after at most `n` passes: the passes end with the first that
/// uses no rule and adds none.
pub open spec fn after<P: Producer>(s: Solving<P>, n: nat) -> Result<Solving<P>, Error>
    decreases n,
{
    if n == 0 {
        Ok(s)
    } else {
        match after(s, (n - 1) as nat) {
            Err(e) => Err(e),
            Ok(t) => if t.changed {
                pass(t)
            } else {
                Ok(t)
            },
        }
    }
}

/// The state in which a solver starts: no rule is used, and every rule has
/// the highest level.
pub open spec fn starting<P>(rules: Seq<RuleModel<P>>, context: ContextModel) -> Solving<P> {
    Solving { context, entries: leveled(rules, usize::MAX as nat), changed: true }
}

/// What the solver returns: the facts of the context after the last pass,
/// or the first error of a rule.
pub open spec fn solved<P: Producer>(
    rules: Seq<RuleModel<P>>,
    context: ContextModel,
    r: Result<ContextModel, Error>,
) -> bool {
    exists|n: nat|
        match #[trigger] after(starting(rules, context), n) {
            Err(e) => r == Err::<ContextModel, _>(e),
            Ok(s) => !s.changed && r == Ok::<_, Error>(s.context),
        }
}

/// What an unused rule of a level weighs in the measure of the work that is
/// left: more than any number of rules of the level below that a machine can hold.
pub open spec fn weight(level: nat) -> nat
    decreases level,
{
    if level == 0 {
        1
    } else {
        0x1_0000_0000_0000_0000 * weight((level - 1) as nat)
    }
}

/// The work that is left: the weights of the unused rules.
#[verifier::opaque]
pub open spec fn work<P>(entries: Seq<Entry<P>>) -> nat
    decreases entries.len(),
{
    if entries.len() == 0 {
        0
    } else {
        work(entries.drop_last()) + if entries.last().used {
            0
        } else {
            weight(entries.last().level)
        }
    }
}

/// A rule weighs something.
pub proof fn lemma_weight_positive(level: nat)
    ensures
        weight(level) >= 1,
    decreases level,
{
    if level > 0 {
        lemma_weight_positive((level - 1) as nat);
        assert(0x1_0000_0000_0000_0000 * weight((level - 1) as nat) >= 1) by (nonlinear_arith)
            requires
                weight((level - 1) as nat) >= 1,
        ;
    }
}

/// No rules are no work.
pub proof fn lemma_work_empty<P>()
    ensures
        work(Seq::<Entry<P>>::empty()) == 0,
{
    reveal(work);
}

/// The work of two lists of rules is the sum of their work.
pub proof fn lemma_work_concat<P>(a: Seq<Entry<P>>, b: Seq<Entry<P>>)
    ensures
        work(a + b) == work(a) + work(b),
    decreases b.len(),
{
    reveal(work);
    if b.len() == 0 {
        assert(a + b =~= a);
    } else {
        assert((a + b).drop_last() =~= a + b.drop_last());
        lemma_work_concat(a, b.drop_last());
    }
}

/// Unused rules of one level weigh as much as one of them times their number.
pub proof fn lemma_work_leveled<P>(rules: Seq<RuleModel<P>>, level: nat)
    ensures
        work(leveled(rules, level)) == rules.len() * weight(level),
    decreases rules.len(),
{
    reveal(work);
    if rules.len() > 0 {
        assert(leveled(rules, level).drop_last() =~= leveled(rules.drop_last(), level));
        lemma_work_leveled(rules.drop_last(), level);
        assert((rules.len() - 1) * weight(level) + weight(level) == rules.len() * weight(level))
            by (nonlinear_arith);
    } else {
        assert(rules.len() * weight(level) == 0) by (nonlinear_arith)
            requires
                rules.len() == 0,
        ;
    }
}

/// The work after one rule of a list was replaced.
pub proof fn lemma_work_update<P>(entries: Seq<Entry<P>>, i: int, e: Entry<P>)
    requires
        0 <= i < entries.len(),
    ensures
        work(entries.update(i, e)) + (if entries[i].used {
            0
        } else {
            weight(entries[i].level)
        }) == work(entries) + (if e.used {
            0
        } else {
            weight(e.level)
        }),
    decreases entries.len(),
{
    reveal(work);
    if i == entries.len() - 1 {
        assert(entries.update(i, e).drop_last() =~= entries.drop_last());
    } else {
        assert(entries.update(i, e).drop_last() =~= entries.drop_last().update(i, e));
        lemma_work_update(entries.drop_last(), i, e);
    }
}

/// A rule that is not used adds no rules.
pub proof fn lemma_unused_adds_nothing<P: Producer>(rule: RuleModel<P>, context: ContextModel)
    requires
        apply_rule(rule, context) is Ok,
        !apply_rule(rule, context).unwrap().used,
    ensures
        apply_rule(rule, context).unwrap().added.len() == 0,
{
    reveal(apply_rule);
}

/// The turn of a rule leaves less work, rules that were added counted in,
/// where it uses the rule, and as much work where it does not.
pub proof fn lemma_step_works<P: Producer>(s: Sweep<P>, i: int, rules: nat)
    requires
        0 <= i < s.entries.len(),
        step(s, i) is Ok,
        !s.entries[i].used ==> apply_rule(s.entries[i].rule, s.context).unwrap().added.len()
            == rules,
        rules <= usize::MAX,
    ensures
        ({
            let t = step(s, i).unwrap();
            &&& t.entries.len() == s.entries.len()
            &&& work(t.entries) + work(t.pending) <= work(s.entries) + work(s.pending)
            &&& t.changed && !s.changed ==> work(t.entries) + work(t.pending) < work(s.entries)
                + work(s.pending)
            &&& !t.changed ==> !s.changed
        }),
{
    let e = s.entries[i];
    if !e.used {
        let a = apply_rule(e.rule, s.context).unwrap();
        let t = step(s, i).unwrap();
        let added = leveled(a.added, (e.level - 1) as nat);
        lemma_work_update(s.entries, i, Entry { used: a.used, ..e });
        lemma_work_concat(s.pending, added);
        lemma_work_leveled(a.added, (e.level - 1) as nat);
        lemma_weight_positive(e.level);
        if a.used {
            if a.added.len() > 0 {
                let below = weight((e.level - 1) as nat);
                lemma_weight_positive((e.level - 1) as nat);
                assert(rules * below < 0x1_0000_0000_0000_0000 * below) by (nonlinear_arith)
                    requires
                        rules <= 0xffff_ffff_ffff_ffff,
                        below >= 1,
                ;
            } else {
                assert(a.added.len() * weight((e.level - 1) as nat) == 0) by (nonlinear_arith)
                    requires
                        a.added.len() == 0,
                ;
            }
        } else {
            lemma_unused_adds_nothing(e.rule, s.context);
            assert(a.added.len() * weight((e.level - 1) as nat) == 0) by (nonlinear_arith)
                requires
                    a.added.len() == 0,
            ;
        }
    }
}

/// Where the turn of a rule fails, the pass fails with the same error.
pub proof fn lemma_sweep_fails<P: Producer>(s: Sweep<P>, i: nat, n: nat)
    requires
        i <= n,
        sweep(s, i) is Err,
    ensures
        sweep(s, n) == sweep(s, i),
    decreases n,
{
    if i < n {
        lemma_sweep_fails(s, i, (n - 1) as nat);
    }
}

/// The rules of a running solver: each with whether it was used, and its level.
pub struct Running<P> {
    rules: Vec<Rule<P>>,
    used: Vec<bool>,
    levels: Vec<usize>,
}

impl<P: Producer> Running<P> {
    /// Whether the three lists hold as many entries as there are rules.
    pub closed spec fn well_formed(&self) -> bool {
        self.rules@.len() == self.used@.len() && self.rules@.len() == self.levels@.len()
    }

    /// The rules, as the solver's model holds them.
    pub closed spec fn entries(&self) -> Seq<Entry<P>> {
        Seq::new(
            self.rules@.len(),
            |i: int|
                Entry {
                    rule: rule_model(self.rules@[i]),
                    used: self.used@[i],
                    level: self.levels@[i] as nat,
                },
        )
    }

    /// No rules.
    fn new() -> (r: Running<P>)
        ensures
            r.well_formed(),
            r.entries() == Seq::<Entry<P>>::empty(),
    {
        let r = Running { rules: Vec::new(), used: Vec::new(), levels: Vec::new() };
        assert(r.entries() =~= Seq::<Entry<P>>::empty());
        r
    }

    /// How many rules there are.
    fn len(&self) -> (n: usize)
        requires
            self.well_formed(),
        ensures
            n == self.entries().len(),
    {
        self.rules.len()
    }

    /// Adds `rules` as unused rules of one level.
    fn extend(&mut self, rules: Vec<Rule<P>>, level: usize)
        requires
            old(self).well_formed(),
        ensures
            final(self).well_formed(),
            final(self).entries() == old(self).entries() + leveled(
                rules_model(rules@),
                level as nat,
            ),
    {
        let ghost before = self.entries();
        let ghost came = rules@;
        let mut rules = rules;
        let k = rules.len();
        let count = self.rules.len();
        self.rules.append(&mut rules);
        let ghost all = self.rules@;
        let mut a: usize = 0;
        while a < k
            invariant
                0 <= a <= k,
                self.rules@ == all,
                self.rules@.len() == count + k,
                self.used@.len() == count + a,
                self.levels@.len() == count + a,
                before.len() == count,
                forall|b: int|
                    0 <= b < count ==> self.used@[b] == before[b].used && self.levels@[b]
                        == before[b].level,
                forall|b: int| count <= b < count + a ==> !self.used@[b] && self.levels@[b] == level,
            decreases k - a,
        {
            self.used.push(false);
            self.levels.push(level);
            a += 1;
        }
        assert(self.entries() =~= before + leveled(rules_model(came), level as nat));
    }

    /// Adds the rules of `other` after the rules that are there.
    fn absorb(&mut self, other: Running<P>)
        requires
            old(self).well_formed(),
            other.well_formed(),
        ensures
            final(self).well_formed(),
            final(self).entries() == old(self).entries() + other.entries(),
    {
        let ghost before = self.entries();
        let ghost came = other.entries();
        let mut other = other;
        self.rules.append(&mut other.rules);
        self.used.append(&mut other.used);
        self.levels.append(&mut other.levels);
        assert(self.entries() =~= before + came);
    }

    /// Gives the rule at position `i` its turn: see `step`.
    fn turn(
        &mut self,
        i: usize,
        context: &mut Context,
        pending: &mut Running<P>,
        changed: &mut bool,
    ) -> (r: Result<(), Error>)
        requires
            old(self).well_formed(),
            old(pending).well_formed(),
            i < old(self).entries().len(),
        ensures
            final(self).well_formed(),
            final(pending).well_formed(),
            match r {
                Ok(()) => step(
                    Sweep {
                        context: old(context)@,
                        entries: old(self).entries(),
                        pending: old(pending).entries(),
                        changed: *old(changed),
                    },
                    i as int,
                ) == Ok::<_, Error>(
                    Sweep {
                        context: final(context)@,
                        entries: final(self).entries(),
                        pending: final(pending).entries(),
                        changed: *final(changed),
                    },
                ),
                Err(e) => step(
                    Sweep {
                        context: old(context)@,
                        entries: old(self).entries(),
                        pending: old(pending).entries(),
                        changed: *old(changed),
                    },
                    i as int,
                ) == Err::<Sweep<P>, _>(e),
            },
            r is Ok ==> final(self).entries().len() == old(self).entries().len() && work(
                final(self).entries(),
            ) + work(final(pending).entries()) <= work(old(self).entries()) + work(
                old(pending).entries(),
            ),
            r is Ok && *final(changed) && !*old(changed) ==> work(final(self).entries()) + work(
                final(pending).entries(),
            ) < work(old(self).entries()) + work(old(pending).entries()),
            r is Ok && !*final(changed) ==> !*old(changed),
    {
        let ghost now = Sweep {
            context: context@,
            entries: self.entries(),
            pending: pending.entries(),
            changed: *changed,
        };
        if self.used[i] {
            proof {
                lemma_step_works(now, i as int, 0);
            }
            return Ok(());
        }
        let (u, added) = self.rules[i].apply(context)?;
        let k = added.len();
        let level = self.levels[i];
        if k > 0 && level == 0 {
            return Err(Error::Overflow);
        }
        proof {
            lemma_step_works(now, i as int, k as nat);
        }
        let ghost before = self.entries();
        self.used.set(i, u);
        assert(self.entries() =~= before.update(i as int, Entry { used: u, ..before[i as int] }));
        *changed = *changed || u || k > 0;
        if k > 0 {
            pending.extend(added, level - 1);
        } else {
            assert(pending.entries() + leveled(rules_model(added@), (level - 1) as nat)
                =~= pending.entries());
        }
        Ok(())
    }

    /// Gives every rule its turn, in the order of the rules, and adds the
    /// rules that came up: see `pass`. The result says whether a rule was
    /// used or added.
    fn pass(&mut self, context: &mut Context) -> (r: Result<bool, Error>)
        requires
            old(self).well_formed(),
        ensures
            final(self).well_formed(),
            match r {
                Ok(changed) => pass(
                    Solving {
                        context: old(context)@,
                        entries: old(self).entries(),
                        changed: true,
                    },
                ) == Ok::<_, Error>(
                    Solving { context: final(context)@, entries: final(self).entries(), changed },
                ),
                Err(e) => pass(
                    Solving {
                        context: old(context)@,
                        entries: old(self).entries(),
                        changed: true,
                    },
                ) == Err::<Solving<P>, _>(e),
            },
            r == Ok::<_, Error>(true) ==> work(final(self).entries()) < work(old(self).entries()),
    {
        let ghost first = Sweep {
            context: context@,
            entries: self.entries(),
            pending: Seq::<Entry<P>>::empty(),
            changed: false,
        };
        let mut pending: Running<P> = Running::new();
        let mut changed = false;
        let count = self.len();
        let mut i: usize = 0;
        proof {
            lemma_work_empty::<P>();
        }
        while i < count
            invariant
                0 <= i <= count,
                self.well_formed(),
                pending.well_formed(),
                first.context == old(context)@,
                first.entries == old(self).entries(),
                count == self.entries().len(),
                count == first.entries.len(),
                first.pending == Seq::<Entry<P>>::empty(),
                !first.changed,
                sweep(first, i as nat) == Ok::<_, Error>(
                    Sweep {
                        context: context@,
                        entries: self.entries(),
                        pending: pending.entries(),
                        changed,
                    },
                ),
                work(self.entries()) + work(pending.entries()) <= work(first.entries),
                changed ==> work(self.entries()) + work(pending.entries()) < work(first.entries),
            decreases count - i,
        {
            match self.turn(i, context, &mut pending, &mut changed) {
                Ok(()) => {},
                Err(e) => {
                    proof {
                        assert(sweep(first, (i + 1) as nat) == Err::<Sweep<P>, _>(e));
                        lemma_sweep_fails(first, (i + 1) as nat, count as nat);
                    }
                    return Err(e);
                },
            }
            i += 1;
        }
        proof {
            lemma_work_concat(self.entries(), pending.entries());
        }
        self.absorb(pending);
        Ok(changed)
    }
}

/// The facts of a context, as a context.
pub open spec fn context_of(inputs: Seq<TensorFact>, outputs: Seq<TensorFact>) -> ContextModel {
    ContextModel { inputs: facts_model(inputs), outputs: facts_model(outputs) }
}

/// The model of what the solver returned.
pub open spec fn inferred(r: Result<(Vec<TensorFact>, Vec<TensorFact>), Error>) -> Result<
    ContextModel,
    Error,
> {
    match r {
        Ok((inputs, outputs)) => Ok(context_of(inputs@, outputs@)),
        Err(e) => Err(e),
    }
}

/// A solver: a list of rules.
#[derive(Debug)]
pub struct Solver<P> {
    pub rules: Vec<Rule<P>>,
}

impl<P: Producer> Solver<P> {
    /// A solver without rules.
    pub fn new() -> (r: Solver<P>)
        ensures
            r.rules@.len() == 0,
    {
        Solver { rules: Vec::new() }
    }

    /// The rules of the solver.
    pub fn take_rules(self) -> (r: Vec<Rule<P>>)
        ensures
            r == self.rules,
    {
        self.rules
    }

    /// Adds the rule that two expressions are equal.
    pub fn equals<EA, EB, A, B>(&mut self, left: A, right: B) where
        EA: Expression,
        EB: Expression,
        A: IntoExpression<EA>,
        B: IntoExpression<EB>,

        ensures
            rules_model(final(self).rules@) == rules_model(old(self).rules@).push(
                RuleModel::Equals(seq![left.expr(), right.expr()]),
            ),
    {
        let mut items: Vec<Exp> = Vec::new();
        items.push(left.into_expr().boxed());
        items.push(right.into_expr().boxed());
        assert(exps_model(items@) =~= seq![left.expr(), right.expr()]);
        self.equals_all(items);
    }

    /// Adds the rule that `closure` gives more rules once `item` is fully known.
    pub fn given<E, A>(&mut self, item: A, closure: P) where E: Expression, A: IntoExpression<E>
        ensures
            rules_model(final(self).rules@) == rules_model(old(self).rules@).push(
                RuleModel::Given(item.expr(), closure),
            ),
    {
        let ghost before = self.rules@;
        self.rules.push(Rule::Given(GivenRule::new(item.into_expr().boxed(), closure)));
        assert(rules_model(self.rules@) =~= rules_model(before).push(
            RuleModel::Given(item.expr(), closure),
        ));
    }

    /// Adds the rule that the expressions of a list are equal.
    pub fn equals_all(&mut self, items: Vec<Exp>)
        ensures
            rules_model(final(self).rules@) == rules_model(old(self).rules@).push(
                RuleModel::Equals(exps_model(items@)),
            ),
    {
        let ghost before = self.rules@;
        self.rules.push(Rule::Equals(EqualsRule::new(items)));
        assert(rules_model(self.rules@) =~= rules_model(before).push(
            RuleModel::Equals(exps_model(items@)),
        ));
    }

    /// Adds the rule that the expressions of a list sum to zero.
    pub fn equals_zero(&mut self, items: Vec<Exp>)
        ensures
            rules_model(final(self).rules@) == rules_model(old(self).rules@).push(
                RuleModel::EqualsZero(exps_model(items@)),
            ),
    {
        let ghost before = self.rules@;
        self.rules.push(Rule::EqualsZero(EqualsZeroRule::new(items)));
        assert(rules_model(self.rules@) =~= rules_model(before).push(
            RuleModel::EqualsZero(exps_model(items@)),
        ));
    }

    /// Runs the solver on the facts of the inputs and of the outputs of an
    /// operator: see `solved`.
    pub fn infer(self, facts: (Vec<TensorFact>, Vec<TensorFact>)) -> (r: Result<
        (Vec<TensorFact>, Vec<TensorFact>),
        Error,
    >)
        ensures
            solved(rules_model(self.rules@), context_of(facts.0@, facts.1@), inferred(r)),
    {
        let ghost start = starting(rules_model(self.rules@), context_of(facts.0@, facts.1@));
        let mut context = Context::new(facts.0, facts.1);
        let mut running: Running<P> = Running::new();
        assert(Seq::<Entry<P>>::empty() + start.entries =~= start.entries);
        running.extend(self.rules, usize::MAX);
        let ghost mut n: nat = 0;
        loop
            invariant_except_break
                after(start, n) == Ok::<_, Error>(
                    Solving { context: context@, entries: running.entries(), changed: true },
                ),
            invariant
                running.well_formed(),
                start == starting(rules_model(self.rules@), context_of(facts.0@, facts.1@)),
            ensures
                after(start, n) == Ok::<_, Error>(
                    Solving { context: context@, entries: running.entries(), changed: false },
                ),
            decreases work(running.entries()),
        {
            let changed = match running.pass(&mut context) {
                Ok(changed) => changed,
                Err(e) => {
                    assert(after(start, n + 1) == Err::<Solving<P>, _>(e));
                    return Err(e);
                },
            };
            proof {
                assert(after(start, n + 1) == Ok::<_, Error>(
                    Solving { context: context@, entries: running.entries(), changed },
                ));
                n = n + 1;
            }
            if !changed {
                break ;
            }
        }
        Ok((context.inputs, context.outputs))
    }
}

} // verus!
