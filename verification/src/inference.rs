//! The rules by which the operators of this library relate the facts of
//! their inputs and outputs.

use vstd::prelude::*;
use crate::expressions::{
    ConstantExpression, Exp, ExpModel, VariableExpression, Wrapped, WrappedModel,
};
use crate::facts::{IntFact, TypeFact};
use crate::pack::Pack;
use crate::pad::Pad;
use crate::path::Path;
use crate::proxies::{ComparableProxy, TensorsProxy};
use crate::rules::{
    exps_model, rule_model, rules_model, EqualsRule, EqualsZeroRule, GivenRule, Producer, Rule,
    RuleModel,
};
use crate::solver::Solver;
use crate::tensor::{DataType, Datum};

verus! {

/// What gives the rules that an operator adds once a rank is known.
#[derive(Debug)]
pub enum Spawn {
    /// For packing: each dimension is the same in all of the `n` inputs.
    PackInputs { n: usize, inputs: Path },
    /// For packing: the dimensions of the output are those of the first
    /// input, but for the one at `axis`.
    PackOutput { axis: usize, inputs: Path, outputs: Path },
    /// For padding: each dimension of the output is that of the input and
    /// the paddings before and after it.
    PadDims { inputs: Path, outputs: Path },
}

/// The mathematical value of a `Spawn`.
pub enum SpawnModel {
    PackInputs { n: usize, inputs: Seq<isize> },
    PackOutput { axis: usize, inputs: Seq<isize>, outputs: Seq<isize> },
    PadDims { inputs: Seq<isize>, outputs: Seq<isize> },
}

impl View for Spawn {
    type V = SpawnModel;

    open spec fn view(&self) -> SpawnModel {
        match *self {
            Spawn::PackInputs { n, inputs } => SpawnModel::PackInputs { n, inputs: inputs@ },
            Spawn::PackOutput { axis, inputs, outputs } => SpawnModel::PackOutput {
                axis,
                inputs: inputs@,
                outputs: outputs@,
            },
            Spawn::PadDims { inputs, outputs } => SpawnModel::PadDims {
                inputs: inputs@,
                outputs: outputs@,
            },
        }
    }
}

/// The expression that stands for a number.
pub open spec fn number(k: int) -> ExpModel {
    ExpModel::Constant(WrappedModel::Int(IntFact::Only(k as i64)))
}

/// The expression that stands for `k` times an expression.
pub open spec fn times(k: int, e: ExpModel) -> ExpModel {
    ExpModel::Product(k, Box::new(e))
}

/// The path of the number of the tensors at `tensors`.
pub open spec fn len_path(tensors: Seq<isize>) -> Seq<isize> {
    tensors.push(-1isize)
}

/// The path of the datatype of the tensor `i` of those at `tensors`.
pub open spec fn type_path(tensors: Seq<isize>, i: int) -> Seq<isize> {
    tensors.push(i as isize).push(0isize)
}

/// The path of the rank of the tensor `i` of those at `tensors`.
pub open spec fn rank_path(tensors: Seq<isize>, i: int) -> Seq<isize> {
    tensors.push(i as isize).push(1isize)
}

/// The path of the dimension `d` of the tensor `i` of those at `tensors`.
pub open spec fn dim_path(tensors: Seq<isize>, i: int, d: int) -> Seq<isize> {
    tensors.push(i as isize).push(2isize).push(d as isize)
}

/// The path of the element at `[d, k]` of the value of the tensor `i` of those at `tensors`.
pub open spec fn element_path(tensors: Seq<isize>, i: int, d: int, k: int) -> Seq<isize> {
    tensors.push(i as isize).push(3isize).push(d as isize).push(k as isize)
}

/// The rank that a fact gives, where it is a known integer that can be the
/// index of a dimension.
pub open spec fn rank_of(value: WrappedModel) -> Option<usize> {
    match value {
        WrappedModel::Int(IntFact::Only(k)) => if 0 <= k <= isize::MAX {
            Some(k as usize)
        } else {
            None
        },
        _ => None,
    }
}

/// The rule that the dimension `d` is the same in the first `n` tensors at `inputs`.
pub open spec fn same_dim<P>(n: usize, inputs: Seq<isize>, d: int) -> RuleModel<P> {
    RuleModel::Equals(Seq::new(n as nat, |i: int| ExpModel::Variable(dim_path(inputs, i, d))))
}

/// The rule that the dimension `to` of the first tensor at `outputs` is the
/// dimension `from` of the first tensor at `inputs`.
pub open spec fn dim_kept<P>(outputs: Seq<isize>, to: int, inputs: Seq<isize>, from: int) -> RuleModel<
    P,
> {
    RuleModel::Equals(
        seq![
            ExpModel::Variable(dim_path(outputs, 0, to)),
            ExpModel::Variable(dim_path(inputs, 0, from)),
        ],
    )
}

/// The rule that the dimension `d` of the output of a padding is that of
/// its input and the paddings before and after it.
pub open spec fn dim_padded<P>(inputs: Seq<isize>, outputs: Seq<isize>, d: int) -> RuleModel<P> {
    RuleModel::EqualsZero(
        seq![
            times(-1, ExpModel::Variable(dim_path(outputs, 0, d))),
            times(1, ExpModel::Variable(dim_path(inputs, 0, d))),
            times(1, ExpModel::Variable(element_path(inputs, 1, d, 0))),
            times(1, ExpModel::Variable(element_path(inputs, 1, d, 1))),
        ],
    )
}

/// The rules that a `Spawn` gives for a rank `r`.
pub open spec fn spawned<P>(spawn: SpawnModel, r: usize) -> Seq<RuleModel<P>> {
    match spawn {
        SpawnModel::PackInputs { n, inputs } => if n <= isize::MAX {
            Seq::new(r as nat, |d: int| same_dim(n, inputs, d))
        } else {
            Seq::empty()
        },
        SpawnModel::PackOutput { axis, inputs, outputs } => if axis < isize::MAX {
            Seq::new(axis as nat, |d: int| dim_kept(outputs, d, inputs, d)) + if r > 0 && axis < r
                - 1 {
                Seq::new(
                    (r - 1 - axis) as nat,
                    |j: int| dim_kept(outputs, axis + j + 1, inputs, axis + j),
                )
            } else {
                Seq::empty()
            }
        } else {
            Seq::empty()
        },
        SpawnModel::PadDims { inputs, outputs } => Seq::new(
            r as nat,
            |d: int| dim_padded(inputs, outputs, d),
        ),
    }
}

/// The expression that reads the fact at a path.
fn variable(path: &Path) -> (e: Exp)
    ensures
        e@ == ExpModel::Variable(path@),
{
    Exp::Variable(VariableExpression(path.duplicate()))
}

/// The expression that stands for a number.
fn constant(k: isize) -> (e: Exp)
    ensures
        e@ == number(k as int),
{
    Exp::Constant(ConstantExpression(Wrapped::Int(IntFact::Only(k as i64))))
}

/// The expression that stands for `k` times an expression.
fn scaled(k: i64, e: Exp) -> (r: Exp)
    ensures
        r@ == times(k as int, e@),
{
    Exp::Product(k, Box::new(e))
}

/// The rank that a fact gives.
fn rank(value: &Wrapped) -> (r: Option<usize>)
    ensures
        r == rank_of(value@),
{
    match value {
        Wrapped::Int(IntFact::Only(k)) => if 0 <= *k && *k <= isize::MAX as i64 {
            Some(*k as usize)
        } else {
            None
        },
        _ => None,
    }
}

/// The proxy of the tensors at a path.
fn tensors(path: &Path) -> (r: TensorsProxy)
    ensures
        r.path_spec() == path@,
        r.len.path_spec() == len_path(path@),
{
    TensorsProxy::new(path.duplicate().0)
}

/// The rule that the dimension `d` is the same in the first `n` tensors.
fn same_dim_rule(n: usize, inputs: &TensorsProxy, d: usize) -> (r: Rule<Spawn>)
    requires
        n <= isize::MAX,
        d <= isize::MAX,
    ensures
        rule_model(r) == same_dim::<Spawn>(n, inputs.path_spec(), d as int),
{
    let mut items: Vec<Exp> = Vec::new();
    let mut i: usize = 0;
    while i < n
        invariant
            0 <= i <= n <= isize::MAX,
            d <= isize::MAX,
            items@.len() == i,
            forall|j: int|
                0 <= j < i ==> (#[trigger] items@[j])@ == ExpModel::Variable(
                    dim_path(inputs.path_spec(), j, d as int),
                ),
        decreases n - i,
    {
        items.push(variable(inputs.at(i).shape.dim(d).get_path()));
        i += 1;
    }
    assert(exps_model(items@) =~= Seq::new(
        n as nat,
        |i: int| ExpModel::Variable(dim_path(inputs.path_spec(), i, d as int)),
    ));
    Rule::Equals(EqualsRule::new(items))
}

/// The rule that a dimension of the first output is one of the first input.
fn dim_kept_rule(outputs: &TensorsProxy, to: usize, inputs: &TensorsProxy, from: usize) -> (r: Rule<
    Spawn,
>)
    requires
        to <= isize::MAX,
        from <= isize::MAX,
    ensures
        rule_model(r) == dim_kept::<Spawn>(
            outputs.path_spec(),
            to as int,
            inputs.path_spec(),
            from as int,
        ),
{
    let mut items: Vec<Exp> = Vec::new();
    items.push(variable(outputs.at(0).shape.dim(to).get_path()));
    items.push(variable(inputs.at(0).shape.dim(from).get_path()));
    assert(exps_model(items@) =~= seq![
        ExpModel::Variable(dim_path(outputs.path_spec(), 0, to as int)),
        ExpModel::Variable(dim_path(inputs.path_spec(), 0, from as int)),
    ]);
    Rule::Equals(EqualsRule::new(items))
}

/// The rule that a dimension of the output of a padding is that of its
/// input and its paddings.
fn dim_padded_rule(inputs: &TensorsProxy, outputs: &TensorsProxy, d: usize) -> (r: Rule<Spawn>)
    requires
        d <= isize::MAX,
    ensures
        rule_model(r) == dim_padded::<Spawn>(inputs.path_spec(), outputs.path_spec(), d as int),
{
    let paddings = inputs.at(1).value.at(d);
    let mut items: Vec<Exp> = Vec::new();
    items.push(scaled(-1, variable(outputs.at(0).shape.dim(d).get_path())));
    items.push(scaled(1, variable(inputs.at(0).shape.dim(d).get_path())));
    items.push(scaled(1, variable(paddings.at(0).get_path())));
    items.push(scaled(1, variable(paddings.at(1).get_path())));
    assert(exps_model(items@) =~= seq![
        times(-1, ExpModel::Variable(dim_path(outputs.path_spec(), 0, d as int))),
        times(1, ExpModel::Variable(dim_path(inputs.path_spec(), 0, d as int))),
        times(1, ExpModel::Variable(element_path(inputs.path_spec(), 1, d as int, 0))),
        times(1, ExpModel::Variable(element_path(inputs.path_spec(), 1, d as int, 1))),
    ]);
    Rule::EqualsZero(EqualsZeroRule::new(items))
}

impl Producer for Spawn {
    open spec fn produced(&self, value: WrappedModel) -> Seq<RuleModel<Spawn>> {
        match rank_of(value) {
            None => Seq::empty(),
            Some(r) => spawned(self@, r),
        }
    }

    fn produce(&self, value: &Wrapped) -> (rules: Vec<Rule<Spawn>>) {
        let mut rules: Vec<Rule<Spawn>> = Vec::new();
        let r = match rank(value) {
            Some(r) => r,
            None => {
                assert(rules_model(rules@) =~= Seq::<RuleModel<Spawn>>::empty());
                return rules;
            },
        };
        match self {
            Spawn::PackInputs { n, inputs } => {
                if *n > isize::MAX as usize {
                    assert(rules_model(rules@) =~= Seq::<RuleModel<Spawn>>::empty());
                    return rules;
                }
                let inputs = tensors(inputs);
                let mut d: usize = 0;
                while d < r
                    invariant
                        0 <= d <= r <= isize::MAX,
                        *n <= isize::MAX,
                        rules@.len() == d,
                        forall|j: int|
                            0 <= j < d ==> rule_model(#[trigger] rules@[j]) == same_dim::<Spawn>(
                                *n,
                                inputs.path_spec(),
                                j,
                            ),
                    decreases r - d,
                {
                    rules.push(same_dim_rule(*n, &inputs, d));
                    d += 1;
                }
                assert(rules_model(rules@) =~= spawned::<Spawn>(self@, r));
            },
            Spawn::PackOutput { axis, inputs, outputs } => {
                if *axis >= isize::MAX as usize {
                    assert(rules_model(rules@) =~= Seq::<RuleModel<Spawn>>::empty());
                    return rules;
                }
                let inputs = tensors(inputs);
                let outputs = tensors(outputs);
                let mut d: usize = 0;
                while d < *axis
                    invariant
                        0 <= d <= *axis < isize::MAX,
                        rules@.len() == d,
                        forall|j: int|
                            0 <= j < d ==> rule_model(#[trigger] rules@[j]) == dim_kept::<Spawn>(
                                outputs.path_spec(),
                                j,
                                inputs.path_spec(),
                                j,
                            ),
                    decreases *axis - d,
                {
                    rules.push(dim_kept_rule(&outputs, d, &inputs, d));
                    d += 1;
                }
                if r > 0 {
                    let mut d: usize = *axis;
                    while d < r - 1
                        invariant
                            *axis <= d,
                            *axis < isize::MAX,
                            0 < r <= isize::MAX,
                            d <= r - 1 || d == *axis,
                            rules@.len() == *axis + (d - *axis),
                            forall|j: int|
                                0 <= j < *axis ==> rule_model(#[trigger] rules@[j]) == dim_kept::<
                                    Spawn,
                                >(outputs.path_spec(), j, inputs.path_spec(), j),
                            forall|j: int|
                                0 <= j < d - *axis ==> rule_model(#[trigger] rules@[*axis + j])
                                    == dim_kept::<Spawn>(
                                    outputs.path_spec(),
                                    *axis + j + 1,
                                    inputs.path_spec(),
                                    *axis + j,
                                ),
                        decreases r - 1 - d,
                    {
                        rules.push(dim_kept_rule(&outputs, d + 1, &inputs, d));
                        d += 1;
                    }
                }
                assert(rules_model(rules@) =~= spawned::<Spawn>(self@, r));
            },
            Spawn::PadDims { inputs, outputs } => {
                let inputs = tensors(inputs);
                let outputs = tensors(outputs);
                let mut d: usize = 0;
                while d < r
                    invariant
                        0 <= d <= r <= isize::MAX,
                        rules@.len() == d,
                        forall|j: int|
                            0 <= j < d ==> rule_model(#[trigger] rules@[j]) == dim_padded::<Spawn>(
                                inputs.path_spec(),
                                outputs.path_spec(),
                                j,
                            ),
                    decreases r - d,
                {
                    rules.push(dim_padded_rule(&inputs, &outputs, d));
                    d += 1;
                }
                assert(rules_model(rules@) =~= spawned::<Spawn>(self@, r));
            },
        }
        rules
    }
}

/// A rule as its mathematical value, with the value of what it spawns.
pub open spec fn rule_view(rule: RuleModel<Spawn>) -> RuleModel<SpawnModel> {
    match rule {
        RuleModel::Equals(items) => RuleModel::Equals(items),
        RuleModel::EqualsZero(items) => RuleModel::EqualsZero(items),
        RuleModel::Given(item, spawn) => RuleModel::Given(item, spawn@),
    }
}

/// The rules of a solver as their mathematical values.
pub open spec fn rule_views(rules: Seq<Rule<Spawn>>) -> Seq<RuleModel<SpawnModel>> {
    rules.map_values(|r: Rule<Spawn>| rule_view(rule_model(r)))
}

/// The rules of packing `n` inputs along a new axis `axis`: there are `n`
/// inputs and one output; the inputs have one rank, and the output has one
/// more; once that rank is known, each dimension is the same in all inputs,
/// and the dimensions of the output are those of the first input; and the
/// dimension of the output at `axis` is `n`.
pub open spec fn pack_rules(n: usize, axis: usize, inputs: Seq<isize>, outputs: Seq<isize>) -> Seq<
    RuleModel<SpawnModel>,
> {
    seq![
        RuleModel::Equals(seq![ExpModel::Variable(len_path(inputs)), number(n as int)]),
        RuleModel::Equals(seq![ExpModel::Variable(len_path(outputs)), number(1)]),
        RuleModel::Equals(
            Seq::new(n as nat, |i: int| ExpModel::Variable(rank_path(inputs, i))),
        ),
        RuleModel::EqualsZero(
            seq![
                times(-1, ExpModel::Variable(rank_path(outputs, 0))),
                times(1, number(1)),
                times(1, ExpModel::Variable(rank_path(inputs, 0))),
            ],
        ),
        RuleModel::Given(
            ExpModel::Variable(rank_path(inputs, 0)),
            SpawnModel::PackInputs { n, inputs },
        ),
        RuleModel::Given(
            ExpModel::Variable(rank_path(inputs, 0)),
            SpawnModel::PackOutput { axis, inputs, outputs },
        ),
        RuleModel::Equals(seq![ExpModel::Variable(dim_path(outputs, 0, axis as int)), number(n as int)]),
    ]
}

/// The rules of padding: there are two inputs and one output; the output has
/// the datatype and the rank of the first input; the second input holds
/// 32-bit integers, in as many rows as the first has dimensions and in two
/// columns; and once the rank is known, each dimension of the output is that
/// of the input and the paddings before and after it.
pub open spec fn pad_rules(inputs: Seq<isize>, outputs: Seq<isize>) -> Seq<RuleModel<SpawnModel>> {
    seq![
        RuleModel::Equals(seq![ExpModel::Variable(len_path(inputs)), number(2)]),
        RuleModel::Equals(seq![ExpModel::Variable(len_path(outputs)), number(1)]),
        RuleModel::Equals(
            seq![
                ExpModel::Variable(type_path(outputs, 0)),
                ExpModel::Variable(type_path(inputs, 0)),
            ],
        ),
        RuleModel::Equals(
            seq![
                ExpModel::Variable(type_path(inputs, 1)),
                ExpModel::Constant(WrappedModel::Type(TypeFact::Only(DataType::I32))),
            ],
        ),
        RuleModel::Equals(
            seq![
                ExpModel::Variable(rank_path(inputs, 0)),
                ExpModel::Variable(rank_path(outputs, 0)),
            ],
        ),
        RuleModel::Equals(seq![ExpModel::Variable(rank_path(inputs, 1)), number(2)]),
        RuleModel::Equals(
            seq![
                ExpModel::Variable(dim_path(inputs, 1, 0)),
                ExpModel::Variable(rank_path(inputs, 0)),
            ],
        ),
        RuleModel::Equals(seq![ExpModel::Variable(dim_path(inputs, 1, 1)), number(2)]),
        RuleModel::Given(
            ExpModel::Variable(rank_path(inputs, 0)),
            SpawnModel::PadDims { inputs, outputs },
        ),
    ]
}

/// Adds a rule to a solver.
fn install(solver: &mut Solver<Spawn>, rule: Rule<Spawn>)
    ensures
        rule_views(final(solver).rules@) == rule_views(old(solver).rules@).push(
            rule_view(rule_model(rule)),
        ),
{
    solver.rules.push(rule);
    assert(rule_views(solver.rules@) =~= rule_views(old(solver).rules@).push(
        rule_view(rule_model(rule)),
    ));
}

/// The rule that two expressions are equal.
fn equal(left: Exp, right: Exp) -> (r: Rule<Spawn>)
    ensures
        rule_model(r) == RuleModel::<Spawn>::Equals(seq![left@, right@]),
{
    let mut items: Vec<Exp> = Vec::new();
    items.push(left);
    items.push(right);
    assert(exps_model(items@) =~= seq![left@, right@]);
    Rule::Equals(EqualsRule::new(items))
}

impl<T: Datum> Pack<T> {
    /// Adds the rules of the operator to a solver: see `pack_rules`.
    pub fn rules(&self, solver: &mut Solver<Spawn>, inputs: &TensorsProxy, outputs: &TensorsProxy)
        requires
            self.n <= isize::MAX,
            self.axis <= isize::MAX,
        ensures
            rule_views(final(solver).rules@) == rule_views(old(solver).rules@) + pack_rules(
                self.n,
                self.axis,
                inputs.path_spec(),
                outputs.path_spec(),
            ),
    {
        let output = outputs.at(0);
        let first = inputs.at(0);
        let n = self.n;
        install(solver, equal(variable(tensors(&inputs.path).len.get_path()), constant(n as isize)));
        install(solver, equal(variable(tensors(&outputs.path).len.get_path()), constant(1)));
        let mut ranks: Vec<Exp> = Vec::new();
        let mut i: usize = 0;
        while i < n
            invariant
                0 <= i <= n <= isize::MAX,
                ranks@.len() == i,
                forall|j: int|
                    0 <= j < i ==> (#[trigger] ranks@[j])@ == ExpModel::Variable(
                        rank_path(inputs.path_spec(), j),
                    ),
            decreases n - i,
        {
            ranks.push(variable(inputs.at(i).rank.get_path()));
            i += 1;
        }
        assert(exps_model(ranks@) =~= Seq::new(
            n as nat,
            |i: int| ExpModel::Variable(rank_path(inputs.path_spec(), i)),
        ));
        install(solver, Rule::Equals(EqualsRule::new(ranks)));
        let mut sum: Vec<Exp> = Vec::new();
        sum.push(scaled(-1, variable(output.rank.get_path())));
        sum.push(scaled(1, constant(1)));
        sum.push(scaled(1, variable(first.rank.get_path())));
        assert(exps_model(sum@) =~= seq![
            times(-1, ExpModel::Variable(rank_path(outputs.path_spec(), 0))),
            times(1, number(1)),
            times(1, ExpModel::Variable(rank_path(inputs.path_spec(), 0))),
        ]);
        install(solver, Rule::EqualsZero(EqualsZeroRule::new(sum)));
        install(
            solver,
            Rule::Given(
                GivenRule::new(
                    variable(first.rank.get_path()),
                    Spawn::PackInputs { n, inputs: inputs.path.duplicate() },
                ),
            ),
        );
        install(
            solver,
            Rule::Given(
                GivenRule::new(
                    variable(first.rank.get_path()),
                    Spawn::PackOutput {
                        axis: self.axis,
                        inputs: inputs.path.duplicate(),
                        outputs: outputs.path.duplicate(),
                    },
                ),
            ),
        );
        install(solver, equal(variable(output.shape.dim(self.axis).get_path()), constant(n as isize)));
        assert(rule_views(solver.rules@) =~= rule_views(old(solver).rules@) + pack_rules(
            self.n,
            self.axis,
            inputs.path_spec(),
            outputs.path_spec(),
        ));
    }
}

impl<T: Datum> Pad<T> {
    /// Adds the rules of the operator to a solver: see `pad_rules`.
    pub fn rules(&self, solver: &mut Solver<Spawn>, inputs: &TensorsProxy, outputs: &TensorsProxy)
        ensures
            rule_views(final(solver).rules@) == rule_views(old(solver).rules@) + pad_rules(
                inputs.path_spec(),
                outputs.path_spec(),
            ),
    {
        let input = inputs.at(0);
        let padding = inputs.at(1);
        let output = outputs.at(0);
        install(solver, equal(variable(tensors(&inputs.path).len.get_path()), constant(2)));
        install(solver, equal(variable(tensors(&outputs.path).len.get_path()), constant(1)));
        install(solver, equal(variable(output.datatype.get_path()), variable(input.datatype.get_path())));
        install(
            solver,
            equal(
                variable(padding.datatype.get_path()),
                Exp::Constant(ConstantExpression(Wrapped::Type(TypeFact::Only(DataType::I32)))),
            ),
        );
        install(solver, equal(variable(input.rank.get_path()), variable(output.rank.get_path())));
        install(solver, equal(variable(padding.rank.get_path()), constant(2)));
        install(solver, equal(variable(padding.shape.dim(0).get_path()), variable(input.rank.get_path())));
        install(solver, equal(variable(padding.shape.dim(1).get_path()), constant(2)));
        install(
            solver,
            Rule::Given(
                GivenRule::new(
                    variable(input.rank.get_path()),
                    Spawn::PadDims {
                        inputs: inputs.path.duplicate(),
                        outputs: outputs.path.duplicate(),
                    },
                ),
            ),
        );
        assert(rule_views(solver.rules@) =~= rule_views(old(solver).rules@) + pad_rules(
            inputs.path_spec(),
            outputs.path_spec(),
        ));
    }
}

} // verus!
