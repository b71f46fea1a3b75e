use tfdeploy::model::{GraphDef, Model, Node, NodeDef, OpBuilder};
use tfdeploy::ops::{Attr, Op, OpBuffer};
use tfdeploy::plan::Plan;
use tfdeploy::tensor::F32;
use tfdeploy::{Error, Tensor};

#[derive(Debug)]
enum TestOp {
    Placeholder,
    Add3,
    Sum,
}

impl Op for TestOp {
    fn eval(&self, inputs: Vec<Tensor>) -> Result<Vec<Tensor>, Error> {
        match self {
            TestOp::Placeholder => Err(Error::Arity),
            TestOp::Add3 => {
                if inputs.len() != 1 {
                    return Err(Error::Arity);
                }
                let a = inputs[0].as_f32s().ok_or(Error::UnsupportedType)?;
                let data: Vec<F32> = a
                    .as_slice()
                    .iter()
                    .map(|x| F32((f32::from_bits(x.0) + 3.0).to_bits()))
                    .collect();
                Ok(vec![Tensor::f32s(a.shape(), &data)?])
            }
            TestOp::Sum => {
                if inputs.len() != 2 {
                    return Err(Error::Arity);
                }
                let a = inputs[0].as_f32s().ok_or(Error::UnsupportedType)?;
                let b = inputs[1].as_f32s().ok_or(Error::UnsupportedType)?;
                let data: Vec<F32> = a
                    .as_slice()
                    .iter()
                    .zip(b.as_slice().iter())
                    .map(|(x, y)| F32((f32::from_bits(x.0) + f32::from_bits(y.0)).to_bits()))
                    .collect();
                Ok(vec![Tensor::f32s(a.shape(), &data)?])
            }
        }
    }

    fn step(
        &self,
        _inputs: Vec<(Option<usize>, Option<Tensor>)>,
        _buffer: &mut OpBuffer,
    ) -> Result<Option<Vec<Tensor>>, Error> {
        no_step()
    }

    fn new_buffer(&self) -> OpBuffer {
        OpBuffer::Empty
    }

    fn get_attributes(&self) -> Vec<(&'static str, Attr)> {
        vec![]
    }
}

fn no_step() -> Result<Option<Vec<Tensor>>, Error> {
    Err(Error::NoStreaming)
}

struct TestBuilder;

impl OpBuilder<TestOp> for TestBuilder {
    fn build(&self, pb: &NodeDef) -> Result<TestOp, Error> {
        match pb.op.as_str() {
            "Placeholder" => Ok(TestOp::Placeholder),
            "Add3" => Ok(TestOp::Add3),
            "Sum" => Ok(TestOp::Sum),
            _ => Err(Error::Attribute),
        }
    }
}

fn node(name: &str, op: &str, input: &[&str]) -> NodeDef {
    NodeDef {
        name: name.to_string(),
        op: op.to_string(),
        input: input.iter().map(|s| s.to_string()).collect(),
        attr: vec![],
    }
}

fn floats(values: &[f32]) -> Tensor {
    let data: Vec<F32> = values.iter().map(|v| F32(v.to_bits())).collect();
    Tensor::f32s(&[values.len()], &data).unwrap()
}

fn plus3() -> Model<TestOp> {
    let graph = GraphDef {
        node: vec![
            node("input", "Placeholder", &[]),
            node("add3", "Add3", &["input"]),
            node("output", "Add3", &["^input", "input:0"]),
        ],
    };
    Model::new(&graph, &TestBuilder).unwrap()
}

#[test]
fn plus3_graph_adds_three() {
    let model = plus3();
    let input = model.node_id_by_name("input").unwrap();
    let target = model.node_id_by_name("add3").unwrap();
    let out = model
        .run(vec![(input, floats(&[1.0, 2.5, 5.0]))], target)
        .unwrap();
    assert_eq!(out, vec![floats(&[4.0, 5.5, 8.0])]);
}

#[test]
fn two_runs_give_the_same_outputs() {
    let model = plus3();
    let first = model.run(vec![(0, floats(&[1.0, 2.5, 5.0]))], 2).unwrap();
    let second = model.run(vec![(0, floats(&[1.0, 2.5, 5.0]))], 2).unwrap();
    assert_eq!(first, second);
    assert_eq!(first, vec![floats(&[4.0, 5.5, 8.0])]);
}

#[test]
fn run_with_names_finds_the_nodes() {
    let model = plus3();
    let out = model
        .run_with_names(vec![("input", floats(&[0.0]))], "output")
        .unwrap();
    assert_eq!(out, vec![floats(&[3.0])]);
    assert_eq!(
        model.run_with_names(vec![("nope", floats(&[0.0]))], "output"),
        Err(Error::UnknownNode)
    );
    assert_eq!(
        model.run_with_names(vec![("input", floats(&[0.0]))], "nope"),
        Err(Error::UnknownNode)
    );
}

#[test]
fn plan_puts_producers_first() {
    let graph = GraphDef {
        node: vec![
            node("a", "Placeholder", &[]),
            node("b", "Placeholder", &[]),
            node("c", "Sum", &["a", "b"]),
            node("d", "Add3", &["c"]),
            node("e", "Sum", &["d", "a"]),
            node("unused", "Add3", &["e"]),
        ],
    };
    let model = Model::new(&graph, &TestBuilder).unwrap();
    let plan = Plan::for_model(&model, &[4]).unwrap();
    let order = plan.order;
    assert_eq!(order.len(), 5);
    for (k, &id) in order.iter().enumerate() {
        for input in &model.get_node_by_id(id).unwrap().inputs {
            let at = order.iter().position(|&x| x == input.0).unwrap();
            assert!(at < k);
        }
    }
    assert!(order.contains(&4));
    assert!(!order.contains(&5));
    assert_eq!(model.plan_for_one(0).unwrap().order, vec![0]);
    assert_eq!(model.get_node_by_id(3).unwrap().eval_order(&model).unwrap(), vec![0, 1, 2, 3]);
}

#[test]
fn unfed_input_fails_the_run() {
    let model = plus3();
    assert_eq!(model.run(vec![], 1), Err(Error::Arity));
}

#[test]
fn unknown_producer_is_rejected() {
    let graph = GraphDef {
        node: vec![node("a", "Add3", &["missing"])],
    };
    assert_eq!(
        Model::new(&graph, &TestBuilder).err(),
        Some(Error::UnknownNode)
    );
    let graph = GraphDef {
        node: vec![node("a", "Add3", &["b"]), node("b", "Placeholder", &[])],
    };
    assert_eq!(
        Model::new(&graph, &TestBuilder).err(),
        Some(Error::UnknownNode)
    );
    let graph = GraphDef {
        node: vec![node("a", "Placeholder", &[]), node("b", "Add3", &["a:x"])],
    };
    assert_eq!(
        Model::new(&graph, &TestBuilder).err(),
        Some(Error::InvalidInput)
    );
    let graph = GraphDef {
        node: vec![node("a", "Mystery", &[])],
    };
    assert_eq!(
        Model::new(&graph, &TestBuilder).err(),
        Some(Error::Attribute)
    );
}

#[test]
fn inputs_are_parsed() {
    let graph = GraphDef {
        node: vec![
            node("a", "Placeholder", &[]),
            node("b", "Sum", &["a:1", "^a", "a", "a:+0"]),
        ],
    };
    let model = Model::new(&graph, &TestBuilder).unwrap();
    let b = model.get_node("b").unwrap();
    assert_eq!(b.inputs, vec![(0, Some(1)), (0, None), (0, Some(0)), (0, Some(0))]);
    assert_eq!(b.id, 1);
    assert_eq!(b.op_name, "Sum");
    assert_eq!(model.node_names(), vec!["a", "b"]);
    assert_eq!(model.nodes().len(), 2);
    assert!(model.get_node("c").is_err());
    assert_eq!(model.get_node_by_id(2).err(), Some(Error::InvalidNode(2)));
}

#[test]
fn unreachable_target_is_reported() {
    let model = plus3();
    assert_eq!(
        Plan::for_model(&model, &[7]).err(),
        Some(Error::UnreachablePlan(7))
    );
    assert_eq!(model.run(vec![], 9), Err(Error::UnreachablePlan(9)));
}

#[test]
fn missing_output_is_an_invalid_reference() {
    let graph = GraphDef {
        node: vec![
            node("a", "Placeholder", &[]),
            node("b", "Add3", &["a:1"]),
        ],
    };
    let model = Model::new(&graph, &TestBuilder).unwrap();
    assert_eq!(
        model.run(vec![(0, floats(&[1.0]))], 1),
        Err(Error::InvalidOutputRef { node: 1, producer: 0 })
    );
}

#[test]
fn state_keeps_and_gives_outputs() {
    let model = plus3();
    let mut state = model.state();
    assert_eq!(state.take(0), Err(Error::NotComputed(0)));
    assert_eq!(state.take(3), Err(Error::InvalidNode(3)));
    assert_eq!(
        state.compute_one(1),
        Err(Error::DependencyMissing { node: 1, producer: 0 })
    );
    state.set_value(0, floats(&[1.0])).unwrap();
    assert_eq!(state.set_value(5, floats(&[1.0])), Err(Error::InvalidNode(5)));
    state.compute_one(1).unwrap();
    assert!(state.is_computed(1));
    assert_eq!(state.take_by_name("add3").unwrap(), vec![floats(&[4.0])]);
    assert!(!state.is_computed(1));
    assert_eq!(state.take_by_name("zzz"), Err(Error::UnknownNode));
    state.reset().unwrap();
    assert!(!state.is_computed(0));
    state.set_values(vec![("input", floats(&[2.0]))]).unwrap();
    assert_eq!(
        state.set_values(vec![("inputs", floats(&[2.0]))]),
        Err(Error::UnknownNode)
    );
    Plan::for_model(&model, &[2]).unwrap().run(&mut state).unwrap();
    assert_eq!(state.take(2).unwrap(), vec![floats(&[5.0])]);
    assert_eq!(state.run(vec![(0, floats(&[1.5]))], 1).unwrap(), vec![floats(&[4.5])]);
    assert_eq!(state.model().nodes().len(), 3);
}

#[test]
fn eval_tree_lists_producers() {
    let graph = GraphDef {
        node: vec![
            node("a", "Placeholder", &[]),
            node("b", "Add3", &["a"]),
            node("c", "Sum", &["b", "a"]),
        ],
    };
    let model = Model::new(&graph, &TestBuilder).unwrap();
    assert_eq!(
        model.get_node("c").unwrap().dump_eval_tree(&model),
        "c\n  b\n    a\n  a\n"
    );
}

fn loose(id: usize, name: &str, inputs: Vec<(usize, Option<usize>)>) -> Node<TestOp> {
    Node {
        id,
        name: name.to_string(),
        op_name: "Add3".to_string(),
        inputs,
        op: TestOp::Add3,
    }
}

#[test]
fn a_cycle_among_the_ancestors_defeats_the_plan() {
    let model = Model {
        nodes: vec![
            loose(0, "a", vec![(2, Some(0))]),
            loose(1, "b", vec![(0, Some(0))]),
            loose(2, "c", vec![(1, Some(0))]),
            loose(3, "free", vec![]),
            loose(4, "after", vec![(3, Some(0)), (1, None)]),
        ],
    };
    assert_eq!(
        Plan::for_model(&model, &[3, 1]).err(),
        Some(Error::UnreachablePlan(1))
    );
    assert_eq!(
        Plan::for_model(&model, &[4]).err(),
        Some(Error::UnreachablePlan(4))
    );
    assert_eq!(Plan::for_model(&model, &[3]).unwrap().order, vec![3]);
    assert_eq!(Plan::for_model(&model, &[]).unwrap().order, Vec::<usize>::new());
    assert_eq!(
        model.run(vec![(0, floats(&[1.0]))], 1),
        Err(Error::UnreachablePlan(1))
    );
}

#[test]
fn an_ancestor_that_is_not_there_defeats_the_plan() {
    let model = Model {
        nodes: vec![
            loose(0, "a", vec![(9, Some(0))]),
            loose(1, "b", vec![(0, Some(0))]),
        ],
    };
    assert_eq!(
        Plan::for_model(&model, &[1]).err(),
        Some(Error::UnreachablePlan(1))
    );
    assert_eq!(
        model.plan_for_one(0).err(),
        Some(Error::UnreachablePlan(0))
    );
}

#[test]
fn a_plan_holds_each_needed_node_once() {
    let model = Model {
        nodes: vec![
            loose(0, "a", vec![]),
            loose(1, "b", vec![(0, Some(0)), (0, Some(0))]),
            loose(2, "c", vec![(0, None), (1, Some(0))]),
            loose(3, "d", vec![(1, Some(0)), (2, Some(0)), (0, Some(0))]),
            loose(4, "other", vec![(0, Some(0))]),
        ],
    };
    assert_eq!(Plan::for_model(&model, &[3, 3, 1]).unwrap().order, vec![0, 1, 2, 3]);
    assert_eq!(Plan::for_model(&model, &[4, 2]).unwrap().order.len(), 4);
}
